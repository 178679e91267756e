use vstd::prelude::*;
use vstd::string::*;
use crate::ansi::{strip_ansi, visible_length, lemma_strip_shorter};
use crate::icon::views_of;

verus! {

/// Blank columns between two cells.
pub const COLUMN_GAP: usize = 2;

pub open spec fn ceil_div(n: nat, d: nat) -> nat {
    if n % d == 0 {
        n / d
    } else {
        n / d + 1
    }
}

/// `(rows, cols)` of the grid for `n` cells of `col_width` in `term_width`.
/// Columns are counted by floor division; a grid one row tall is turned into
/// one cell per row.
pub open spec fn shape(n: nat, col_width: nat, term_width: nat) -> (nat, nat) {
    let cols: nat = if term_width / col_width >= 1 { term_width / col_width } else { 1 };
    let rows: nat = if ceil_div(n, cols) >= 1 { ceil_div(n, cols) } else { 1 };
    if rows == 1 {
        (n, 1)
    } else {
        (rows, cols)
    }
}

/// The cell at `(row, col)` holds the line of index `col * rows + row`.
pub open spec fn cell_index(rows: nat, row: nat, col: nat) -> nat {
    col * rows + row
}

pub open spec fn spaces(k: nat) -> Seq<char> {
    Seq::new(k, |_i: int| ' ')
}

pub open spec fn cell_text(lines: Seq<Seq<char>>, rows: nat, col_width: nat, row: nat, col: nat) -> Seq<char> {
    let idx = cell_index(rows, row, col);
    if idx < lines.len() {
        lines[idx as int] + spaces((col_width - strip_ansi(lines[idx as int]).len()) as nat)
    } else {
        Seq::empty()
    }
}

/// Cells `0..upto` of one row, concatenated.
pub open spec fn row_text(lines: Seq<Seq<char>>, rows: nat, col_width: nat, row: nat, upto: nat) -> Seq<char>
    decreases upto,
{
    if upto == 0 {
        Seq::empty()
    } else {
        row_text(lines, rows, col_width, row, (upto - 1) as nat) + cell_text(
            lines,
            rows,
            col_width,
            row,
            (upto - 1) as nat,
        )
    }
}

pub open spec fn max_visible(lines: Seq<Seq<char>>) -> nat
    decreases lines.len(),
{
    if lines.len() == 0 {
        0
    } else {
        let m = max_visible(lines.drop_last());
        let l = strip_ansi(lines.last()).len();
        if m >= l { m } else { l }
    }
}

pub open spec fn column_width(lines: Seq<Seq<char>>) -> nat {
    max_visible(lines) + COLUMN_GAP as nat
}

/// The printed rows of the column layout of `lines`.
pub open spec fn column_layout(lines: Seq<Seq<char>>, term_width: nat) -> Seq<Seq<char>> {
    let cw = column_width(lines);
    let (rows, cols) = shape(lines.len(), cw, term_width);
    Seq::new(rows, |r: int| row_text(lines, rows, cw, r as nat, cols))
}

proof fn lemma_max_visible_bound(lines: Seq<Seq<char>>, i: int)
    requires
        0 <= i < lines.len(),
    ensures
        strip_ansi(lines[i]).len() <= max_visible(lines),
    decreases lines.len(),
{
    if i < lines.len() - 1 {
        lemma_max_visible_bound(lines.drop_last(), i);
    }
}

proof fn lemma_max_visible_le(lines: Seq<Seq<char>>, bound: nat)
    requires
        forall|i: int| 0 <= i < lines.len() ==> lines[i].len() <= bound,
    ensures
        max_visible(lines) <= bound,
    decreases lines.len(),
{
    if lines.len() > 0 {
        lemma_max_visible_le(lines.drop_last(), bound);
        lemma_strip_shorter(lines.last());
    }
}

/// Cells past the last line add nothing to a row.
proof fn lemma_row_tail_empty(lines: Seq<Seq<char>>, rows: nat, cw: nat, row: nat, from: nat, upto: nat)
    requires
        from <= upto,
        cell_index(rows, row, from) >= lines.len(),
    ensures
        row_text(lines, rows, cw, row, upto) == row_text(lines, rows, cw, row, from),
    decreases upto - from,
{
    if upto > from {
        lemma_row_tail_empty(lines, rows, cw, row, from, (upto - 1) as nat);
        assert(cell_index(rows, row, (upto - 1) as nat) >= cell_index(rows, row, from)) by (nonlinear_arith)
            requires upto - 1 >= from;
        assert(row_text(lines, rows, cw, row, upto) =~= row_text(lines, rows, cw, row, (upto - 1) as nat));
    }
}

/// `(rows, cols)` of the grid; see `shape`.
pub fn grid_shape(n: usize, col_width: usize, term_width: usize) -> (r: (usize, usize))
    requires
        col_width > 0,
    ensures
        (r.0 as nat, r.1 as nat) == shape(n as nat, col_width as nat, term_width as nat),
{
    let q = term_width / col_width;
    let cols: usize = if q >= 1 { q } else { 1 };
    let c = if n % cols == 0 {
        n / cols
    } else {
        assert(n / cols < n) by (nonlinear_arith)
            requires cols >= 1, n % cols != 0;
        n / cols + 1
    };
    let rows: usize = if c >= 1 { c } else { 1 };
    if rows == 1 {
        (n, 1)
    } else {
        (rows, cols)
    }
}

/// `s` followed by `k` spaces.
fn pad(s: &String, k: usize) -> (r: String)
    ensures
        r@ == s@ + spaces(k as nat),
{
    let mut out = s.clone();
    let mut i: usize = 0;
    while i < k
        invariant
            i <= k,
            out@ == s@ + spaces(i as nat),
        decreases k - i,
    {
        out.append(" ");
        proof {
            reveal_strlit(" ");
        }
        assert(s@ + spaces((i + 1) as nat) =~= s@ + spaces(i as nat) + " "@);
        i = i + 1;
    }
    out
}

/// The widest visible length among `lines`.
pub fn max_visible_length(lines: &Vec<String>) -> (r: usize)
    ensures
        r == max_visible(views_of(lines@)),
{
    let ghost v = views_of(lines@);
    let mut m: usize = 0;
    let mut i: usize = 0;
    while i < lines.len()
        invariant
            i <= lines@.len(),
            v == views_of(lines@),
            m == max_visible(v.take(i as int)),
        decreases lines@.len() - i,
    {
        let l = visible_length(lines[i].as_str());
        assert(v.take(i + 1).drop_last() =~= v.take(i as int));
        if l > m {
            m = l;
        }
        i = i + 1;
    }
    assert(v.take(i as int) =~= v);
    m
}

/// Packs `lines` into column-major rows that fit `term_width`; each cell is
/// padded with spaces to the widest visible length plus the gap.
pub fn display_in_columns(lines: &Vec<String>, term_width: usize) -> (r: Vec<String>)
    requires
        forall|i: int| 0 <= i < lines@.len() ==> lines@[i]@.len() + COLUMN_GAP <= usize::MAX,
    ensures
        views_of(r@) == column_layout(views_of(lines@), term_width as nat),
{
    let ghost v = views_of(lines@);
    let n = lines.len();
    let max_len = max_visible_length(lines);
    proof {
        if n > 0 {
            assert forall|i: int| 0 <= i < v.len() implies v[i].len() <= usize::MAX - COLUMN_GAP by {}
            lemma_max_visible_le(v, (usize::MAX - COLUMN_GAP) as nat);
        }
    }
    let col_width = max_len + COLUMN_GAP;
    let (rows, cols) = grid_shape(n, col_width, term_width);
    let ghost layout = column_layout(v, term_width as nat);
    let mut out: Vec<String> = Vec::new();
    let mut row: usize = 0;
    while row < rows
        invariant
            row <= rows,
            v == views_of(lines@),
            n == v.len(),
            col_width == column_width(v),
            (rows as nat, cols as nat) == shape(n as nat, col_width as nat, term_width as nat),
            layout == column_layout(v, term_width as nat),
            layout.len() == rows,
            out@.len() == row,
            forall|j: int| 0 <= j < row ==> out@[j]@ == layout[j],
        decreases rows - row,
    {
        let mut text = String::new();
        let mut col: usize = 0;
        let mut idx: usize = row;
        let mut done = false;
        while col < cols && !done
            invariant
                col <= cols,
                v == views_of(lines@),
                n == v.len(),
                col_width == column_width(v),
                done ==> cell_index(rows as nat, row as nat, col as nat) >= n,
                !done ==> idx == cell_index(rows as nat, row as nat, col as nat),
                text@ == row_text(v, rows as nat, col_width as nat, row as nat, col as nat),
            decreases cols - col + (if done { 0int } else { 1int }),
        {
            if idx < n {
                let value = &lines[idx];
                let value_len = visible_length(value.as_str());
                proof {
                    lemma_max_visible_bound(v, idx as int);
                }
                let cell = pad(value, col_width - value_len);
                text.append(cell.as_str());
                if n - idx <= rows {
                    done = true;
                    assert(cell_index(rows as nat, row as nat, (col + 1) as nat) == idx + rows) by (nonlinear_arith)
                        requires idx == cell_index(rows as nat, row as nat, col as nat);
                } else {
                    idx = idx + rows;
                    assert(cell_index(rows as nat, row as nat, (col + 1) as nat) == idx) by (nonlinear_arith)
                        requires idx - rows == cell_index(rows as nat, row as nat, col as nat);
                }
                col = col + 1;
            } else {
                done = true;
            }
        }
        proof {
            if done {
                lemma_row_tail_empty(v, rows as nat, col_width as nat, row as nat, col as nat, cols as nat);
            }
        }
        out.push(text);
        row = row + 1;
    }
    assert(views_of(out@) =~= layout);
    out
}

/// The layout is a function of the lines and the width alone: equal inputs
/// give the same rows, character for character.
pub proof fn lemma_layout_deterministic(a: Seq<Seq<char>>, b: Seq<Seq<char>>, w: nat)
    requires
        a == b,
    ensures
        column_layout(a, w) == column_layout(b, w),
{
}

/// Where the naive grid would be one row tall, the layout is one cell per row.
pub proof fn lemma_single_row_collapses(n: nat, col_width: nat, term_width: nat)
    requires
        col_width > 0,
        n >= 1,
        ceil_div(n, if term_width / col_width >= 1 { term_width / col_width } else { 1 }) == 1,
    ensures
        shape(n, col_width, term_width) == (n, 1nat),
{
}

/// Three cells four wide on a hundred columns are laid out three rows by one.
pub proof fn lemma_three_narrow_cells_stack()
    ensures
        shape(3, 4, 100) == (3nat, 1nat),
{
    assert(100nat / 4 == 25);
    assert(3nat % 25 == 3);
    assert(3nat / 25 == 0);
}

/// Five cells in two columns of three rows fill the first column top to
/// bottom, then the second; the last cell of the second column stays empty.
pub proof fn lemma_five_cells_column_major(lines: Seq<Seq<char>>, col_width: nat)
    requires
        lines.len() == 5,
    ensures
        shape(5, 10, 20) == (3nat, 2nat),
        cell_index(3, 0, 0) == 0,
        cell_index(3, 1, 0) == 1,
        cell_index(3, 2, 0) == 2,
        cell_index(3, 0, 1) == 3,
        cell_index(3, 1, 1) == 4,
        cell_text(lines, 3, col_width, 2, 1) == Seq::<char>::empty(),
{
    assert(20nat / 10 == 2);
    assert(5nat % 2 == 1);
    assert(5nat / 2 == 2);
}

} // verus!
