use vstd::prelude::*;
use vstd::string::*;
use vstd::multiset::Multiset;
use crate::color::{lower_of, to_lower};
use crate::config::Config;
use crate::entry::{Entry, entry_line, ignore_entry, kept, render_entry};
use crate::icon::views_of;

verus! {

broadcast use vstd::seq_lib::group_to_multiset_ensures;

/// The code of a character with ASCII capitals folded to lower case.
pub open spec fn fold(c: char) -> u32 {
    if 'A' <= c && c <= 'Z' {
        ((c as u32) + 32) as u32
    } else {
        c as u32
    }
}

/// `a` sorts no later than `b` when compared case-insensitively (ASCII).
pub open spec fn name_le(a: Seq<char>, b: Seq<char>) -> bool
    decreases a.len(),
{
    if a.len() == 0 {
        true
    } else if b.len() == 0 {
        false
    } else if fold(a[0]) != fold(b[0]) {
        fold(a[0]) < fold(b[0])
    } else {
        name_le(a.drop_first(), b.drop_first())
    }
}

pub open spec fn sorted_by_name(s: Seq<Entry>) -> bool {
    forall|i: int| 0 <= i < s.len() - 1 ==> name_le(#[trigger] s[i].name@, s[i + 1].name@)
}

/// The path ends with a `.` (the `.` and `..` artifacts of a listing).
pub open spec fn dot_artifact(e: Entry) -> bool {
    e.path@.len() > 0 && e.path@.last() == '.'
}

/// The entries that are listed, in their order.
pub open spec fn selected(s: Seq<Entry>, folders: Seq<Seq<char>>, files: Seq<Seq<char>>, show_all: bool) -> Seq<Entry>
    decreases s.len(),
{
    if s.len() == 0 {
        s
    } else {
        let rest = selected(s.drop_last(), folders, files, show_all);
        let e = s.last();
        if !dot_artifact(e) && (show_all || kept(e, folders, files)) {
            rest.push(e)
        } else {
            rest
        }
    }
}

/// `e` placed after every entry of `s` whose name sorts no later than its own,
/// scanning from the end: the step of a stable insertion sort.
pub open spec fn insert_by_name(s: Seq<Entry>, e: Entry) -> Seq<Entry>
    decreases s.len(),
{
    if s.len() == 0 {
        seq![e]
    } else if name_le(s.last().name@, e.name@) {
        s.push(e)
    } else {
        insert_by_name(s.drop_last(), e).push(s.last())
    }
}

/// The entries of `s` stably sorted by name, case-insensitively.
pub open spec fn sorted_entries(s: Seq<Entry>) -> Seq<Entry>
    decreases s.len(),
{
    if s.len() == 0 {
        s
    } else {
        insert_by_name(sorted_entries(s.drop_last()), s.last())
    }
}

proof fn lemma_insert_at(s: Seq<Entry>, e: Entry, p: int)
    requires
        0 <= p <= s.len(),
        p == 0 || name_le(s[p - 1].name@, e.name@),
        forall|j: int| p <= j < s.len() ==> !name_le(#[trigger] s[j].name@, e.name@),
    ensures
        insert_by_name(s, e) == s.insert(p, e),
    decreases s.len(),
{
    if s.len() > p {
        lemma_insert_at(s.drop_last(), e, p);
        assert(s.drop_last().insert(p, e).push(s.last()) =~= s.insert(p, e));
    } else if s.len() == 0 {
        assert(s.insert(p, e) =~= seq![e]);
    } else {
        assert(s.push(e) =~= s.insert(p, e));
    }
}

proof fn lemma_insert_keeps_sorted(s: Seq<Entry>, e: Entry, p: int)
    requires
        sorted_by_name(s),
        0 <= p <= s.len(),
        p == 0 || name_le(s[p - 1].name@, e.name@),
        p == s.len() || name_le(e.name@, s[p].name@),
    ensures
        sorted_by_name(s.insert(p, e)),
{
    let t = s.insert(p, e);
    assert forall|i: int| 0 <= i < t.len() - 1 implies name_le(#[trigger] t[i].name@, t[i + 1].name@) by {
        if i < p - 1 {
            assert(t[i] == s[i] && t[i + 1] == s[i + 1]);
        } else if i > p {
            assert(t[i] == s[i - 1] && t[i + 1] == s[i]);
        }
    }
}

proof fn lemma_name_le_total(a: Seq<char>, b: Seq<char>)
    ensures
        name_le(a, b) || name_le(b, a),
    decreases a.len(),
{
    if a.len() > 0 && b.len() > 0 && fold(a[0]) == fold(b[0]) {
        lemma_name_le_total(a.drop_first(), b.drop_first());
    }
}

fn fold_char(c: char) -> (r: u32)
    ensures
        r == fold(c),
{
    if 'A' <= c && c <= 'Z' {
        (c as u32) + 32
    } else {
        c as u32
    }
}

/// Compares two names case-insensitively (ASCII).
pub fn name_less_or_equal(a: &String, b: &String) -> (r: bool)
    ensures
        r == name_le(a@, b@),
{
    let la = a.as_str().unicode_len();
    let lb = b.as_str().unicode_len();
    let mut i: usize = 0;
    assert(a@.skip(0) =~= a@ && b@.skip(0) =~= b@);
    while i < la
        invariant
            la == a@.len(),
            lb == b@.len(),
            i <= la,
            i <= lb,
            name_le(a@, b@) == name_le(a@.skip(i as int), b@.skip(i as int)),
        decreases la - i,
    {
        if i >= lb {
            return false;
        }
        let ca = fold_char(a.as_str().get_char(i));
        let cb = fold_char(b.as_str().get_char(i));
        assert(a@.skip(i as int)[0] == a@[i as int]);
        assert(b@.skip(i as int)[0] == b@[i as int]);
        if ca != cb {
            return ca < cb;
        }
        assert(a@.skip(i as int).drop_first() =~= a@.skip(i + 1));
        assert(b@.skip(i as int).drop_first() =~= b@.skip(i + 1));
        i = i + 1;
    }
    true
}

/// A stable insertion sort of the entries by name, case-insensitively.
pub fn sort_entries(entries: Vec<Entry>) -> (r: Vec<Entry>)
    ensures
        r@ == sorted_entries(entries@),
        sorted_by_name(r@),
        r@.to_multiset() == entries@.to_multiset(),
{
    let ghost all = entries@;
    let ghost mut taken: int = 0;
    let mut rest = entries;
    let mut out: Vec<Entry> = Vec::new();
    while rest.len() > 0
        invariant
            0 <= taken <= all.len(),
            rest@ == all.skip(taken),
            out@ == sorted_entries(all.take(taken)),
            sorted_by_name(out@),
            out@.to_multiset().add(rest@.to_multiset()) == entries@.to_multiset(),
        decreases rest@.len(),
    {
        let ghost before = rest@;
        let e = rest.remove(0);
        proof {
            assert(all.take(taken + 1).drop_last() =~= all.take(taken));
            assert(all.take(taken + 1).last() == e);
            assert(rest@ =~= all.skip(taken + 1));
            assert(before =~= seq![e] + rest@);
            vstd::seq_lib::lemma_multiset_commutative(seq![e], rest@);
        }
        let mut p: usize = out.len();
        while p > 0 && !name_less_or_equal(&out[p - 1].name, &e.name)
            invariant
                p <= out@.len(),
                forall|j: int| p <= j < out@.len() ==> !name_le(#[trigger] out@[j].name@, e.name@),
            decreases p,
        {
            p = p - 1;
        }
        let ghost old_out = out@;
        proof {
            if p < old_out.len() {
                lemma_name_le_total(old_out[p as int].name@, e.name@);
            }
            lemma_insert_at(old_out, e, p as int);
            taken = taken + 1;
        }
        out.insert(p, e);
        proof {
            lemma_insert_keeps_sorted(old_out, e, p as int);
        }
    }
    assert(all.take(taken) =~= all);
    assert(rest@.to_multiset() =~= Multiset::empty());
    assert(out@.to_multiset().add(Multiset::empty()) =~= out@.to_multiset());
    out
}

pub open spec fn lowered_all(v: Seq<String>) -> Seq<Seq<char>> {
    views_of(v).map_values(|s: Seq<char>| lower_of(s))
}

/// Each name of `names` lowercased.
pub fn lower_all(names: &Vec<String>) -> (r: Vec<String>)
    ensures
        views_of(r@) == lowered_all(names@),
{
    let mut out: Vec<String> = Vec::new();
    let mut i: usize = 0;
    while i < names.len()
        invariant
            i <= names@.len(),
            out@.len() == i,
            views_of(out@) == lowered_all(names@.take(i as int)),
        decreases names@.len() - i,
    {
        let ghost prev = out@;
        let low = to_lower(names[i].as_str());
        out.push(low);
        assert forall|j: int| 0 <= j < i + 1 implies views_of(out@)[j] == lowered_all(names@.take(i + 1))[j] by {
            if j < i {
                assert(out@[j] == prev[j]);
                assert(views_of(prev)[j] == lowered_all(names@.take(i as int))[j]);
            }
        }
        assert(views_of(out@) =~= lowered_all(names@.take(i + 1)));
        i = i + 1;
    }
    assert(names@.take(i as int) =~= names@);
    out
}

fn ends_with_dot(s: &String) -> (r: bool)
    ensures
        r == (s@.len() > 0 && s@.last() == '.'),
{
    let n = s.as_str().unicode_len();
    n > 0 && s.as_str().get_char(n - 1) == '.'
}

/// Drops the `.` artifacts and, unless `show_all`, the ignored entries;
/// the order is kept.
pub fn select_entries(entries: Vec<Entry>, folders: &Vec<String>, files: &Vec<String>, show_all: bool) -> (r: Vec<Entry>)
    ensures
        r@ == selected(entries@, views_of(folders@), views_of(files@), show_all),
{
    let ghost all = entries@;
    let ghost fo = views_of(folders@);
    let ghost fi = views_of(files@);
    let mut rest = entries;
    let mut out: Vec<Entry> = Vec::new();
    let ghost mut taken: int = 0;
    while rest.len() > 0
        invariant
            0 <= taken <= all.len(),
            rest@ == all.skip(taken),
            out@ == selected(all.take(taken), fo, fi, show_all),
            fo == views_of(folders@),
            fi == views_of(files@),
        decreases rest@.len(),
    {
        let e = rest.remove(0);
        proof {
            assert(all.take(taken + 1).drop_last() =~= all.take(taken));
            assert(all.take(taken + 1).last() == e);
            assert(rest@ =~= all.skip(taken + 1));
            taken = taken + 1;
        }
        if !ends_with_dot(&e.path) && (show_all || ignore_entry(&e, folders, files)) {
            out.push(e);
        }
    }
    assert(all.take(taken) =~= all);
    out
}

/// One rendered line per entry, in order.
pub fn render_all(config: &Config, entries: &Vec<Entry>, color_enabled: bool) -> (r: Vec<String>)
    ensures
        r@.len() == entries@.len(),
        forall|i: int| 0 <= i < r@.len() ==> #[trigger] r@[i]@ == entry_line(*config, entries@[i], color_enabled),
{
    let mut out: Vec<String> = Vec::new();
    let mut i: usize = 0;
    while i < entries.len()
        invariant
            i <= entries@.len(),
            out@.len() == i,
            forall|j: int| 0 <= j < i ==> #[trigger] out@[j]@ == entry_line(*config, entries@[j], color_enabled),
        decreases entries@.len() - i,
    {
        out.push(render_entry(config, &entries[i], color_enabled));
        i = i + 1;
    }
    out
}

/// The rendered lines of a listing: the ignore lists lowercased, the entries
/// selected, sorted by name and rendered.
pub fn show_entries(config: &Config, entries: Vec<Entry>, show_all: bool, color_enabled: bool) -> (r: Vec<String>)
    ensures
        ({
            let s = sorted_entries(
                selected(entries@, lowered_all(config.ignore_folders@), lowered_all(config.ignore_files@), show_all),
            );
            &&& r@.len() == s.len()
            &&& forall|i: int| 0 <= i < s.len() ==> #[trigger] r@[i]@ == entry_line(*config, s[i], color_enabled)
        }),
{
    let folders = lower_all(&config.ignore_folders);
    let files = lower_all(&config.ignore_files);
    let chosen = select_entries(entries, &folders, &files, show_all);
    let sorted = sort_entries(chosen);
    render_all(config, &sorted, color_enabled)
}

/// An entry whose metadata could not be read renders as a dead link under the
/// `dead_link` class, whatever its name (a leading dot included).
pub proof fn lemma_unreadable_is_dead_link(c: Config, e: Entry, color: bool)
    requires
        e.meta is None,
    ensures
        entry_line(c, e, color) == crate::color::colored(
            c.colors@,
            "  "@ + crate::entry::DEAD_LINK_GLYPH@ + " "@ + e.name@,
            "dead_link"@,
            color,
        ),
{
}

/// A directory whose lowercased name is an ignored folder is left out, unless
/// everything is shown; then it is listed, classed by its leading character only.
pub proof fn lemma_ignored_folder_shown_only_with_all(
    c: Config,
    e: Entry,
    folders: Seq<Seq<char>>,
    files: Seq<Seq<char>>,
    color: bool,
)
    requires
        e.meta matches Some(m) && m.is_dir,
        folders.contains(lower_of(e.name@)),
        !dot_artifact(e),
    ensures
        selected(seq![e], folders, files, false) == Seq::<Entry>::empty(),
        selected(seq![e], folders, files, true) == seq![e],
        entry_line(c, e, color) == crate::entry::dir_line(c, e, color),
        crate::entry::dir_line(c, e, color) == crate::color::colored(
            c.colors@,
            "  "@ + crate::icon::resolved_icon(c.folders@, c.aliases@, crate::entry::FOLDER_GLYPH@, crate::entry::dir_queries(e)) + " "@ + e.name@ + "/"@,
            crate::entry::dir_class(e.name@),
            color,
        ),
{
    let none = Seq::<Entry>::empty();
    assert(seq![e].drop_last() =~= none);
    assert(seq![e].last() == e);
    assert(none.push(e) =~= seq![e]);
    assert(selected(none, folders, files, false) == none);
    assert(selected(none, folders, files, true) == none);
    assert(!kept(e, folders, files));
    assert(selected(seq![e], folders, files, false) == selected(none, folders, files, false));
    assert(selected(seq![e], folders, files, true) == selected(none, folders, files, true).push(e));
}

proof fn lemma_insert_by_name_multiset(s: Seq<Entry>, e: Entry)
    ensures
        insert_by_name(s, e).to_multiset() == s.to_multiset().insert(e),
    decreases s.len(),
{
    if s.len() == 0 {
        assert(seq![e] =~= s.push(e));
    } else if !name_le(s.last().name@, e.name@) {
        lemma_insert_by_name_multiset(s.drop_last(), e);
        assert(s.drop_last().push(s.last()) =~= s);
    }
}

/// Sorting keeps every entry, each as often as it was there.
pub proof fn lemma_sorted_entries_permutes(s: Seq<Entry>)
    ensures
        sorted_entries(s).to_multiset() == s.to_multiset(),
    decreases s.len(),
{
    if s.len() > 0 {
        lemma_sorted_entries_permutes(s.drop_last());
        lemma_insert_by_name_multiset(sorted_entries(s.drop_last()), s.last());
        assert(s.drop_last().push(s.last()) =~= s);
    }
}

proof fn lemma_selected_are_kept(s: Seq<Entry>, folders: Seq<Seq<char>>, files: Seq<Seq<char>>, x: Entry)
    requires
        selected(s, folders, files, false).contains(x),
    ensures
        kept(x, folders, files),
    decreases s.len(),
{
    if s.len() > 0 {
        let rest = selected(s.drop_last(), folders, files, false);
        if rest.contains(x) {
            lemma_selected_are_kept(s.drop_last(), folders, files, x);
        } else {
            let t = selected(s, folders, files, false);
            let i = choose|i: int| 0 <= i < t.len() && t[i] == x;
            if t != rest {
                assert(i == rest.len() || rest[i] == x);
            }
        }
    }
}

proof fn lemma_selected_all(s: Seq<Entry>, folders: Seq<Seq<char>>, files: Seq<Seq<char>>, e: Entry)
    requires
        s.contains(e),
        !dot_artifact(e),
    ensures
        selected(s, folders, files, true).contains(e),
    decreases s.len(),
{
    let rest = selected(s.drop_last(), folders, files, true);
    if s.last() == e {
        assert(rest.push(e)[rest.len() as int] == e);
    } else {
        let i = choose|i: int| 0 <= i < s.len() && s[i] == e;
        assert(s.drop_last()[i] == e);
        lemma_selected_all(s.drop_last(), folders, files, e);
        let j = choose|j: int| 0 <= j < rest.len() && rest[j] == e;
        if !dot_artifact(s.last()) {
            assert(rest.push(s.last())[j] == e);
        }
    }
}

/// Of a listing: a directory whose lowercased name is in the (lowercased)
/// folders ignore list yields no line unless everything is shown; with
/// everything shown, a listed such directory yields a line, which is its
/// directory line, classed by its leading character alone.
pub proof fn lemma_ignored_folder_in_listing(c: Config, entries: Seq<Entry>, e: Entry, color: bool)
    requires
        e.meta matches Some(m) && m.is_dir,
        lowered_all(c.ignore_folders@).contains(lower_of(e.name@)),
    ensures
        !sorted_entries(
            selected(entries, lowered_all(c.ignore_folders@), lowered_all(c.ignore_files@), false),
        ).contains(e),
        entries.contains(e) && !dot_artifact(e) ==> sorted_entries(
            selected(entries, lowered_all(c.ignore_folders@), lowered_all(c.ignore_files@), true),
        ).contains(e),
        entry_line(c, e, color) == crate::color::colored(
            c.colors@,
            "  "@ + crate::icon::resolved_icon(c.folders@, c.aliases@, crate::entry::FOLDER_GLYPH@, crate::entry::dir_queries(e)) + " "@ + e.name@ + "/"@,
            crate::entry::dir_class(e.name@),
            color,
        ),
{
    let fo = lowered_all(c.ignore_folders@);
    let fi = lowered_all(c.ignore_files@);
    let hidden = selected(entries, fo, fi, false);
    lemma_sorted_entries_permutes(hidden);
    if sorted_entries(hidden).contains(e) {
        assert(sorted_entries(hidden).to_multiset().count(e) > 0);
        assert(hidden.contains(e));
        lemma_selected_are_kept(entries, fo, fi, e);
    }
    if entries.contains(e) && !dot_artifact(e) {
        let shown = selected(entries, fo, fi, true);
        lemma_selected_all(entries, fo, fi, e);
        lemma_sorted_entries_permutes(shown);
        assert(shown.to_multiset().count(e) > 0);
    }
}

} // verus!
