use vstd::prelude::*;
use vstd::string::*;

verus! {

/// The pattern of a terminal color/reset sequence: ESC `[`, digits or `;`, `m`.
pub const ANSI_ESCAPE: &'static str = "\x1b\\[[0-9;]*m";

pub open spec fn is_param(c: char) -> bool {
    ('0' <= c && c <= '9') || c == ';'
}

/// The first index at or after `i` that does not hold a parameter character.
pub open spec fn param_run(s: Seq<char>, i: int) -> int
    decreases s.len() - i,
{
    if i < 0 || i >= s.len() || !is_param(s[i]) {
        i
    } else {
        param_run(s, i + 1)
    }
}

/// The length of the escape sequence that starts `s`, or 0 if none does.
pub open spec fn escape_len(s: Seq<char>) -> int {
    if s.len() >= 2 && s[0] == '\x1b' && s[1] == '[' {
        let k = param_run(s, 2);
        if 2 <= k < s.len() && s[k] == 'm' {
            k + 1
        } else {
            0
        }
    } else {
        0
    }
}

/// `s` with every escape sequence removed, scanning left to right.
pub open spec fn strip_ansi(s: Seq<char>) -> Seq<char>
    decreases s.len(),
{
    if s.len() == 0 {
        s
    } else if escape_len(s) > 0 {
        strip_ansi(s.skip(escape_len(s)))
    } else {
        seq![s[0]] + strip_ansi(s.skip(1))
    }
}

/// `e` is exactly one escape sequence.
pub open spec fn is_escape(e: Seq<char>) -> bool {
    &&& e.len() >= 3
    &&& e[0] == '\x1b'
    &&& e[1] == '['
    &&& e.last() == 'm'
    &&& forall|i: int| 2 <= i < e.len() - 1 ==> is_param(#[trigger] e[i])
}

/// Relies on regex's `Regex::new` and `Regex::replace_all`: with the pattern
/// `ANSI_ESCAPE`, every leftmost non-overlapping match is replaced by nothing.
#[verifier::external_body]
fn remove_escapes(s: &str) -> (r: String)
    ensures
        r@ == strip_ansi(s@),
{
    regex::Regex::new(ANSI_ESCAPE).unwrap().replace_all(s, "").into_owned()
}

/// The number of printable characters of `input` once escape sequences are removed.
pub fn visible_length(input: &str) -> (r: usize)
    ensures
        r == strip_ansi(input@).len(),
{
    let stripped = remove_escapes(input);
    stripped.as_str().unicode_len()
}

/// Stripping never lengthens a string.
pub proof fn lemma_strip_shorter(s: Seq<char>)
    ensures
        strip_ansi(s).len() <= s.len(),
    decreases s.len(),
{
    if s.len() > 0 {
        if escape_len(s) > 0 {
            lemma_strip_shorter(s.skip(escape_len(s)));
        } else {
            lemma_strip_shorter(s.skip(1));
        }
    }
}

/// A string without escape characters is left as it is by stripping.
pub proof fn lemma_strip_plain(s: Seq<char>)
    requires
        forall|i: int| 0 <= i < s.len() ==> s[i] != '\x1b',
    ensures
        strip_ansi(s) == s,
    decreases s.len(),
{
    if s.len() > 0 {
        lemma_strip_plain(s.skip(1));
        assert(seq![s[0]] + s.skip(1) =~= s);
    }
}

/// A string in which no escape sequence starts at any position is left as it
/// is by stripping, so its visible length is its character count.
pub proof fn lemma_strip_without_sequences(s: Seq<char>)
    requires
        forall|i: int| 0 <= i < s.len() ==> escape_len(#[trigger] s.skip(i)) == 0,
    ensures
        strip_ansi(s) == s,
    decreases s.len(),
{
    if s.len() > 0 {
        assert(s.skip(0) =~= s);
        let t = s.skip(1);
        assert forall|i: int| 0 <= i < t.len() implies escape_len(#[trigger] t.skip(i)) == 0 by {
            assert(t.skip(i) =~= s.skip(i + 1));
        }
        lemma_strip_without_sequences(t);
        assert(seq![s[0]] + t =~= s);
    }
}

proof fn lemma_param_run_in_escape(e: Seq<char>, rest: Seq<char>, i: int)
    requires
        is_escape(e),
        2 <= i <= e.len() - 1,
    ensures
        param_run(e + rest, i) == e.len() - 1,
    decreases e.len() - i,
{
    if i < e.len() - 1 {
        lemma_param_run_in_escape(e, rest, i + 1);
    }
}

/// A string made only of escape sequences has no visible characters.
pub proof fn lemma_strip_escapes_only(parts: Seq<Seq<char>>)
    requires
        forall|i: int| 0 <= i < parts.len() ==> is_escape(#[trigger] parts[i]),
    ensures
        strip_ansi(parts.flatten()).len() == 0,
    decreases parts.len(),
{
    if parts.len() > 0 {
        let e = parts.first();
        let rest = parts.drop_first().flatten();
        assert(is_escape(parts[0]));
        lemma_param_run_in_escape(e, rest, 2);
        assert(parts.flatten() == e + rest);
        assert(escape_len(e + rest) == e.len());
        assert((e + rest).skip(e.len() as int) =~= rest);
        assert forall|i: int| 0 <= i < parts.drop_first().len() implies is_escape(
            #[trigger] parts.drop_first()[i],
        ) by {
            assert(parts.drop_first()[i] == parts[i + 1]);
        }
        lemma_strip_escapes_only(parts.drop_first());
    }
}

} // verus!
