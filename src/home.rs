use vstd::prelude::*;
use vstd::string::*;

verus! {

/// For an input that starts with `~`: what follows it, without one leading `/`.
pub open spec fn home_relative(s: Seq<char>) -> Option<Seq<char>> {
    if s.len() > 0 && s[0] == '~' {
        let rest = s.skip(1);
        if rest.len() > 0 && rest[0] == '/' {
            Some(rest.skip(1))
        } else {
            Some(rest)
        }
    } else {
        None
    }
}

/// The part of `input` to join to the home directory, where it starts with `~`.
pub fn tilde_suffix(input: &str) -> (r: Option<String>)
    ensures
        r is Some == home_relative(input@) is Some,
        r is Some ==> r->0@ == home_relative(input@)->0,
{
    let n = input.unicode_len();
    if n > 0 && input.get_char(0) == '~' {
        if n > 1 && input.get_char(1) == '/' {
            Some(input.substring_char(2, n).to_string())
        } else {
            Some(input.substring_char(1, n).to_string())
        }
    } else {
        None
    }
}

} // verus!
