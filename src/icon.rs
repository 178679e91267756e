use vstd::prelude::*;
use crate::table::Table;

verus! {

/// The value of the first candidate that `icons` holds, or `fallback`.
pub open spec fn first_match(
    icons: Map<Seq<char>, Seq<char>>,
    fallback: Seq<char>,
    queries: Seq<Seq<char>>,
) -> Seq<char>
    decreases queries.len(),
{
    if queries.len() == 0 {
        fallback
    } else if icons.contains_key(queries[0]) {
        icons[queries[0]]
    } else {
        first_match(icons, fallback, queries.drop_first())
    }
}

/// One alias hop: the alias of `glyph` if it has one, else `glyph`.
pub open spec fn alias_once(aliases: Map<Seq<char>, Seq<char>>, glyph: Seq<char>) -> Seq<char> {
    if aliases.contains_key(glyph) {
        aliases[glyph]
    } else {
        glyph
    }
}

pub open spec fn resolved_icon(
    icons: Map<Seq<char>, Seq<char>>,
    aliases: Map<Seq<char>, Seq<char>>,
    fallback: Seq<char>,
    queries: Seq<Seq<char>>,
) -> Seq<char> {
    alias_once(aliases, first_match(icons, fallback, queries))
}

pub open spec fn views_of(v: Seq<String>) -> Seq<Seq<char>> {
    v.map_values(|s: String| s@)
}

/// Probes `queries` in order against `icons`, falls back to `fallback`, then
/// follows at most one alias.
pub fn resolve_icon(icons: &Table, aliases: &Table, fallback: &str, queries: Vec<String>) -> (r:
    String)
    ensures
        r@ == resolved_icon(icons@, aliases@, fallback@, views_of(queries@)),
{
    let mut icon = fallback.to_string();
    let ghost qs = views_of(queries@);
    let mut i: usize = 0;
    let mut found = false;
    assert(qs.skip(0) =~= qs);
    while i < queries.len() && !found
        invariant
            i <= queries@.len(),
            qs.len() == queries@.len(),
            qs == views_of(queries@),
            !found ==> first_match(icons@, fallback@, qs) == first_match(
                icons@,
                fallback@,
                qs.skip(i as int),
            ),
            !found ==> icon@ == fallback@,
            found ==> icon@ == first_match(icons@, fallback@, qs),
        decreases queries@.len() - i,
    {
        assert(qs.skip(i as int).drop_first() =~= qs.skip(i + 1));
        assert(qs.skip(i as int)[0] == queries@[i as int]@);
        match icons.get(&queries[i]) {
            Some(value) => {
                icon = value;
                found = true;
            },
            None => {},
        }
        i = i + 1;
    }
    if !found {
        assert(qs.skip(i as int) =~= Seq::<Seq<char>>::empty());
    }
    match aliases.get(&icon) {
        Some(alias) => alias,
        None => icon,
    }
}

} // verus!
