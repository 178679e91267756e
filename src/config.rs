use vstd::prelude::*;
use crate::table::Table;

verus! {

/// The resolved lookup tables of one run.
pub struct Config {
    pub aliases: Table,
    pub folders: Table,
    pub files: Table,
    pub colors: Table,
    pub ignore_files: Vec<String>,
    pub ignore_folders: Vec<String>,
}

/// A user document: each part that it leaves out keeps its default.
pub struct OptionalConfig {
    pub aliases: Option<Table>,
    pub folders: Option<Table>,
    pub files: Option<Table>,
    pub colors: Option<Table>,
    pub ignore_files: Option<Vec<String>>,
    pub ignore_folders: Option<Vec<String>>,
}

/// The keys that an optional table adds.
pub open spec fn added(t: Option<Table>) -> Map<Seq<char>, Seq<char>> {
    match t {
        Some(t) => t@,
        None => Map::empty(),
    }
}

/// An extended table: the default's keys, with the override's added or replaced.
pub open spec fn extended(
    default: Map<Seq<char>, Seq<char>>,
    custom: Map<Seq<char>, Seq<char>>,
) -> Map<Seq<char>, Seq<char>> {
    default.union_prefer_right(custom)
}

/// A replaced list: the override's if it has one.
pub open spec fn replaced(default: Seq<String>, custom: Option<Vec<String>>) -> Seq<String> {
    match custom {
        Some(v) => v@,
        None => default,
    }
}

fn extend_with(table: &mut Table, custom: &Option<Table>)
    ensures
        final(table)@ == extended(old(table)@, added(*custom)),
{
    match custom {
        Some(t) => table.extend(t),
        None => {
            assert(old(table)@.union_prefer_right(Map::empty()) =~= old(table)@);
        },
    }
}

/// Merges a user document over the defaults: the icon, color and alias tables
/// are extended, each ignore list is replaced where the document gives one.
pub fn merge_config(defaults: Config, custom: OptionalConfig) -> (r: Config)
    ensures
        r.aliases@ == extended(defaults.aliases@, added(custom.aliases)),
        r.folders@ == extended(defaults.folders@, added(custom.folders)),
        r.files@ == extended(defaults.files@, added(custom.files)),
        r.colors@ == extended(defaults.colors@, added(custom.colors)),
        r.ignore_files@ == replaced(defaults.ignore_files@, custom.ignore_files),
        r.ignore_folders@ == replaced(defaults.ignore_folders@, custom.ignore_folders),
{
    let mut config = defaults;
    extend_with(&mut config.folders, &custom.folders);
    extend_with(&mut config.files, &custom.files);
    extend_with(&mut config.colors, &custom.colors);
    extend_with(&mut config.aliases, &custom.aliases);
    let ignore_files = match custom.ignore_files {
        Some(v) => v,
        None => config.ignore_files,
    };
    let ignore_folders = match custom.ignore_folders {
        Some(v) => v,
        None => config.ignore_folders,
    };
    Config {
        aliases: config.aliases,
        folders: config.folders,
        files: config.files,
        colors: config.colors,
        ignore_files,
        ignore_folders,
    }
}

/// Extending never loses a key: a key that only the override has comes
/// through with the override's value, and every default key stays.
pub proof fn lemma_extend_keeps_keys(
    default: Map<Seq<char>, Seq<char>>,
    custom: Map<Seq<char>, Seq<char>>,
    k: Seq<char>,
)
    ensures
        custom.contains_key(k) && !default.contains_key(k) ==> extended(default, custom).contains_key(k)
            && extended(default, custom)[k] == custom[k],
        default.contains_key(k) ==> extended(default, custom).contains_key(k),
{
}

} // verus!
