use ll::color::{format_with_color, get_color_from_string, BLACK, DARK_GREY, RED};
use ll::config::{merge_config, Config, OptionalConfig};
use ll::entry::{
    build_dir_entry, build_file_entry, has_exec_bits, has_exec_extension, ignore_entry, relative_display,
    render_entry, Entry, EntryMeta,
};
use ll::ansi::visible_length;
use ll::home::tilde_suffix;
use ll::icon::resolve_icon;
use ll::layout::{display_in_columns, grid_shape};
use ll::listing::{name_less_or_equal, show_entries, sort_entries};
use ll::table::Table;

fn table(pairs: &[(&str, &str)]) -> Table {
    let mut t = Table::new();
    for (k, v) in pairs {
        t.insert(k.to_string(), v.to_string());
    }
    t
}

fn strings(v: &[&str]) -> Vec<String> {
    v.iter().map(|s| s.to_string()).collect()
}

fn base_config() -> Config {
    Config {
        aliases: table(&[("rs", "R")]),
        folders: table(&[("folder", "D"), ("node_modules", "N")]),
        files: table(&[("file", "F"), (".rs", "rs"), ("Makefile", "M")]),
        colors: table(&[("dir", "blue"), ("dead_link", "red")]),
        ignore_files: strings(&[".DS_Store"]),
        ignore_folders: strings(&["Node_Modules"]),
    }
}

fn entry(name: &str, ext: &str, meta: Option<EntryMeta>) -> Entry {
    Entry {
        path: format!("/tmp/x/{name}"),
        parent: String::new(),
        name: name.to_string(),
        extension: ext.to_string(),
        meta,
    }
}

fn file_meta(size: u64) -> Option<EntryMeta> {
    Some(EntryMeta { is_dir: false, size, executable: false })
}

fn dir_meta() -> Option<EntryMeta> {
    Some(EntryMeta { is_dir: true, size: 0, executable: false })
}

#[test]
fn resolve_icon_takes_first_match() {
    let icons = table(&[("a", "1"), ("b", "2")]);
    let aliases = Table::new();
    let r = resolve_icon(&icons, &aliases, "?", strings(&["a", "b", "c"]));
    assert_eq!(r, "1");
}

#[test]
fn resolve_icon_follows_one_alias() {
    let icons = table(&[("key", "X")]);
    let aliases = table(&[("X", "Y"), ("Y", "Z")]);
    let r = resolve_icon(&icons, &aliases, "?", strings(&["key"]));
    assert_eq!(r, "Y");
}

#[test]
fn resolve_icon_falls_back() {
    let icons = table(&[("a", "1")]);
    let aliases = table(&[("?", "!")]);
    assert_eq!(resolve_icon(&icons, &aliases, "?", strings(&["z"])), "!");
    assert_eq!(resolve_icon(&icons, &Table::new(), "?", vec![]), "?");
}

#[test]
fn table_later_insert_wins() {
    let mut t = table(&[("a", "1")]);
    t.insert("a".to_string(), "2".to_string());
    assert_eq!(t.get(&"a".to_string()), Some("2".to_string()));
    assert_eq!(t.get(&"b".to_string()), None);
}

#[test]
fn visible_length_of_escapes_only_is_zero() {
    assert_eq!(visible_length("\x1b[38;5;9m\x1b[39m\x1b[0m"), 0);
}

#[test]
fn visible_length_of_plain_text_counts_chars() {
    assert_eq!(visible_length("  \u{ea7b} main.rs"), 11);
    assert_eq!(visible_length(""), 0);
}

#[test]
fn visible_length_skips_several_sequences() {
    assert_eq!(visible_length("\x1b[34mab\x1b[39m \x1b[1;32mcd\x1b[0m"), 5);
    assert_eq!(visible_length("\x1b[x"), 3);
}

#[test]
fn layout_collapses_single_row() {
    let lines = strings(&["ab", "cd", "ef"]);
    assert_eq!(grid_shape(3, 4, 100), (3, 1));
    let rows = display_in_columns(&lines, 100);
    assert_eq!(rows, strings(&["ab  ", "cd  ", "ef  "]));
}

#[test]
fn layout_fills_columns_first() {
    let lines = strings(&["a", "b", "c", "d", "e"]);
    assert_eq!(grid_shape(5, 3, 6), (3, 2));
    let rows = display_in_columns(&lines, 6);
    assert_eq!(rows, strings(&["a  d  ", "b  e  ", "c  "]));
}

#[test]
fn layout_is_deterministic() {
    let lines = strings(&["alpha", "\x1b[31mbeta\x1b[39m", "gamma", "delta", "epsilon"]);
    let first = display_in_columns(&lines, 20);
    let second = display_in_columns(&lines, 20);
    assert_eq!(first, second);
    assert_eq!(first[0], "alpha    delta    ");
}

#[test]
fn layout_pads_by_visible_width() {
    let lines = strings(&["\x1b[31mab\x1b[39m", "abcd", "x", "y"]);
    let rows = display_in_columns(&lines, 12);
    assert_eq!(rows, strings(&["\x1b[31mab\x1b[39m    x     ", "abcd  y     "]));
}

#[test]
fn layout_of_nothing_is_empty() {
    assert!(display_in_columns(&vec![], 80).is_empty());
    assert_eq!(grid_shape(0, 2, 80), (0, 1));
}

#[test]
fn layout_with_width_fallback_one_per_line() {
    let rows = display_in_columns(&strings(&["a", "b"]), 1);
    assert_eq!(rows, strings(&["a  ", "b  "]));
}

#[test]
fn merge_adds_override_keys_and_replaces_ignore() {
    let custom = OptionalConfig {
        aliases: None,
        folders: Some(table(&[("src", "S")])),
        files: Some(table(&[("file", "G")])),
        colors: None,
        ignore_files: Some(strings(&["target"])),
        ignore_folders: None,
    };
    let c = merge_config(base_config(), custom);
    assert_eq!(c.folders.get(&"src".to_string()), Some("S".to_string()));
    assert_eq!(c.folders.get(&"folder".to_string()), Some("D".to_string()));
    assert_eq!(c.files.get(&"file".to_string()), Some("G".to_string()));
    assert_eq!(c.colors.get(&"dir".to_string()), Some("blue".to_string()));
    assert_eq!(c.ignore_files, strings(&["target"]));
    assert_eq!(c.ignore_folders, strings(&["Node_Modules"]));
}

#[test]
fn color_names_ignore_case() {
    assert_eq!(get_color_from_string("Red"), RED);
    assert_eq!(get_color_from_string("DARKGREY"), DARK_GREY);
    assert_eq!(get_color_from_string("purple"), BLACK);
}

#[test]
fn formatting_without_color_keeps_text() {
    let c = base_config();
    assert_eq!(format_with_color(&c, "abc".to_string(), "dir", false), "abc");
}

#[test]
fn formatting_with_color_wraps_text() {
    let c = base_config();
    let r = format_with_color(&c, "abc".to_string(), "dir", true);
    assert_eq!(r, "\x1b[38;5;12mabc\x1b[39m");
    assert_eq!(visible_length(&r), 3);
    let plain = format_with_color(&c, "x".to_string(), "unmapped", true);
    assert_eq!(plain, "\x1b[38;5;0mx\x1b[39m");
    let dead = format_with_color(&c, "y".to_string(), "dead_link", true);
    assert_eq!(dead, "\x1b[38;5;9my\x1b[39m");
}

#[test]
fn unreadable_hidden_entry_is_dead_link() {
    let c = base_config();
    let e = entry(".hidden", "", None);
    assert_eq!(render_entry(&c, &e, false), "  \u{f481} .hidden");
    let colored = render_entry(&c, &e, true);
    let expected = format_with_color(&c, "  \u{f481} .hidden".to_string(), "dead_link", true);
    assert_eq!(colored, expected);
}

#[test]
fn dead_link_shows_basename_not_path() {
    let c = base_config();
    let mut e = entry(".hidden", "", None);
    e.path = "/home/u/project/sub/.hidden".to_string();
    e.parent = "sub".to_string();
    let lines = show_entries(&c, vec![e], false, false);
    assert_eq!(lines, strings(&["  \u{f481} .hidden"]));
}

#[test]
fn file_line_has_icon_name_and_size() {
    let c = base_config();
    let e = entry("main.rs", "rs", file_meta(1024));
    let meta = EntryMeta { is_dir: false, size: 1024, executable: false };
    assert_eq!(build_file_entry(&c, &meta, &e, false), "  R main.rs 1.0KiB");
    let small = entry("notes", "", file_meta(500));
    assert_eq!(render_entry(&c, &small, false), "  F notes 500B");
}

#[test]
fn file_line_uses_parent_and_name_keys() {
    let mut c = base_config();
    c.files.insert("src/lib.rs".to_string(), "L".to_string());
    let mut e = entry("lib.rs", "rs", file_meta(0));
    e.parent = "src".to_string();
    assert_eq!(render_entry(&c, &e, false), "  L lib.rs 0B");
    let m = entry("Makefile", "", file_meta(0));
    assert_eq!(render_entry(&c, &m, false), "  M Makefile 0B");
}

#[test]
fn dir_line_ends_with_slash() {
    let c = base_config();
    let e = entry("docs", "", dir_meta());
    assert_eq!(build_dir_entry(&c, &e, false), "  D docs/");
}

#[test]
fn ignore_filter_lists() {
    let folders = strings(&["node_modules"]);
    let files = strings(&[".ds_store", ".log"]);
    assert!(!ignore_entry(&entry("Node_Modules", "", dir_meta()), &folders, &files));
    assert!(ignore_entry(&entry("src", "", dir_meta()), &folders, &files));
    assert!(!ignore_entry(&entry(".DS_Store", "", file_meta(1)), &folders, &files));
    assert!(!ignore_entry(&entry("a.LOG", "LOG", file_meta(1)), &folders, &files));
    assert!(!ignore_entry(&entry("node_modules", "", None), &folders, &files));
    assert!(ignore_entry(&entry("node_modules", "", file_meta(1)), &folders, &files));
}

#[test]
fn ignored_folder_shown_only_with_all() {
    let c = base_config();
    let hidden = show_entries(&c, vec![entry("node_modules", "", dir_meta())], false, false);
    assert!(hidden.is_empty());
    let shown = show_entries(&c, vec![entry("node_modules", "", dir_meta())], true, false);
    assert_eq!(shown, strings(&["  N node_modules/"]));
}

#[test]
fn listing_sorts_and_drops_dot_artifacts() {
    let c = base_config();
    let mut dot = entry(".", "", dir_meta());
    dot.path = "/tmp/x/.".to_string();
    let list = vec![
        entry("b", "", dir_meta()),
        entry("A", "", dir_meta()),
        dot,
        entry("c", "", dir_meta()),
    ];
    let lines = show_entries(&c, list, false, false);
    assert_eq!(lines, strings(&["  D A/", "  D b/", "  D c/"]));
}

#[test]
fn sort_is_case_insensitive_and_stable() {
    let mut first = entry("x", "", file_meta(1));
    first.path = "one".to_string();
    let mut second = entry("X", "", file_meta(2));
    second.path = "two".to_string();
    let sorted = sort_entries(vec![entry("y", "", None), first, second, entry("B", "", None)]);
    let names: Vec<&str> = sorted.iter().map(|e| e.name.as_str()).collect();
    assert_eq!(names, vec!["B", "x", "X", "y"]);
    assert_eq!(sorted[1].path, "one");
    assert_eq!(sorted[2].path, "two");
    assert!(name_less_or_equal(&"abc".to_string(), &"ABD".to_string()));
    assert!(!name_less_or_equal(&"b".to_string(), &"A".to_string()));
}

#[test]
fn exec_bits() {
    assert!(has_exec_bits(0o755));
    assert!(has_exec_bits(0o001));
    assert!(!has_exec_bits(0o644));
}

#[test]
fn exec_extensions() {
    assert!(has_exec_extension(&"exe".to_string()));
    assert!(has_exec_extension(&"cmd".to_string()));
    assert!(!has_exec_extension(&"EXE".to_string()));
    assert!(!has_exec_extension(&"rs".to_string()));
}

#[test]
fn visible_length_counts_stray_escape() {
    assert_eq!(visible_length("\x1b[12x ab"), 8);
    assert_eq!(visible_length("a\x1b"), 2);
}

#[test]
fn tilde_is_split_off() {
    assert_eq!(tilde_suffix("~/docs"), Some("docs".to_string()));
    assert_eq!(tilde_suffix("~"), Some(String::new()));
    assert_eq!(tilde_suffix("./x"), None);
}

#[test]
fn relative_paths() {
    assert_eq!(relative_display(&"/a/b/c".to_string(), &"/a".to_string()), "b/c");
    assert_eq!(relative_display(&"x".to_string(), &"/a".to_string()), "x");
}
