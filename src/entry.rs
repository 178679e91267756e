use vstd::prelude::*;
use vstd::string::*;
use crate::color::{colored, format_with_color, lower_of, to_lower};
use crate::config::Config;
use crate::icon::{resolve_icon, resolved_icon};

verus! {

/// Fallback glyph of a file.
pub const FILE_GLYPH: &'static str = "\u{ea7b}";
/// Fallback glyph of a folder.
pub const FOLDER_GLYPH: &'static str = "\u{e5ff}";
/// Glyph of an entry whose metadata could not be read.
pub const DEAD_LINK_GLYPH: &'static str = "\u{f481}";

/// What the listing reads of an entry's metadata.
pub struct EntryMeta {
    pub is_dir: bool,
    pub size: u64,
    pub executable: bool,
}

/// One listed path, split into the parts that rendering looks up.
pub struct Entry {
    /// The path as it was listed.
    pub path: String,
    /// The parent directory, as displayed relative to the listed directory.
    pub parent: String,
    /// The last component.
    pub name: String,
    /// The extension of `name`, empty where it has none.
    pub extension: String,
    /// Absent where the metadata could not be read (a broken link).
    pub meta: Option<EntryMeta>,
}

/// The text bytesize's `Display` gives a byte count.
pub uninterp spec fn size_text(bytes: u64) -> Seq<char>;

/// What pathdiff's `diff_paths` makes of a path and a base.
pub uninterp spec fn relative_path_of(path: Seq<char>, base: Seq<char>) -> Option<Seq<char>>;

/// Relies on bytesize's `ByteSize::b` and its `Display`: the human-readable size.
#[verifier::external_body]
fn human_size(bytes: u64) -> (r: String)
    ensures
        r@ == size_text(bytes),
{
    bytesize::ByteSize::b(bytes).to_string()
}

/// Relies on pathdiff's `diff_paths`: `path` relative to `base`, where one exists.
#[verifier::external_body]
fn diff_paths(path: &str, base: &str) -> (r: Option<String>)
    ensures
        r is Some == relative_path_of(path@, base@) is Some,
        r is Some ==> r->0@ == relative_path_of(path@, base@)->0,
{
    match pathdiff::diff_paths(path, base) {
        Some(p) => Some(p.to_string_lossy().into_owned()),
        None => None,
    }
}

pub open spec fn relative_or_self(path: Seq<char>, base: Seq<char>) -> Seq<char> {
    match relative_path_of(path, base) {
        Some(p) => p,
        None => path,
    }
}

/// `path` relative to `base`, or `path` itself where no relative path exists.
pub fn relative_display(path: &String, base: &String) -> (r: String)
    ensures
        r@ == relative_or_self(path@, base@),
{
    match diff_paths(path.as_str(), base.as_str()) {
        Some(p) => p,
        None => path.clone(),
    }
}

/// The extension of a program on systems that mark programs by extension.
pub fn has_exec_extension(ext: &String) -> (r: bool)
    ensures
        r == (ext@ == "exe"@ || ext@ == "bat"@ || ext@ == "cmd"@),
{
    *ext == "exe".to_string() || *ext == "bat".to_string() || *ext == "cmd".to_string()
}

/// The execute bit of owner, group or others is set in a POSIX mode.
pub fn has_exec_bits(mode: u32) -> (r: bool)
    ensures
        r == (mode % 2 == 1 || (mode / 8) % 2 == 1 || (mode / 64) % 2 == 1),
{
    assert((mode & 0o111 != 0) == (mode % 2 == 1 || (mode / 8) % 2 == 1 || (mode / 64) % 2 == 1))
        by (bit_vector);
    mode & 0o111 != 0
}

pub open spec fn starts_with_dot(s: Seq<char>) -> bool {
    s.len() > 0 && s[0] == '.'
}

/// The extension key: a dot and the lowercased extension.
pub open spec fn dotted(ext: Seq<char>) -> Seq<char> {
    "."@ + lower_of(ext)
}

pub open spec fn without_spaces(s: Seq<char>) -> Seq<char>
    decreases s.len(),
{
    if s.len() == 0 {
        s
    } else if s.last() == ' ' {
        without_spaces(s.drop_last())
    } else {
        without_spaces(s.drop_last()).push(s.last())
    }
}

pub open spec fn file_queries(e: Entry) -> Seq<Seq<char>> {
    seq![e.parent@ + "/"@ + e.name@, e.name@, dotted(e.extension@), "file"@]
}

pub open spec fn dir_queries(e: Entry) -> Seq<Seq<char>> {
    seq![e.name@, dotted(e.extension@), "folder"@]
}

pub open spec fn file_class(executable: bool, name: Seq<char>) -> Seq<char> {
    if executable {
        "executable_file"@
    } else if starts_with_dot(name) {
        "hidden"@
    } else {
        "file"@
    }
}

pub open spec fn dir_class(name: Seq<char>) -> Seq<char> {
    if starts_with_dot(name) {
        "hidden_dir"@
    } else {
        "dir"@
    }
}

pub open spec fn file_line(c: Config, e: Entry, m: EntryMeta, color: bool) -> Seq<char> {
    let icon = resolved_icon(c.files@, c.aliases@, FILE_GLYPH@, file_queries(e));
    colored(c.colors@, "  "@ + icon + " "@ + e.name@, file_class(m.executable, e.name@), color)
        + " "@ + colored(c.colors@, without_spaces(size_text(m.size)), "file_size"@, color)
}

pub open spec fn dir_line(c: Config, e: Entry, color: bool) -> Seq<char> {
    let icon = resolved_icon(c.folders@, c.aliases@, FOLDER_GLYPH@, dir_queries(e));
    colored(c.colors@, "  "@ + icon + " "@ + e.name@ + "/"@, dir_class(e.name@), color)
}

pub open spec fn dead_line(c: Config, e: Entry, color: bool) -> Seq<char> {
    colored(c.colors@, "  "@ + DEAD_LINK_GLYPH@ +  " "@ + e.name@, "dead_link"@, color)
}

/// The rendered line of an entry.
pub open spec fn entry_line(c: Config, e: Entry, color: bool) -> Seq<char> {
    match e.meta {
        None => dead_line(c, e, color),
        Some(m) => if m.is_dir {
            dir_line(c, e, color)
        } else {
            file_line(c, e, m, color)
        },
    }
}

fn remove_spaces(s: &String) -> (r: String)
    ensures
        r@ == without_spaces(s@),
{
    let n = s.as_str().unicode_len();
    let mut out = String::new();
    let mut i: usize = 0;
    while i < n
        invariant
            n == s@.len(),
            i <= n,
            out@ == without_spaces(s@.take(i as int)),
        decreases n - i,
    {
        let c = s.as_str().get_char(i);
        assert(s@.take(i + 1).drop_last() =~= s@.take(i as int));
        if c != ' ' {
            let piece = s.as_str().substring_char(i, i + 1);
            out.append(piece);
            assert(out@ =~= without_spaces(s@.take(i + 1)));
        }
        i = i + 1;
    }
    assert(s@.take(n as int) =~= s@);
    out
}

/// `"  {icon} {name}"`, the start of every line.
fn icon_and_name(icon: &String, name: &String) -> (r: String)
    ensures
        r@ == "  "@ + icon@ + " "@ + name@,
{
    let mut t = "  ".to_string();
    t.append(icon.as_str());
    t.append(" ");
    t.append(name.as_str());
    t
}

fn extension_key(extension: &String) -> (r: String)
    ensures
        r@ == dotted(extension@),
{
    let mut t = ".".to_string();
    let lowered = to_lower(extension.as_str());
    t.append(lowered.as_str());
    t
}

/// The line of a file: icon, name, and its size under the `file_size` class.
pub fn build_file_entry(config: &Config, meta: &EntryMeta, entry: &Entry, color_enabled: bool) -> (r:
    String)
    ensures
        r@ == file_line(*config, *entry, *meta, color_enabled),
{
    let mut composite = entry.parent.clone();
    composite.append("/");
    composite.append(entry.name.as_str());
    let queries = vec![composite, entry.name.clone(), extension_key(&entry.extension), "file".to_string()];
    assert(crate::icon::views_of(queries@) =~= file_queries(*entry));
    let icon = resolve_icon(&config.files, &config.aliases, FILE_GLYPH, queries);
    let size = remove_spaces(&human_size(meta.size));
    let class = if meta.executable {
        "executable_file"
    } else if entry.name.as_str().unicode_len() > 0 && entry.name.as_str().get_char(0) == '.' {
        "hidden"
    } else {
        "file"
    };
    let mut line = format_with_color(config, icon_and_name(&icon, &entry.name), class, color_enabled);
    line.append(" ");
    let sized = format_with_color(config, size, "file_size", color_enabled);
    line.append(sized.as_str());
    line
}

/// The line of a directory: icon, name and a trailing slash.
pub fn build_dir_entry(config: &Config, entry: &Entry, color_enabled: bool) -> (r: String)
    ensures
        r@ == dir_line(*config, *entry, color_enabled),
{
    let queries = vec![entry.name.clone(), extension_key(&entry.extension), "folder".to_string()];
    assert(crate::icon::views_of(queries@) =~= dir_queries(*entry));
    let icon = resolve_icon(&config.folders, &config.aliases, FOLDER_GLYPH, queries);
    let class = if entry.name.as_str().unicode_len() > 0 && entry.name.as_str().get_char(0) == '.' {
        "hidden_dir"
    } else {
        "dir"
    };
    let mut text = icon_and_name(&icon, &entry.name);
    text.append("/");
    format_with_color(config, text, class, color_enabled)
}

/// The line of any entry; one without metadata is a dead link, whatever its name.
pub fn render_entry(config: &Config, entry: &Entry, color_enabled: bool) -> (r: String)
    ensures
        r@ == entry_line(*config, *entry, color_enabled),
{
    match &entry.meta {
        None => {
            let text = icon_and_name(&DEAD_LINK_GLYPH.to_string(), &entry.name);
            format_with_color(config, text, "dead_link", color_enabled)
        },
        Some(meta) => if meta.is_dir {
            build_dir_entry(config, entry, color_enabled)
        } else {
            build_file_entry(config, meta, entry, color_enabled)
        },
    }
}

/// Whether an entry stays listed: a directory whose lowercased name is an
/// ignored folder, or a file whose lowercased name or extension key is an
/// ignored file, is dropped; without metadata both lists apply.
pub open spec fn kept(e: Entry, folders: Seq<Seq<char>>, files: Seq<Seq<char>>) -> bool {
    let b = lower_of(e.name@);
    let x = dotted(e.extension@);
    match e.meta {
        Some(m) => if m.is_dir {
            !folders.contains(b)
        } else {
            !(files.contains(b) || files.contains(x))
        },
        None => !(files.contains(b) || files.contains(x) || folders.contains(b)),
    }
}

fn holds(v: &Vec<String>, s: &String) -> (r: bool)
    ensures
        r == crate::icon::views_of(v@).contains(s@),
{
    let ghost w = crate::icon::views_of(v@);
    let mut i: usize = 0;
    while i < v.len()
        invariant
            i <= v@.len(),
            w == crate::icon::views_of(v@),
            forall|j: int| 0 <= j < i ==> w[j] != s@,
        decreases v@.len() - i,
    {
        if v[i] == *s {
            assert(w[i as int] == s@);
            return true;
        }
        i = i + 1;
    }
    false
}

/// See `kept`; the lists are expected lowercased.
pub fn ignore_entry(entry: &Entry, folders: &Vec<String>, files: &Vec<String>) -> (r: bool)
    ensures
        r == kept(*entry, crate::icon::views_of(folders@), crate::icon::views_of(files@)),
{
    let basename = to_lower(entry.name.as_str());
    let extname = extension_key(&entry.extension);
    match &entry.meta {
        Some(meta) => if meta.is_dir {
            !holds(folders, &basename)
        } else {
            !(holds(files, &basename) || holds(files, &extname))
        },
        None => !(holds(files, &basename) || holds(files, &extname) || holds(folders, &basename)),
    }
}

} // verus!
