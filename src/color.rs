use vstd::prelude::*;
use vstd::string::*;
use crossterm::style::{Color, Colored, SetForegroundColor};
use crossterm::Command;
use crate::config::Config;

verus! {

pub const BLACK: u8 = 0;
pub const RED: u8 = 1;
pub const GREEN: u8 = 2;
pub const YELLOW: u8 = 3;
pub const BLUE: u8 = 4;
pub const MAGENTA: u8 = 5;
pub const CYAN: u8 = 6;
pub const WHITE: u8 = 7;
pub const GREY: u8 = 8;
pub const DARK_RED: u8 = 9;
pub const DARK_GREEN: u8 = 10;
pub const DARK_YELLOW: u8 = 11;
pub const DARK_BLUE: u8 = 12;
pub const DARK_MAGENTA: u8 = 13;
pub const DARK_CYAN: u8 = 14;
pub const DARK_GREY: u8 = 15;

/// What `str::to_lowercase` makes of a string.
pub uninterp spec fn lower_of(s: Seq<char>) -> Seq<char>;

/// The index of a palette color among the 256 ANSI colors, in decimal.
pub open spec fn ansi_index(code: u8) -> Seq<char> {
    if code == BLACK { "0"@ }
    else if code == RED { "9"@ }
    else if code == GREEN { "10"@ }
    else if code == YELLOW { "11"@ }
    else if code == BLUE { "12"@ }
    else if code == MAGENTA { "13"@ }
    else if code == CYAN { "14"@ }
    else if code == WHITE { "15"@ }
    else if code == GREY { "7"@ }
    else if code == DARK_RED { "1"@ }
    else if code == DARK_GREEN { "2"@ }
    else if code == DARK_YELLOW { "3"@ }
    else if code == DARK_BLUE { "4"@ }
    else if code == DARK_MAGENTA { "5"@ }
    else if code == DARK_CYAN { "6"@ }
    else { "8"@ }
}

/// `text` between the sequence that sets the foreground color `code` and the
/// one that resets it.
pub open spec fn painted(text: Seq<char>, code: u8) -> Seq<char> {
    "\x1b[38;5;"@ + ansi_index(code) + "m"@ + text + "\x1b[39m"@
}

/// Relies on `str::to_lowercase`: the result depends on the characters alone.
#[verifier::external_body]
pub(crate) fn to_lower(s: &str) -> (r: String)
    ensures
        r@ == lower_of(s@),
{
    s.to_lowercase()
}

/// Relies on crossterm's `SetForegroundColor::write_ansi` (through `Colored`'s
/// `Display`): `ESC[38;5;<n>m` for the palette color `code`. The caller decides
/// whether to color at all, so crossterm's process-wide `NO_COLOR` switch is
/// first set off with `Colored::set_ansi_color_disabled`; this stays in effect
/// for the rest of the process.
#[verifier::external_body]
fn fg_sequence(code: u8) -> (r: String)
    requires
        code <= DARK_GREY,
    ensures
        r@ == "\x1b[38;5;"@ + ansi_index(code) + "m"@,
{
    Colored::set_ansi_color_disabled(false);
    let palette = [
        Color::Black, Color::Red, Color::Green, Color::Yellow, Color::Blue, Color::Magenta,
        Color::Cyan, Color::White, Color::Grey, Color::DarkRed, Color::DarkGreen,
        Color::DarkYellow, Color::DarkBlue, Color::DarkMagenta, Color::DarkCyan, Color::DarkGrey,
    ];
    let mut s = String::new();
    SetForegroundColor(palette[code as usize]).write_ansi(&mut s).unwrap();
    s
}

/// Relies on crossterm's `SetForegroundColor(Color::Reset)::write_ansi`:
/// `ESC[39m`. Sets crossterm's `NO_COLOR` switch off first, as `fg_sequence` does.
#[verifier::external_body]
fn reset_sequence() -> (r: String)
    ensures
        r@ == "\x1b[39m"@,
{
    Colored::set_ansi_color_disabled(false);
    let mut s = String::new();
    SetForegroundColor(Color::Reset).write_ansi(&mut s).unwrap();
    s
}

/// `text` in the palette color `code`, reset afterwards.
fn paint(text: &str, code: u8) -> (r: String)
    requires
        code <= DARK_GREY,
    ensures
        r@ == painted(text@, code),
{
    let mut r = fg_sequence(code);
    r.append(text);
    let reset = reset_sequence();
    r.append(reset.as_str());
    r
}

/// The palette code of an already lowercased color name; unknown names are black.
pub open spec fn code_of(name: Seq<char>) -> u8 {
    if name == "red"@ { RED }
    else if name == "green"@ { GREEN }
    else if name == "yellow"@ { YELLOW }
    else if name == "blue"@ { BLUE }
    else if name == "magenta"@ { MAGENTA }
    else if name == "cyan"@ { CYAN }
    else if name == "white"@ { WHITE }
    else if name == "grey"@ { GREY }
    else if name == "darkred"@ { DARK_RED }
    else if name == "darkgreen"@ { DARK_GREEN }
    else if name == "darkyellow"@ { DARK_YELLOW }
    else if name == "darkblue"@ { DARK_BLUE }
    else if name == "darkmagenta"@ { DARK_MAGENTA }
    else if name == "darkcyan"@ { DARK_CYAN }
    else if name == "darkgrey"@ { DARK_GREY }
    else { BLACK }
}

fn is_named(s: &String, name: &str) -> (r: bool)
    ensures
        r == (s@ == name@),
{
    *s == name.to_string()
}

/// The palette code of a color name, in any letter case.
pub fn get_color_from_string(color_name: &str) -> (r: u8)
    ensures
        r == code_of(lower_of(color_name@)),
        r <= DARK_GREY,
{
    let n = to_lower(color_name);
    if is_named(&n, "red") { RED }
    else if is_named(&n, "green") { GREEN }
    else if is_named(&n, "yellow") { YELLOW }
    else if is_named(&n, "blue") { BLUE }
    else if is_named(&n, "magenta") { MAGENTA }
    else if is_named(&n, "cyan") { CYAN }
    else if is_named(&n, "white") { WHITE }
    else if is_named(&n, "grey") { GREY }
    else if is_named(&n, "darkred") { DARK_RED }
    else if is_named(&n, "darkgreen") { DARK_GREEN }
    else if is_named(&n, "darkyellow") { DARK_YELLOW }
    else if is_named(&n, "darkblue") { DARK_BLUE }
    else if is_named(&n, "darkmagenta") { DARK_MAGENTA }
    else if is_named(&n, "darkcyan") { DARK_CYAN }
    else if is_named(&n, "darkgrey") { DARK_GREY }
    else { BLACK }
}

/// The color name that `colors` gives a class, `black` where it gives none.
pub open spec fn class_color(colors: Map<Seq<char>, Seq<char>>, class: Seq<char>) -> Seq<char> {
    if colors.contains_key(class) {
        colors[class]
    } else {
        "black"@
    }
}

/// `message` as it is printed under the color class `class`.
pub open spec fn colored(
    colors: Map<Seq<char>, Seq<char>>,
    message: Seq<char>,
    class: Seq<char>,
    color_enabled: bool,
) -> Seq<char> {
    if color_enabled {
        painted(message, code_of(lower_of(class_color(colors, class))))
    } else {
        message
    }
}

/// Colors `message` by the class `name` where the output supports color.
pub fn format_with_color(config: &Config, message: String, name: &str, color_enabled: bool) -> (r:
    String)
    ensures
        r@ == colored(config.colors@, message@, name@, color_enabled),
{
    if color_enabled {
        let color_name = match config.colors.get(&name.to_string()) {
            Some(c) => c,
            None => "black".to_string(),
        };
        let code = get_color_from_string(color_name.as_str());
        paint(message.as_str(), code)
    } else {
        message
    }
}

} // verus!
