//! Configuration values and their validation.
//!
//! Reading `config.toml` from disk and decoding it is done by the
//! application; the library holds the decoded values, their defaults and
//! the checks that a loaded configuration has to pass.

use vstd::prelude::*;

verus! {

/// The decoded configuration file.
#[derive(Debug)]
pub struct Config {
    pub ui: UiConfig,
    pub theme: Theme,
    pub feeds: Vec<FeedConfig>,
}

/// The `[ui]` table.
#[derive(Debug)]
pub struct UiConfig {
    pub page_size: usize,
    pub scrolloff: usize,
    pub mouse: bool,
    pub sync_interval_secs: u64,
    pub browser: Option<String>,
}

/// The `[theme]` table: each entry, when present, is a `#RRGGBB` color.
#[derive(Debug)]
pub struct Theme {
    pub bg: Option<String>,
    pub fg: Option<String>,
    pub bold_fg: Option<String>,
    pub selection_bg: Option<String>,
    pub selection_fg: Option<String>,
    pub status_bg: Option<String>,
    pub status_fg: Option<String>,
    pub header_fg: Option<String>,
}

/// One `[[feed]]` entry.
#[derive(Debug)]
pub struct FeedConfig {
    pub name: String,
    pub url: String,
}

impl FeedConfig {
    /// A copy of this entry.
    pub fn duplicate(&self) -> (r: FeedConfig)
        ensures
            r == *self,
    {
        FeedConfig { name: self.name.clone(), url: self.url.clone() }
    }
}

/// Default number of rows shown per page.
pub fn default_page_size() -> (r: usize)
    ensures
        r == 100,
{
    100
}

/// Default number of context rows kept around the selection.
pub fn default_scrolloff() -> (r: usize)
    ensures
        r == 0,
{
    0
}

/// Default of the boolean switches that are on unless turned off.
pub fn default_true() -> (r: bool)
    ensures
        r,
{
    true
}

/// Default refresh interval, in seconds.
pub fn default_sync_interval() -> (r: u64)
    ensures
        r == 300,
{
    300
}

impl UiConfig {
    /// The `[ui]` table of a configuration file that has none.
    pub fn default_values() -> (r: UiConfig)
        ensures
            r.page_size == 100,
            r.scrolloff == 0,
            r.mouse,
            r.sync_interval_secs == 300,
            r.browser is None,
    {
        UiConfig {
            page_size: default_page_size(),
            scrolloff: default_scrolloff(),
            mouse: default_true(),
            sync_interval_secs: default_sync_interval(),
            browser: None,
        }
    }
}

impl Theme {
    /// A theme with no color set.
    pub fn empty() -> (r: Theme)
        ensures
            r.bg is None && r.fg is None && r.bold_fg is None && r.selection_bg is None,
            r.selection_fg is None && r.status_bg is None && r.status_fg is None,
            r.header_fg is None,
    {
        Theme {
            bg: None,
            fg: None,
            bold_fg: None,
            selection_bg: None,
            selection_fg: None,
            status_bg: None,
            status_fg: None,
            header_fg: None,
        }
    }
}

/// Value of an ASCII hexadecimal digit.
pub open spec fn hex_digit_value(c: char) -> Option<u8> {
    if '0' <= c && c <= '9' {
        Some((c as u32 - '0' as u32) as u8)
    } else if 'a' <= c && c <= 'f' {
        Some((c as u32 - 'a' as u32 + 10) as u8)
    } else if 'A' <= c && c <= 'F' {
        Some((c as u32 - 'A' as u32 + 10) as u8)
    } else {
        None
    }
}

/// A two-character field read as a base-16 `u8`: two hexadecimal digits.
pub open spec fn hex_pair_value(a: char, b: char) -> Option<u8> {
    match (hex_digit_value(a), hex_digit_value(b)) {
        (Some(x), Some(y)) => Some((x * 16 + y) as u8),
        _ => None,
    }
}

/// The length in bytes of a string's UTF-8 encoding, as `str::len` gives it.
pub open spec fn byte_len(s: Seq<char>) -> usize {
    vstd::utf8::encode_utf8(s).len() as usize
}

/// Whether a color has the shape `#` followed by six more bytes.
pub open spec fn color_shape_ok(s: Seq<char>) -> bool {
    &&& byte_len(s) == 7
    &&& s.len() > 0
    &&& s[0] == '#'
}

/// The message for a color that does not have the `#RRGGBB` shape.
pub open spec fn color_shape_error(s: Seq<char>) -> Seq<char> {
    "invalid color '"@ + s + "': expected #RRGGBB"@
}

/// The message for a color with the right shape but a bad component.
pub open spec fn color_value_error(s: Seq<char>) -> Seq<char> {
    "invalid color '"@ + s + "'"@
}

/// The components of a `#RRGGBB` color, when all three read as base-16.
pub open spec fn color_components(s: Seq<char>) -> Option<(u8, u8, u8)> {
    if vstd::utf8::is_ascii_chars(s) && s.len() == 7 {
        match (hex_pair_value(s[1], s[2]), hex_pair_value(s[3], s[4]), hex_pair_value(s[5], s[6])) {
            (Some(r), Some(g), Some(b)) => Some((r, g, b)),
            _ => None,
        }
    } else {
        None
    }
}

/// Reads one hexadecimal digit.
fn hex_digit(c: char) -> (r: Option<u8>)
    ensures
        r == hex_digit_value(c),
{
    if '0' <= c && c <= '9' {
        Some((c as u32 - '0' as u32) as u8)
    } else if 'a' <= c && c <= 'f' {
        Some((c as u32 - 'a' as u32 + 10) as u8)
    } else if 'A' <= c && c <= 'F' {
        Some((c as u32 - 'A' as u32 + 10) as u8)
    } else {
        None
    }
}

/// Reads a two-character base-16 field.
fn hex_pair(a: char, b: char) -> (r: Option<u8>)
    ensures
        r == hex_pair_value(a, b),
{
    match (hex_digit(a), hex_digit(b)) {
        (Some(x), Some(y)) => Some(x * 16 + y),
        _ => None,
    }
}

impl Theme {
    /// Parses a `#RRGGBB` color into its red, green and blue components.
    ///
    /// A string whose UTF-8 length is not seven bytes, or that does not
    /// start with `#`, gets the "expected #RRGGBB" message; one whose six
    /// characters after the `#` are not all hexadecimal digits gets the
    /// shorter message.
    pub fn parse_color(hex: &str) -> (r: Result<(u8, u8, u8), String>)
        ensures
            !color_shape_ok(hex@) ==> (r matches Err(e) && e@ == color_shape_error(hex@)),
            color_shape_ok(hex@) ==> match color_components(hex@) {
                Some(c) => r == Ok::<(u8, u8, u8), String>(c),
                None => (r matches Err(e) && e@ == color_value_error(hex@)),
            },
    {
        let cs = crate::text::chars_of(hex);
        if hex.len() != 7 || cs.len() == 0 || cs[0] != '#' {
            let mut m = "invalid color '".to_owned();
            m.append(hex);
            m.append("': expected #RRGGBB");
            return Err(m);
        }
        let parsed = if hex.is_ascii() && cs.len() == 7 {
            match (hex_pair(cs[1], cs[2]), hex_pair(cs[3], cs[4]), hex_pair(cs[5], cs[6])) {
                (Some(r), Some(g), Some(b)) => Some((r, g, b)),
                _ => None,
            }
        } else {
            None
        };
        match parsed {
            Some(c) => Ok(c),
            None => {
                let mut m = "invalid color '".to_owned();
                m.append(hex);
                m.append("'");
                Err(m)
            },
        }
    }
}

/// The message `parse_color` gives for a color it refuses.
pub open spec fn color_error(s: Seq<char>) -> Seq<char> {
    if !color_shape_ok(s) {
        color_shape_error(s)
    } else {
        color_value_error(s)
    }
}

/// Whether a configured color is absent or reads as `#RRGGBB`.
pub open spec fn color_ok(v: Option<String>) -> bool {
    match v {
        Some(h) => color_shape_ok(h@) && color_components(h@) is Some,
        None => true,
    }
}

/// The theme's entries, by name, in the order they are checked.
pub open spec fn theme_entries(t: Theme) -> Seq<(Seq<char>, Option<String>)> {
    seq![
        ("bg"@, t.bg),
        ("fg"@, t.fg),
        ("bold_fg"@, t.bold_fg),
        ("selection_bg"@, t.selection_bg),
        ("selection_fg"@, t.selection_fg),
        ("status_bg"@, t.status_bg),
        ("status_fg"@, t.status_fg),
        ("header_fg"@, t.header_fg),
    ]
}

/// The first theme entry, from `i` on, that is not a color.
pub open spec fn first_bad_entry(es: Seq<(Seq<char>, Option<String>)>, i: int) -> Option<int>
    decreases es.len() - i,
{
    if i < 0 || i >= es.len() {
        None
    } else if !color_ok(es[i].1) {
        Some(i)
    } else {
        first_bad_entry(es, i + 1)
    }
}

/// What checking a loaded configuration answers: at least one feed must
/// be configured, and each configured theme color must read as a color;
/// the first that does not is reported by its name.
pub open spec fn validation(c: Config) -> Result<(), Seq<char>> {
    if c.feeds@.len() == 0 {
        Err("no [[feed]] entries in config"@)
    } else {
        match first_bad_entry(theme_entries(c.theme), 0) {
            Some(k) => Err(
                "theme."@ + theme_entries(c.theme)[k].0 + ": "@ + color_error(theme_entries(c.theme)[k].1->Some_0@),
            ),
            None => Ok(()),
        }
    }
}

/// Checks one theme entry.
fn check_color(name: &str, v: &Option<String>) -> (r: Result<(), String>)
    ensures
        match r {
            Ok(()) => color_ok(*v),
            Err(e) => !color_ok(*v) && e@ == "theme."@ + name@ + ": "@ + color_error(v->Some_0@),
        },
{
    match v {
        Some(h) => match Theme::parse_color(h.as_str()) {
            Ok(_) => Ok(()),
            Err(e) => {
                let mut m = "theme.".to_owned();
                m.append(name);
                m.append(": ");
                m.append(e.as_str());
                proof {
                    reveal_strlit("theme.");
                    reveal_strlit(": ");
                }
                Err(m)
            },
        },
        None => Ok(()),
    }
}

impl Config {
    /// Checks a loaded configuration: it names at least one feed, and its
    /// theme colors read as `#RRGGBB`.
    pub fn validate(&self) -> (r: Result<(), String>)
        ensures
            match (r, validation(*self)) {
                (Ok(()), Ok(())) => true,
                (Err(e), Err(m)) => e@ == m,
                _ => false,
            },
    {
        if self.feeds.len() == 0 {
            proof {
                reveal_strlit("no [[feed]] entries in config");
            }
            return Err("no [[feed]] entries in config".to_owned());
        }
        let ghost es = theme_entries(self.theme);
        proof {
            reveal_strlit("bg");
            reveal_strlit("fg");
            reveal_strlit("bold_fg");
            reveal_strlit("selection_bg");
            reveal_strlit("selection_fg");
            reveal_strlit("status_bg");
            reveal_strlit("status_fg");
            reveal_strlit("header_fg");
            reveal_with_fuel(first_bad_entry, 9);
        }
        check_color("bg", &self.theme.bg)?;
        check_color("fg", &self.theme.fg)?;
        check_color("bold_fg", &self.theme.bold_fg)?;
        check_color("selection_bg", &self.theme.selection_bg)?;
        check_color("selection_fg", &self.theme.selection_fg)?;
        check_color("status_bg", &self.theme.status_bg)?;
        check_color("status_fg", &self.theme.status_fg)?;
        check_color("header_fg", &self.theme.header_fg)?;
        Ok(())
    }
}

} // verus!
