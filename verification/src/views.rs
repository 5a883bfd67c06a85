//! The lines the interface draws.
//!
//! Each screen is rendered into a list of text lines, one per terminal
//! row, with ANSI styling sequences in front where the theme asks for
//! them. Writing them to the terminal is the application's part.

use vstd::prelude::*;
use crate::datetime::display_outcome;
use crate::feed::Article;
use crate::text::{decimal, decimal_string, concat, push_char, trim_seq};
use crate::config::Theme;
use crate::tui::{App, FeedScope, LogTab, Screen, capped, color_opt, min_int, row_from, sat, sum_totals, sum_unread};

verus! {

/// `n` spaces.
pub open spec fn spaces(n: nat) -> Seq<char> {
    Seq::new(n, |i: int| ' ')
}

/// The text, padded with spaces on the right to `w` characters
/// (`{:<w}`).
pub open spec fn pad_right(s: Seq<char>, w: nat) -> Seq<char> {
    if s.len() < w {
        s + spaces((w - s.len()) as nat)
    } else {
        s
    }
}

/// The text, padded with spaces on the left to `w` characters (`{:>w}`).
pub open spec fn pad_left(s: Seq<char>, w: nat) -> Seq<char> {
    if s.len() < w {
        spaces((w - s.len()) as nat) + s
    } else {
        s
    }
}

/// The first `w` characters of the text.
pub open spec fn truncated(s: Seq<char>, w: nat) -> Seq<char> {
    if s.len() <= w {
        s
    } else {
        s.take(w as int)
    }
}

/// The text with each line break (`\n` or `\r`) made a space.
pub open spec fn stripped(s: Seq<char>) -> Seq<char> {
    Seq::new(s.len(), |i: int| if s[i] == '\n' || s[i] == '\r' { ' ' } else { s[i] })
}

/// Appends `n` spaces.
fn push_spaces(s: &mut String, n: usize)
    ensures
        final(s)@ == old(s)@ + spaces(n as nat),
{
    let mut i: usize = 0;
    while i < n
        invariant
            i <= n,
            s@ == old(s)@ + spaces(i as nat),
        decreases n - i,
    {
        push_char(s, ' ');
        assert(old(s)@ + spaces((i + 1) as nat) =~= (old(s)@ + spaces(i as nat)).push(' '));
        i = i + 1;
    }
}

/// Pads on the right to `w` characters.
pub fn pad_right_text(s: &str, w: usize) -> (r: String)
    ensures
        r@ == pad_right(s@, w as nat),
{
    let n = crate::text::chars_of(s).len();
    let mut r = s.to_owned();
    if n < w {
        push_spaces(&mut r, w - n);
    }
    r
}

/// Pads on the left to `w` characters.
pub fn pad_left_text(s: &str, w: usize) -> (r: String)
    ensures
        r@ == pad_left(s@, w as nat),
{
    let n = crate::text::chars_of(s).len();
    let mut r = String::new();
    if n < w {
        push_spaces(&mut r, w - n);
    }
    r.append(s);
    proof {
        if !(n < w) {
            assert(r@ =~= s@);
        }
    }
    r
}

/// Cuts a text to its first `width` characters.
pub fn truncate(s: &str, width: usize) -> (r: String)
    ensures
        r@ == truncated(s@, width as nat),
{
    let cs = crate::text::chars_of(s);
    if cs.len() <= width {
        s.to_owned()
    } else {
        let mut kept: Vec<char> = Vec::new();
        let mut i: usize = 0;
        while i < width
            invariant
                i <= width,
                width < cs@.len(),
                kept@ == cs@.take(i as int),
            decreases width - i,
        {
            kept.push(cs[i]);
            assert(cs@.take(i + 1) =~= cs@.take(i as int).push(cs@[i as int]));
            i = i + 1;
        }
        crate::text::string_of(kept.as_slice())
    }
}

/// Makes each line break of a text a space, so that it fits on one line.
pub fn strip_newlines(s: &str) -> (r: String)
    ensures
        r@ == stripped(s@),
{
    let cs = crate::text::chars_of(s);
    let mut out: Vec<char> = Vec::new();
    let mut i: usize = 0;
    while i < cs.len()
        invariant
            i <= cs@.len(),
            cs@ == s@,
            out@ == stripped(s@).take(i as int),
        decreases cs.len() - i,
    {
        let c = cs[i];
        out.push(
            if c == '\n' || c == '\r' {
                ' '
            } else {
                c
            },
        );
        assert(out@ =~= stripped(s@).take(i + 1));
        i = i + 1;
    }
    assert(stripped(s@).take(s@.len() as int) =~= stripped(s@));
    crate::text::string_of(out.as_slice())
}

/// The ANSI sequence that sets an RGB color: `38` for the foreground,
/// `48` for the background.
pub open spec fn color_seq(layer: Seq<char>, c: (u8, u8, u8)) -> Seq<char> {
    "\x1b["@ + layer + ";2;"@ + decimal(c.0 as nat) + ";"@ + decimal(c.1 as nat) + ";"@ + decimal(
        c.2 as nat,
    ) + "m"@
}

/// The styling put in front of a line: bold, the colors, and reverse
/// video when asked for and no color is set.
pub open spec fn style_prefix(
    fg: Option<(u8, u8, u8)>,
    bg: Option<(u8, u8, u8)>,
    bold: bool,
    reverse_fallback: bool,
) -> Seq<char> {
    (if bold {
        "\x1b[1m"@
    } else {
        seq![]
    }) + match fg {
        Some(c) => color_seq("38"@, c),
        None => seq![],
    } + match bg {
        Some(c) => color_seq("48"@, c),
        None => seq![],
    } + if reverse_fallback && fg is None && bg is None {
        "\x1b[7m"@
    } else {
        seq![]
    }
}

/// A styled line: the styling, then the text.
pub open spec fn styled(
    text: Seq<char>,
    fg: Option<(u8, u8, u8)>,
    bg: Option<(u8, u8, u8)>,
    bold: bool,
    reverse_fallback: bool,
) -> Seq<char> {
    style_prefix(fg, bg, bold, reverse_fallback) + text
}

/// Writes the sequence that sets an RGB color.
fn color_text(layer: &str, c: (u8, u8, u8)) -> (r: String)
    ensures
        r@ == color_seq(layer@, c),
{
    let mut r = concat("\x1b[", layer);
    r.append(";2;");
    r.append(decimal_string(c.0 as usize).as_str());
    r.append(";");
    r.append(decimal_string(c.1 as usize).as_str());
    r.append(";");
    r.append(decimal_string(c.2 as usize).as_str());
    r.append("m");
    proof {
        reveal_strlit("\x1b[");
        reveal_strlit(";2;");
        reveal_strlit(";");
        reveal_strlit("m");
    }
    r
}

/// Puts the styling in front of a line.
pub fn style_line(
    text: &str,
    fg: Option<(u8, u8, u8)>,
    bg: Option<(u8, u8, u8)>,
    bold: bool,
    reverse_fallback: bool,
) -> (r: String)
    ensures
        r@ == styled(text@, fg, bg, bold, reverse_fallback),
{
    proof {
        reveal_strlit("\x1b[1m");
        reveal_strlit("\x1b[7m");
        reveal_strlit("38");
        reveal_strlit("48");
    }
    let mut seq = String::new();
    if bold {
        seq.append("\x1b[1m");
    }
    match fg {
        Some(c) => seq.append(color_text("38", c).as_str()),
        None => {},
    }
    match bg {
        Some(c) => seq.append(color_text("48", c).as_str()),
        None => {},
    }
    if reverse_fallback && fg.is_none() && bg.is_none() {
        seq.append("\x1b[7m");
    }
    assert(seq@ =~= style_prefix(fg, bg, bold, reverse_fallback));
    seq.append(text);
    seq
}

/// The position of the first line feed, or the length if there is none.
pub open spec fn first_newline(s: Seq<char>) -> nat
    decreases s.len(),
{
    if s.len() == 0 || s[0] == '\n' {
        0
    } else {
        1 + first_newline(s.drop_first())
    }
}

/// A line without the carriage return that ended it, if any.
pub open spec fn without_cr(s: Seq<char>) -> Seq<char> {
    if s.len() > 0 && s.last() == '\r' {
        s.drop_last()
    } else {
        s
    }
}

/// The lines of a text, as `str::lines` gives them: split at each line
/// feed, a carriage return before it dropped, and no empty last line
/// after a final line feed.
pub open spec fn text_lines(s: Seq<char>) -> Seq<Seq<char>>
    decreases s.len(),
{
    if s.len() == 0 {
        seq![]
    } else if first_newline(s) < s.len() {
        seq![without_cr(s.take(first_newline(s) as int))] + text_lines(s.skip(first_newline(s) + 1int))
    } else {
        seq![s]
    }
}

proof fn lemma_first_newline(s: Seq<char>)
    ensures
        first_newline(s) <= s.len(),
        first_newline(s) < s.len() ==> s[first_newline(s) as int] == '\n',
        forall|i: int| 0 <= i < first_newline(s) ==> s[i] != '\n',
    decreases s.len(),
{
    if s.len() > 0 && s[0] != '\n' {
        lemma_first_newline(s.drop_first());
        assert forall|i: int| 0 <= i < first_newline(s) implies s[i] != '\n' by {
            if i > 0 {
                assert(s[i] == s.drop_first()[i - 1]);
            }
        }
    }
}

proof fn lemma_first_newline_at(s: Seq<char>, k: int)
    requires
        0 <= k <= s.len(),
        forall|i: int| 0 <= i < k ==> s[i] != '\n',
        k == s.len() || s[k] == '\n',
    ensures
        first_newline(s) == k,
    decreases s.len(),
{
    if s.len() > 0 && s[0] != '\n' {
        lemma_first_newline_at(s.drop_first(), k - 1);
    }
}

/// The text of the characters `lo..hi`.
fn text_between(cs: &Vec<char>, lo: usize, hi: usize) -> (r: String)
    requires
        lo <= hi <= cs@.len(),
    ensures
        r@ == cs@.subrange(lo as int, hi as int),
{
    let mut kept: Vec<char> = Vec::new();
    let mut i: usize = lo;
    while i < hi
        invariant
            lo <= i <= hi,
            hi <= cs@.len(),
            kept@ == cs@.subrange(lo as int, i as int),
        decreases hi - i,
    {
        kept.push(cs[i]);
        assert(cs@.subrange(lo as int, i + 1) =~= cs@.subrange(lo as int, i as int).push(cs@[i as int]));
        i = i + 1;
    }
    crate::text::string_of(kept.as_slice())
}

/// Splits a text into its lines, as `str::lines` does.
pub fn split_lines(s: &str) -> (r: Vec<String>)
    ensures
        r.deep_view() == text_lines(s@),
{
    let cs = crate::text::chars_of(s);
    let mut out: Vec<String> = Vec::new();
    let mut start: usize = 0;
    assert(s@.skip(0) =~= s@);
    assert(out.deep_view() =~= seq![]);
    assert(out.deep_view() + text_lines(s@.skip(0)) =~= text_lines(s@));
    while start < cs.len()
        invariant
            start <= cs@.len(),
            cs@ == s@,
            out.deep_view() + text_lines(s@.skip(start as int)) == text_lines(s@),
        decreases cs.len() - start,
    {
        let ghost rest = s@.skip(start as int);
        let mut k: usize = start;
        while k < cs.len() && cs[k] != '\n'
            invariant
                start <= k <= cs@.len(),
                cs@ == s@,
                forall|i: int| start <= i < k ==> cs@[i] != '\n',
            decreases cs.len() - k,
        {
            k = k + 1;
        }
        proof {
            lemma_first_newline_at(rest, k - start);
        }
        if k < cs.len() {
            let mut end = k;
            if end > start && cs[end - 1] == '\r' {
                end = end - 1;
            }
            let line = text_between(&cs, start, end);
            assert(line@ =~= without_cr(rest.take(k - start)));
            let ghost before = out.deep_view();
            out.push(line);
            assert(out.deep_view() =~= before.push(line@));
            assert(rest.skip(k - start + 1) =~= s@.skip(k + 1));
            assert(text_lines(rest) == seq![without_cr(rest.take(k - start))] + text_lines(s@.skip(k + 1)));
            assert(out.deep_view() + text_lines(s@.skip(k + 1)) =~= before + text_lines(rest));
            start = k + 1;
        } else {
            let line = text_between(&cs, start, k);
            assert(line@ =~= rest);
            let ghost before = out.deep_view();
            out.push(line);
            assert(out.deep_view() =~= before.push(line@));
            assert(s@.skip(k as int).len() == 0);
            assert(text_lines(s@.skip(k as int)) =~= seq![]);
            assert(out.deep_view() + text_lines(s@.skip(k as int)) =~= before + text_lines(rest));
            start = k;
        }
    }
    assert(text_lines(s@.skip(start as int)) =~= seq![]);
    assert(out.deep_view() =~= out.deep_view() + text_lines(s@.skip(start as int)));
    out
}

/// The lines, with empty ones added below until, with the status line
/// that follows, they fill the height.
pub open spec fn padded(lines: Seq<Seq<char>>, height: nat) -> Seq<Seq<char>> {
    lines + Seq::new(sat(sat(height as int, 1), lines.len() as int) as nat, |i: int| Seq::<char>::empty())
}

/// Adds empty lines until one more line fills the height.
fn pad_to(lines: &mut Vec<String>, height: usize)
    ensures
        final(lines).deep_view() == padded(old(lines).deep_view(), height as nat),
{
    let ghost start = lines.deep_view();
    while height > 0 && lines.len() < height - 1
        invariant
            start.len() <= lines.deep_view().len(),
            lines.deep_view().len() == start.len() || lines.deep_view().len() <= sat(height as int, 1),
            lines.deep_view() == padded(start, (lines.deep_view().len() + 1) as nat),
        decreases height - lines.len(),
    {
        let ghost before = lines.deep_view();
        lines.push(String::new());
        assert(lines.deep_view() =~= before.push(Seq::<char>::empty()));
        assert(lines.deep_view() =~= padded(start, (lines.deep_view().len() + 1) as nat));
    }
    assert(lines.deep_view() =~= padded(start, height as nat));
}

/// The date an article list shows for a publication date: the date in
/// the local zone, or `No date`.
pub open spec fn date_text(published: Option<String>, t: Seq<char>) -> bool {
    match published {
        None => t == "No date"@,
        Some(p) => exists|d: Option<String>|
            display_outcome(trim_seq(p@), d) && t == match d {
                Some(x) => x@,
                None => "No date"@,
            },
    }
}

/// Writes a publication date for a list.
fn shown_date(published: &Option<String>) -> (r: String)
    ensures
        date_text(*published, r@),
{
    proof {
        reveal_strlit("No date");
    }
    match published {
        Some(p) => {
            let d = crate::datetime::normalize_datetime_to_local(p.as_str());
            match d {
                Some(x) => x,
                None => "No date".to_owned(),
            }
        },
        None => "No date".to_owned(),
    }
}

/// An optional text, or `-`.
pub open spec fn or_dash(o: Option<String>) -> Seq<char> {
    match o {
        Some(s) => s@,
        None => "-"@,
    }
}

impl App {
    /// A header line in the theme's header color, bold.
    pub open spec fn header_style(self, s: Seq<char>) -> Seq<char> {
        styled(s, self.theme.header_fg, None, true, false)
    }

    /// A status line in the theme's status colors, or reversed.
    pub open spec fn status_style(self, s: Seq<char>) -> Seq<char> {
        styled(s, self.theme.status_fg, self.theme.status_bg, false, true)
    }

    /// A selected line in the theme's selection colors, or reversed.
    pub open spec fn selection_style(self, s: Seq<char>, bold: bool) -> Seq<char> {
        styled(s, self.theme.selection_fg, self.theme.selection_bg, bold, true)
    }

    /// An unread article's line, bold.
    pub open spec fn unread_style(self, s: Seq<char>) -> Seq<char> {
        styled(s, self.theme.bold_fg, None, true, false)
    }

    /// The name shown on a line of the feed list.
    pub open spec fn entry_name(self, idx: int) -> Seq<char> {
        if idx == 0 {
            "[All]"@
        } else if idx == 1 {
            "[Unread]"@
        } else if idx == self.log_row() {
            "[Log]"@
        } else {
            self.feeds@[idx - 2].name@
        }
    }

    /// The update time shown on a line of the feed list.
    pub open spec fn entry_updated(self, idx: int) -> Seq<char> {
        if idx == 0 || idx == 1 {
            or_dash(self.last_updated)
        } else if idx == self.log_row() {
            "-"@
        } else {
            or_dash(self.feeds@[idx - 2].last_updated)
        }
    }

    /// The article count shown on a line of the feed list.
    pub open spec fn entry_total(self, idx: int) -> nat {
        if idx == 0 {
            capped(sum_totals(self.feeds@)) as nat
        } else if idx == 1 {
            capped(sum_unread(self.feeds@)) as nat
        } else if idx == self.log_row() {
            0
        } else {
            self.feeds@[idx - 2].total as nat
        }
    }

    /// The unread count shown on a line of the feed list.
    pub open spec fn entry_unread(self, idx: int) -> nat {
        if idx == 0 || idx == 1 {
            capped(sum_unread(self.feeds@)) as nat
        } else if idx == self.log_row() {
            0
        } else {
            self.feeds@[idx - 2].unread as nat
        }
    }

    /// Whether a line of the feed list shows a fetch error.
    pub open spec fn entry_error(self, idx: int) -> bool {
        if idx == 0 || idx == 1 || idx == self.log_row() {
            false
        } else {
            self.feeds@[idx - 2].last_error is Some
        }
    }

    /// The text of a line of the feed list, before it is cut to width.
    pub open spec fn entry_text(self, idx: int) -> Seq<char> {
        (if idx == self.selected_feed {
            ">"@
        } else {
            " "@
        }) + " "@ + pad_right(self.entry_name(idx), 22) + " "@ + pad_right(self.entry_updated(idx), 19) + " "@
            + pad_left(decimal(self.entry_total(idx)), 5) + " total "@ + pad_left(decimal(self.entry_unread(idx)), 5)
            + " unread"@ + if self.entry_error(idx) {
            " !"@
        } else {
            ""@
        }
    }

    /// A line of the feed list as drawn.
    pub open spec fn entry_line(self, idx: int, width: nat) -> Seq<char> {
        if idx == self.selected_feed {
            self.selection_style(truncated(self.entry_text(idx), width), false)
        } else {
            truncated(self.entry_text(idx), width)
        }
    }

    /// The first line a list of `height` rows shows, for a selection.
    pub open spec fn first_shown(sel: usize, height: nat) -> int {
        sat(sel as int, sat(sat(height as int, 2), 1))
    }

    /// The lines of the feed list screen: its header, the lines around
    /// the selection that fit, and the status line at the bottom.
    pub open spec fn feed_list_lines(self, width: nat, height: nat) -> Seq<Seq<char>> {
        padded(
            seq![self.header_style(truncated(FEED_LIST_HEADER@, width))] + Seq::new(
                sat(
                    min_int(self.row_count(), App::first_shown(self.selected_feed, height) + sat(height as int, 2)),
                    App::first_shown(self.selected_feed, height),
                ) as nat,
                |k: int| self.entry_line(App::first_shown(self.selected_feed, height) + k, width),
            ),
            height,
        ) + seq![self.status_style(truncated(self.status@, width))]
    }
}

/// The header of the feed list.
pub const FEED_LIST_HEADER: &'static str = "Feeds (Enter open feed/log, g refresh, u mark read, ? help, q quit)";

impl App {
    /// Styles a header line.
    pub fn style_header(&self, s: &str) -> (r: String)
        ensures
            r@ == self.header_style(s@),
    {
        style_line(s, self.theme.header_fg, None, true, false)
    }

    /// Styles a status line.
    pub fn style_status(&self, s: &str) -> (r: String)
        ensures
            r@ == self.status_style(s@),
    {
        style_line(s, self.theme.status_fg, self.theme.status_bg, false, true)
    }

    /// Styles a selected line.
    pub fn style_selection(&self, s: &str, bold: bool) -> (r: String)
        ensures
            r@ == self.selection_style(s@, bold),
    {
        style_line(s, self.theme.selection_fg, self.theme.selection_bg, bold, true)
    }

    /// Styles an unread article's line.
    pub fn style_unread(&self, s: &str) -> (r: String)
        ensures
            r@ == self.unread_style(s@),
    {
        style_line(s, self.theme.bold_fg, None, true, false)
    }

    /// Writes the text of a line of the feed list.
    fn entry_text_of(&self, idx: usize) -> (r: String)
        requires
            self.fits(),
            idx < self.row_count(),
        ensures
            r@ == self.entry_text(idx as int),
    {
        proof {
            reveal_strlit("[All]");
            reveal_strlit("[Unread]");
            reveal_strlit("[Log]");
            reveal_strlit("-");
            reveal_strlit(">");
            reveal_strlit(" ");
            reveal_strlit(" total ");
            reveal_strlit(" unread");
            reveal_strlit(" !");
            reveal_strlit("");
        }
        let log_row = self.log_row_index();
        let (name, updated, total, unread, has_error) = if idx == 0 {
            (
                "[All]".to_owned(),
                match &self.last_updated {
                    Some(t) => t.clone(),
                    None => "-".to_owned(),
                },
                self.total_articles(),
                self.total_unread(),
                false,
            )
        } else if idx == 1 {
            (
                "[Unread]".to_owned(),
                match &self.last_updated {
                    Some(t) => t.clone(),
                    None => "-".to_owned(),
                },
                self.total_unread(),
                self.total_unread(),
                false,
            )
        } else if idx == log_row {
            ("[Log]".to_owned(), "-".to_owned(), 0, 0, false)
        } else {
            let feed = &self.feeds[idx - 2];
            (
                feed.name.clone(),
                match &feed.last_updated {
                    Some(t) => t.clone(),
                    None => "-".to_owned(),
                },
                feed.total,
                feed.unread,
                feed.last_error.is_some(),
            )
        };
        let mut line = if idx == self.selected_feed {
            ">".to_owned()
        } else {
            " ".to_owned()
        };
        line.append(" ");
        line.append(pad_right_text(name.as_str(), 22).as_str());
        line.append(" ");
        line.append(pad_right_text(updated.as_str(), 19).as_str());
        line.append(" ");
        line.append(pad_left_text(decimal_string(total).as_str(), 5).as_str());
        line.append(" total ");
        line.append(pad_left_text(decimal_string(unread).as_str(), 5).as_str());
        line.append(" unread");
        line.append(
            if has_error {
                " !"
            } else {
                ""
            },
        );
        line
    }

    /// Renders the feed list screen.
    pub fn render_feed_list(&self, width: usize, height: usize) -> (r: Vec<String>)
        requires
            self.fits(),
        ensures
            r.deep_view() == self.feed_list_lines(width as nat, height as nat),
    {
        let mut lines: Vec<String> = Vec::new();
        lines.push(self.style_header(truncate(FEED_LIST_HEADER, width).as_str()));
        let list_rows = height.saturating_sub(2);
        let start = self.selected_feed.saturating_sub(list_rows.saturating_sub(1));
        let count = self.feed_row_count();
        let end = if count <= start.saturating_add(list_rows) {
            count
        } else {
            start + list_rows
        };
        let n_shown = if end > start {
            end - start
        } else {
            0
        };
        let ghost shown = Seq::new(n_shown as nat, |k: int| self.entry_line(start + k, width as nat));
        assert(n_shown == sat(
            min_int(self.row_count(), App::first_shown(self.selected_feed, height as nat) + sat(height as int, 2)),
            App::first_shown(self.selected_feed, height as nat),
        ));
        let mut k: usize = 0;
        while k < n_shown
            invariant
                k <= n_shown,
                n_shown == 0 || start + n_shown <= count,
                count == self.row_count(),
                shown.len() == n_shown,
                forall|j: int| 0 <= j < n_shown ==> shown[j] == self.entry_line(start + j, width as nat),
                self.fits(),
                lines.deep_view() == seq![self.header_style(truncated(FEED_LIST_HEADER@, width as nat))]
                    + shown.take(k as int),
            decreases n_shown - k,
        {
            let idx = start + k;
            let text = truncate(self.entry_text_of(idx).as_str(), width);
            let line = if idx == self.selected_feed {
                self.style_selection(text.as_str(), false)
            } else {
                text
            };
            let ghost before = lines.deep_view();
            lines.push(line);
            assert(lines.deep_view() =~= before.push(line@));
            assert(shown.take(k + 1) =~= shown.take(k as int).push(shown[k as int]));
            k = k + 1;
        }
        assert(shown.take(k as int) =~= shown);
        pad_to(&mut lines, height);
        lines.push(self.style_status(truncate(self.status.as_str(), width).as_str()));
        lines
    }
}

impl App {
    /// The name an article list is titled with.
    pub open spec fn list_title(self) -> Seq<char> {
        match self.selected_feed_scope {
            Some(FeedScope::All) => "[All]"@,
            Some(FeedScope::Unread) => "[Unread]"@,
            Some(FeedScope::Feed(url)) => match row_from(self.feeds@, url@, 0) {
                Some(k) => self.feeds@[k].name@,
                None => "Articles"@,
            },
            None => "Articles"@,
        }
    }

    /// The header of the article list, before it is cut to width.
    pub open spec fn list_header(self) -> Seq<char> {
        self.list_title() + " (Enter open, / search, u toggle read, o open, q back)"@ + (if self.search@.len() > 0 {
            " [search: "@ + self.search@ + "]"@
        } else {
            ""@
        }) + if self.search_mode {
            " (typing search)"@
        } else {
            ""@
        }
    }

    /// Whether the list shows each article's feed: in the combined scopes.
    pub open spec fn shows_source(self) -> bool {
        match self.selected_feed_scope {
            Some(FeedScope::All) | Some(FeedScope::Unread) => true,
            _ => false,
        }
    }

    /// The text of the line for the article at position `li` of the
    /// list, with its date, before it is cut to width.
    pub open spec fn article_text(self, li: int, date: Seq<char>) -> Seq<char> {
        (if li == self.selected_article {
            ">"@
        } else {
            " "@
        }) + (if self.articles@[self.visible()[li] as int].read {
            " "@
        } else {
            "*"@
        }) + " ["@ + date + "] "@ + (if self.shows_source() {
            "["@ + stripped(self.articles@[self.visible()[li] as int].feed_name@) + "] "@
        } else {
            ""@
        }) + stripped(self.articles@[self.visible()[li] as int].title@)
    }

    /// The line for the article at position `li` of the list as drawn:
    /// selected, unread (bold), or plain.
    pub open spec fn article_line(self, li: int, date: Seq<char>, width: nat) -> Seq<char> {
        if li == self.selected_article {
            self.selection_style(
                truncated(self.article_text(li, date), width),
                !self.articles@[self.visible()[li] as int].read,
            )
        } else if !self.articles@[self.visible()[li] as int].read {
            self.unread_style(truncated(self.article_text(li, date), width))
        } else {
            truncated(self.article_text(li, date), width)
        }
    }

    /// How many articles the list screen shows.
    pub open spec fn articles_shown(self, height: nat) -> int {
        sat(
            min_int(self.visible().len() as int, App::first_shown(self.selected_article, height) + sat(height as int, 2)),
            App::first_shown(self.selected_article, height),
        )
    }

    /// The lines of the article list screen, given the dates shown.
    pub open spec fn article_list_lines(self, width: nat, height: nat, dates: Seq<Seq<char>>) -> Seq<Seq<char>> {
        padded(
            seq![self.header_style(truncated(self.list_header(), width))] + Seq::new(
                self.articles_shown(height) as nat,
                |k: int| self.article_line(App::first_shown(self.selected_article, height) + k, dates[k], width),
            ),
            height,
        ) + seq![
            self.status_style(
                truncated(
                    if self.visible().len() == 0 {
                        "No matching articles"@
                    } else {
                        self.status@
                    },
                    width,
                ),
            ),
        ]
    }

    /// Whether the lines are the article list screen, with each article's
    /// date as the local zone gives it.
    pub open spec fn article_list_ok(self, width: nat, height: nat, lines: Seq<Seq<char>>) -> bool {
        exists|dates: Seq<Seq<char>>|
            dates.len() == self.articles_shown(height) && (forall|k: int|
                0 <= k < dates.len() ==> date_text(
                    self.articles@[self.visible()[App::first_shown(self.selected_article, height) + k] as int].published,
                    #[trigger] dates[k],
                )) && lines == self.article_list_lines(width, height, dates)
    }

    /// Writes the header of the article list.
    fn list_header_text(&self) -> (r: String)
        ensures
            r@ == self.list_header(),
    {
        proof {
            reveal_strlit("[All]");
            reveal_strlit("[Unread]");
            reveal_strlit("Articles");
            reveal_strlit(" (Enter open, / search, u toggle read, o open, q back)");
            reveal_strlit(" [search: ");
            reveal_strlit("]");
            reveal_strlit(" (typing search)");
            reveal_strlit("");
        }
        let mut header = match &self.selected_feed_scope {
            Some(FeedScope::All) => "[All]".to_owned(),
            Some(FeedScope::Unread) => "[Unread]".to_owned(),
            Some(FeedScope::Feed(url)) => match crate::tui::find_feed_row(&self.feeds, url.as_str()) {
                Some(k) => self.feeds[k].name.clone(),
                None => "Articles".to_owned(),
            },
            None => "Articles".to_owned(),
        };
        header.append(" (Enter open, / search, u toggle read, o open, q back)");
        if !self.search.as_str().is_empty() {
            header.append(" [search: ");
            header.append(self.search.as_str());
            header.append("]");
        }
        if self.search_mode {
            header.append(" (typing search)");
        }
        proof {
            assert(header@ =~= self.list_header());
        }
        header
    }

    /// Writes the text of an article's line.
    fn article_text_of(&self, li: usize, visible: &Vec<usize>, date: &str) -> (r: String)
        requires
            visible@ == self.visible(),
            li < visible@.len(),
        ensures
            r@ == self.article_text(li as int, date@),
    {
        proof {
            reveal_strlit(">");
            reveal_strlit(" ");
            reveal_strlit("*");
            reveal_strlit(" [");
            reveal_strlit("] ");
            reveal_strlit("[");
            reveal_strlit("");
        }
        let n = self.articles.len();
        proof {
            crate::tui::lemma_visible_upto(self.articles@, self.search@, n as nat);
        }
        let a = &self.articles[visible[li]];
        let mut line = if li == self.selected_article {
            ">".to_owned()
        } else {
            " ".to_owned()
        };
        line.append(
            if a.read {
                " "
            } else {
                "*"
            },
        );
        line.append(" [");
        line.append(date);
        line.append("] ");
        let shows = match &self.selected_feed_scope {
            Some(FeedScope::All) | Some(FeedScope::Unread) => true,
            _ => false,
        };
        if shows {
            line.append("[");
            line.append(strip_newlines(a.feed_name.as_str()).as_str());
            line.append("] ");
        }
        line.append(strip_newlines(a.title.as_str()).as_str());
        proof {
            assert(line@ =~= self.article_text(li as int, date@));
        }
        line
    }

    /// Renders the article list screen.
    pub fn render_article_list(&self, width: usize, height: usize) -> (r: Vec<String>)
        ensures
            self.article_list_ok(width as nat, height as nat, r.deep_view()),
    {
        let mut lines: Vec<String> = Vec::new();
        lines.push(self.style_header(truncate(self.list_header_text().as_str(), width).as_str()));
        let visible = self.filtered_article_indices();
        let n = self.articles.len();
        proof {
            crate::tui::lemma_visible_upto(self.articles@, self.search@, n as nat);
        }
        let list_rows = height.saturating_sub(2);
        let start = self.selected_article.saturating_sub(list_rows.saturating_sub(1));
        let end = if visible.len() <= start.saturating_add(list_rows) {
            visible.len()
        } else {
            start + list_rows
        };
        let n_shown = if end > start {
            end - start
        } else {
            0
        };
        assert(n_shown == self.articles_shown(height as nat));
        let ghost mut dates: Seq<Seq<char>> = seq![];
        let mut k: usize = 0;
        while k < n_shown
            invariant
                k <= n_shown,
                n_shown == 0 || start + n_shown <= visible@.len(),
                visible@ == self.visible(),
                start == App::first_shown(self.selected_article, height as nat),
                n_shown == self.articles_shown(height as nat),
                dates.len() == k,
                forall|j: int|
                    0 <= j < k ==> date_text(
                        self.articles@[self.visible()[start + j] as int].published,
                        #[trigger] dates[j],
                    ),
                forall|j: int| 0 <= j < self.visible().len() ==> (#[trigger] self.visible()[j]) < self.articles@.len(),
                lines.deep_view() == seq![self.header_style(truncated(self.list_header(), width as nat))]
                    + Seq::new(k as nat, |j: int| self.article_line(start + j, dates[j], width as nat)),
            decreases n_shown - k,
        {
            let li = start + k;
            let a = &self.articles[visible[li]];
            let date = shown_date(&a.published);
            let text = truncate(self.article_text_of(li, &visible, date.as_str()).as_str(), width);
            let line = if li == self.selected_article {
                self.style_selection(text.as_str(), !a.read)
            } else if !a.read {
                self.style_unread(text.as_str())
            } else {
                text
            };
            let ghost before = lines.deep_view();
            let ghost old_dates = dates;
            proof {
                dates = dates.push(date@);
            }
            lines.push(line);
            assert(lines.deep_view() =~= before.push(line@));
            assert(lines.deep_view() =~= seq![self.header_style(truncated(self.list_header(), width as nat))]
                + Seq::new((k + 1) as nat, |j: int| self.article_line(start + j, dates[j], width as nat)));
            k = k + 1;
        }
        pad_to(&mut lines, height);
        let status = if visible.len() == 0 {
            truncate("No matching articles", width)
        } else {
            truncate(self.status.as_str(), width)
        };
        lines.push(self.style_status(status.as_str()));
        assert(lines.deep_view() =~= self.article_list_lines(width as nat, height as nat, dates));
        lines
    }
}

/// What `html2text::from_read` gives for an HTML text wrapped to a width:
/// the plain text, or none when it fails.
pub uninterp spec fn html_text(html: Seq<char>, width: usize) -> Option<Seq<char>>;

/// `html2text::from_read(html.as_bytes(), width)`: the HTML made plain
/// text wrapped to the width; its result is named [`html_text`], and
/// none stands for an error (a width too narrow for the content is one).
/// The `unwrap` and `panic!` calls on the way hold on values the same code
/// has just built, whatever the text: a heading's level is parsed from an
/// element name matched as `h1` to `h4`; a row's column map holds every
/// cell boundary, since a zero `colspan` is replaced by a positive one when
/// the table is built; a row's column sizes are set by the table layout
/// before its cells are rendered, and its children are table cells; the
/// column to narrow is picked from a non-empty list; and control
/// characters, which have no display width, are dropped before words are
/// wrapped (html2text's own tests wrap such text). So no text is known on
/// which it panics, and nothing is required of the text.
#[verifier::external_body]
fn html_to_text(html: &str, width: usize) -> (r: Option<String>)
    ensures
        match r {
            Some(t) => html_text(html@, width) == Some(t@),
            None => html_text(html@, width) is None,
        },
{
    match html2text::from_read(html.as_bytes(), width) {
        Ok(t) => Some(t),
        Err(_) => None,
    }
}

/// The lines of a text, each cut to width.
pub open spec fn cut_lines(ls: Seq<Seq<char>>, width: nat) -> Seq<Seq<char>> {
    Seq::new(ls.len(), |i: int| truncated(ls[i], width))
}

/// The lines from `start` on, at most `n` of them.
pub open spec fn window(ls: Seq<Seq<char>>, start: int, n: int) -> Seq<Seq<char>> {
    ls.subrange(start, min_int(start + n, ls.len() as int))
}

/// The HTML an article shows: its content, or its description when the
/// content is blank.
pub open spec fn article_html(a: Article) -> Seq<char> {
    if trim_seq(a.content@).len() == 0 {
        a.description@
    } else {
        a.content@
    }
}

/// Whether `t` is the body text of an article for a width: the HTML made
/// plain text at least 20 columns wide, or, when that fails, the HTML on
/// one line.
pub open spec fn body_text(a: Article, width: nat, t: Seq<char>) -> bool {
    t == match html_text(article_html(a), if width >= 20 {
        width as usize
    } else {
        20usize
    }) {
        Some(x) => x,
        None => stripped(article_html(a)),
    }
}

/// Whether `t` is the footer of an article: its link, and its date when
/// it has one.
pub open spec fn footer_text(a: Article, t: Seq<char>) -> bool {
    match a.published {
        None => t == a.link@,
        Some(p) => exists|d: Option<String>|
            display_outcome(trim_seq(p@), d) && t == a.link@ + " | "@ + match d {
                Some(x) => x@,
                None => "No date"@,
            },
    }
}

impl App {
    /// The lines of the article screen for the selected article, given its
    /// body text and footer: a header with its title and read state, the
    /// body lines from the scroll position on, and the footer.
    pub open spec fn article_view_lines(self, width: nat, height: nat, text: Seq<char>, footer: Seq<char>) -> Seq<Seq<char>> {
        match self.current() {
            None => seq![truncated("No article selected"@, width)],
            Some(i) => padded(
                seq![
                    self.header_style(
                        truncated(
                            stripped(self.articles@[i].title@) + " ["@ + (if self.articles@[i].read {
                                "read"@
                            } else {
                                "unread"@
                            }) + "] (q back, j/k scroll, PgUp/PgDn, n/p next/prev, u toggle, o open)"@,
                            width,
                        ),
                    ),
                ] + window(
                    cut_lines(text_lines(text), width),
                    min_int(self.article_scroll as int, text_lines(text).len() as int),
                    sat(height as int, 2),
                ),
                height,
            ) + seq![self.status_style(truncated(footer, width))],
        }
    }

    /// Whether the lines are the article screen, for some body text and
    /// footer of the selected article.
    pub open spec fn article_view_ok(self, width: nat, height: nat, lines: Seq<Seq<char>>) -> bool {
        match self.current() {
            None => lines == seq![truncated("No article selected"@, width)],
            Some(i) => exists|t: Seq<char>, f: Seq<char>|
                body_text(self.articles@[i], width, t) && footer_text(self.articles@[i], f) && lines
                    == self.article_view_lines(width, height, t, f),
        }
    }

    /// Renders the article screen from the selected article's body text
    /// and footer.
    pub fn article_view_from(&self, width: usize, height: usize, text: &str, footer: &str) -> (r: Vec<String>)
        ensures
            r.deep_view() == self.article_view_lines(width as nat, height as nat, text@, footer@),
    {
        proof {
            reveal_strlit(" [");
            reveal_strlit("read");
            reveal_strlit("unread");
            reveal_strlit("] (q back, j/k scroll, PgUp/PgDn, n/p next/prev, u toggle, o open)");
        }
        let mut lines: Vec<String> = Vec::new();
        let (title, read) = match self.current_article() {
            None => {
                lines.push(truncate("No article selected", width));
                assert(lines.deep_view() =~= seq![truncated("No article selected"@, width as nat)]);
                return lines;
            },
            Some(a) => (a.title.clone(), a.read),
        };
        let mut header = strip_newlines(title.as_str());
        header.append(" [");
        header.append(
            if read {
                "read"
            } else {
                "unread"
            },
        );
        header.append("] (q back, j/k scroll, PgUp/PgDn, n/p next/prev, u toggle, o open)");
        lines.push(self.style_header(truncate(header.as_str(), width).as_str()));
        let rendered = split_lines(text);
        let body_rows = height.saturating_sub(2);
        let start = if self.article_scroll <= rendered.len() {
            self.article_scroll
        } else {
            rendered.len()
        };
        let end = if rendered.len() - start <= body_rows {
            rendered.len()
        } else {
            start + body_rows
        };
        let ghost head = lines.deep_view();
        let ghost body = window(cut_lines(text_lines(text@), width as nat), start as int, body_rows as int);
        let mut i: usize = start;
        while i < end
            invariant
                start <= i <= end <= rendered.deep_view().len(),
                rendered.deep_view() == text_lines(text@),
                body == window(cut_lines(text_lines(text@), width as nat), start as int, body_rows as int),
                body.len() == end - start,
                lines.deep_view() == head + body.take(i - start),
            decreases end - i,
        {
            let line = truncate(rendered[i].as_str(), width);
            let ghost before = lines.deep_view();
            lines.push(line);
            assert(lines.deep_view() =~= before.push(line@));
            assert(body.take(i + 1 - start) =~= body.take(i - start).push(body[i - start]));
            i = i + 1;
        }
        assert(body.take(i - start) =~= body);
        let ghost before_pad = lines.deep_view();
        pad_to(&mut lines, height);
        lines.push(self.style_status(truncate(footer, width).as_str()));
        proof {
            let i = self.current()->Some_0;
            assert(start as int == min_int(self.article_scroll as int, text_lines(text@).len() as int));
            assert(head == seq![
                self.header_style(
                    truncated(
                        stripped(self.articles@[i].title@) + " ["@ + (if self.articles@[i].read {
                            "read"@
                        } else {
                            "unread"@
                        }) + "] (q back, j/k scroll, PgUp/PgDn, n/p next/prev, u toggle, o open)"@,
                        width as nat,
                    ),
                ),
            ]);
            assert(before_pad =~= head + body);
            assert(lines.deep_view() =~= self.article_view_lines(width as nat, height as nat, text@, footer@));
        }
        lines
    }

    /// Renders the article screen: the selected article's body made plain
    /// text, its header and its footer.
    pub fn render_article_view(&self, width: usize, height: usize) -> (r: Vec<String>)
        ensures
            self.article_view_ok(width as nat, height as nat, r.deep_view()),
    {
        proof {
            reveal_strlit(" | ");
            reveal_strlit("No date");
        }
        let (html, link, published) = match self.current_article() {
            None => return self.article_view_from(width, height, "", ""),
            Some(a) => {
                let html = if crate::text::trim(a.content.as_str()).as_str().is_empty() {
                    a.description.clone()
                } else {
                    a.content.clone()
                };
                (html, a.link.clone(), crate::feed::copy_opt(&a.published))
            },
        };
        let wrap = if width >= 20 {
            width
        } else {
            20
        };
        let text = match html_to_text(html.as_str(), wrap) {
            Some(t) => t,
            None => strip_newlines(html.as_str()),
        };
        let footer = match &published {
            Some(p) => {
                let mut f = concat(link.as_str(), " | ");
                match crate::datetime::normalize_datetime_to_local(p.as_str()) {
                    Some(d) => f.append(d.as_str()),
                    None => f.append("No date"),
                }
                f
            },
            None => link.clone(),
        };
        self.article_view_from(width, height, text.as_str(), footer.as_str())
    }
}

/// The help lines, one per key or group of keys.
pub open spec fn help_items() -> Seq<Seq<char>> {
    seq![
        "Global: ? help"@,
        "Global: q back/quit"@,
        "Global: g refresh"@,
        "Feed list: j/k/n/p or arrows move"@,
        "Feed list: Enter open feed or log"@,
        "Feed list: u mark feed read"@,
        "Article list: j/k/n/p or arrows move"@,
        "Article list: PgUp/PgDn page"@,
        "Article list: Home/End first/last"@,
        "Article list: Enter open article"@,
        "Article list: u toggle read"@,
        "Article list: o open in browser"@,
        "Article list: / search"@,
        "Article view: j/k or arrows scroll"@,
        "Article view: Space/PgDn page down, PgUp page up"@,
        "Article view: n/p next/previous article"@,
        "Article view: u toggle read"@,
        "Article view: o open in browser"@,
        "Log view: n news log, d debug log"@,
        "Log view: j/k scroll, PgUp/PgDn page, Home/End top/bottom"@,
        "Log view: q back"@,
        "Mouse: feed click selects, article click opens, wheel scrolls lists/view"@,
    ]
}

/// The help lines.
fn help_item_texts() -> (r: Vec<String>)
    ensures
        r.deep_view() == help_items(),
{
    let v = vec![
        "Global: ? help".to_owned(),
        "Global: q back/quit".to_owned(),
        "Global: g refresh".to_owned(),
        "Feed list: j/k/n/p or arrows move".to_owned(),
        "Feed list: Enter open feed or log".to_owned(),
        "Feed list: u mark feed read".to_owned(),
        "Article list: j/k/n/p or arrows move".to_owned(),
        "Article list: PgUp/PgDn page".to_owned(),
        "Article list: Home/End first/last".to_owned(),
        "Article list: Enter open article".to_owned(),
        "Article list: u toggle read".to_owned(),
        "Article list: o open in browser".to_owned(),
        "Article list: / search".to_owned(),
        "Article view: j/k or arrows scroll".to_owned(),
        "Article view: Space/PgDn page down, PgUp page up".to_owned(),
        "Article view: n/p next/previous article".to_owned(),
        "Article view: u toggle read".to_owned(),
        "Article view: o open in browser".to_owned(),
        "Log view: n news log, d debug log".to_owned(),
        "Log view: j/k scroll, PgUp/PgDn page, Home/End top/bottom".to_owned(),
        "Log view: q back".to_owned(),
        "Mouse: feed click selects, article click opens, wheel scrolls lists/view".to_owned(),
    ];
    assert(v.deep_view() =~= help_items());
    v
}

impl App {
    /// The lines of the help screen.
    pub open spec fn help_lines(self, width: nat, height: nat) -> Seq<Seq<char>> {
        padded(
            seq![self.header_style(truncated("Help (q to close)"@, width))] + cut_lines(help_items(), width),
            height,
        ) + seq![self.status_style(truncated(self.status@, width))]
    }

    /// Renders the help screen.
    pub fn render_help(&self, width: usize, height: usize) -> (r: Vec<String>)
        ensures
            r.deep_view() == self.help_lines(width as nat, height as nat),
    {
        let mut lines: Vec<String> = Vec::new();
        lines.push(self.style_header(truncate("Help (q to close)", width).as_str()));
        let items = help_item_texts();
        let mut i: usize = 0;
        while i < items.len()
            invariant
                i <= items.deep_view().len(),
                items.deep_view() == help_items(),
                lines.deep_view() == seq![self.header_style(truncated("Help (q to close)"@, width as nat))]
                    + cut_lines(help_items(), width as nat).take(i as int),
            decreases items.len() - i,
        {
            let line = truncate(items[i].as_str(), width);
            let ghost before = lines.deep_view();
            lines.push(line);
            assert(lines.deep_view() =~= before.push(line@));
            assert(cut_lines(help_items(), width as nat).take(i + 1) =~= cut_lines(help_items(), width as nat).take(
                i as int,
            ).push(truncated(help_items()[i as int], width as nat)));
            i = i + 1;
        }
        assert(cut_lines(help_items(), width as nat).take(i as int) =~= cut_lines(help_items(), width as nat));
        pad_to(&mut lines, height);
        lines.push(self.style_status(truncate(self.status.as_str(), width).as_str()));
        lines
    }

    /// The lines the log screen shows: the log's lines cut to width, or a
    /// note that it is empty.
    pub open spec fn log_body(log_text: Seq<char>, width: nat) -> Seq<Seq<char>> {
        if log_text.len() == 0 {
            seq!["Log is empty"@]
        } else {
            cut_lines(text_lines(log_text), width)
        }
    }

    /// The lines of the log screen, for the text of the log file and its
    /// path: a header naming the tab, the lines from the scroll position on
    /// (never past the last page), and a count of the lines.
    pub open spec fn log_view_lines(self, width: nat, height: nat, log_text: Seq<char>, path: Seq<char>) -> Seq<
        Seq<char>,
    > {
        padded(
            seq![
                self.header_style(
                    truncated(
                        (if self.log_tab == LogTab::News {
                            "[News Log]"@
                        } else {
                            "[Debug Log]"@
                        }) + " (n news, d debug, j/k scroll, PgUp/PgDn, q back)"@,
                        width,
                    ),
                ),
            ] + window(
                App::log_body(log_text, width),
                min_int(
                    self.log_scroll as int,
                    sat(
                        App::log_body(log_text, width).len() as int,
                        if sat(height as int, 2) >= 1 {
                            sat(height as int, 2)
                        } else {
                            1
                        },
                    ),
                ),
                sat(height as int, 2),
            ),
            height,
        ) + seq![
            self.status_style(
                truncated(decimal(App::log_body(log_text, width).len()) + " lines | "@ + path, width),
            ),
        ]
    }

    /// Renders the log screen from the log file's text and its path.
    pub fn render_log_view(&self, width: usize, height: usize, log_text: &str, path: &str) -> (r: Vec<String>)
        ensures
            r.deep_view() == self.log_view_lines(width as nat, height as nat, log_text@, path@),
    {
        proof {
            reveal_strlit("[News Log]");
            reveal_strlit("[Debug Log]");
            reveal_strlit(" (n news, d debug, j/k scroll, PgUp/PgDn, q back)");
            reveal_strlit(" lines | ");
        }
        let mut lines: Vec<String> = Vec::new();
        let mut header = match self.log_tab {
            LogTab::News => "[News Log]".to_owned(),
            LogTab::Debug => "[Debug Log]".to_owned(),
        };
        header.append(" (n news, d debug, j/k scroll, PgUp/PgDn, q back)");
        lines.push(self.style_header(truncate(header.as_str(), width).as_str()));
        let mut rendered: Vec<String> = Vec::new();
        if log_text.is_empty() {
            rendered.push("Log is empty".to_owned());
            assert(rendered.deep_view() =~= App::log_body(log_text@, width as nat));
        } else {
            let raw = split_lines(log_text);
            let mut i: usize = 0;
            while i < raw.len()
                invariant
                    i <= raw.deep_view().len(),
                    raw.deep_view() == text_lines(log_text@),
                    rendered.deep_view() == cut_lines(text_lines(log_text@), width as nat).take(i as int),
                decreases raw.len() - i,
            {
                let line = truncate(raw[i].as_str(), width);
                let ghost before = rendered.deep_view();
                rendered.push(line);
                assert(rendered.deep_view() =~= before.push(line@));
                assert(cut_lines(text_lines(log_text@), width as nat).take(i + 1) =~= cut_lines(
                    text_lines(log_text@),
                    width as nat,
                ).take(i as int).push(truncated(text_lines(log_text@)[i as int], width as nat)));
                i = i + 1;
            }
            assert(cut_lines(text_lines(log_text@), width as nat).take(i as int) =~= cut_lines(
                text_lines(log_text@),
                width as nat,
            ));
        }
        let body_rows = height.saturating_sub(2);
        let page = if body_rows >= 1 {
            body_rows
        } else {
            1
        };
        let last_start = rendered.len().saturating_sub(page);
        let start = if self.log_scroll <= last_start {
            self.log_scroll
        } else {
            last_start
        };
        let end = if rendered.len() - start <= body_rows {
            rendered.len()
        } else {
            start + body_rows
        };
        let ghost head = lines.deep_view();
        let ghost body = window(App::log_body(log_text@, width as nat), start as int, body_rows as int);
        let mut i: usize = start;
        while i < end
            invariant
                start <= i <= end <= rendered.deep_view().len(),
                rendered.deep_view() == App::log_body(log_text@, width as nat),
                body == window(App::log_body(log_text@, width as nat), start as int, body_rows as int),
                body.len() == end - start,
                lines.deep_view() == head + body.take(i - start),
            decreases end - i,
        {
            let line = rendered[i].clone();
            let ghost before = lines.deep_view();
            lines.push(line);
            assert(lines.deep_view() =~= before.push(line@));
            assert(body.take(i + 1 - start) =~= body.take(i - start).push(body[i - start]));
            i = i + 1;
        }
        assert(body.take(i - start) =~= body);
        let ghost before_pad = lines.deep_view();
        assert(before_pad =~= head + body);
        pad_to(&mut lines, height);
        let mut status = decimal_string(rendered.len());
        status.append(" lines | ");
        status.append(path);
        lines.push(self.style_status(truncate(status.as_str(), width).as_str()));
        proof {
            assert(header@ == (if self.log_tab == LogTab::News {
                "[News Log]"@
            } else {
                "[Debug Log]"@
            }) + " (n news, d debug, j/k scroll, PgUp/PgDn, q back)"@);
            assert(start as int == min_int(
                self.log_scroll as int,
                sat(
                    App::log_body(log_text@, width as nat).len() as int,
                    if sat(height as int, 2) >= 1 {
                        sat(height as int, 2)
                    } else {
                        1
                    },
                ),
            ));
            assert(head == seq![self.header_style(truncated(header@, width as nat))]);
            assert(rendered.deep_view().len() == rendered@.len());
            assert(status@ == decimal(App::log_body(log_text@, width as nat).len()) + " lines | "@ + path@);
            assert(lines.deep_view() =~= self.log_view_lines(width as nat, height as nat, log_text@, path@));
        }
        lines
    }
}

impl App {
    /// The line at the top of every screen.
    pub open spec fn top_line(self, width: nat) -> Seq<char> {
        self.header_style(
            truncated(
                "Timmy's News Console - Last Updated "@ + match self.last_updated {
                    Some(t) => t@,
                    None => "never"@,
                },
                width,
            ),
        )
    }

    /// Whether the lines are a full frame of the screen the interface
    /// shows: the top line, then the screen's own lines below it.
    pub open spec fn frame_ok(
        self,
        width: nat,
        height: nat,
        log_text: Seq<char>,
        log_path: Seq<char>,
        lines: Seq<Seq<char>>,
    ) -> bool {
        &&& lines.len() > 0
        &&& lines[0] == self.top_line(width)
        &&& match self.screen {
            Screen::FeedList => lines.drop_first() == self.feed_list_lines(width, sat(height as int, 1) as nat),
            Screen::ArticleList => self.article_list_ok(width, sat(height as int, 1) as nat, lines.drop_first()),
            Screen::ArticleView => self.article_view_ok(width, sat(height as int, 1) as nat, lines.drop_first()),
            Screen::Log => lines.drop_first() == self.log_view_lines(
                width,
                sat(height as int, 1) as nat,
                log_text,
                log_path,
            ),
            Screen::Help => lines.drop_first() == self.help_lines(width, sat(height as int, 1) as nat),
        }
    }

    /// The frame to draw, when the interface needs drawing: it records the
    /// terminal's size and renders the screen. The log screen shows the
    /// given text of the log file of its tab.
    pub fn draw_frame(&mut self, width: usize, height: usize, log_text: &str, log_path: &str) -> (r: Option<
        Vec<String>,
    >)
        requires
            old(self).fits(),
        ensures
            !old(self).pending_redraw ==> r is None && *final(self) == *old(self),
            old(self).pending_redraw ==> {
                &&& *final(self) == (App { last_size: (width, height), ..*old(self) })
                &&& r matches Some(ls) && final(self).frame_ok(width as nat, height as nat, log_text@, log_path@, ls.deep_view())
            },
    {
        if !self.pending_redraw {
            return None;
        }
        self.last_size = (width, height);
        let mut top = "Timmy's News Console - Last Updated ".to_owned();
        match &self.last_updated {
            Some(t) => top.append(t.as_str()),
            None => top.append("never"),
        }
        let mut lines: Vec<String> = Vec::new();
        lines.push(self.style_header(truncate(top.as_str(), width).as_str()));
        let content_height = height.saturating_sub(1);
        let content = match self.screen {
            Screen::FeedList => self.render_feed_list(width, content_height),
            Screen::ArticleList => self.render_article_list(width, content_height),
            Screen::ArticleView => self.render_article_view(width, content_height),
            Screen::Log => self.render_log_view(width, content_height, log_text, log_path),
            Screen::Help => self.render_help(width, content_height),
        };
        let mut i: usize = 0;
        let ghost head = lines.deep_view();
        while i < content.len()
            invariant
                i <= content.deep_view().len(),
                lines.deep_view() == head + content.deep_view().take(i as int),
            decreases content.len() - i,
        {
            let ghost before = lines.deep_view();
            lines.push(content[i].clone());
            assert(lines.deep_view() =~= before.push(content.deep_view()[i as int]));
            assert(content.deep_view().take(i + 1) =~= content.deep_view().take(i as int).push(
                content.deep_view()[i as int],
            ));
            i = i + 1;
        }
        proof {
            reveal_strlit("Timmy's News Console - Last Updated ");
            reveal_strlit("never");
            assert(content.deep_view().take(i as int) =~= content.deep_view());
            assert(lines.deep_view().drop_first() =~= content.deep_view());
        }
        Some(lines)
    }

    /// Records that the frame was drawn.
    pub fn frame_shown(&mut self)
        ensures
            *final(self) == (App { pending_redraw: false, ..*old(self) }),
    {
        self.pending_redraw = false;
    }
}

/// The sequence that sets the theme's base colors, background then
/// foreground, for each that is configured and reads as a color.
pub open spec fn base_sequence(t: Theme) -> Seq<char> {
    (match color_opt(t.bg) {
        Some(c) => color_seq("48"@, c),
        None => seq![],
    }) + match color_opt(t.fg) {
        Some(c) => color_seq("38"@, c),
        None => seq![],
    }
}

/// Writes the sequence that sets the theme's base colors.
pub fn base_theme_sequence(theme: &Theme) -> (r: String)
    ensures
        r@ == base_sequence(*theme),
{
    let mut seq = String::new();
    match crate::tui::parse_color_opt(&theme.bg) {
        Some(c) => seq.append(color_text("48", c).as_str()),
        None => {},
    }
    match crate::tui::parse_color_opt(&theme.fg) {
        Some(c) => seq.append(color_text("38", c).as_str()),
        None => {},
    }
    proof {
        assert(seq@ =~= base_sequence(*theme));
    }
    seq
}

/// The bytes that draw one line: the line is cleared, the base colors
/// set, the line written, the rest of the row cleared and the style reset.
pub open spec fn screen_row(base: Seq<char>, line: Seq<char>) -> Seq<char> {
    "\x1b[2K"@ + base + line + "\x1b[K\x1b[0m\r\n"@
}

/// The rows of a frame, one after the other.
pub open spec fn screen_rows(base: Seq<char>, lines: Seq<Seq<char>>) -> Seq<char>
    decreases lines.len(),
{
    if lines.len() == 0 {
        seq![]
    } else {
        screen_rows(base, lines.drop_last()) + screen_row(base, lines.last())
    }
}

/// The output that draws a frame: the cursor sent home and the screen
/// cleared, then each line.
pub open spec fn screen_output(base: Seq<char>, lines: Seq<Seq<char>>) -> Seq<char> {
    "\x1b[H\x1b[2J"@ + screen_rows(base, lines)
}

/// Writes the output that draws a frame on the terminal.
pub fn frame_output(base: &str, lines: &Vec<String>) -> (r: String)
    ensures
        r@ == screen_output(base@, lines.deep_view()),
{
    let mut out = "\x1b[H\x1b[2J".to_owned();
    let mut i: usize = 0;
    while i < lines.len()
        invariant
            i <= lines.deep_view().len(),
            out@ == "\x1b[H\x1b[2J"@ + screen_rows(base@, lines.deep_view().take(i as int)),
        decreases lines.len() - i,
    {
        assert(lines.deep_view().take(i + 1).drop_last() =~= lines.deep_view().take(i as int));
        assert(lines.deep_view().take(i + 1).last() == lines@[i as int]@);
        out.append("\x1b[2K");
        out.append(base);
        out.append(lines[i].as_str());
        out.append("\x1b[K\x1b[0m\r\n");
        assert(out@ =~= "\x1b[H\x1b[2J"@ + screen_rows(base@, lines.deep_view().take(i + 1)));
        i = i + 1;
    }
    assert(lines.deep_view().take(i as int) =~= lines.deep_view());
    out
}

} // verus!
