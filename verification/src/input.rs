//! Decoding the terminal's input bytes into keys and mouse events.
//!
//! The application reads standard input one byte at a time and hands each
//! byte to [`decode_byte`], which keeps the state of a partly read escape
//! sequence in a [`KeyDecoder`].

use vstd::prelude::*;

verus! {

/// A key the interface responds to.
#[derive(Debug, Clone, Copy, PartialEq, Eq)]
pub enum Key {
    Char(char),
    Enter,
    Backspace,
    Up,
    Down,
    PageUp,
    PageDown,
    Home,
    End,
}

/// A mouse action (SGR mouse reporting).
#[derive(Debug, Clone, Copy, PartialEq, Eq)]
pub enum MouseEvent {
    LeftClick { row: usize },
    ScrollUp,
    ScrollDown,
}

/// One input event.
#[derive(Debug, Clone, Copy, PartialEq, Eq)]
pub enum InputEvent {
    Key(Key),
    Mouse(MouseEvent),
}

/// Whether a byte is an ASCII decimal digit.
pub open spec fn is_digit(b: u8) -> bool {
    48 <= b && b <= 57
}

/// The value of a string of decimal digits.
pub open spec fn digits_value(ds: Seq<u8>) -> nat
    decreases ds.len(),
{
    if ds.len() == 0 {
        0
    } else {
        digits_value(ds.drop_last()) * 10 + (ds.last() - 48) as nat
    }
}

/// The digits of a field: the field without its leading `+`, if any.
pub open spec fn digits_part(f: Seq<u8>) -> Seq<u8> {
    if f.len() > 0 && f[0] == 43 {
        f.drop_first()
    } else {
        f
    }
}

/// Whether every byte is a decimal digit.
pub open spec fn all_digits(ds: Seq<u8>) -> bool {
    forall|i: int| 0 <= i < ds.len() ==> is_digit(#[trigger] ds[i])
}

/// A field read as `usize` the way `str::parse` reads it: an optional `+`,
/// then one or more digits, with a value that fits.
pub open spec fn parse_usize_field(f: Seq<u8>) -> Option<usize> {
    let ds = digits_part(f);
    if ds.len() == 0 || !all_digits(ds) || digits_value(ds) > usize::MAX {
        None
    } else {
        Some(digits_value(ds) as usize)
    }
}

proof fn lemma_digits_grow(ds: Seq<u8>, i: int)
    requires
        0 <= i <= ds.len(),
        all_digits(ds),
    ensures
        digits_value(ds.take(i)) <= digits_value(ds),
    decreases ds.len() - i,
{
    if i < ds.len() {
        lemma_digits_grow(ds, i + 1);
        assert(ds.take(i + 1).drop_last() =~= ds.take(i));
    } else {
        assert(ds.take(i) =~= ds);
    }
}

proof fn lemma_bad_digit(f: Seq<u8>, k: int)
    requires
        0 <= k < digits_part(f).len(),
        !is_digit(digits_part(f)[k]),
    ensures
        parse_usize_field(f) is None,
{
    assert(!all_digits(digits_part(f)));
}

proof fn lemma_too_large(f: Seq<u8>, k: int)
    requires
        0 <= k <= digits_part(f).len(),
        digits_value(digits_part(f).take(k)) > usize::MAX,
    ensures
        parse_usize_field(f) is None,
{
    if all_digits(digits_part(f)) {
        lemma_digits_grow(digits_part(f), k);
    }
}

/// Reads a field as `usize`.
pub fn parse_usize_bytes(f: &[u8]) -> (r: Option<usize>)
    ensures
        r == parse_usize_field(f@),
{
    let start: usize = if f.len() > 0 && f[0] == 43 { 1 } else { 0 };
    let ghost ds = digits_part(f@);
    assert(ds =~= f@.skip(start as int));
    if start == f.len() {
        return None;
    }
    let mut v: usize = 0;
    let mut i: usize = start;
    while i < f.len()
        invariant
            start <= i <= f.len(),
            ds == digits_part(f@),
            ds =~= f@.skip(start as int),
            forall|j: int| 0 <= j < i - start ==> is_digit(#[trigger] ds[j]),
            v as nat == digits_value(ds.take(i - start)),
        decreases f.len() - i,
    {
        let b = f[i];
        assert(ds[i - start] == b);
        if !(48 <= b && b <= 57) {
            proof {
                lemma_bad_digit(f@, i - start);
            }
            return None;
        }
        assert(ds.take(i - start + 1).drop_last() =~= ds.take(i - start));
        assert(digits_value(ds.take(i - start + 1)) == v * 10 + (b - 48));
        match v.checked_mul(10) {
            Some(m) => match m.checked_add((b - 48) as usize) {
                Some(n) => {
                    v = n;
                },
                None => {
                    proof {
                        lemma_too_large(f@, i - start + 1);
                    }
                    return None;
                },
            },
            None => {
                proof {
                    lemma_too_large(f@, i - start + 1);
                }
                return None;
            },
        }
        i = i + 1;
    }
    assert(ds.take(ds.len() as int) =~= ds);
    Some(v)
}

/// Where the first field of a `;`-separated text ends.
pub open spec fn field_end(bs: Seq<u8>) -> nat
    decreases bs.len(),
{
    if bs.len() == 0 || bs[0] == 59 {
        0
    } else {
        1 + field_end(bs.drop_first())
    }
}

/// The first field of a `;`-separated text.
pub open spec fn first_field(bs: Seq<u8>) -> Seq<u8> {
    bs.take(field_end(bs) as int)
}

/// The text after the first `;`, if there is one.
pub open spec fn after_field(bs: Seq<u8>) -> Option<Seq<u8>> {
    if field_end(bs) < bs.len() {
        Some(bs.skip(field_end(bs) as int + 1))
    } else {
        None
    }
}

proof fn lemma_field_end_bound(bs: Seq<u8>)
    ensures
        field_end(bs) <= bs.len(),
        field_end(bs) < bs.len() ==> bs[field_end(bs) as int] == 59,
    decreases bs.len(),
{
    if bs.len() > 0 && bs[0] != 59 {
        lemma_field_end_bound(bs.drop_first());
    }
}

/// Splits off the first field.
fn split_field(bs: &[u8]) -> (r: (Vec<u8>, Option<Vec<u8>>))
    ensures
        r.0@ == first_field(bs@),
        match (r.1, after_field(bs@)) {
            (Some(a), Some(b)) => a@ == b,
            (None, None) => true,
            _ => false,
        },
{
    let mut i: usize = 0;
    assert(bs@.skip(0) =~= bs@);
    while i < bs.len() && bs[i] != 59
        invariant
            i <= bs.len(),
            field_end(bs@) == i + field_end(bs@.skip(i as int)),
        decreases bs.len() - i,
    {
        assert(bs@.skip(i as int).drop_first() =~= bs@.skip(i + 1));
        i = i + 1;
    }
    proof {
        lemma_field_end_bound(bs@);
    }
    let mut head: Vec<u8> = Vec::new();
    let mut k: usize = 0;
    while k < i
        invariant
            k <= i <= bs.len(),
            head@ == bs@.take(k as int),
        decreases i - k,
    {
        head.push(bs[k]);
        assert(bs@.take(k + 1) =~= bs@.take(k as int).push(bs@[k as int]));
        k = k + 1;
    }
    if i == bs.len() {
        return (head, None);
    }
    let mut tail: Vec<u8> = Vec::new();
    let mut k: usize = i + 1;
    while k < bs.len()
        invariant
            i + 1 <= k <= bs.len(),
            tail@ == bs@.subrange(i + 1, k as int),
        decreases bs.len() - k,
    {
        tail.push(bs[k]);
        assert(bs@.subrange(i + 1, k + 1) =~= bs@.subrange(i + 1, k as int).push(bs@[k as int]));
        k = k + 1;
    }
    assert(bs@.subrange(i + 1, bs@.len() as int) =~= bs@.skip(i + 1));
    (head, Some(tail))
}

/// `std::str::from_utf8(bytes).is_ok()`: whether the bytes are valid UTF-8.
#[verifier::external_body]
fn utf8_valid(bytes: &[u8]) -> (r: bool)
    ensures
        r == vstd::utf8::valid_utf8(bytes@),
{
    std::str::from_utf8(bytes).is_ok()
}

/// The event an SGR mouse report stands for: the bytes after `ESC [ <`,
/// that is `button;column;row` and a final `M` (press) or `m` (release).
/// Only presses count: button 0 is a left click on the row above the
/// reported one (rows count from one), 64 and 65 scroll.
pub open spec fn sgr_mouse_event(seq: Seq<u8>) -> Option<InputEvent> {
    if !vstd::utf8::valid_utf8(seq) {
        None
    } else {
        let is_press = seq.len() > 0 && seq.last() == 77;
        let body = if seq.len() > 0 { seq.drop_last() } else { seq };
        match after_field(body) {
            None => None,
            Some(r1) => match after_field(r1) {
                None => None,
                Some(r2) => match (
                    parse_usize_field(first_field(body)),
                    parse_usize_field(first_field(r1)),
                    parse_usize_field(first_field(r2)),
                ) {
                    (Some(cb), Some(_), Some(cy)) => if !is_press {
                        None
                    } else if cb == 0 {
                        Some(InputEvent::Mouse(MouseEvent::LeftClick { row: if cy > 0 { (cy - 1) as usize } else { 0 } }))
                    } else if cb == 64 {
                        Some(InputEvent::Mouse(MouseEvent::ScrollUp))
                    } else if cb == 65 {
                        Some(InputEvent::Mouse(MouseEvent::ScrollDown))
                    } else {
                        None
                    },
                    _ => None,
                },
            },
        }
    }
}

/// Reads an SGR mouse report.
pub fn parse_sgr_mouse(seq: &[u8]) -> (r: Option<InputEvent>)
    requires
        !(vstd::utf8::valid_utf8(seq@) && seq@.len() > 0 && seq@.last() >= 128),
    ensures
        r == sgr_mouse_event(seq@),
{
    if !utf8_valid(seq) {
        return None;
    }
    let n = seq.len();
    let is_press = n > 0 && seq[n - 1] == 77;
    let mut body: Vec<u8> = Vec::new();
    let end = if n > 0 { n - 1 } else { 0 };
    let mut k: usize = 0;
    while k < end
        invariant
            k <= end,
            end <= n,
            n == seq@.len(),
            body@ == seq@.take(k as int),
        decreases end - k,
    {
        body.push(seq[k]);
        assert(seq@.take(k + 1) =~= seq@.take(k as int).push(seq@[k as int]));
        k = k + 1;
    }
    assert(body@ =~= (if seq@.len() > 0 { seq@.drop_last() } else { seq@ }));
    let (f0, rest1) = split_field(body.as_slice());
    let rest1 = match rest1 {
        Some(r) => r,
        None => return None,
    };
    let (f1, rest2) = split_field(rest1.as_slice());
    let rest2 = match rest2 {
        Some(r) => r,
        None => return None,
    };
    let (f2, _) = split_field(rest2.as_slice());
    let cb = parse_usize_bytes(f0.as_slice());
    let cx = parse_usize_bytes(f1.as_slice());
    let cy = parse_usize_bytes(f2.as_slice());
    match (cb, cx, cy) {
        (Some(cb), Some(_), Some(cy)) => {
            if !is_press {
                None
            } else if cb == 0 {
                Some(InputEvent::Mouse(MouseEvent::LeftClick { row: cy.saturating_sub(1) }))
            } else if cb == 64 {
                Some(InputEvent::Mouse(MouseEvent::ScrollUp))
            } else if cb == 65 {
                Some(InputEvent::Mouse(MouseEvent::ScrollDown))
            } else {
                None
            }
        },
        _ => None,
    }
}

/// How far an escape sequence has been read.
pub enum KeyDecoder {
    /// Between events.
    Ground,
    /// After `ESC`.
    Escape,
    /// After `ESC O`.
    EscapeO,
    /// After `ESC [`.
    Csi,
    /// After `ESC [` and a digit: the key, if a `~` follows.
    CsiDigit { key: Key },
    /// After `ESC [ <`: the bytes of a mouse report so far.
    Mouse { seq: Vec<u8> },
}

/// The decoder's next state and the event completed, if any, after one
/// more byte, outside mouse reports (see [`decode_byte`] for those).
pub open spec fn decode_step(state: KeyDecoder, b: u8) -> (KeyDecoder, Option<InputEvent>) {
    match state {
        KeyDecoder::Ground => if b == 13 || b == 10 {
            (KeyDecoder::Ground, Some(InputEvent::Key(Key::Enter)))
        } else if b == 127 || b == 8 {
            (KeyDecoder::Ground, Some(InputEvent::Key(Key::Backspace)))
        } else if b == 27 {
            (KeyDecoder::Escape, None)
        } else {
            (KeyDecoder::Ground, Some(InputEvent::Key(Key::Char(b as char))))
        },
        KeyDecoder::Escape => if b == 79 {
            (KeyDecoder::EscapeO, None)
        } else if b == 91 {
            (KeyDecoder::Csi, None)
        } else {
            (KeyDecoder::Ground, None)
        },
        KeyDecoder::EscapeO => if b == 72 {
            (KeyDecoder::Ground, Some(InputEvent::Key(Key::Home)))
        } else if b == 70 {
            (KeyDecoder::Ground, Some(InputEvent::Key(Key::End)))
        } else {
            (KeyDecoder::Ground, None)
        },
        KeyDecoder::Csi => if b == 65 {
            (KeyDecoder::Ground, Some(InputEvent::Key(Key::Up)))
        } else if b == 66 {
            (KeyDecoder::Ground, Some(InputEvent::Key(Key::Down)))
        } else if b == 72 {
            (KeyDecoder::Ground, Some(InputEvent::Key(Key::Home)))
        } else if b == 70 {
            (KeyDecoder::Ground, Some(InputEvent::Key(Key::End)))
        } else if b == 53 {
            (KeyDecoder::CsiDigit { key: Key::PageUp }, None)
        } else if b == 54 {
            (KeyDecoder::CsiDigit { key: Key::PageDown }, None)
        } else if b == 49 || b == 55 {
            (KeyDecoder::CsiDigit { key: Key::Home }, None)
        } else if b == 52 || b == 56 {
            (KeyDecoder::CsiDigit { key: Key::End }, None)
        } else {
            (KeyDecoder::Ground, None)
        },
        KeyDecoder::CsiDigit { key } => if b == 126 {
            (KeyDecoder::Ground, Some(InputEvent::Key(key)))
        } else {
            (KeyDecoder::Ground, None)
        },
        KeyDecoder::Mouse { seq } => (KeyDecoder::Ground, None),
    }
}

/// Whether a mouse report may still grow: at most 32 bytes read and not
/// ended.
pub open spec fn mouse_ok(state: KeyDecoder) -> bool {
    state matches KeyDecoder::Mouse { seq } ==> seq@.len() <= 32 && (forall|i: int| 0 <= i < seq@.len() ==> seq@[i] != 77 && seq@[i] != 109)
}

/// Feeds one input byte to the decoder.
///
/// Outside an escape sequence, carriage return and line feed are Enter,
/// DEL and BS are Backspace, and any other byte but `ESC` is the character
/// of that code. `ESC O H|F`, `ESC [ A|B|H|F` and `ESC [ 5|6|1|7|4|8 ~`
/// are the cursor and paging keys; `ESC [ <` starts a mouse report, read
/// up to its final `M` or `m`, and abandoned after 33 bytes. Any other
/// byte after `ESC` drops the sequence.
pub fn decode_byte(state: KeyDecoder, b: u8) -> (r: (KeyDecoder, Option<InputEvent>))
    requires
        mouse_ok(state),
    ensures
        mouse_ok(r.0),
        match state {
            KeyDecoder::Mouse { seq } => {
                let s = seq@.push(b);
                if b == 77 || b == 109 {
                    r.0 is Ground && r.1 == sgr_mouse_event(s)
                } else if s.len() > 32 {
                    r.0 is Ground && r.1 is None
                } else {
                    r.1 is None && (r.0 matches KeyDecoder::Mouse { seq: t } && t@ == s)
                }
            },
            KeyDecoder::Csi => if b == 60 {
                r.1 is None && (r.0 matches KeyDecoder::Mouse { seq: t } && t@.len() == 0)
            } else {
                r == decode_step(state, b)
            },
            _ => r == decode_step(state, b),
        },
{
    match state {
        KeyDecoder::Ground => {
            if b == 13 || b == 10 {
                (KeyDecoder::Ground, Some(InputEvent::Key(Key::Enter)))
            } else if b == 127 || b == 8 {
                (KeyDecoder::Ground, Some(InputEvent::Key(Key::Backspace)))
            } else if b == 27 {
                (KeyDecoder::Escape, None)
            } else {
                (KeyDecoder::Ground, Some(InputEvent::Key(Key::Char(b as char))))
            }
        },
        KeyDecoder::Escape => {
            if b == 79 {
                (KeyDecoder::EscapeO, None)
            } else if b == 91 {
                (KeyDecoder::Csi, None)
            } else {
                (KeyDecoder::Ground, None)
            }
        },
        KeyDecoder::EscapeO => {
            if b == 72 {
                (KeyDecoder::Ground, Some(InputEvent::Key(Key::Home)))
            } else if b == 70 {
                (KeyDecoder::Ground, Some(InputEvent::Key(Key::End)))
            } else {
                (KeyDecoder::Ground, None)
            }
        },
        KeyDecoder::Csi => {
            if b == 65 {
                (KeyDecoder::Ground, Some(InputEvent::Key(Key::Up)))
            } else if b == 66 {
                (KeyDecoder::Ground, Some(InputEvent::Key(Key::Down)))
            } else if b == 72 {
                (KeyDecoder::Ground, Some(InputEvent::Key(Key::Home)))
            } else if b == 70 {
                (KeyDecoder::Ground, Some(InputEvent::Key(Key::End)))
            } else if b == 53 {
                (KeyDecoder::CsiDigit { key: Key::PageUp }, None)
            } else if b == 54 {
                (KeyDecoder::CsiDigit { key: Key::PageDown }, None)
            } else if b == 49 || b == 55 {
                (KeyDecoder::CsiDigit { key: Key::Home }, None)
            } else if b == 52 || b == 56 {
                (KeyDecoder::CsiDigit { key: Key::End }, None)
            } else if b == 60 {
                (KeyDecoder::Mouse { seq: Vec::new() }, None)
            } else {
                (KeyDecoder::Ground, None)
            }
        },
        KeyDecoder::CsiDigit { key } => {
            if b == 126 {
                (KeyDecoder::Ground, Some(InputEvent::Key(key)))
            } else {
                (KeyDecoder::Ground, None)
            }
        },
        KeyDecoder::Mouse { seq } => {
            let mut seq = seq;
            let ghost s0 = seq@;
            seq.push(b);
            if b == 77 || b == 109 {
                (KeyDecoder::Ground, parse_sgr_mouse(seq.as_slice()))
            } else if seq.len() > 32 {
                (KeyDecoder::Ground, None)
            } else {
                (KeyDecoder::Mouse { seq }, None)
            }
        },
    }
}

} // verus!
