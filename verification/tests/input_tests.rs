use tn::input::{decode_byte, InputEvent, Key, KeyDecoder, MouseEvent};

fn decode(bytes: &[u8]) -> Vec<InputEvent> {
    let mut state = KeyDecoder::Ground;
    let mut out = Vec::new();
    for &b in bytes {
        let (next, ev) = decode_byte(state, b);
        state = next;
        if let Some(e) = ev {
            out.push(e);
        }
    }
    out
}

#[test]
fn plain_keys() {
    assert_eq!(
        decode(b"a\r\n\x7f\x08"),
        vec![
            InputEvent::Key(Key::Char('a')),
            InputEvent::Key(Key::Enter),
            InputEvent::Key(Key::Enter),
            InputEvent::Key(Key::Backspace),
            InputEvent::Key(Key::Backspace),
        ]
    );
}

#[test]
fn escape_sequences() {
    assert_eq!(decode(b"\x1b[A\x1b[B"), vec![InputEvent::Key(Key::Up), InputEvent::Key(Key::Down)]);
    assert_eq!(decode(b"\x1bOH\x1bOF"), vec![InputEvent::Key(Key::Home), InputEvent::Key(Key::End)]);
    assert_eq!(
        decode(b"\x1b[5~\x1b[6~\x1b[7~\x1b[4~"),
        vec![
            InputEvent::Key(Key::PageUp),
            InputEvent::Key(Key::PageDown),
            InputEvent::Key(Key::Home),
            InputEvent::Key(Key::End),
        ]
    );
    assert_eq!(decode(b"\x1b[5x"), vec![]);
    assert_eq!(decode(b"\x1bxq"), vec![InputEvent::Key(Key::Char('q'))]);
}

#[test]
fn mouse_reports() {
    assert_eq!(
        decode(b"\x1b[<0;10;5M"),
        vec![InputEvent::Mouse(MouseEvent::LeftClick { row: 4 })]
    );
    assert_eq!(decode(b"\x1b[<0;10;5m"), vec![]);
    assert_eq!(decode(b"\x1b[<64;1;1M\x1b[<65;1;1M"), vec![
        InputEvent::Mouse(MouseEvent::ScrollUp),
        InputEvent::Mouse(MouseEvent::ScrollDown),
    ]);
    assert_eq!(decode(b"\x1b[<2;1;1M"), vec![]);
    assert_eq!(decode(b"\x1b[<0;x;1M"), vec![]);
    assert_eq!(decode(b"\x1b[<0;1;+3M"), vec![InputEvent::Mouse(MouseEvent::LeftClick { row: 2 })]);
    assert_eq!(decode(b"\x1b[<0;1;0M"), vec![InputEvent::Mouse(MouseEvent::LeftClick { row: 0 })]);
    let long = [b"\x1b[<".as_slice(), &[b'1'; 40], b"Ma".as_slice()].concat();
    let mut rest = vec![InputEvent::Key(Key::Char('1')); 7];
    rest.push(InputEvent::Key(Key::Char('M')));
    rest.push(InputEvent::Key(Key::Char('a')));
    assert_eq!(decode(&long), rest);
}

#[test]
fn mouse_report_with_invalid_utf8_is_dropped() {
    assert_eq!(decode(b"\x1b[<0;1;\xffM"), vec![]);
}
