//! From the bytes that the terminal sends to key events.

use vstd::prelude::*;
use vstd::utf8::{decode_utf8, valid_utf8};
use crate::chars::{chars_of, is_control_char, utf8_str};
use crate::line_editor::command::Event;

verus! {

/// The key that one character of the input stands for; none for a control
/// character that has no key.
pub open spec fn key_of(c: char) -> Option<Event> {
    let code = c as u32;
    if code == 0 {
        Some(Event::Ctrl('@'))
    } else if code == 0x09 {
        Some(Event::KeyTab)
    } else if code == 0x0d {
        Some(Event::KeyReturn)
    } else if 1 <= code <= 26 {
        Some(Event::Ctrl((code + 0x60) as char))
    } else if code == 0x1b {
        Some(Event::KeyEscape)
    } else if 0x1c <= code <= 0x1f {
        Some(Event::Ctrl((code + 0x40) as char))
    } else if code == 0x7f {
        Some(Event::KeyBackspace)
    } else if is_control_char(c) {
        None
    } else {
        Some(Event::Char(c))
    }
}

/// The keys of a text, character by character.
pub open spec fn keys_of(text: Seq<char>) -> Seq<Event>
    decreases text.len(),
{
    if text.len() == 0 {
        seq![]
    } else {
        match key_of(text.last()) {
            Some(e) => keys_of(text.drop_last()).push(e),
            None => keys_of(text.drop_last()),
        }
    }
}

/// The key that a whole input stands for, where it is one of the escape
/// sequences of the cursor keys and of Delete.
pub open spec fn sequence_key(text: Seq<char>) -> Option<Event> {
    if text == seq!['\x1b', '[', 'D'] {
        Some(Event::KeyLeft)
    } else if text == seq!['\x1b', '[', 'C'] {
        Some(Event::KeyRight)
    } else if text == seq!['\x1b', '[', 'A'] {
        Some(Event::KeyUp)
    } else if text == seq!['\x1b', '[', 'B'] {
        Some(Event::KeyDown)
    } else if text == seq!['\x1b', '[', '3', '~'] {
        Some(Event::KeyDelete)
    } else {
        None
    }
}

/// The events of one input text.
pub open spec fn events_of(text: Seq<char>) -> Seq<Event> {
    match sequence_key(text) {
        Some(e) => seq![e],
        None => keys_of(text),
    }
}

/// The events of the bytes of one read: none where the bytes are not valid
/// UTF-8.
pub open spec fn decoded(bytes: Seq<u8>) -> Seq<Event> {
    if valid_utf8(bytes) {
        events_of(decode_utf8(bytes))
    } else {
        seq![]
    }
}

fn key(c: char) -> (r: Option<Event>)
    ensures
        r == key_of(c),
{
    let code = c as u32;
    if code == 0 {
        Some(Event::Ctrl('@'))
    } else if code == 0x09 {
        Some(Event::KeyTab)
    } else if code == 0x0d {
        Some(Event::KeyReturn)
    } else if 1 <= code && code <= 26 {
        Some(Event::Ctrl(((code + 0x60) as u8) as char))
    } else if code == 0x1b {
        Some(Event::KeyEscape)
    } else if 0x1c <= code && code <= 0x1f {
        Some(Event::Ctrl(((code + 0x40) as u8) as char))
    } else if code == 0x7f {
        Some(Event::KeyBackspace)
    } else if c.is_control() {
        None
    } else {
        Some(Event::Char(c))
    }
}

fn sequence(text: &Vec<char>) -> (r: Option<Event>)
    ensures
        r == sequence_key(text@),
{
    if text.len() == 3 && text[0] == '\x1b' && text[1] == '[' {
        let last = text[2];
        let r = if last == 'D' {
            Some(Event::KeyLeft)
        } else if last == 'C' {
            Some(Event::KeyRight)
        } else if last == 'A' {
            Some(Event::KeyUp)
        } else if last == 'B' {
            Some(Event::KeyDown)
        } else {
            None
        };
        proof {
            assert(text@ =~= seq!['\x1b', '[', last]);
            if r is None {
                assert(text@ != seq!['\x1b', '[', 'D']) by {
                    assert(seq!['\x1b', '[', 'D'][2] == 'D');
                }
                assert(text@ != seq!['\x1b', '[', 'C']) by {
                    assert(seq!['\x1b', '[', 'C'][2] == 'C');
                }
                assert(text@ != seq!['\x1b', '[', 'A']) by {
                    assert(seq!['\x1b', '[', 'A'][2] == 'A');
                }
                assert(text@ != seq!['\x1b', '[', 'B']) by {
                    assert(seq!['\x1b', '[', 'B'][2] == 'B');
                }
            }
            assert(seq!['\x1b', '[', '3', '~'].len() == 4);
        }
        r
    } else if text.len() == 4 && text[0] == '\x1b' && text[1] == '[' && text[2] == '3' && text[3]
        == '~' {
        assert(text@ =~= seq!['\x1b', '[', '3', '~']);
        assert(seq!['\x1b', '[', 'D'].len() == 3);
        assert(seq!['\x1b', '[', 'C'].len() == 3);
        assert(seq!['\x1b', '[', 'A'].len() == 3);
        assert(seq!['\x1b', '[', 'B'].len() == 3);
        Some(Event::KeyDelete)
    } else {
        proof {
            let a = seq!['\x1b', '[', 'D'];
            let b = seq!['\x1b', '[', 'C'];
            let c = seq!['\x1b', '[', 'A'];
            let d = seq!['\x1b', '[', 'B'];
            let e = seq!['\x1b', '[', '3', '~'];
            assert(a.len() == 3 && a[0] == '\x1b' && a[1] == '[');
            assert(b.len() == 3 && b[0] == '\x1b' && b[1] == '[');
            assert(c.len() == 3 && c[0] == '\x1b' && c[1] == '[');
            assert(d.len() == 3 && d[0] == '\x1b' && d[1] == '[');
            assert(e.len() == 4 && e[0] == '\x1b' && e[1] == '[' && e[2] == '3' && e[3] == '~');
        }
        None
    }
}

/// The events of one input text.
pub fn events(text: &str) -> (r: Vec<Event>)
    ensures
        r@ == events_of(text@),
{
    let chars = chars_of(text);
    let mut out: Vec<Event> = Vec::new();
    if let Some(e) = sequence(&chars) {
        out.push(e);
        assert(out@ =~= seq![e]);
        return out;
    }
    let mut i: usize = 0;
    assert(chars@.take(0) =~= seq![]);
    while i < chars.len()
        invariant
            i <= chars.len(),
            out@ == keys_of(chars@.take(i as int)),
        decreases chars.len() - i,
    {
        assert(chars@.take(i + 1).drop_last() =~= chars@.take(i as int));
        if let Some(e) = key(chars[i]) {
            out.push(e);
        }
        i += 1;
    }
    assert(chars@.take(i as int) =~= chars@);
    out
}

/// The events of the bytes of one read.
pub fn decode(bytes: &[u8]) -> (r: Vec<Event>)
    ensures
        r@ == decoded(bytes@),
{
    match utf8_str(bytes) {
        Some(text) => events(text),
        None => Vec::new(),
    }
}

} // verus!
