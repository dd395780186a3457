use vstd::prelude::*;

verus! {

/// A left-button click at a terminal cell (0-based).
pub struct MouseEvent {
    pub x: u16,
    pub y: u16,
    pub button: u8,
}

/// One input event: a key code or a mouse click.
pub enum InputEvent {
    Key(u8),
    MouseClick(MouseEvent),
}

/// How many more bytes of a terminal input sequence to read after `prefix`: one after a lone
/// escape or an escape with `[`, three mouse bytes after `ESC [ M`, else none.
pub open spec fn bytes_wanted(prefix: Seq<u8>) -> nat {
    if prefix.len() == 0 {
        1
    } else if prefix[0] == 27 && prefix.len() == 1 {
        1
    } else if prefix[0] == 27 && prefix.len() == 2 && prefix[1] == 91 {
        1
    } else if prefix[0] == 27 && prefix.len() == 3 && prefix[1] == 91 && prefix[2] == 77 {
        3
    } else {
        0
    }
}

/// The key code of a single byte: Enter (5), Backspace (127), `q` (6), `y` (7), `n` (8),
/// other printable characters as themselves, anything else 0.
pub open spec fn byte_key(c: u8) -> u8 {
    if c == 13 || c == 10 {
        5
    } else if c == 127 || c == 8 {
        127
    } else if c == 113 {
        6
    } else if c == 121 {
        7
    } else if c == 110 {
        8
    } else if 32 <= c <= 126 {
        c
    } else {
        0
    }
}

/// The event that a read sequence of bytes stands for: arrow keys as 1 to 4 (up, down,
/// right, left), a left click as a mouse event, a lone escape as 27, single bytes as
/// `byte_key`, anything else as 0.
pub open spec fn decoded(b: Seq<u8>) -> InputEvent {
    if b.len() == 0 {
        InputEvent::Key(0)
    } else if b[0] == 27 {
        if b.len() == 1 || b[1] != 91 {
            InputEvent::Key(27)
        } else if b.len() == 2 {
            InputEvent::Key(0)
        } else if b[2] == 65 {
            InputEvent::Key(1)
        } else if b[2] == 66 {
            InputEvent::Key(2)
        } else if b[2] == 67 {
            InputEvent::Key(3)
        } else if b[2] == 68 {
            InputEvent::Key(4)
        } else if b[2] == 77 && b.len() >= 6 && b[3] == 32 {
            InputEvent::MouseClick(MouseEvent {
                x: if b[4] >= 32 { (b[4] - 32) as u16 } else { 0 },
                y: if b[5] >= 32 { (b[5] - 32) as u16 } else { 0 },
                button: 0,
            })
        } else {
            InputEvent::Key(0)
        }
    } else {
        InputEvent::Key(byte_key(b[0]))
    }
}

/// How many more bytes to read after `prefix` (see `bytes_wanted`).
pub fn more_bytes_wanted(prefix: &[u8]) -> (r: usize)
    ensures
        r == bytes_wanted(prefix@),
{
    let n = prefix.len();
    if n == 0 {
        1
    } else if prefix[0] == 27 && n == 1 {
        1
    } else if prefix[0] == 27 && n == 2 && prefix[1] == 91 {
        1
    } else if prefix[0] == 27 && n == 3 && prefix[1] == 91 && prefix[2] == 77 {
        3
    } else {
        0
    }
}

/// The event that a read sequence of bytes stands for.
pub fn decode_input(b: &[u8]) -> (r: InputEvent)
    ensures
        r == decoded(b@),
{
    let n = b.len();
    if n == 0 {
        return InputEvent::Key(0);
    }
    let c = b[0];
    if c == 27 {
        if n == 1 || b[1] != 91 {
            InputEvent::Key(27)
        } else if n == 2 {
            InputEvent::Key(0)
        } else if b[2] == 65 {
            InputEvent::Key(1)
        } else if b[2] == 66 {
            InputEvent::Key(2)
        } else if b[2] == 67 {
            InputEvent::Key(3)
        } else if b[2] == 68 {
            InputEvent::Key(4)
        } else if b[2] == 77 && n >= 6 && b[3] == 32 {
            let x: u16 = if b[4] >= 32 { (b[4] - 32) as u16 } else { 0 };
            let y: u16 = if b[5] >= 32 { (b[5] - 32) as u16 } else { 0 };
            InputEvent::MouseClick(MouseEvent { x, y, button: 0 })
        } else {
            InputEvent::Key(0)
        }
    } else if c == 13 || c == 10 {
        InputEvent::Key(5)
    } else if c == 127 || c == 8 {
        InputEvent::Key(127)
    } else if c == 113 {
        InputEvent::Key(6)
    } else if c == 121 {
        InputEvent::Key(7)
    } else if c == 110 {
        InputEvent::Key(8)
    } else if 32 <= c && c <= 126 {
        InputEvent::Key(c)
    } else {
        InputEvent::Key(0)
    }
}

/// The key code of an event; a mouse click counts as no key (0).
pub fn key_code(event: &InputEvent) -> (r: u8)
    ensures
        r == (match event {
            InputEvent::Key(k) => *k,
            InputEvent::MouseClick(_) => 0u8,
        }),
{
    match event {
        InputEvent::Key(k) => *k,
        InputEvent::MouseClick(_) => 0,
    }
}

} // verus!
