//! Keys and input events, and what a key types.

use vstd::prelude::*;

verus! {

/// A key of the keyboard or a button of the mouse.
#[derive(Debug, Clone, Copy, PartialEq, Eq, Structural)]
pub enum KeyCode {
    A,
    B,
    C,
    D,
    E,
    F,
    G,
    H,
    I,
    J,
    K,
    L,
    M,
    N,
    O,
    P,
    Q,
    R,
    S,
    T,
    U,
    V,
    W,
    X,
    Y,
    Z,
    Row1,
    Row2,
    Row3,
    Row4,
    Row5,
    Row6,
    Row7,
    Row8,
    Row9,
    Row0,
    Grave,
    Minus,
    Equals,
    LeftBracket,
    RightBracket,
    Backslash,
    Semicolon,
    Apostrophe,
    Comma,
    Period,
    Slash,
    F1,
    F2,
    F3,
    F4,
    F5,
    F6,
    F7,
    F8,
    F9,
    F10,
    F11,
    F12,
    Enter,
    Escape,
    Backspace,
    Tab,
    Space,
    Pause,
    Insert,
    Home,
    PageUp,
    Delete,
    End,
    PageDown,
    Right,
    Left,
    Down,
    Up,
    NumDivide,
    NumMultiply,
    NumMinus,
    NumPlus,
    NumEnter,
    NumPeriod,
    Num1,
    Num2,
    Num3,
    Num4,
    Num5,
    Num6,
    Num7,
    Num8,
    Num9,
    Num0,
    MouseLeft,
    MouseRight,
    MouseMiddle,
    MouseFourth,
    MouseFifth,
}

/// One input event.
#[derive(Debug, Clone, Copy, PartialEq, Eq, Structural)]
pub enum Event {
    /// The window was closed.
    Close,
    /// The window was resized.
    Resize { width: i32, height: i32 },
    /// The mouse moved to a cell.
    MouseMove { x: i32, y: i32 },
    /// The mouse wheel turned by `delta` steps.
    MouseScroll { delta: i32 },
    /// A key or mouse button went down.
    KeyPressed { key: KeyCode, ctrl: bool, shift: bool },
    /// A key or mouse button went up.
    KeyReleased { key: KeyCode, ctrl: bool, shift: bool },
    ShiftPressed,
    ShiftReleased,
    ControlPressed,
    ControlReleased,
    AltPressed,
    AltReleased,
}

/// The character that a key types, with or without the shift key, if it
/// types one. The backquote key types nothing with the shift key; the other
/// punctuation keys type the same with it as without.
pub open spec fn typed(key: KeyCode, shift: bool) -> Option<char> {
    match key {
        KeyCode::Space => Some(' '),
        KeyCode::A => Some(if shift { 'A' } else { 'a' }),
        KeyCode::B => Some(if shift { 'B' } else { 'b' }),
        KeyCode::C => Some(if shift { 'C' } else { 'c' }),
        KeyCode::D => Some(if shift { 'D' } else { 'd' }),
        KeyCode::E => Some(if shift { 'E' } else { 'e' }),
        KeyCode::F => Some(if shift { 'F' } else { 'f' }),
        KeyCode::G => Some(if shift { 'G' } else { 'g' }),
        KeyCode::H => Some(if shift { 'H' } else { 'h' }),
        KeyCode::I => Some(if shift { 'I' } else { 'i' }),
        KeyCode::J => Some(if shift { 'J' } else { 'j' }),
        KeyCode::K => Some(if shift { 'K' } else { 'k' }),
        KeyCode::L => Some(if shift { 'L' } else { 'l' }),
        KeyCode::M => Some(if shift { 'M' } else { 'm' }),
        KeyCode::N => Some(if shift { 'N' } else { 'n' }),
        KeyCode::O => Some(if shift { 'O' } else { 'o' }),
        KeyCode::P => Some(if shift { 'P' } else { 'p' }),
        KeyCode::Q => Some(if shift { 'Q' } else { 'q' }),
        KeyCode::R => Some(if shift { 'R' } else { 'r' }),
        KeyCode::S => Some(if shift { 'S' } else { 's' }),
        KeyCode::T => Some(if shift { 'T' } else { 't' }),
        KeyCode::U => Some(if shift { 'U' } else { 'u' }),
        KeyCode::V => Some(if shift { 'V' } else { 'v' }),
        KeyCode::W => Some(if shift { 'W' } else { 'w' }),
        KeyCode::X => Some(if shift { 'X' } else { 'x' }),
        KeyCode::Y => Some(if shift { 'Y' } else { 'y' }),
        KeyCode::Z => Some(if shift { 'Z' } else { 'z' }),
        KeyCode::Row1 => Some(if shift { '!' } else { '1' }),
        KeyCode::Row2 => Some(if shift { '@' } else { '2' }),
        KeyCode::Row3 => Some(if shift { '#' } else { '3' }),
        KeyCode::Row4 => Some(if shift { '$' } else { '4' }),
        KeyCode::Row5 => Some(if shift { '%' } else { '5' }),
        KeyCode::Row6 => Some(if shift { '^' } else { '6' }),
        KeyCode::Row7 => Some(if shift { '&' } else { '7' }),
        KeyCode::Row8 => Some(if shift { '*' } else { '8' }),
        KeyCode::Row9 => Some(if shift { '(' } else { '9' }),
        KeyCode::Row0 => Some(if shift { ')' } else { '0' }),
        KeyCode::Grave => if shift { None } else { Some('`') },
        KeyCode::Minus => Some('-'),
        KeyCode::Equals => Some('='),
        KeyCode::LeftBracket => Some('['),
        KeyCode::RightBracket => Some(']'),
        KeyCode::Backslash => Some('\\'),
        KeyCode::Semicolon => Some(';'),
        KeyCode::Apostrophe => Some('\''),
        KeyCode::Comma => Some(','),
        KeyCode::Period => Some('.'),
        KeyCode::Slash => Some('/'),
        _ => None,
    }
}

/// The command line after an event: the backspace key takes the last
/// character away, a key that types a character adds it, and anything else
/// leaves the line as it is.
pub open spec fn command_after(command: Seq<char>, event: Event) -> Seq<char> {
    match event {
        Event::KeyPressed { key: KeyCode::Backspace, .. } => if command.len() > 0 {
            command.drop_last()
        } else {
            command
        },
        Event::KeyPressed { key, shift, .. } => match typed(key, shift) {
            Some(c) => command.push(c),
            None => command,
        },
        _ => command,
    }
}

/// The character that a key types, if it types one.
pub fn typed_char(key: KeyCode, shift: bool) -> (c: Option<char>)
    ensures
        c == typed(key, shift),
{
    match key {
        KeyCode::Space => Some(' '),
        KeyCode::A => Some(if shift { 'A' } else { 'a' }),
        KeyCode::B => Some(if shift { 'B' } else { 'b' }),
        KeyCode::C => Some(if shift { 'C' } else { 'c' }),
        KeyCode::D => Some(if shift { 'D' } else { 'd' }),
        KeyCode::E => Some(if shift { 'E' } else { 'e' }),
        KeyCode::F => Some(if shift { 'F' } else { 'f' }),
        KeyCode::G => Some(if shift { 'G' } else { 'g' }),
        KeyCode::H => Some(if shift { 'H' } else { 'h' }),
        KeyCode::I => Some(if shift { 'I' } else { 'i' }),
        KeyCode::J => Some(if shift { 'J' } else { 'j' }),
        KeyCode::K => Some(if shift { 'K' } else { 'k' }),
        KeyCode::L => Some(if shift { 'L' } else { 'l' }),
        KeyCode::M => Some(if shift { 'M' } else { 'm' }),
        KeyCode::N => Some(if shift { 'N' } else { 'n' }),
        KeyCode::O => Some(if shift { 'O' } else { 'o' }),
        KeyCode::P => Some(if shift { 'P' } else { 'p' }),
        KeyCode::Q => Some(if shift { 'Q' } else { 'q' }),
        KeyCode::R => Some(if shift { 'R' } else { 'r' }),
        KeyCode::S => Some(if shift { 'S' } else { 's' }),
        KeyCode::T => Some(if shift { 'T' } else { 't' }),
        KeyCode::U => Some(if shift { 'U' } else { 'u' }),
        KeyCode::V => Some(if shift { 'V' } else { 'v' }),
        KeyCode::W => Some(if shift { 'W' } else { 'w' }),
        KeyCode::X => Some(if shift { 'X' } else { 'x' }),
        KeyCode::Y => Some(if shift { 'Y' } else { 'y' }),
        KeyCode::Z => Some(if shift { 'Z' } else { 'z' }),
        KeyCode::Row1 => Some(if shift { '!' } else { '1' }),
        KeyCode::Row2 => Some(if shift { '@' } else { '2' }),
        KeyCode::Row3 => Some(if shift { '#' } else { '3' }),
        KeyCode::Row4 => Some(if shift { '$' } else { '4' }),
        KeyCode::Row5 => Some(if shift { '%' } else { '5' }),
        KeyCode::Row6 => Some(if shift { '^' } else { '6' }),
        KeyCode::Row7 => Some(if shift { '&' } else { '7' }),
        KeyCode::Row8 => Some(if shift { '*' } else { '8' }),
        KeyCode::Row9 => Some(if shift { '(' } else { '9' }),
        KeyCode::Row0 => Some(if shift { ')' } else { '0' }),
        KeyCode::Grave => if shift { None } else { Some('`') },
        KeyCode::Minus => Some('-'),
        KeyCode::Equals => Some('='),
        KeyCode::LeftBracket => Some('['),
        KeyCode::RightBracket => Some(']'),
        KeyCode::Backslash => Some('\\'),
        KeyCode::Semicolon => Some(';'),
        KeyCode::Apostrophe => Some('\''),
        KeyCode::Comma => Some(','),
        KeyCode::Period => Some('.'),
        KeyCode::Slash => Some('/'),
        _ => None,
    }
}

} // verus!
