//! The mapping from host keyboard keys to Linux input event key codes, as
//! the kernel's input-event-codes table defines them. Keys the table does
//! not cover map to nothing.

use vstd::prelude::*;

verus! {

/// A host keyboard key, as the desktop input layer reports it.
#[derive(Debug, Clone, Copy, PartialEq, Eq, Structural)]
pub enum Key {
    Backspace,
    Tab,
    Return,
    Shift,
    Ctrl,
    Alt,
    CapsLock,
    Esc,
    Space,
    End,
    Home,
    Left,
    Right,
    Up,
    Down,
    PageUp,
    PageDown,
    PrintScreen,
    KeyInsert,
    Del,
    Key0,
    Key1,
    Key2,
    Key3,
    Key4,
    Key5,
    Key6,
    Key7,
    Key8,
    Key9,
    A,
    B,
    C,
    D,
    E,
    F,
    G,
    H,
    I,
    J,
    K,
    L,
    M,
    N,
    O,
    P,
    Q,
    R,
    S,
    T,
    U,
    V,
    W,
    X,
    Y,
    Z,
    Numpad0,
    Numpad1,
    Numpad2,
    Numpad3,
    Numpad4,
    Numpad5,
    Numpad6,
    Numpad7,
    Numpad8,
    Numpad9,
    F1,
    F2,
    F3,
    F4,
    F5,
    F6,
    F7,
    F8,
    F9,
    F10,
    F11,
    F12,
    Comma,
    Period,
    SlashFwd,
    SlashBack,
    Semicolon,
    Apostrophe,
    BracketOpen,
    BracketClose,
    Minus,
    Equals,
    LCmd,
    RCmd,
    Multiply,
    Add,
    Subtract,
    Decimal,
    Divide,
    Backtick,
}

/// The Linux input event code of a key, if it has one.
pub open spec fn map_key_spec(key: Key) -> Option<u32> {
    match key {
        Key::Backspace => Some(14u32),
        Key::Tab => Some(15u32),
        Key::Return => Some(28u32),
        Key::Shift => Some(42u32),
        Key::Ctrl => Some(29u32),
        Key::Alt => Some(56u32),
        Key::CapsLock => Some(58u32),
        Key::Esc => Some(1u32),
        Key::Space => Some(57u32),
        Key::End => Some(107u32),
        Key::Home => Some(102u32),
        Key::Left => Some(105u32),
        Key::Right => Some(106u32),
        Key::Up => Some(103u32),
        Key::Down => Some(108u32),
        Key::PageUp => Some(104u32),
        Key::PageDown => Some(109u32),
        Key::PrintScreen => Some(210u32),
        Key::KeyInsert => Some(110u32),
        Key::Del => Some(111u32),
        Key::Key0 => Some(11u32),
        Key::Key1 => Some(2u32),
        Key::Key2 => Some(3u32),
        Key::Key3 => Some(4u32),
        Key::Key4 => Some(5u32),
        Key::Key5 => Some(6u32),
        Key::Key6 => Some(7u32),
        Key::Key7 => Some(8u32),
        Key::Key8 => Some(9u32),
        Key::Key9 => Some(10u32),
        Key::A => Some(30u32),
        Key::B => Some(48u32),
        Key::C => Some(46u32),
        Key::D => Some(32u32),
        Key::E => Some(18u32),
        Key::F => Some(33u32),
        Key::G => Some(34u32),
        Key::H => Some(35u32),
        Key::I => Some(23u32),
        Key::J => Some(36u32),
        Key::K => Some(37u32),
        Key::L => Some(38u32),
        Key::M => Some(50u32),
        Key::N => Some(49u32),
        Key::O => Some(24u32),
        Key::P => Some(25u32),
        Key::Q => Some(16u32),
        Key::R => Some(19u32),
        Key::S => Some(31u32),
        Key::T => Some(20u32),
        Key::U => Some(22u32),
        Key::V => Some(47u32),
        Key::W => Some(17u32),
        Key::X => Some(45u32),
        Key::Y => Some(21u32),
        Key::Z => Some(44u32),
        Key::Numpad0 => Some(0x200u32),
        Key::Numpad1 => Some(0x201u32),
        Key::Numpad2 => Some(0x202u32),
        Key::Numpad3 => Some(0x203u32),
        Key::Numpad4 => Some(0x204u32),
        Key::Numpad5 => Some(0x205u32),
        Key::Numpad6 => Some(0x206u32),
        Key::Numpad7 => Some(0x207u32),
        Key::Numpad8 => Some(0x208u32),
        Key::Numpad9 => Some(0x209u32),
        Key::F1 => Some(59u32),
        Key::F2 => Some(60u32),
        Key::F3 => Some(61u32),
        Key::F4 => Some(62u32),
        Key::F5 => Some(63u32),
        Key::F6 => Some(64u32),
        Key::F7 => Some(65u32),
        Key::F8 => Some(66u32),
        Key::F9 => Some(67u32),
        Key::F10 => Some(68u32),
        Key::F11 => Some(87u32),
        Key::F12 => Some(88u32),
        Key::Comma => Some(51u32),
        Key::Period => Some(52u32),
        Key::SlashFwd => Some(53u32),
        Key::SlashBack => Some(43u32),
        Key::Semicolon => Some(39u32),
        Key::Apostrophe => Some(40u32),
        Key::BracketOpen => Some(26u32),
        Key::BracketClose => Some(27u32),
        Key::Minus => Some(12u32),
        Key::Equals => Some(13u32),
        Key::LCmd => Some(125u32),
        Key::RCmd => Some(126u32),
        Key::Multiply => Some(0x20au32),
        Key::Add => Some(78u32),
        Key::Subtract => Some(12u32),
        Key::Decimal => Some(52u32),
        Key::Divide => Some(53u32),
        Key::Backtick => None,
    }
}

/// Translate a host key into its Linux input event code.
pub fn map_key(key: Key) -> (r: Option<u32>)
    ensures
        r == map_key_spec(key),
{
    match key {
        Key::Backspace => Some(14u32),
        Key::Tab => Some(15u32),
        Key::Return => Some(28u32),
        Key::Shift => Some(42u32),
        Key::Ctrl => Some(29u32),
        Key::Alt => Some(56u32),
        Key::CapsLock => Some(58u32),
        Key::Esc => Some(1u32),
        Key::Space => Some(57u32),
        Key::End => Some(107u32),
        Key::Home => Some(102u32),
        Key::Left => Some(105u32),
        Key::Right => Some(106u32),
        Key::Up => Some(103u32),
        Key::Down => Some(108u32),
        Key::PageUp => Some(104u32),
        Key::PageDown => Some(109u32),
        Key::PrintScreen => Some(210u32),
        Key::KeyInsert => Some(110u32),
        Key::Del => Some(111u32),
        Key::Key0 => Some(11u32),
        Key::Key1 => Some(2u32),
        Key::Key2 => Some(3u32),
        Key::Key3 => Some(4u32),
        Key::Key4 => Some(5u32),
        Key::Key5 => Some(6u32),
        Key::Key6 => Some(7u32),
        Key::Key7 => Some(8u32),
        Key::Key8 => Some(9u32),
        Key::Key9 => Some(10u32),
        Key::A => Some(30u32),
        Key::B => Some(48u32),
        Key::C => Some(46u32),
        Key::D => Some(32u32),
        Key::E => Some(18u32),
        Key::F => Some(33u32),
        Key::G => Some(34u32),
        Key::H => Some(35u32),
        Key::I => Some(23u32),
        Key::J => Some(36u32),
        Key::K => Some(37u32),
        Key::L => Some(38u32),
        Key::M => Some(50u32),
        Key::N => Some(49u32),
        Key::O => Some(24u32),
        Key::P => Some(25u32),
        Key::Q => Some(16u32),
        Key::R => Some(19u32),
        Key::S => Some(31u32),
        Key::T => Some(20u32),
        Key::U => Some(22u32),
        Key::V => Some(47u32),
        Key::W => Some(17u32),
        Key::X => Some(45u32),
        Key::Y => Some(21u32),
        Key::Z => Some(44u32),
        Key::Numpad0 => Some(0x200u32),
        Key::Numpad1 => Some(0x201u32),
        Key::Numpad2 => Some(0x202u32),
        Key::Numpad3 => Some(0x203u32),
        Key::Numpad4 => Some(0x204u32),
        Key::Numpad5 => Some(0x205u32),
        Key::Numpad6 => Some(0x206u32),
        Key::Numpad7 => Some(0x207u32),
        Key::Numpad8 => Some(0x208u32),
        Key::Numpad9 => Some(0x209u32),
        Key::F1 => Some(59u32),
        Key::F2 => Some(60u32),
        Key::F3 => Some(61u32),
        Key::F4 => Some(62u32),
        Key::F5 => Some(63u32),
        Key::F6 => Some(64u32),
        Key::F7 => Some(65u32),
        Key::F8 => Some(66u32),
        Key::F9 => Some(67u32),
        Key::F10 => Some(68u32),
        Key::F11 => Some(87u32),
        Key::F12 => Some(88u32),
        Key::Comma => Some(51u32),
        Key::Period => Some(52u32),
        Key::SlashFwd => Some(53u32),
        Key::SlashBack => Some(43u32),
        Key::Semicolon => Some(39u32),
        Key::Apostrophe => Some(40u32),
        Key::BracketOpen => Some(26u32),
        Key::BracketClose => Some(27u32),
        Key::Minus => Some(12u32),
        Key::Equals => Some(13u32),
        Key::LCmd => Some(125u32),
        Key::RCmd => Some(126u32),
        Key::Multiply => Some(0x20au32),
        Key::Add => Some(78u32),
        Key::Subtract => Some(12u32),
        Key::Decimal => Some(52u32),
        Key::Divide => Some(53u32),
        Key::Backtick => None,
    }
}

} // verus!
