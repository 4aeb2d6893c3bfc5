//! The keys of the host keyboard that the 16-key hexadecimal keypad is
//! mapped to.

use vstd::prelude::*;

verus! {

/// A key of the host keyboard. The sixteen keys of the left-hand 4 x 4 block
/// (1 2 3 4 / Q W E R / A S D F / Z X C V) stand for the keypad; every other
/// key is `Other`.
#[derive(Clone, Copy, Debug, PartialEq, Eq, Structural)]
pub enum Key {
    Key1,
    Key2,
    Key3,
    Key4,
    Q,
    W,
    E,
    R,
    A,
    S,
    D,
    F,
    Z,
    X,
    C,
    V,
    Other,
}

/// The keypad key (0x0 to 0xF) that a host key stands for, in the layout
///
/// ```text
/// 1 2 3 C      Key1 Key2 Key3 Key4
/// 4 5 6 D      Q    W    E    R
/// 7 8 9 E      A    S    D    F
/// A 0 B F      Z    X    C    V
/// ```
pub open spec fn slot_of(key: Key) -> Option<u8> {
    match key {
        Key::X => Some(0x0),
        Key::Key1 => Some(0x1),
        Key::Key2 => Some(0x2),
        Key::Key3 => Some(0x3),
        Key::Q => Some(0x4),
        Key::W => Some(0x5),
        Key::E => Some(0x6),
        Key::A => Some(0x7),
        Key::S => Some(0x8),
        Key::D => Some(0x9),
        Key::Z => Some(0xA),
        Key::C => Some(0xB),
        Key::Key4 => Some(0xC),
        Key::R => Some(0xD),
        Key::F => Some(0xE),
        Key::V => Some(0xF),
        Key::Other => None,
    }
}

/// The keypad state while the host keys `keys` are down: keypad key `i` is
/// down exactly when some key of the list stands for it.
pub open spec fn pressed_keys(keys: Seq<Key>) -> Seq<bool> {
    Seq::new(
        16,
        |i: int| exists|j: int| 0 <= j < keys.len() && #[trigger] slot_of(keys[j]) == Some(i as u8),
    )
}

impl Key {
    /// The keypad key this host key stands for, if any.
    pub fn slot(&self) -> (s: Option<u8>)
        ensures
            s == slot_of(*self),
    {
        match self {
            Key::X => Some(0x0),
            Key::Key1 => Some(0x1),
            Key::Key2 => Some(0x2),
            Key::Key3 => Some(0x3),
            Key::Q => Some(0x4),
            Key::W => Some(0x5),
            Key::E => Some(0x6),
            Key::A => Some(0x7),
            Key::S => Some(0x8),
            Key::D => Some(0x9),
            Key::Z => Some(0xA),
            Key::C => Some(0xB),
            Key::Key4 => Some(0xC),
            Key::R => Some(0xD),
            Key::F => Some(0xE),
            Key::V => Some(0xF),
            Key::Other => None,
        }
    }
}

} // verus!
