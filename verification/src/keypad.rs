//! The sixteen-key hexadecimal keypad.

use vstd::prelude::*;

verus! {

/// One keypad symbol, `0` through `F`.
#[derive(Debug, Clone, Copy, PartialEq, Eq, Structural)]
pub enum ChipKey {
    Key0,
    Key1,
    Key2,
    Key3,
    Key4,
    Key5,
    Key6,
    Key7,
    Key8,
    Key9,
    KeyA,
    KeyB,
    KeyC,
    KeyD,
    KeyE,
    KeyF,
}

/// The 4-bit value a key stands for.
pub open spec fn key_code(k: ChipKey) -> u8 {
    match k {
        ChipKey::Key0 => 0x0,
        ChipKey::Key1 => 0x1,
        ChipKey::Key2 => 0x2,
        ChipKey::Key3 => 0x3,
        ChipKey::Key4 => 0x4,
        ChipKey::Key5 => 0x5,
        ChipKey::Key6 => 0x6,
        ChipKey::Key7 => 0x7,
        ChipKey::Key8 => 0x8,
        ChipKey::Key9 => 0x9,
        ChipKey::KeyA => 0xA,
        ChipKey::KeyB => 0xB,
        ChipKey::KeyC => 0xC,
        ChipKey::KeyD => 0xD,
        ChipKey::KeyE => 0xE,
        ChipKey::KeyF => 0xF,
    }
}

impl ChipKey {
    /// The 4-bit value this key stands for.
    pub fn as_byte(&self) -> (r: u8)
        ensures
            r == key_code(*self),
    {
        match self {
            ChipKey::Key0 => 0x0,
            ChipKey::Key1 => 0x1,
            ChipKey::Key2 => 0x2,
            ChipKey::Key3 => 0x3,
            ChipKey::Key4 => 0x4,
            ChipKey::Key5 => 0x5,
            ChipKey::Key6 => 0x6,
            ChipKey::Key7 => 0x7,
            ChipKey::Key8 => 0x8,
            ChipKey::Key9 => 0x9,
            ChipKey::KeyA => 0xA,
            ChipKey::KeyB => 0xB,
            ChipKey::KeyC => 0xC,
            ChipKey::KeyD => 0xD,
            ChipKey::KeyE => 0xE,
            ChipKey::KeyF => 0xF,
        }
    }
}

} // verus!
