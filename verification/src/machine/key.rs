//! Keys: what a key event carries, the modifier keys, and the tables that
//! turn scan codes into characters.
use vstd::prelude::*;

verus! {

/// The modifier keys that are held and the locks that are on, as a bit
/// pattern. The three lowest bits are the lights of the keyboard.
#[derive(Copy, Clone, Eq, PartialEq, Structural, Debug)]
pub struct Modifiers {
    pub bits: u8,
}

impl Modifiers {
    pub const NONE: u8 = 0;

    pub const SCROLL_LOCK: u8 = 1 << 0;

    pub const NUMLOCK: u8 = 1 << 1;

    pub const CAPSLOCK: u8 = 1 << 2;

    pub const SHIFT: u8 = 1 << 3;

    pub const ALT_LEFT: u8 = 1 << 4;

    pub const ALT_RIGHT: u8 = 1 << 5;

    pub const CTRL_LEFT: u8 = 1 << 6;

    pub const CTRL_RIGHT: u8 = 1 << 7;

    /// The set of the keys in `bits`.
    pub fn from_bits_truncate(bits: u8) -> (m: Self)
        ensures
            m.bits == bits,
    {
        Modifiers { bits }
    }

    /// The keys as a bit pattern.
    pub fn bits(&self) -> (b: u8)
        ensures
            b == self.bits,
    {
        self.bits
    }

    /// Whether every key in `keys` is in the set.
    pub open spec fn spec_contains(&self, keys: u8) -> bool {
        self.bits & keys == keys
    }

    /// Whether every key in `keys` is in the set.
    #[verifier::when_used_as_spec(spec_contains)]
    pub fn contains(&self, keys: u8) -> (r: bool)
        ensures
            r == self.spec_contains(keys),
    {
        self.bits & keys == keys
    }

    /// Put the keys in `keys` into the set.
    pub fn insert(&mut self, keys: u8)
        ensures
            final(self).bits == old(self).bits | keys,
    {
        self.bits = self.bits | keys;
    }

    /// Take the keys in `keys` out of the set.
    pub fn remove(&mut self, keys: u8)
        ensures
            final(self).bits == old(self).bits & !keys,
    {
        self.bits = self.bits & !keys;
    }

    /// Put the keys in `keys` that are not in the set into it, and take
    /// those that are in it out.
    pub fn toggle(&mut self, keys: u8)
        ensures
            final(self).bits == old(self).bits ^ keys,
    {
        self.bits = self.bits ^ keys;
    }
}

/// A key event: the character, the scan code, and the modifiers that were
/// active. It fits into 32 bits of which the highest 8 are clear, so that a
/// pattern with one of those set can stand for "no key".
#[derive(Copy, Clone, Debug, PartialEq, Eq, Structural)]
pub struct Key {
    pub asc: u8,
    pub scan: u8,
    pub modi: Modifiers,
}

impl Key {
    /// The pattern that stands for "no key".
    pub const NONE_KEY: u32 = 0xff00_0000;

    /// The key packed into 32 bits: the character in the lowest byte, then
    /// the scan code, then the modifiers; the highest byte is clear.
    pub open spec fn spec_to_u32(&self) -> u32 {
        (self.asc as u32) | ((self.scan as u32) << 8) | ((self.modi.bits as u32) << 16)
    }

    /// The key packed into 32 bits.
    #[verifier::when_used_as_spec(spec_to_u32)]
    pub fn to_u32(&self) -> (k: u32)
        ensures
            k == self.spec_to_u32(),
            !Self::is_none(k),
    {
        let a = self.asc;
        let s = self.scan;
        let m = self.modi.bits;
        assert(((a as u32) | ((s as u32) << 8) | ((m as u32) << 16)) & 0xff00_0000u32 == 0)
            by (bit_vector);
        (self.asc as u32) | ((self.scan as u32) << 8) | ((self.modi.bits as u32) << 16)
    }

    /// The key that 32 bits stand for, or nothing for a pattern of "no
    /// key".
    pub open spec fn spec_from_u32(k: u32) -> Option<Self> {
        if Self::is_none(k) {
            None
        } else {
            Some(
                Key {
                    asc: (k & 0xff) as u8,
                    scan: ((k >> 8) & 0xff) as u8,
                    modi: Modifiers { bits: ((k >> 16) & 0xff) as u8 },
                },
            )
        }
    }

    /// The key that 32 bits stand for, or nothing for a pattern of "no
    /// key".
    #[verifier::when_used_as_spec(spec_from_u32)]
    pub fn from_u32(k: u32) -> (r: Option<Self>)
        ensures
            r == Self::spec_from_u32(k),
    {
        if Self::is_none(k) {
            None
        } else {
            assert(k & 0xff <= 0xff && (k >> 8) & 0xff <= 0xff && (k >> 16) & 0xff <= 0xff)
                by (bit_vector);
            Some(
                Key {
                    asc: (k & 0xff) as u8,
                    scan: ((k >> 8) & 0xff) as u8,
                    modi: Modifiers::from_bits_truncate(((k >> 16) & 0xff) as u8),
                },
            )
        }
    }

    /// Whether 32 bits stand for "no key": one of the highest 8 bits is
    /// set.
    pub open spec fn spec_is_none(k: u32) -> bool {
        k & Self::NONE_KEY != 0
    }

    /// Whether 32 bits stand for "no key".
    #[verifier::when_used_as_spec(spec_is_none)]
    pub fn is_none(k: u32) -> (r: bool)
        ensures
            r == Self::spec_is_none(k),
    {
        k & Self::NONE_KEY != 0
    }

    /// The key without character, scan code and modifiers.
    pub fn new() -> (k: Self)
        ensures
            k.asc == 0,
            k.scan == 0,
            k.modi.bits == Modifiers::NONE,
    {
        Self { asc: 0, scan: 0, modi: Modifiers::from_bits_truncate(Modifiers::NONE) }
    }

    /// Packing a key and unpacking it gives the key back.
    pub proof fn lemma_pack_unpack(k: Key)
        ensures
            Key::spec_from_u32(k.spec_to_u32()) == Some(k),
    {
        let a = k.asc;
        let s = k.scan;
        let m = k.modi.bits;
        let p = (a as u32) | ((s as u32) << 8) | ((m as u32) << 16);
        assert(p & 0xff00_0000u32 == 0 && (p & 0xff) as u8 == a && ((p >> 8) & 0xff) as u8 == s && (
        (p >> 16) & 0xff) as u8 == m) by (bit_vector)
            requires
                p == (a as u32) | ((s as u32) << 8) | ((m as u32) << 16),
        ;
    }
}

/// Scan codes of a few keys.
#[derive(Copy, Clone, Debug, PartialEq, Eq, Structural)]
pub enum Scan {
    F1,
    Del,
    Up,
    Down,
    Left,
    Right,
    Div,
}

impl Scan {
    /// The scan code of the key.
    pub fn code(&self) -> (c: u8)
        ensures
            c == (match self {
                Scan::F1 => 0x3bu8,
                Scan::Del => 0x53u8,
                Scan::Up => 72u8,
                Scan::Down => 80u8,
                Scan::Left => 75u8,
                Scan::Right => 77u8,
                Scan::Div => 8u8,
            }),
    {
        match self {
            Scan::F1 => 0x3b,
            Scan::Del => 0x53,
            Scan::Up => 72,
            Scan::Down => 80,
            Scan::Left => 75,
            Scan::Right => 77,
            Scan::Div => 8,
        }
    }
}

/// The characters of the keys without a modifier, by scan code.
pub const NORMAL_TAB: [u8; 100] = [
    0, 0, 49, 50, 51, 52, 53, 54, 55, 56,
    57, 48, 45, 61, 8, 0, 113, 119, 101, 114,
    116, 121, 117, 105, 111, 112, 91, 93, 10, 0,
    97, 115, 100, 102, 103, 104, 106, 107, 108, 59,
    39, 96, 0, 134, 122, 120, 99, 118, 98, 110,
    109, 44, 46, 47, 0, 42, 0, 32, 0, 0,
    0, 0, 0, 0, 0, 0, 0, 0, 0, 0,
    0, 0, 0, 0, 45, 0, 0, 0, 43, 0,
    0, 0, 0, 0, 0, 0, 60, 0, 0, 0,
    0, 0, 0, 0, 0, 0, 0, 0, 0, 0,
];

/// The characters of the keys with shift, by scan code.
pub const SHIFT_TAB: [u8; 100] = [
    0, 0, 33, 64, 35, 36, 37, 94, 47, 42,
    40, 41, 95, 43, 0, 0, 81, 87, 69, 82,
    84, 89, 85, 73, 79, 80, 123, 125, 0, 0,
    65, 83, 68, 70, 71, 72, 74, 75, 76, 58,
    34, 126, 0, 124, 90, 88, 67, 86, 66, 78,
    77, 60, 62, 63, 0, 0, 0, 32, 0, 0,
    0, 0, 0, 0, 0, 0, 0, 0, 0, 0,
    0, 0, 0, 0, 0, 0, 0, 0, 0, 0,
    0, 0, 0, 0, 0, 0, 62, 0, 0, 0,
    0, 0, 0, 0, 0, 0, 0, 0, 0, 0,
];

/// The characters of the keys with the right alt key, by scan code.
pub const ALT_TAB: [u8; 100] = [
    0, 0, 0, 253, 0, 0, 0, 0, 123, 91,
    93, 125, 92, 0, 0, 0, 64, 0, 0, 0,
    0, 0, 0, 0, 0, 0, 0, 126, 0, 0,
    0, 0, 0, 0, 0, 0, 0, 0, 0, 0,
    0, 0, 0, 0, 0, 0, 0, 0, 0, 0,
    230, 0, 0, 0, 0, 0, 0, 0, 0, 0,
    0, 0, 0, 0, 0, 0, 0, 0, 0, 0,
    0, 0, 0, 0, 0, 0, 0, 0, 0, 0,
    0, 0, 0, 0, 0, 0, 124, 0, 0, 0,
    0, 0, 0, 0, 0, 0, 0, 0, 0, 0,
];

/// The characters of the keys of the number block, from scan code 71 on.
pub const ASC_NUM_TAB: [u8; 13] = [55, 56, 57, 45, 52, 53, 54, 43, 49, 50, 51, 48, 44];

/// The scan codes of the keys of the main block that give the same
/// characters as the keys of the number block.
pub const SCAN_NUM_TAB: [u8; 13] = [8, 9, 10, 53, 5, 6, 7, 27, 2, 3, 4, 11, 51];

} // verus!
