//! The mathematical model of the encoding: which emoji stands for which
//! byte, and what a whole buffer encodes and decodes to.

use vstd::prelude::*;

verus! {

/// The first Unicode scalar of the alphabet: byte `0` is written as U+1F3F7.
pub open spec fn first_scalar() -> u32 {
    0x1F3F7u32
}

/// The Unicode scalar that stands for byte `b`: U+1F3F7 + `b`.
pub open spec fn scalar_of(b: u8) -> u32 {
    (first_scalar() + b) as u32
}

/// The character that stands for byte `b`.
pub open spec fn emoji_char(b: u8) -> char {
    scalar_of(b) as char
}

/// The third byte of the emoji for `b`.
pub open spec fn third_byte(b: u8) -> u8 {
    ((b + 55) / 64 + 143) as u8
}

/// The fourth byte of the emoji for `b`.
pub open spec fn fourth_byte(b: u8) -> u8 {
    ((b + 55) % 64 + 128) as u8
}

/// The four bytes written for byte `b`.
pub open spec fn emoji_of(b: u8) -> Seq<u8> {
    seq![0xf0u8, 0x9fu8, third_byte(b), fourth_byte(b)]
}

/// The encoding of a whole buffer: the emoji of each byte, one after another.
pub open spec fn encode(s: Seq<u8>) -> Seq<u8> {
    Seq::new(4 * s.len(), |j: int| emoji_of(s[j / 4])[j % 4])
}

/// The byte that the last two bytes of a four-byte group stand for: the
/// arithmetic of `fourth_byte` and `third_byte` undone, modulo 256.
pub open spec fn decode_pair(c2: u8, c3: u8) -> u8 {
    (((c2 - 143) * 64 + (c3 - 128) - 55) % 256) as u8
}

/// The decoding of a buffer taken as groups of four bytes: one byte per
/// group, read from the group's last two bytes; the first two bytes of a
/// group are not looked at.
pub open spec fn decode(s: Seq<u8>) -> Seq<u8> {
    Seq::new(s.len() / 4, |i: int| decode_pair(s[4 * i + 2], s[4 * i + 3]))
}

/// The characters that stand for the bytes of `s`, in order.
pub open spec fn emoji_chars(s: Seq<u8>) -> Seq<char> {
    s.map_values(|b: u8| emoji_char(b))
}

} // verus!
