//! Encoding bytes as emoji and decoding them back, in place in a
//! caller's output buffer.

use vstd::prelude::*;
use vstd::arithmetic::div_mod::{lemma_add_mod_noop, lemma_mul_mod_noop_left, lemma_sub_mod_noop};
use crate::emoji::{decode, decode_pair, emoji_of, encode, fourth_byte, third_byte};

verus! {

/// The third and fourth bytes of the emoji for `ch`; the first two are
/// always `0xf0 0x9f`.
fn emoji_tail(ch: u8) -> (res: (u8, u8))
    ensures
        res.0 == third_byte(ch),
        res.1 == fourth_byte(ch),
{
    // (ch + 55) >> 6 is (ch + 55) / 64, computed in u16 where it cannot wrap
    let wide: u16 = (ch as u16).wrapping_add(55);
    assert(wide >> 6 == wide / 64) by (bit_vector);
    let third = ((wide >> 6) + 143) as u8;
    // (ch + 55) & 0x3f is (ch + 55) % 64; wrapping in u8 drops a multiple of 64
    let narrow: u8 = ch.wrapping_add(55);
    assert(narrow & 0x3f == narrow % 64) by (bit_vector);
    let fourth = (narrow & 0x3f).wrapping_add(128);
    (third, fourth)
}

/// The byte that a four-byte group whose last two bytes are `c2`, `c3`
/// stands for.
fn byte_of_pair(c2: u8, c3: u8) -> (b: u8)
    ensures
        b == decode_pair(c2, c3),
{
    let hi = c2.wrapping_sub(143);
    let shifted = hi.wrapping_mul(64);
    let lo = c3.wrapping_sub(128);
    let sum = shifted.wrapping_add(lo);
    let b = sum.wrapping_sub(55);
    proof {
        // each wrapping step is the exact step taken modulo 256
        assert(hi == (c2 - 143) % 256);
        assert(shifted == (hi * 64) % 256);
        assert(lo == (c3 - 128) % 256);
        assert(sum == (shifted + lo) % 256);
        assert(b == (sum - 55) % 256);
        lemma_mul_mod_noop_left(c2 - 143, 64, 256);
        lemma_add_mod_noop((c2 - 143) * 64, c3 - 128, 256);
        lemma_sub_mod_noop((c2 - 143) * 64 + (c3 - 128), 55, 256);
    }
    b
}

/// Writes the emoji of each byte of `buf` into `out`, four bytes per input
/// byte, from the start of `out`, and hands `out` back. Bytes of `out` past
/// the first `4 * buf.len()` are left as they were.
pub fn char_to_emoji<'a, 'b>(buf: &'a [u8], out: &'b mut [u8]) -> (res: &'b [u8])
    requires
        old(out)@.len() >= 4 * buf@.len(),
    ensures
        final(out)@ == encode(buf@) + old(out)@.skip(4 * buf@.len() as int),
        res@ == final(out)@,
{
    let n = buf.len();
    let mut i: usize = 0;
    while i < n
        invariant
            n == buf@.len(),
            i <= n,
            out@.len() == old(out)@.len(),
            4 * n <= out.len(),
            forall|j: int| 0 <= j < 4 * i ==> #[trigger] out@[j] == emoji_of(buf@[j / 4])[j % 4],
            forall|j: int| 4 * i <= j < out@.len() ==> #[trigger] out@[j] == old(out)@[j],
        decreases n - i,
    {
        let ch = buf[i];
        assert(4 * i + 4 <= 4 * n) by (nonlinear_arith)
            requires
                i < n,
        ;
        let (third, fourth) = emoji_tail(ch);
        out[4 * i] = 0xf0;
        out[4 * i + 1] = 0x9f;
        out[4 * i + 2] = third;
        out[4 * i + 3] = fourth;
        i = i + 1;
    }
    assert(out@ =~= encode(buf@) + old(out)@.skip(4 * n as int));
    &*out
}

/// Reads `buf` as groups of four bytes and writes, for each group, the byte
/// it stands for into `out`, from the start, then hands `out` back. Only the
/// last two bytes of each group are read. Bytes of `out` past the first
/// `buf.len() / 4` are left as they were.
pub fn emoji_to_char<'a, 'b>(buf: &'a [u8], out: &'b mut [u8]) -> (res: &'b [u8])
    requires
        buf@.len() % 4 == 0,
        old(out)@.len() >= buf@.len() / 4,
    ensures
        final(out)@ == decode(buf@) + old(out)@.skip(buf@.len() as int / 4),
        res@ == final(out)@,
{
    let n = buf.len() / 4;
    let mut i: usize = 0;
    while i < n
        invariant
            n == buf.len() / 4,
            buf@.len() % 4 == 0,
            i <= n,
            out@.len() == old(out)@.len(),
            n <= out@.len(),
            forall|j: int| 0 <= j < i ==> #[trigger] out@[j] == decode_pair(buf@[4 * j + 2], buf@[4 * j + 3]),
            forall|j: int| i <= j < out@.len() ==> #[trigger] out@[j] == old(out)@[j],
        decreases n - i,
    {
        assert(4 * i + 4 <= buf.len()) by (nonlinear_arith)
            requires
                i < n,
                n == buf.len() / 4,
        ;
        let b = byte_of_pair(buf[4 * i + 2], buf[4 * i + 3]);
        out[i] = b;
        i = i + 1;
    }
    assert(out@ =~= decode(buf@) + old(out)@.skip(n as int));
    &*out
}

} // verus!
