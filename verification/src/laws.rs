//! What holds of the encoding as a whole: decoding undoes encoding, every
//! byte has an emoji of its own, the output is UTF-8 with one character per
//! input byte, and both directions work piecewise on concatenated input.

use vstd::prelude::*;
use vstd::utf8::{decode_utf8, encode_scalar, encode_utf8, encode_utf8_decode_utf8, encode_utf8_valid_utf8, has_width_4_encoding, valid_utf8};
use crate::emoji::{decode, decode_pair, emoji_char, emoji_chars, emoji_of, encode, fourth_byte, scalar_of, third_byte};

verus! {

/// The last two bytes of the emoji for `b` decode to `b`.
pub proof fn law_pair_decodes_to_byte(b: u8)
    ensures
        decode_pair(third_byte(b), fourth_byte(b)) == b,
{
    let q = (b + 55) / 64;
    let r = (b + 55) % 64;
    assert(q * 64 + r == b + 55);
}

/// Decoding the encoding of any buffer gives the buffer back.
pub proof fn law_decode_encode(s: Seq<u8>)
    ensures
        decode(encode(s)) == s,
{
    let e = encode(s);
    assert forall|i: int| 0 <= i < s.len() implies #[trigger] decode(e)[i] == s[i] by {
        assert((4 * i + 2) / 4 == i && (4 * i + 2) % 4 == 2);
        assert((4 * i + 3) / 4 == i && (4 * i + 3) % 4 == 3);
        assert(4 * i + 3 < 4 * s.len());
        law_pair_decodes_to_byte(s[i]);
    }
    assert(decode(e) =~= s);
}

/// Different buffers never encode the same: each byte has an emoji of its own.
pub proof fn law_encode_injective(s: Seq<u8>, t: Seq<u8>)
    requires
        encode(s) == encode(t),
    ensures
        s == t,
{
    law_decode_encode(s);
    law_decode_encode(t);
}

/// The emoji of `b` is the UTF-8 encoding of the scalar U+1F3F7 + `b`, a
/// scalar that UTF-8 writes in four bytes.
pub proof fn law_emoji_is_scalar_encoding(b: u8)
    ensures
        has_width_4_encoding(scalar_of(b)),
        emoji_of(b) == encode_scalar(scalar_of(b)),
        emoji_char(b) as u32 == scalar_of(b),
{
    let v: u32 = scalar_of(b);
    assert(v == 0x1F3F7u32 + b);
    assert(has_width_4_encoding(v));
    assert(0xF0u8 | ((v >> 18) & 0x7) as u8 == 0xf0u8) by (bit_vector)
        requires
            v == 0x1F3F7u32 + b,
    ;
    assert(0x80u8 | ((v >> 12) & 0x3F) as u8 == 0x9fu8) by (bit_vector)
        requires
            v == 0x1F3F7u32 + b,
    ;
    assert(0x80u8 | ((v >> 6) & 0x3F) as u8 == ((b + 55) / 64 + 143) as u8) by (bit_vector)
        requires
            v == 0x1F3F7u32 + b,
    ;
    assert(0x80u8 | (v & 0x3F) as u8 == ((b + 55) % 64 + 128) as u8) by (bit_vector)
        requires
            v == 0x1F3F7u32 + b,
    ;
    assert(emoji_of(b) =~= encode_scalar(v));
}

/// The encoding of a buffer starts with the emoji of its first byte.
proof fn lemma_encode_first(s: Seq<u8>)
    requires
        s.len() > 0,
    ensures
        encode(s) == emoji_of(s[0]) + encode(s.drop_first()),
{
    let rest = s.drop_first();
    assert forall|j: int| 0 <= j < 4 * s.len() implies #[trigger] encode(s)[j] == (emoji_of(s[0])
        + encode(rest))[j] by {
        if j >= 4 {
            assert((j - 4) / 4 == j / 4 - 1 && (j - 4) % 4 == j % 4);
        }
    }
    assert(encode(s) =~= emoji_of(s[0]) + encode(rest));
}

/// The encoding of a buffer is the UTF-8 encoding of the characters that
/// stand for its bytes: it is valid UTF-8, and it decodes as UTF-8 to one
/// character per input byte.
pub proof fn law_encode_is_utf8(s: Seq<u8>)
    ensures
        encode(s) == encode_utf8(emoji_chars(s)),
        valid_utf8(encode(s)),
        decode_utf8(encode(s)) == emoji_chars(s),
        decode_utf8(encode(s)).len() == s.len(),
    decreases s.len(),
{
    let cs = emoji_chars(s);
    if s.len() == 0 {
        assert(encode(s) =~= Seq::<u8>::empty());
    } else {
        law_encode_is_utf8(s.drop_first());
        lemma_encode_first(s);
        law_emoji_is_scalar_encoding(s[0]);
        assert(cs.drop_first() =~= emoji_chars(s.drop_first()));
        assert(cs[0] == emoji_char(s[0]));
    }
    encode_utf8_valid_utf8(cs);
    encode_utf8_decode_utf8(cs);
}

/// Encoding a concatenation is concatenating the encodings: input may be
/// encoded piece by piece.
pub proof fn law_encode_concat(a: Seq<u8>, b: Seq<u8>)
    ensures
        encode(a + b) == encode(a) + encode(b),
{
    let ab = a + b;
    assert forall|j: int| 0 <= j < 4 * ab.len() implies #[trigger] encode(ab)[j] == (encode(a)
        + encode(b))[j] by {
        if j >= 4 * a.len() {
            let k = j - 4 * a.len();
            assert(k / 4 == j / 4 - a.len() && k % 4 == j % 4);
        }
    }
    assert(encode(ab) =~= encode(a) + encode(b));
}

/// Decoding a concatenation whose first part is whole groups of four is
/// concatenating the decodings: encoded input may be decoded piece by piece.
pub proof fn law_decode_concat(x: Seq<u8>, y: Seq<u8>)
    requires
        x.len() % 4 == 0,
    ensures
        decode(x + y) == decode(x) + decode(y),
{
    let xy = x + y;
    assert((x.len() + y.len()) / 4 == x.len() / 4 + y.len() / 4);
    assert forall|i: int| 0 <= i < decode(xy).len() implies #[trigger] decode(xy)[i] == (decode(x)
        + decode(y))[i] by {
        if i < x.len() / 4 {
            assert(4 * i + 3 < x.len());
        } else {
            let k = i - x.len() / 4;
            assert(4 * i + 2 == x.len() + 4 * k + 2);
        }
    }
    assert(decode(xy) =~= decode(x) + decode(y));
}

} // verus!
