use base100::{char_to_emoji, emoji_to_char};

const FOX: &str = "the quick brown fox jumped over the lazy dog\n";
const FOX_EMOJI: &str = "👫👟👜🐗👨👬👠👚👢🐗👙👩👦👮👥🐗👝👦👯🐗👡👬👤👧👜👛🐗👦👭👜👩🐗👫👟👜🐗👣👘👱👰🐗👛👦👞🐁";

fn encode_all(input: &[u8]) -> Vec<u8> {
    let mut out = vec![0u8; input.len() * 4];
    let res = char_to_emoji(input, &mut out).to_vec();
    assert_eq!(res, out);
    out
}

fn decode_all(input: &[u8]) -> Vec<u8> {
    let mut out = vec![0u8; input.len() / 4];
    let res = emoji_to_char(input, &mut out).to_vec();
    assert_eq!(res, out);
    out
}

#[test]
fn readme_example_encodes() {
    assert_eq!(encode_all(FOX.as_bytes()), FOX_EMOJI.as_bytes().to_vec());
}

#[test]
fn readme_example_decodes() {
    assert_eq!(decode_all(FOX_EMOJI.as_bytes()), FOX.as_bytes().to_vec());
}

#[test]
fn single_byte_formulas() {
    assert_eq!(encode_all(&[0]), vec![0xf0, 0x9f, 0x8f, 0xb7]);
    assert_eq!(encode_all(&[8]), vec![0xf0, 0x9f, 0x8f, 0xbf]);
    assert_eq!(encode_all(&[9]), vec![0xf0, 0x9f, 0x90, 0x80]);
    assert_eq!(encode_all(&[200]), vec![0xf0, 0x9f, 0x92, 0xbf]);
    assert_eq!(encode_all(&[255]), vec![0xf0, 0x9f, 0x93, 0xb6]);
}

#[test]
fn first_and_last_emoji() {
    assert_eq!(String::from_utf8(encode_all(&[0])).unwrap(), "\u{1F3F7}");
    assert_eq!(String::from_utf8(encode_all(&[255])).unwrap(), "\u{1F4F6}");
}

#[test]
fn every_byte_round_trips() {
    let all: Vec<u8> = (0u8..=255).collect();
    let encoded = encode_all(&all);
    assert_eq!(encoded.len(), 4 * 256);
    assert_eq!(decode_all(&encoded), all);
}

#[test]
fn output_is_utf8_one_char_per_byte() {
    let all: Vec<u8> = (0u8..=255).collect();
    let text = String::from_utf8(encode_all(&all)).unwrap();
    let chars: Vec<char> = text.chars().collect();
    assert_eq!(chars.len(), 256);
    for (b, c) in all.iter().zip(chars.iter()) {
        assert_eq!(*c as u32, 0x1F3F7 + *b as u32);
    }
}

#[test]
fn every_byte_has_its_own_emoji() {
    let mut seen = std::collections::HashSet::new();
    for b in 0u8..=255 {
        assert!(seen.insert(encode_all(&[b])));
    }
    assert_eq!(seen.len(), 256);
}

#[test]
fn empty_input() {
    assert_eq!(encode_all(&[]), Vec::<u8>::new());
    assert_eq!(decode_all(&[]), Vec::<u8>::new());
    let mut out = [9u8; 3];
    assert_eq!(char_to_emoji(&[], &mut out), &[9u8, 9, 9]);
    assert_eq!(emoji_to_char(&[], &mut out), &[9u8, 9, 9]);
}

#[test]
fn encode_leaves_rest_of_output_and_returns_all_of_it() {
    let mut out = [0xaau8; 7];
    let res = char_to_emoji(&[1], &mut out);
    assert_eq!(res, &[0xf0, 0x9f, 0x8f, 0xb8, 0xaa, 0xaa, 0xaa]);
}

#[test]
fn decode_leaves_rest_of_output_and_returns_all_of_it() {
    let mut out = [0x55u8; 4];
    let res = emoji_to_char("\u{1F3F8}\u{1F3F9}".as_bytes(), &mut out);
    assert_eq!(res, &[1, 2, 0x55, 0x55]);
}

#[test]
fn decode_reads_only_last_two_bytes_of_each_group() {
    assert_eq!(decode_all(&[0, 0, 0x8f, 0xb7, 0xff, 0x12, 0x93, 0xb6]), vec![0, 255]);
}

#[test]
fn decode_wraps_modulo_256() {
    // (0x00 - 143) * 64 + (0x00 - 128) - 55 = -9335, which is 137 modulo 256
    assert_eq!(decode_all(&[0, 0, 0, 0]), vec![137]);
}

#[test]
fn encoding_in_pieces_matches_encoding_at_once() {
    let data = b"hello, world";
    let mut pieces = encode_all(&data[..5]);
    pieces.extend(encode_all(&data[5..]));
    assert_eq!(pieces, encode_all(data));
}

#[test]
fn decoding_in_pieces_matches_decoding_at_once() {
    let encoded = encode_all(b"hello, world");
    let mut pieces = decode_all(&encoded[..20]);
    pieces.extend(decode_all(&encoded[20..]));
    assert_eq!(pieces, b"hello, world".to_vec());
}
