# base100

Encodes any byte as one emoji and reads it back: byte `b` is written as the
four UTF-8 bytes of the scalar U+1F3F7 + `b`.

- `src/emoji.rs` — the model: the emoji of a byte, and what a buffer encodes
  and decodes to, as spec functions over `Seq<u8>`.
- `src/codec.rs` — `char_to_emoji` and `emoji_to_char`, which fill a caller's
  output buffer, with contracts over that model.
- `src/laws.rs` — proofs that decoding undoes encoding, that every byte has
  its own emoji, that the output is valid UTF-8 with one character per input
  byte, and that both directions work piece by piece.
- `app/main.rs` — the command-line tool (stdin or a file to stdout; `-d` to
  decode).
