//! Base💯: every byte is written as one emoji, a four-byte UTF-8 sequence,
//! and read back from it.

pub mod codec;
pub mod emoji;
pub mod laws;

pub use codec::{char_to_emoji, emoji_to_char};
