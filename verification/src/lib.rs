//! Morse code: encoding, decoding and pulse timing.
//!
//! Text is encoded as a sequence of [`MorseBit`] symbols and decoded again, the
//! symbols can be rendered as dots and dashes, and a symbol sequence can be
//! turned into timed on/off pulses for a signalling device.

pub mod codec;
pub mod error;
pub mod pretty;
pub mod pulse;
pub mod round_trip;
pub mod symbol;
pub mod table;
pub mod text;
pub mod tokenizer;

pub use codec::{decode, encode, encode_lowercase};
pub use error::MorseError;
pub use pretty::{from_pretty, to_pretty};
pub use pulse::to_durations;
pub use symbol::MorseBit;
pub use tokenizer::get_next_morse;
