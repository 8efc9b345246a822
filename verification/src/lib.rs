//! A bounded decimal byte parser.
//!
//! The library turns a short ASCII token (1 to 3 bytes) into the `u8` value
//! it denotes, rejecting empty input, overlong input, non-digit bytes and
//! values above 255. The executable parser works lane-parallel on a packed
//! 32-bit word (SWAR) and is proved equal to a direct mathematical model.

pub mod model;
pub mod parser;
