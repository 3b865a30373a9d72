//! A time-based one-time password generator: the HOTP/TOTP
//! counter-to-code transform over HMAC-SHA-512, with the time counter
//! rendered as decimal text before keyed hashing.

pub mod digits;
pub mod mac;
pub mod generator;
