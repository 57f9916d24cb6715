//! Wire encoding, decoding and cryptographic authentication of STUN
//! messages: the RFC 8489 framing of a message header and its typed,
//! padded attributes, with the FINGERPRINT (CRC-32) and
//! MESSAGE-INTEGRITY (HMAC-SHA1 / HMAC-SHA256) security attributes
//! computed over exact byte ranges of the message.

pub mod attributes;
pub mod builder;
pub mod error;
pub mod header;
pub mod parse;
pub mod wire;

pub use error::Error;
pub use header::TransactionId;
