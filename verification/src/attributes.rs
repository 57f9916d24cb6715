//! The attribute codecs: each attribute type offers `decode`,
//! `encode` and `encode_len` against the shared message models.

pub mod fingerprint;
pub mod integrity;
pub mod software;

pub use fingerprint::Fingerprint;
pub use integrity::{MessageIntegrity, MessageIntegrityKey, MessageIntegritySha256};
pub use software::Software;
