//! A per-owner keystore of cryptographic key records.
//!
//! Every record is a nested type-length-value structure: an algorithm-tagged
//! key followed by an optional configuration section. A keystore is the flat
//! concatenation of its records, and is kept in one growable byte buffer.
//!
//! The `program` modules hold the byte format, the buffer mutations and the
//! instruction handling; the `client` modules hold the recognised algorithms
//! and the typed keystore built on top of the byte format.

pub mod client;
pub mod discriminator;
pub mod program;
