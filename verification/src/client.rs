//! The keyring client: recognised algorithms and the typed keystore.

pub mod algorithm;
pub mod error;
pub mod keyring;
pub mod keystore;
pub mod state;
