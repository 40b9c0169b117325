//! Error types for the Keyring Client.

use crate::program::error::ProgramError;
use vstd::prelude::*;

verus! {

/// Error types for the Keyring Client.
#[derive(Clone, Copy, Debug, PartialEq, Eq, Structural)]
pub enum KeyringError {
    /// Program errors
    Program(ProgramError),
    /// Keystore not found
    KeystoreNotFound,
}

} // verus!
