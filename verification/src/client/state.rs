//! State representations of recognized encryption algorithms.

use crate::discriminator::hash_input_discriminator;
use vstd::prelude::*;

verus! {

/// A trait for defining recognized encryption algorithms.
pub trait EncryptionAlgorithm {
    /// The string that the algorithm's discriminator is derived from.
    spec fn hash_input() -> Seq<char>;

    /// The length of the encryption key in bytes.
    spec fn spec_key_length() -> usize;

    /// The string that the discriminator of the algorithm's configurations
    /// is derived from.
    spec fn configurations_hash_input() -> Seq<char>;

    /// The length of the encryption key in bytes.
    fn key_length() -> (length: usize)
        ensures
            length == Self::spec_key_length(),
    ;

    /// The discriminator of the algorithm.
    fn discriminator() -> (tag: [u8; 8])
        ensures
            tag == hash_input_discriminator(Self::hash_input()),
    ;

    /// The discriminator of the configurations that the algorithm requires.
    fn configurations_discriminator() -> (tag: [u8; 8])
        ensures
            tag == hash_input_discriminator(Self::configurations_hash_input()),
    ;
}

/// Struct representing "no configurations" required for a particular
/// encryption algorithm.
#[derive(Clone, Copy, Debug, Default, PartialEq, Eq)]
pub struct NoConfigurations;

impl NoConfigurations {
    /// The discriminator of "no configurations".
    pub fn discriminator() -> (tag: [u8; 8])
        ensures
            tag == hash_input_discriminator("configurations:none"@),
    {
        crate::discriminator::derive("configurations:none")
    }
}

/// Curve25519 encryption algorithm.
#[derive(Clone, Copy, Debug, Default, PartialEq, Eq)]
pub struct Curve25519;

impl EncryptionAlgorithm for Curve25519 {
    open spec fn hash_input() -> Seq<char> {
        "key:curve25519"@
    }

    open spec fn spec_key_length() -> usize {
        32
    }

    open spec fn configurations_hash_input() -> Seq<char> {
        "configurations:none"@
    }

    fn key_length() -> (length: usize) {
        32
    }

    fn discriminator() -> (tag: [u8; 8]) {
        crate::discriminator::derive("key:curve25519")
    }

    fn configurations_discriminator() -> (tag: [u8; 8]) {
        NoConfigurations::discriminator()
    }
}

/// X25519 encryption algorithm.
#[derive(Clone, Copy, Debug, Default, PartialEq, Eq)]
pub struct X25519;

impl EncryptionAlgorithm for X25519 {
    open spec fn hash_input() -> Seq<char> {
        "key:x25519"@
    }

    open spec fn spec_key_length() -> usize {
        32
    }

    open spec fn configurations_hash_input() -> Seq<char> {
        "configurations:none"@
    }

    fn key_length() -> (length: usize) {
        32
    }

    fn discriminator() -> (tag: [u8; 8]) {
        crate::discriminator::derive("key:x25519")
    }

    fn configurations_discriminator() -> (tag: [u8; 8]) {
        NoConfigurations::discriminator()
    }
}

/// Ed25519 encryption algorithm.
#[derive(Clone, Copy, Debug, Default, PartialEq, Eq)]
pub struct Ed25519;

impl EncryptionAlgorithm for Ed25519 {
    open spec fn hash_input() -> Seq<char> {
        "key:ed25519"@
    }

    open spec fn spec_key_length() -> usize {
        32
    }

    open spec fn configurations_hash_input() -> Seq<char> {
        "configurations:none"@
    }

    fn key_length() -> (length: usize) {
        32
    }

    fn discriminator() -> (tag: [u8; 8]) {
        crate::discriminator::derive("key:ed25519")
    }

    fn configurations_discriminator() -> (tag: [u8; 8]) {
        NoConfigurations::discriminator()
    }
}

/// Cha-Cha20-Poly1305 encryption algorithm.
#[derive(Clone, Copy, Debug, Default, PartialEq, Eq)]
pub struct ChaCha20Poly1305;

impl EncryptionAlgorithm for ChaCha20Poly1305 {
    open spec fn hash_input() -> Seq<char> {
        "key:cha-cha20-poly1305"@
    }

    open spec fn spec_key_length() -> usize {
        32
    }

    open spec fn configurations_hash_input() -> Seq<char> {
        "configurations:cha-cha20-poly1305"@
    }

    fn key_length() -> (length: usize) {
        32
    }

    fn discriminator() -> (tag: [u8; 8]) {
        crate::discriminator::derive("key:cha-cha20-poly1305")
    }

    fn configurations_discriminator() -> (tag: [u8; 8]) {
        ChaCha20Poly1305Configurations::discriminator()
    }
}

/// Cha-Cha20-Poly1305 configurations.
#[derive(Clone, Copy, Debug, Default, PartialEq, Eq)]
pub struct ChaCha20Poly1305Configurations {
    /// The nonce used for encryption
    pub nonce: [u8; 12],
    /// The associated data used for encryption
    pub aad: [u8; 12],
}

impl ChaCha20Poly1305Configurations {
    /// The discriminator of the Cha-Cha20-Poly1305 configurations.
    pub fn discriminator() -> (tag: [u8; 8])
        ensures
            tag == hash_input_discriminator("configurations:cha-cha20-poly1305"@),
    {
        crate::discriminator::derive("configurations:cha-cha20-poly1305")
    }
}

} // verus!
