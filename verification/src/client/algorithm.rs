//! Recognized encryption algorithms, and the keystore entries they make.

use crate::discriminator::hash_input_discriminator;
use crate::program::bytes::{append_bytes, copy_bytes};
use crate::program::error::ProgramError;
use crate::program::format::{entry_tag, ConfigEntryView, EntryView, KeyView};
use crate::program::tlv::{
    optional_config_view, KeystoreEntry, KeystoreEntryConfig, KeystoreEntryConfigEntry,
    KeystoreEntryKey,
};
use vstd::prelude::*;

verus! {

/// The keystore entry of an algorithm: the entry discriminator, the key
/// under the algorithm's discriminator, and the algorithm's configuration.
pub open spec fn algorithm_entry(
    hash_input: Seq<char>,
    key: Seq<u8>,
    config: Option<Seq<ConfigEntryView>>,
) -> EntryView {
    EntryView {
        discriminator: entry_tag(),
        key: KeyView { discriminator: hash_input_discriminator(hash_input)@, key },
        config,
    }
}

/// A trait for defining recognized encryption algorithms.
pub trait EncryptionAlgorithm: Sized {
    /// The string that the algorithm's discriminator is derived from.
    spec fn hash_input() -> Seq<char>;

    /// The key as plain data.
    spec fn spec_key(&self) -> Seq<u8>;

    /// The configuration as plain data.
    spec fn spec_config(&self) -> Option<Seq<ConfigEntryView>>;

    /// The algorithm's own bytes: its fields one after the other.
    spec fn spec_buffer(&self) -> Seq<u8>;

    /// The discriminator of the algorithm.
    fn discriminator() -> (tag: [u8; 8])
        ensures
            tag == hash_input_discriminator(Self::hash_input()),
    ;

    /// Returns the key.
    fn key(&self) -> (key: Vec<u8>)
        ensures
            key@ == self.spec_key(),
    ;

    /// Returns the config as an `Option<KeystoreEntryConfig>`.
    fn keystore_entry_config(&self) -> (config: Option<KeystoreEntryConfig>)
        ensures
            optional_config_view(config) == self.spec_config(),
    ;

    /// Converts an encryption algorithm to a buffer.
    fn to_buffer(&self) -> (buffer: Result<Vec<u8>, ProgramError>)
        ensures
            buffer is Ok,
            buffer->Ok_0@ == self.spec_buffer(),
    ;

    /// Converts an encryption algorithm to a keystore entry.
    fn to_keystore_entry(&self) -> (entry: Result<KeystoreEntry, ProgramError>)
        ensures
            entry is Ok,
            entry->Ok_0@ == algorithm_entry(
                Self::hash_input(),
                self.spec_key(),
                self.spec_config(),
            ),
    {
        let key = KeystoreEntryKey { discriminator: Self::discriminator(), key: self.key() };
        match KeystoreEntry::new(key, self.keystore_entry_config()) {
            Ok(entry) => Ok(entry),
            Err(err) => Err(err.to_program_error()),
        }
    }
}

/// A trait representing the configurations of an encryption algorithm.
pub trait Configurations: Sized {
    /// The configuration as plain data.
    spec fn spec_config(&self) -> Option<Seq<ConfigEntryView>>;

    /// The configurations' own bytes.
    spec fn spec_buffer(&self) -> Seq<u8>;

    /// Converts configurations to a buffer.
    fn to_buffer(&self) -> (buffer: Result<Vec<u8>, ProgramError>)
        ensures
            buffer is Ok,
            buffer->Ok_0@ == self.spec_buffer(),
    ;

    /// Converts configurations to a `KeystoreEntryConfig`.
    fn to_keystore_entry_config(&self) -> (config: Option<KeystoreEntryConfig>)
        ensures
            optional_config_view(config) == self.spec_config(),
    ;
}

/// Struct representing "no configurations" required for a particular
/// encryption algorithm.
#[derive(Clone, Copy, Debug, Default, PartialEq, Eq)]
pub struct NoConfigurations;

impl Configurations for NoConfigurations {
    open spec fn spec_config(&self) -> Option<Seq<ConfigEntryView>> {
        None
    }

    open spec fn spec_buffer(&self) -> Seq<u8> {
        seq![0u8]
    }

    fn to_buffer(&self) -> (buffer: Result<Vec<u8>, ProgramError>) {
        let mut buffer: Vec<u8> = Vec::new();
        buffer.push(0u8);
        assert(buffer@ =~= seq![0u8]);
        Ok(buffer)
    }

    fn to_keystore_entry_config(&self) -> (config: Option<KeystoreEntryConfig>) {
        assert(self.spec_config() is None);
        None
    }
}

/// Curve25519 encryption algorithm.
#[derive(Clone, Copy, Debug, PartialEq, Eq)]
pub struct Curve25519(pub [u8; 32]);

impl Curve25519 {
    /// Create a new instance of Curve25519.
    pub fn new(key: [u8; 32]) -> (algorithm: Self)
        ensures
            algorithm.0 == key,
    {
        Curve25519(key)
    }
}

impl EncryptionAlgorithm for Curve25519 {
    open spec fn hash_input() -> Seq<char> {
        "spl_keyring_program:key:Curve25519"@
    }

    open spec fn spec_key(&self) -> Seq<u8> {
        self.0@
    }

    open spec fn spec_config(&self) -> Option<Seq<ConfigEntryView>> {
        None
    }

    open spec fn spec_buffer(&self) -> Seq<u8> {
        self.0@
    }

    fn discriminator() -> (tag: [u8; 8]) {
        crate::discriminator::derive("spl_keyring_program:key:Curve25519")
    }

    fn key(&self) -> (key: Vec<u8>) {
        copy_bytes(self.0.as_slice())
    }

    fn keystore_entry_config(&self) -> (config: Option<KeystoreEntryConfig>) {
        NoConfigurations.to_keystore_entry_config()
    }

    fn to_buffer(&self) -> (buffer: Result<Vec<u8>, ProgramError>) {
        Ok(copy_bytes(self.0.as_slice()))
    }
}

/// Rsa encryption algorithm.
#[derive(Clone, Copy, Debug, PartialEq, Eq)]
pub struct Rsa(pub [u8; 64]);

impl Rsa {
    /// Create a new instance of Rsa.
    pub fn new(key: [u8; 64]) -> (algorithm: Self)
        ensures
            algorithm.0 == key,
    {
        Rsa(key)
    }
}

impl EncryptionAlgorithm for Rsa {
    open spec fn hash_input() -> Seq<char> {
        "spl_keyring_program:key:RSA"@
    }

    open spec fn spec_key(&self) -> Seq<u8> {
        self.0@
    }

    open spec fn spec_config(&self) -> Option<Seq<ConfigEntryView>> {
        None
    }

    open spec fn spec_buffer(&self) -> Seq<u8> {
        self.0@
    }

    fn discriminator() -> (tag: [u8; 8]) {
        crate::discriminator::derive("spl_keyring_program:key:RSA")
    }

    fn key(&self) -> (key: Vec<u8>) {
        copy_bytes(self.0.as_slice())
    }

    fn keystore_entry_config(&self) -> (config: Option<KeystoreEntryConfig>) {
        NoConfigurations.to_keystore_entry_config()
    }

    fn to_buffer(&self) -> (buffer: Result<Vec<u8>, ProgramError>) {
        Ok(copy_bytes(self.0.as_slice()))
    }
}

/// The key of the nonce among the configuration entries: the bytes of
/// `nonce`, filled up with zeros.
pub open spec fn nonce_key() -> Seq<u8> {
    seq![110u8, 111u8, 110u8, 99u8, 101u8, 0u8, 0u8, 0u8]
}

/// The key of the additional authenticated data among the configuration
/// entries: the bytes of `aad`, filled up with zeros.
pub open spec fn aad_key() -> Seq<u8> {
    seq![97u8, 97u8, 100u8, 0u8, 0u8, 0u8, 0u8, 0u8]
}

/// The configuration section of a nonce and additional authenticated data:
/// the nonce first.
pub open spec fn nonce_and_aad(nonce: Seq<u8>, aad: Seq<u8>) -> Seq<ConfigEntryView> {
    seq![
        ConfigEntryView { key: nonce_key(), value: nonce },
        ConfigEntryView { key: aad_key(), value: aad },
    ]
}

/// ComplexAlgorithm configurations.
#[derive(Clone, Copy, Debug, Default, PartialEq, Eq)]
pub struct ComplexAlgorithmConfigurations {
    /// The nonce used for encryption
    pub nonce: [u8; 12],
    /// The additional authenticated data
    pub aad: [u8; 12],
}

impl ComplexAlgorithmConfigurations {
    /// The discriminator of the configurations.
    pub fn discriminator() -> (tag: [u8; 8])
        ensures
            tag == hash_input_discriminator("spl_keyring_program:configuration:ComplexAlgorithm"@),
    {
        crate::discriminator::derive("spl_keyring_program:configuration:ComplexAlgorithm")
    }
}

impl Configurations for ComplexAlgorithmConfigurations {
    open spec fn spec_config(&self) -> Option<Seq<ConfigEntryView>> {
        Some(nonce_and_aad(self.nonce@, self.aad@))
    }

    open spec fn spec_buffer(&self) -> Seq<u8> {
        self.nonce@ + self.aad@
    }

    fn to_buffer(&self) -> (buffer: Result<Vec<u8>, ProgramError>) {
        let mut buffer: Vec<u8> = copy_bytes(self.nonce.as_slice());
        append_bytes(&mut buffer, self.aad.as_slice());
        Ok(buffer)
    }

    fn to_keystore_entry_config(&self) -> (config: Option<KeystoreEntryConfig>) {
        let nonce_discriminator: [u8; 8] = [110, 111, 110, 99, 101, 0, 0, 0];
        let aad_discriminator: [u8; 8] = [97, 97, 100, 0, 0, 0, 0, 0];
        assert(nonce_discriminator@ =~= nonce_key());
        assert(aad_discriminator@ =~= aad_key());
        let mut entries: Vec<KeystoreEntryConfigEntry> = Vec::new();
        entries.push(
            KeystoreEntryConfigEntry {
                key: nonce_discriminator,
                value: copy_bytes(self.nonce.as_slice()),
            },
        );
        entries.push(
            KeystoreEntryConfigEntry {
                key: aad_discriminator,
                value: copy_bytes(self.aad.as_slice()),
            },
        );
        let section = KeystoreEntryConfig(entries);
        assert(section@ =~= nonce_and_aad(self.nonce@, self.aad@));
        assert(self.spec_config() == Some(section@));
        Some(section)
    }
}

/// ComplexAlgorithm encryption algorithm.
#[derive(Clone, Copy, Debug, Default, PartialEq, Eq)]
pub struct ComplexAlgorithm {
    /// The key
    pub key: [u8; 32],
    /// The configurations
    pub config: ComplexAlgorithmConfigurations,
}

impl ComplexAlgorithm {
    /// Create a new instance of ComplexAlgorithm.
    pub fn new(key: [u8; 32], nonce: [u8; 12], aad: [u8; 12]) -> (algorithm: Self)
        ensures
            algorithm.key == key,
            algorithm.config.nonce == nonce,
            algorithm.config.aad == aad,
    {
        ComplexAlgorithm { key, config: ComplexAlgorithmConfigurations { nonce, aad } }
    }
}

impl EncryptionAlgorithm for ComplexAlgorithm {
    open spec fn hash_input() -> Seq<char> {
        "spl_keyring_program:key:ComplexAlgorithm"@
    }

    open spec fn spec_key(&self) -> Seq<u8> {
        self.key@
    }

    open spec fn spec_config(&self) -> Option<Seq<ConfigEntryView>> {
        Some(nonce_and_aad(self.config.nonce@, self.config.aad@))
    }

    open spec fn spec_buffer(&self) -> Seq<u8> {
        self.key@ + self.config.nonce@ + self.config.aad@
    }

    fn discriminator() -> (tag: [u8; 8]) {
        crate::discriminator::derive("spl_keyring_program:key:ComplexAlgorithm")
    }

    fn key(&self) -> (key: Vec<u8>) {
        copy_bytes(self.key.as_slice())
    }

    fn keystore_entry_config(&self) -> (config: Option<KeystoreEntryConfig>) {
        self.config.to_keystore_entry_config()
    }

    fn to_buffer(&self) -> (buffer: Result<Vec<u8>, ProgramError>) {
        let mut buffer: Vec<u8> = copy_bytes(self.key.as_slice());
        append_bytes(&mut buffer, self.config.nonce.as_slice());
        append_bytes(&mut buffer, self.config.aad.as_slice());
        Ok(buffer)
    }
}

} // verus!
