//! The keystore as the client sees it: a list of keys of recognized
//! algorithms, kept under the TLV structure of the keystore entry data.

use crate::client::algorithm::{
    aad_key, algorithm_entry, nonce_and_aad, nonce_key, EncryptionAlgorithm,
};
use crate::discriminator::same_discriminator;
use crate::program::bytes::copy_into_array;
use crate::program::error::KeyringProgramError;
use crate::program::format::{
    decode_keystore, encode_config_entries, encode_keystore, entry_valid, keystore_valid,
    ConfigEntryView, EntryView,
};
use crate::program::roundtrip::{lemma_keystore_roundtrip, lemma_tag_lengths};
use crate::program::state::differs_from;
use crate::program::tlv::{entry_discriminator, KeystoreEntry};
use vstd::prelude::*;

verus! {

/// Curve25519 encryption algorithm.
#[derive(Clone, Copy, Debug, PartialEq, Eq)]
pub struct Curve25519(pub [u8; 32]);

/// RSA encryption algorithm.
#[derive(Clone, Copy, Debug, PartialEq, Eq)]
pub struct Rsa(pub [u8; 64]);

/// ComplexAlgorithm encryption algorithm (example).
#[derive(Clone, Copy, Debug, PartialEq, Eq)]
pub struct ComplexAlgorithm {
    /// The key itself
    pub key: [u8; 32],
    /// The nonce used for encryption
    pub nonce: [u8; 12],
    /// The associated data used for encryption
    pub aad: [u8; 12],
}

/// An enum for defining recognized encryption algorithms.
#[derive(Clone, Copy, Debug, PartialEq, Eq)]
pub enum EncryptionKeyConfig {
    /// Curve25519 encryption algorithm
    Curve25519(Curve25519),
    /// RSA encryption algorithm
    Rsa(Rsa),
    /// ComplexAlgorithm encryption algorithm (example)
    ComplexAlgorithm(ComplexAlgorithm),
}

impl View for EncryptionKeyConfig {
    type V = EntryView;

    /// The keystore entry that stands for the key.
    open spec fn view(&self) -> EntryView {
        match self {
            EncryptionKeyConfig::Curve25519(algorithm) => algorithm_entry(
                crate::client::algorithm::Curve25519::hash_input(),
                algorithm.0@,
                None,
            ),
            EncryptionKeyConfig::Rsa(algorithm) => algorithm_entry(
                crate::client::algorithm::Rsa::hash_input(),
                algorithm.0@,
                None,
            ),
            EncryptionKeyConfig::ComplexAlgorithm(algorithm) => algorithm_entry(
                crate::client::algorithm::ComplexAlgorithm::hash_input(),
                algorithm.key@,
                Some(nonce_and_aad(algorithm.nonce@, algorithm.aad@)),
            ),
        }
    }
}

/// Whether a keystore entry stands for a key of a recognized algorithm.
pub open spec fn recognized(entry: EntryView) -> bool {
    exists|key: EncryptionKeyConfig| #[trigger] key@ == entry
}

/// The bytes of a nonce and additional authenticated data, of twelve bytes
/// each, as configuration entries.
proof fn lemma_nonce_and_aad_length(nonce: Seq<u8>, aad: Seq<u8>)
    requires
        nonce.len() == 12,
        aad.len() == 12,
    ensures
        encode_config_entries(nonce_and_aad(nonce, aad)).len() == 48,
{
    let both = nonce_and_aad(nonce, aad);
    let second = both.skip(1);
    let none = second.skip(1);
    assert(none.len() == 0);
    assert(encode_config_entries(none).len() == 0);
    assert(second[0] == ConfigEntryView { key: aad_key(), value: aad });
    assert(encode_config_entries(second).len() == 24);
    assert(both[0] == ConfigEntryView { key: nonce_key(), value: nonce });
}

/// The keystore entry of every key can be packed.
pub proof fn lemma_key_entry_valid(key: EncryptionKeyConfig)
    ensures
        entry_valid(key@),
{
    lemma_tag_lengths();
    match key {
        EncryptionKeyConfig::Curve25519(algorithm) => {},
        EncryptionKeyConfig::Rsa(algorithm) => {},
        EncryptionKeyConfig::ComplexAlgorithm(algorithm) => {
            lemma_nonce_and_aad_length(algorithm.nonce@, algorithm.aad@);
        },
    }
}

/// Two keys with the same keystore entry are the same key.
pub proof fn lemma_key_entry_unique(a: EncryptionKeyConfig, b: EncryptionKeyConfig)
    requires
        a@ == b@,
    ensures
        a == b,
{
    match (a, b) {
        (EncryptionKeyConfig::Curve25519(x), EncryptionKeyConfig::Curve25519(y)) => {
            assert(x.0@ == y.0@);
            assert(x.0 =~= y.0);
        },
        (EncryptionKeyConfig::Rsa(x), EncryptionKeyConfig::Rsa(y)) => {
            assert(x.0@ == y.0@);
            assert(x.0 =~= y.0);
        },
        (EncryptionKeyConfig::ComplexAlgorithm(x), EncryptionKeyConfig::ComplexAlgorithm(y)) => {
            let p = nonce_and_aad(x.nonce@, x.aad@);
            let q = nonce_and_aad(y.nonce@, y.aad@);
            assert(a@.config == Some(p));
            assert(b@.config == Some(q));
            assert(p[0].value == q[0].value);
            assert(p[1].value == q[1].value);
            assert(x.key@ == y.key@);
            assert(x.key =~= y.key);
            assert(x.nonce =~= y.nonce);
            assert(x.aad =~= y.aad);
        },
        (EncryptionKeyConfig::Curve25519(x), EncryptionKeyConfig::Rsa(y)) => {
            assert(x.0@.len() == 32 && y.0@.len() == 64);
        },
        (EncryptionKeyConfig::Rsa(x), EncryptionKeyConfig::Curve25519(y)) => {
            assert(x.0@.len() == 64 && y.0@.len() == 32);
        },
        (EncryptionKeyConfig::Curve25519(x), EncryptionKeyConfig::ComplexAlgorithm(y)) => {
            assert(a@.config is None && b@.config is Some);
        },
        (EncryptionKeyConfig::ComplexAlgorithm(x), EncryptionKeyConfig::Curve25519(y)) => {
            assert(a@.config is Some && b@.config is None);
        },
        (EncryptionKeyConfig::Rsa(x), EncryptionKeyConfig::ComplexAlgorithm(y)) => {
            assert(a@.config is None && b@.config is Some);
        },
        (EncryptionKeyConfig::ComplexAlgorithm(x), EncryptionKeyConfig::Rsa(y)) => {
            assert(a@.config is Some && b@.config is None);
        },
    }
}

impl EncryptionKeyConfig {
    /// Converts a key to the keystore entry that stands for it.
    pub fn to_keystore_entry(&self) -> (entry: KeystoreEntry)
        ensures
            entry@ == self@,
            entry_valid(entry@),
    {
        proof {
            lemma_key_entry_valid(*self);
        }
        match self {
            EncryptionKeyConfig::Curve25519(algorithm) => {
                crate::client::algorithm::Curve25519::new(algorithm.0).to_keystore_entry().unwrap()
            },
            EncryptionKeyConfig::Rsa(algorithm) => {
                crate::client::algorithm::Rsa::new(algorithm.0).to_keystore_entry().unwrap()
            },
            EncryptionKeyConfig::ComplexAlgorithm(algorithm) => {
                crate::client::algorithm::ComplexAlgorithm::new(
                    algorithm.key,
                    algorithm.nonce,
                    algorithm.aad,
                ).to_keystore_entry().unwrap()
            },
        }
    }

    /// Reads a keystore entry as a key of a recognized algorithm: the entry
    /// must carry the algorithm's discriminator, a key of the algorithm's
    /// length, and the algorithm's configuration and no other.
    pub fn from_keystore_entry(entry: &KeystoreEntry) -> (key: Option<Self>)
        ensures
            key is Some <==> recognized(entry@),
            key is Some ==> key->Some_0@ == entry@,
    {
        let tag = entry_discriminator();
        if !same_discriminator(&entry.discriminator, &tag) {
            assert(!recognized(entry@));
            return None;
        }
        let key_tag = &entry.key.discriminator;
        match &entry.config {
            None => {
                if entry.key.key.len() == 32 && same_discriminator(
                    key_tag,
                    &crate::client::algorithm::Curve25519::discriminator(),
                ) {
                    let key = EncryptionKeyConfig::Curve25519(
                        Curve25519(copy_into_array::<32>(entry.key.key.as_slice())),
                    );
                    assert(key@ == entry@);
                    Some(key)
                } else if entry.key.key.len() == 64 && same_discriminator(
                    key_tag,
                    &crate::client::algorithm::Rsa::discriminator(),
                ) {
                    let key = EncryptionKeyConfig::Rsa(
                        Rsa(copy_into_array::<64>(entry.key.key.as_slice())),
                    );
                    assert(key@ == entry@);
                    Some(key)
                } else {
                    assert(!recognized(entry@)) by {
                        assert forall|key: EncryptionKeyConfig| key@ != entry@ by {
                            match key {
                                EncryptionKeyConfig::Curve25519(x) => {
                                    assert(x.0@.len() == 32);
                                },
                                EncryptionKeyConfig::Rsa(x) => {
                                    assert(x.0@.len() == 64);
                                },
                                EncryptionKeyConfig::ComplexAlgorithm(x) => {
                                    assert(key@.config is Some);
                                },
                            }
                        }
                    }
                    None
                }
            },
            Some(section) => {
                let nonce_discriminator: [u8; 8] = [110, 111, 110, 99, 101, 0, 0, 0];
                let aad_discriminator: [u8; 8] = [97, 97, 100, 0, 0, 0, 0, 0];
                assert(nonce_discriminator@ =~= nonce_key());
                assert(aad_discriminator@ =~= aad_key());
                if entry.key.key.len() == 32 && same_discriminator(
                    key_tag,
                    &crate::client::algorithm::ComplexAlgorithm::discriminator(),
                ) && section.0.len() == 2 && same_discriminator(
                    &section.0[0].key,
                    &nonce_discriminator,
                ) && section.0[0].value.len() == 12 && same_discriminator(
                    &section.0[1].key,
                    &aad_discriminator,
                ) && section.0[1].value.len() == 12 {
                    let key = EncryptionKeyConfig::ComplexAlgorithm(
                        ComplexAlgorithm {
                            key: copy_into_array::<32>(entry.key.key.as_slice()),
                            nonce: copy_into_array::<12>(section.0[0].value.as_slice()),
                            aad: copy_into_array::<12>(section.0[1].value.as_slice()),
                        },
                    );
                    assert(section@ =~= nonce_and_aad(section.0[0].value@, section.0[1].value@));
                    assert(key@ == entry@);
                    Some(key)
                } else {
                    assert(!recognized(entry@)) by {
                        assert forall|key: EncryptionKeyConfig| key@ != entry@ by {
                            match key {
                                EncryptionKeyConfig::Curve25519(x) => {
                                    assert(key@.config is None);
                                },
                                EncryptionKeyConfig::Rsa(x) => {
                                    assert(key@.config is None);
                                },
                                EncryptionKeyConfig::ComplexAlgorithm(x) => {
                                    let p = nonce_and_aad(x.nonce@, x.aad@);
                                    assert(key@.config == Some(p));
                                    if key@ == entry@ {
                                        assert(section@ == p);
                                        assert(section@.len() == 2);
                                        assert(section@[0] == p[0]);
                                        assert(section@[1] == p[1]);
                                        assert(section.0@[0]@ == section@[0]);
                                        assert(section.0@[1]@ == section@[1]);
                                        assert(x.key@.len() == 32);
                                        assert(x.nonce@.len() == 12);
                                        assert(x.aad@.len() == 12);
                                    }
                                },
                            }
                        }
                    }
                    None
                }
            },
        }
    }

    /// Whether two keys are the same key of the same algorithm.
    pub fn same_as(&self, other: &Self) -> (same: bool)
        ensures
            same == (self@ == other@),
            same == (*self == *other),
    {
        proof {
            if self@ == other@ {
                lemma_key_entry_unique(*self, *other);
            }
        }
        self.to_keystore_entry().same_as(&other.to_keystore_entry())
    }
}

/// The keys of a vector as the keystore entries that stand for them.
pub open spec fn keys_view(keys: Seq<EncryptionKeyConfig>) -> Seq<EntryView> {
    Seq::new(keys.len(), |i: int| keys[i]@)
}

/// A keystore.
#[derive(Clone, Debug, Default, PartialEq)]
pub struct Keystore(pub Vec<EncryptionKeyConfig>);

impl View for Keystore {
    type V = Seq<EntryView>;

    /// The keystore entries that stand for the keys, in order.
    open spec fn view(&self) -> Seq<EntryView> {
        keys_view(self.0@)
    }
}

/// What a buffer is read as: the keystore that it packs, where every entry
/// of it stands for a key of a recognized algorithm.
pub open spec fn decode_keys(data: Seq<u8>) -> Result<Seq<EntryView>, KeyringProgramError> {
    match decode_keystore(data) {
        Ok(entries) => if forall|i: int|
            0 <= i < entries.len() ==> recognized(#[trigger] entries[i]) {
            Ok(entries)
        } else {
            Err(KeyringProgramError::InvalidFormatForEntry)
        },
        Err(err) => Err(err),
    }
}

/// Round trip of a keystore of keys: whatever keys it holds, the keystore is
/// read back from its bytes.
pub proof fn lemma_keys_roundtrip(keys: Seq<EncryptionKeyConfig>)
    ensures
        keystore_valid(keys_view(keys)),
        decode_keys(encode_keystore(keys_view(keys))) == Ok::<
            Seq<EntryView>,
            KeyringProgramError,
        >(keys_view(keys)),
{
    let entries = keys_view(keys);
    assert forall|i: int| 0 <= i < entries.len() implies entry_valid(#[trigger] entries[i])
        && recognized(entries[i]) by {
        lemma_key_entry_valid(keys[i]);
        assert(keys[i]@ == entries[i]);
    }
    lemma_keystore_roundtrip(entries);
}

impl Keystore {
    /// Packs the keystore into a vector of bytes: the keystore entries of
    /// its keys, one after the other.
    pub fn pack(&self) -> (packed: Vec<u8>)
        ensures
            keystore_valid(self@),
            packed@ == encode_keystore(self@),
    {
        let mut entries: Vec<KeystoreEntry> = Vec::new();
        let mut i: usize = 0;
        while i < self.0.len()
            invariant
                i <= self.0@.len(),
                entries@.len() == i,
                forall|j: int| 0 <= j < i ==> (#[trigger] entries@[j])@ == self.0@[j]@,
            decreases self.0@.len() - i,
        {
            entries.push(self.0[i].to_keystore_entry());
            i += 1;
        }
        let keystore = crate::program::state::Keystore { entries };
        assert(keystore@ =~= self@);
        assert(keystore_valid(self@)) by {
            assert forall|j: int| 0 <= j < self@.len() implies entry_valid(#[trigger] self@[j]) by {
                lemma_key_entry_valid(self.0@[j]);
            }
        }
        keystore.pack().unwrap()
    }

    /// Unpacks a slice of data into a keystore. An empty slice is the empty
    /// keystore. Fails when the slice is no packed keystore, and when an
    /// entry of it stands for no key of a recognized algorithm.
    pub fn unpack(data: &[u8]) -> (unpacked: Result<Self, KeyringProgramError>)
        ensures
            match (unpacked, decode_keys(data@)) {
                (Ok(keystore), Ok(entries)) => keystore@ == entries,
                (Err(err), Err(e)) => err == e,
                _ => false,
            },
    {
        let keystore = match crate::program::state::Keystore::unpack(data) {
            Ok(keystore) => keystore,
            Err(err) => {
                return Err(err);
            },
        };
        let mut keys: Vec<EncryptionKeyConfig> = Vec::new();
        let mut i: usize = 0;
        while i < keystore.entries.len()
            invariant
                i <= keystore.entries@.len(),
                keys@.len() == i,
                forall|j: int| 0 <= j < i ==> (#[trigger] keys@[j])@ == keystore.entries@[j]@,
                forall|j: int| 0 <= j < i ==> recognized(#[trigger] keystore@[j]),
                decode_keystore(data@) == Ok::<Seq<EntryView>, KeyringProgramError>(keystore@),
            decreases keystore.entries@.len() - i,
        {
            match EncryptionKeyConfig::from_keystore_entry(&keystore.entries[i]) {
                Some(key) => {
                    assert(keystore@[i as int] == keystore.entries@[i as int]@);
                    keys.push(key);
                },
                None => {
                    assert(!recognized(keystore@[i as int]));
                    return Err(KeyringProgramError::InvalidFormatForEntry);
                },
            }
            i += 1;
        }
        let unpacked = Keystore(keys);
        assert(unpacked@ =~= keystore@);
        Ok(unpacked)
    }

    /// Adds a key at the end of the keystore.
    pub fn add_entry(&mut self, entry: EncryptionKeyConfig)
        ensures
            final(self).0@ == old(self).0@.push(entry),
            final(self)@ == old(self)@.push(entry@),
    {
        self.0.push(entry);
        assert(self@ =~= old(self)@.push(entry@));
    }

    /// Removes every key that is equal to `entry`, and keeps the others in
    /// their order.
    pub fn remove_entry(&mut self, entry: &EncryptionKeyConfig)
        ensures
            final(self)@ == old(self)@.filter(differs_from(entry@)),
    {
        let ghost all = self@;
        let ghost keep = differs_from(entry@);
        let mut kept: Vec<EncryptionKeyConfig> = Vec::new();
        let mut i: usize = 0;
        proof {
            assert(all.take(0) =~= Seq::<EntryView>::empty());
            assert(keys_view(kept@) =~= Seq::<EntryView>::empty());
            reveal(Seq::filter);
            assert(Seq::<EntryView>::empty().filter(keep) =~= Seq::<EntryView>::empty());
        }
        while i < self.0.len()
            invariant
                i <= self.0@.len(),
                all == self@,
                keep == differs_from(entry@),
                keys_view(kept@) == all.take(i as int).filter(keep),
            decreases self.0@.len() - i,
        {
            let key = self.0[i];
            proof {
                assert(all[i as int] == key@);
                assert(all.take(i + 1) =~= all.take(i as int).push(all[i as int]));
                all.take(i as int).lemma_filter_push(all[i as int], keep);
            }
            if !key.same_as(entry) {
                let ghost before = keys_view(kept@);
                kept.push(key);
                assert(keys_view(kept@) =~= before.push(key@));
            }
            i += 1;
        }
        proof {
            assert(all.take(i as int) =~= all);
        }
        self.0 = kept;
    }
}

} // verus!
