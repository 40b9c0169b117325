//! The Keyring Program Client: what it asks the program to do, from what it
//! has fetched.

use crate::client::error::KeyringError;
use crate::client::keystore::{
    decode_keys, lemma_key_entry_valid, recognized, EncryptionKeyConfig, Keystore,
};
use crate::program::error::{KeyringProgramError, ProgramError};
use crate::program::format::{encode_entry, encode_keystore, EntryView};
use crate::program::processor::{after_remove, lemma_push_then_filter};
use crate::program::roundtrip::{lemma_entry_roundtrip, lemma_keystore_decoded};
use crate::program::instruction::{
    create_keyring_instruction, update_keyring_instruction, Instruction,
};
use crate::program::program_address;
use crate::program::state::{differs_from, keyring_address};
use vstd::prelude::*;

verus! {

/// The data of a fetched keyring account: there must be an account.
pub open spec fn fetched_account(fetched: Option<Seq<u8>>) -> Result<Seq<u8>, KeyringError> {
    match fetched {
        Some(data) => Ok(data),
        None => Err(KeyringError::KeystoreNotFound),
    }
}

/// The keystore of a fetched keyring account. An account without data holds
/// the empty keystore; other data must be a packed keystore of keys of
/// recognized algorithms.
pub open spec fn fetched_keystore(fetched: Option<Seq<u8>>) -> Result<
    Seq<EntryView>,
    KeyringError,
> {
    match fetched_account(fetched) {
        Ok(data) => if data.len() == 0 {
            Ok(Seq::empty())
        } else {
            match decode_keys(data) {
                Ok(entries) => Ok(entries),
                Err(err) => Err(KeyringError::Program(ProgramError::Custom(err.spec_code()))),
            }
        },
        Err(err) => Err(err),
    }
}

/// The new data of a keyring account after a key is added to its keystore.
pub open spec fn data_after_add(fetched: Option<Seq<u8>>, entry: EntryView) -> Result<
    Seq<u8>,
    KeyringError,
> {
    match fetched_keystore(fetched) {
        Ok(entries) => Ok(encode_keystore(entries.push(entry))),
        Err(err) => Err(err),
    }
}

/// The new data of a keyring account after every key equal to `entry` is
/// removed from its keystore.
///
/// Nothing can be found in an account without data: the entry is reported as
/// not found. Other data must be a packed keystore of keys of recognized
/// algorithms; it is written out again without the keys equal to `entry`,
/// which is the data as it was where no key is equal to `entry`.
pub open spec fn data_after_remove(fetched: Option<Seq<u8>>, entry: EntryView) -> Result<
    Seq<u8>,
    KeyringError,
> {
    match fetched_account(fetched) {
        Ok(data) => if data.len() == 0 {
            Err(
                KeyringError::Program(
                    ProgramError::Custom(KeyringProgramError::KeystoreEntryNotFound.spec_code()),
                ),
            )
        } else {
            match decode_keys(data) {
                Ok(entries) => Ok(encode_keystore(entries.filter(differs_from(entry)))),
                Err(err) => Err(KeyringError::Program(ProgramError::Custom(err.spec_code()))),
            }
        },
        Err(err) => Err(err),
    }
}

/// The client removes a key as the program removes its packed entry: on data
/// that the client can read, both give the same new data, and both find
/// nothing in an account without data.
pub proof fn lemma_remove_as_the_program(data: Seq<u8>, key: EncryptionKeyConfig)
    requires
        fetched_keystore(Some(data)) is Ok,
    ensures
        data_after_remove(Some(data), key@) == match after_remove(data, encode_entry(key@)) {
            Ok(bytes) => Ok::<Seq<u8>, KeyringError>(bytes),
            Err(err) => Err::<Seq<u8>, KeyringError>(
                KeyringError::Program(ProgramError::Custom(err.spec_code())),
            ),
        },
{
    lemma_key_entry_valid(key);
    lemma_entry_roundtrip(key@);
}

/// Adding a key that the keystore did not hold, then removing it, gives the
/// data back as it was; after an add there is always data to remove from.
pub proof fn lemma_client_add_then_remove(data: Seq<u8>, key: EncryptionKeyConfig)
    requires
        fetched_keystore(Some(data)) is Ok,
        !fetched_keystore(Some(data))->Ok_0.contains(key@),
    ensures
        data_after_add(Some(data), key@) is Ok,
        data_after_add(Some(data), key@)->Ok_0.len() > 0,
        data_after_remove(Some(data_after_add(Some(data), key@)->Ok_0), key@) == Ok::<
            Seq<u8>,
            KeyringError,
        >(data),
{
    let before = fetched_keystore(Some(data))->Ok_0;
    lemma_key_entry_valid(key);
    if data.len() == 0 {
        assert(data =~= Seq::<u8>::empty());
        assert(encode_keystore(before) == Seq::<u8>::empty());
    } else {
        lemma_keystore_decoded(data);
    }
    lemma_push_then_filter(before, key@);
    assert forall|i: int| 0 <= i < before.push(key@).len() implies recognized(
        #[trigger] before.push(key@)[i],
    ) by {
        if i < before.len() {
            assert(before.push(key@)[i] == before[i]);
        } else {
            assert(key@ == before.push(key@)[i]);
        }
    }
}

/// The Keyring Program Client.
#[derive(Clone, Copy, Debug, PartialEq, Eq)]
pub struct Keyring {
    /// The address of the account that pays for the transactions
    pub payer: [u8; 32],
    /// The address of the program that holds the keyrings
    pub program_id: [u8; 32],
}

impl Keyring {
    /// Create a new instance of the Keyring Program Client.
    pub fn new(program_id: &[u8; 32], payer: [u8; 32]) -> (keyring: Self)
        ensures
            keyring.program_id == *program_id,
            keyring.payer == payer,
    {
        Keyring { payer, program_id: *program_id }
    }

    /// Get the user's keyring address, where one can be derived.
    pub fn get_keyring_address(&self, authority: &[u8; 32]) -> (found: Option<([u8; 32], u8)>)
        ensures
            match found {
                Some((address, bump_seed)) => keyring_address(self.program_id@, authority@)
                    == Some((address@, bump_seed)),
                None => keyring_address(self.program_id@, authority@) is None,
            },
    {
        crate::program::state::Keyring::pda(&self.program_id, authority)
    }

    /// The user's keyring account, from what was fetched at its address.
    pub fn get_keyring_account(fetched: Option<Vec<u8>>) -> (account: Result<
        Vec<u8>,
        KeyringError,
    >)
        ensures
            match (account, fetched_account(fetched_view(fetched))) {
                (Ok(data), Ok(d)) => data@ == d,
                (Err(err), Err(e)) => err == e,
                _ => false,
            },
    {
        match fetched {
            Some(data) => Ok(data),
            None => Err(KeyringError::KeystoreNotFound),
        }
    }

    /// The user's keyring account, unpacked, from what was fetched at its
    /// address.
    pub fn get_keystore(fetched: Option<Vec<u8>>) -> (keystore: Result<Keystore, KeyringError>)
        ensures
            match (keystore, fetched_keystore(fetched_view(fetched))) {
                (Ok(unpacked), Ok(entries)) => unpacked@ == entries,
                (Err(err), Err(e)) => err == e,
                _ => false,
            },
    {
        let data = match Self::get_keyring_account(fetched) {
            Ok(data) => data,
            Err(err) => {
                return Err(err);
            },
        };
        if data.len() == 0 {
            let keystore = Keystore(Vec::new());
            assert(keystore@ =~= Seq::<EntryView>::empty());
            Ok(keystore)
        } else {
            match Keystore::unpack(data.as_slice()) {
                Ok(keystore) => Ok(keystore),
                Err(err) => Err(KeyringError::Program(err.to_program_error())),
            }
        }
    }

    /// The new data of the keyring account after a key is added to the
    /// keystore that was fetched.
    pub fn data_with_entry(
        fetched: Option<Vec<u8>>,
        entry: EncryptionKeyConfig,
    ) -> (data: Result<Vec<u8>, KeyringError>)
        ensures
            match (data, data_after_add(fetched_view(fetched), entry@)) {
                (Ok(packed), Ok(bytes)) => packed@ == bytes,
                (Err(err), Err(e)) => err == e,
                _ => false,
            },
    {
        let mut keystore = match Self::get_keystore(fetched) {
            Ok(keystore) => keystore,
            Err(err) => {
                return Err(err);
            },
        };
        keystore.add_entry(entry);
        Ok(keystore.pack())
    }

    /// The new data of the keyring account after every key equal to `entry`
    /// is removed from the keystore that was fetched. Fails with the
    /// program's "entry not found" where the account holds no data.
    pub fn data_without_entry(
        fetched: Option<Vec<u8>>,
        entry: EncryptionKeyConfig,
    ) -> (data: Result<Vec<u8>, KeyringError>)
        ensures
            match (data, data_after_remove(fetched_view(fetched), entry@)) {
                (Ok(packed), Ok(bytes)) => packed@ == bytes,
                (Err(err), Err(e)) => err == e,
                _ => false,
            },
    {
        let data = match Self::get_keyring_account(fetched) {
            Ok(data) => data,
            Err(err) => {
                return Err(err);
            },
        };
        if data.len() == 0 {
            return Err(
                KeyringError::Program(KeyringProgramError::KeystoreEntryNotFound.to_program_error()),
            );
        }
        let mut keystore = match Keystore::unpack(data.as_slice()) {
            Ok(keystore) => keystore,
            Err(err) => {
                return Err(KeyringError::Program(err.to_program_error()));
            },
        };
        keystore.remove_entry(&entry);
        Ok(keystore.pack())
    }

    /// Create a new keyring: the instruction that does so for `authority`.
    pub fn create_keyring(&self, authority: &[u8; 32]) -> (built: Result<Instruction, KeyringError>)
        ensures
            match keyring_address(program_address(), authority@) {
                Some((keyring, _)) => built is Ok && built->Ok_0@ == create_keyring_instruction(
                    program_address(),
                    authority@,
                    keyring,
                ),
                None => built == Err::<Instruction, KeyringError>(
                    KeyringError::Program(ProgramError::InvalidSeeds),
                ),
            },
    {
        let program_id = crate::program::id();
        match crate::program::instruction::create_keyring(&program_id, authority) {
            Ok(built) => Ok(built),
            Err(err) => Err(KeyringError::Program(err)),
        }
    }

    /// Add a new key to a keystore: the instruction that writes the keystore
    /// that was fetched, with the key at its end.
    pub fn add_entry(
        &self,
        authority: &[u8; 32],
        fetched: Option<Vec<u8>>,
        entry: EncryptionKeyConfig,
    ) -> (built: Result<Instruction, KeyringError>)
        ensures
            match data_after_add(fetched_view(fetched), entry@) {
                Ok(data) => match keyring_address(program_address(), authority@) {
                    Some((keyring, _)) => built is Ok && built->Ok_0@ == update_keyring_instruction(
                        program_address(),
                        authority@,
                        keyring,
                        data,
                    ),
                    None => built == Err::<Instruction, KeyringError>(
                        KeyringError::Program(ProgramError::InvalidSeeds),
                    ),
                },
                Err(err) => built == Err::<Instruction, KeyringError>(err),
            },
    {
        let data = match Self::data_with_entry(fetched, entry) {
            Ok(data) => data,
            Err(err) => {
                return Err(err);
            },
        };
        let program_id = crate::program::id();
        match crate::program::instruction::update_keyring(&program_id, authority, data) {
            Ok(built) => Ok(built),
            Err(err) => Err(KeyringError::Program(err)),
        }
    }

    /// Remove a key from a keystore: the instruction that writes the
    /// keystore that was fetched, without the keys equal to `entry`. No
    /// instruction is built where the account holds no data: the entry is
    /// reported as not found.
    pub fn remove_entry(
        &self,
        authority: &[u8; 32],
        fetched: Option<Vec<u8>>,
        entry: EncryptionKeyConfig,
    ) -> (built: Result<Instruction, KeyringError>)
        ensures
            match data_after_remove(fetched_view(fetched), entry@) {
                Ok(data) => match keyring_address(program_address(), authority@) {
                    Some((keyring, _)) => built is Ok && built->Ok_0@ == update_keyring_instruction(
                        program_address(),
                        authority@,
                        keyring,
                        data,
                    ),
                    None => built == Err::<Instruction, KeyringError>(
                        KeyringError::Program(ProgramError::InvalidSeeds),
                    ),
                },
                Err(err) => built == Err::<Instruction, KeyringError>(err),
            },
    {
        let data = match Self::data_without_entry(fetched, entry) {
            Ok(data) => data,
            Err(err) => {
                return Err(err);
            },
        };
        let program_id = crate::program::id();
        match crate::program::instruction::update_keyring(&program_id, authority, data) {
            Ok(built) => Ok(built),
            Err(err) => Err(KeyringError::Program(err)),
        }
    }
}

/// What was fetched at an address as plain data.
pub open spec fn fetched_view(fetched: Option<Vec<u8>>) -> Option<Seq<u8>> {
    match fetched {
        Some(data) => Some(data@),
        None => None,
    }
}

} // verus!
