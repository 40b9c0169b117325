//! Keyring Program state: where a keyring lives, and what it holds.

use crate::program::bytes::{append_bytes, copy_bytes, same_bytes, tail_from};
use crate::program::error::{KeyringProgramError, ProgramError};
use crate::program::format::{
    decode_keystore, encode_keystore, entry_valid, keystore_valid, EntryView,
};
use crate::program::roundtrip::{
    lemma_encode_keystore_take, lemma_entry_prefix_decoded, lemma_keystore_decoded,
};
use crate::program::tlv::KeystoreEntry;
use vstd::prelude::*;

verus! {

/// The address and bump seed that `Pubkey::try_find_program_address` finds for
/// two seeds under a program id, or `None` where it finds none.
pub uninterp spec fn found_program_address(
    first_seed: Seq<u8>,
    second_seed: Seq<u8>,
    program_id: Seq<u8>,
) -> Option<(Seq<u8>, u8)>;

/// Calls `solana_program::pubkey::Pubkey::try_find_program_address` with the
/// two seeds in order. The search hashes the seeds, a bump seed and the
/// program id, and takes the first bump seed, from 255 down, whose digest is
/// no point of the curve; the contract only names what it returns.
#[verifier::external_body]
fn try_find_program_address(
    first_seed: &[u8],
    second_seed: &[u8],
    program_id: &[u8; 32],
) -> (found: Option<([u8; 32], u8)>)
    ensures
        match found {
            Some((address, bump_seed)) => found_program_address(
                first_seed@,
                second_seed@,
                program_id@,
            ) == Some((address@, bump_seed)),
            None => found_program_address(first_seed@, second_seed@, program_id@) is None,
        },
{
    let program = solana_program::pubkey::Pubkey::new_from_array(*program_id);
    let seeds: [&[u8]; 2] = [first_seed, second_seed];
    match solana_program::pubkey::Pubkey::try_find_program_address(&seeds, &program) {
        Some((address, bump_seed)) => Some((address.to_bytes(), bump_seed)),
        None => None,
    }
}

/// The seed prefix of every keyring address: the bytes of `keyring`.
pub open spec fn seed_prefix() -> Seq<u8> {
    seq![107u8, 101u8, 121u8, 114u8, 105u8, 110u8, 103u8]
}

/// The address and bump seed of the keyring of `authority` under
/// `program_id`, where one can be derived.
pub open spec fn keyring_address(program_id: Seq<u8>, authority: Seq<u8>) -> Option<
    (Seq<u8>, u8),
> {
    found_program_address(seed_prefix(), authority, program_id)
}

/// Struct for managing keystore state.
pub struct Keyring;

impl Keyring {
    /// Returns the seeds for this account as a vector of byte strings: the
    /// seed prefix, then the authority.
    pub fn seeds(authority: &[u8; 32]) -> (seeds: Vec<Vec<u8>>)
        ensures
            seeds@.len() == 2,
            seeds@[0]@ == seed_prefix(),
            seeds@[1]@ == authority@,
    {
        let prefix: [u8; 7] = [107, 101, 121, 114, 105, 110, 103];
        let mut seeds: Vec<Vec<u8>> = Vec::new();
        let first = copy_bytes(prefix.as_slice());
        assert(first@ =~= seed_prefix());
        seeds.push(first);
        seeds.push(copy_bytes(authority.as_slice()));
        seeds
    }

    /// Returns the program-derived address and bump seed for this account
    /// type using the provided arguments, or `None` where no bump seed gives
    /// an address.
    pub fn pda(program_id: &[u8; 32], authority: &[u8; 32]) -> (found: Option<([u8; 32], u8)>)
        ensures
            match found {
                Some((address, bump_seed)) => keyring_address(program_id@, authority@) == Some(
                    (address@, bump_seed),
                ),
                None => keyring_address(program_id@, authority@) is None,
            },
    {
        let prefix: [u8; 7] = [107, 101, 121, 114, 105, 110, 103];
        assert(prefix@ =~= seed_prefix());
        try_find_program_address(prefix.as_slice(), authority.as_slice(), program_id)
    }

    /// Validates a passed address against the one that `pda` derives, then
    /// returns the bump seed.
    pub fn check_pda(
        program_id: &[u8; 32],
        authority: &[u8; 32],
        pda: &[u8; 32],
    ) -> (checked: Result<u8, ProgramError>)
        ensures
            checked == checked_bump_seed(keyring_address(program_id@, authority@), pda@),
    {
        let found = Self::pda(program_id, authority);
        Self::check_found(found, pda)
    }

    /// Validates a passed address against a derived one, then returns the
    /// bump seed.
    pub fn check_found(found: Option<([u8; 32], u8)>, pda: &[u8; 32]) -> (checked: Result<
        u8,
        ProgramError,
    >)
        ensures
            checked == checked_bump_seed(
                match found {
                    Some((address, bump_seed)) => Some((address@, bump_seed)),
                    None => None,
                },
                pda@,
            ),
    {
        match found {
            Some((address, bump_seed)) => {
                if same_bytes(address.as_slice(), pda.as_slice()) {
                    Ok(bump_seed)
                } else {
                    Err(ProgramError::InvalidSeeds)
                }
            },
            None => Err(ProgramError::InvalidSeeds),
        }
    }
}

/// The bump seed of a derived address, where the passed address is that one;
/// the seeds are refused where it is another, or where none was derived.
pub open spec fn checked_bump_seed(found: Option<(Seq<u8>, u8)>, pda: Seq<u8>) -> Result<
    u8,
    ProgramError,
> {
    match found {
        Some((address, bump_seed)) => if address == pda {
            Ok(bump_seed)
        } else {
            Err(ProgramError::InvalidSeeds)
        },
        None => Err(ProgramError::InvalidSeeds),
    }
}

/// The entries of a vector as plain data.
pub open spec fn entries_view(entries: Seq<KeystoreEntry>) -> Seq<EntryView> {
    Seq::new(entries.len(), |i: int| entries[i]@)
}

/// The test that keeps every entry but those equal to `target`.
pub open spec fn differs_from(target: EntryView) -> spec_fn(EntryView) -> bool {
    |entry: EntryView| entry != target
}

/// A keystore: the entries that one keyring account holds, in order.
#[derive(Clone, Debug, Default, PartialEq)]
pub struct Keystore {
    /// The entries of the keystore
    pub entries: Vec<KeystoreEntry>,
}

impl View for Keystore {
    type V = Seq<EntryView>;

    open spec fn view(&self) -> Seq<EntryView> {
        entries_view(self.entries@)
    }
}

impl Keystore {
    /// A keystore without entries.
    pub fn new() -> (keystore: Self)
        ensures
            keystore@ == Seq::<EntryView>::empty(),
    {
        let keystore = Keystore { entries: Vec::new() };
        assert(keystore@ =~= Seq::<EntryView>::empty());
        keystore
    }

    /// Packs a `Keystore` into a vector of bytes: its entries one after the
    /// other, with nothing around them. Fails when an entry cannot be packed.
    pub fn pack(&self) -> (packed: Result<Vec<u8>, KeyringProgramError>)
        ensures
            packed is Ok <==> keystore_valid(self@),
            packed is Ok ==> packed->Ok_0@ == encode_keystore(self@),
            packed is Err ==> packed->Err_0 == KeyringProgramError::InvalidFormatForEntry,
    {
        let ghost all = self@;
        let mut data: Vec<u8> = Vec::new();
        let mut i: usize = 0;
        proof {
            assert(all.take(0) =~= Seq::<EntryView>::empty());
        }
        while i < self.entries.len()
            invariant
                i <= self.entries@.len(),
                all == self@,
                data@ == encode_keystore(all.take(i as int)),
                forall|j: int| 0 <= j < i ==> entry_valid(#[trigger] all[j]),
            decreases self.entries@.len() - i,
        {
            let entry = &self.entries[i];
            assert(all[i as int] == entry@);
            match entry.pack() {
                Ok(packed) => {
                    append_bytes(&mut data, packed.as_slice());
                },
                Err(_) => {
                    assert(!entry_valid(self@[i as int]));
                    return Err(KeyringProgramError::InvalidFormatForEntry);
                },
            }
            proof {
                lemma_encode_keystore_take(all, i as int);
            }
            i += 1;
        }
        proof {
            assert(all.take(i as int) =~= all);
        }
        Ok(data)
    }

    /// Unpacks a slice of data into a `Keystore`: entries are peeled off the
    /// front until nothing is left. The first entry that cannot be read fails
    /// the whole slice; an empty slice is the empty keystore.
    pub fn unpack(data: &[u8]) -> (unpacked: Result<Self, KeyringProgramError>)
        ensures
            match (unpacked, decode_keystore(data@)) {
                (Ok(keystore), Ok(entries)) => keystore@ == entries,
                (Err(err), Err(e)) => err == e,
                _ => false,
            },
            unpacked is Ok ==> keystore_valid(unpacked->Ok_0@) && encode_keystore(unpacked->Ok_0@)
                == data@,
    {
        let mut entries: Vec<KeystoreEntry> = Vec::new();
        let mut rest: &[u8] = data;
        proof {
            assert(entries_view(entries@) =~= Seq::<EntryView>::empty());
            assert(Seq::<EntryView>::empty() + decode_keystore(data@)->Ok_0 =~= decode_keystore(
                data@,
            )->Ok_0);
        }
        while rest.len() > 0
            invariant
                match (decode_keystore(rest@), decode_keystore(data@)) {
                    (Ok(tail), Ok(all)) => all == entries_view(entries@) + tail,
                    (Err(e), Err(f)) => e == f,
                    _ => false,
                },
            decreases rest@.len(),
        {
            match KeystoreEntry::unpack_prefix(rest) {
                Ok((entry, used)) => {
                    proof {
                        lemma_entry_prefix_decoded(rest@);
                        let ghost before = entries_view(entries@);
                        assert(entries_view(entries@.push(entry)) =~= before.push(entry@));
                        if decode_keystore(rest@.skip(used as int)) is Ok {
                            let tail = decode_keystore(rest@.skip(used as int))->Ok_0;
                            assert(before + (seq![entry@] + tail) =~= before.push(entry@) + tail);
                        }
                    }
                    entries.push(entry);
                    rest = tail_from(rest, used);
                },
                Err(err) => {
                    return Err(err);
                },
            }
        }
        proof {
            assert(decode_keystore(rest@) == Ok::<Seq<EntryView>, KeyringProgramError>(
                Seq::empty(),
            ));
            assert(entries_view(entries@) + Seq::<EntryView>::empty() =~= entries_view(entries@));
            lemma_keystore_decoded(data@);
        }
        Ok(Keystore { entries })
    }

    /// Returns the length of the keystore: the number of bytes that it packs
    /// into.
    pub fn data_len(&self) -> (len: usize)
        requires
            encode_keystore(self@).len() <= usize::MAX,
        ensures
            len == encode_keystore(self@).len(),
    {
        let ghost all = self@;
        let mut len: usize = 0;
        let mut i: usize = 0;
        proof {
            assert(all.take(0) =~= Seq::<EntryView>::empty());
        }
        while i < self.entries.len()
            invariant
                i <= self.entries@.len(),
                all == self@,
                len == encode_keystore(all.take(i as int)).len(),
                encode_keystore(all).len() <= usize::MAX,
            decreases self.entries@.len() - i,
        {
            let entry = &self.entries[i];
            proof {
                assert(all[i as int] == entry@);
                lemma_encode_keystore_take(all, i as int);
            }
            len = len + entry.data_len();
            i += 1;
        }
        proof {
            assert(all.take(i as int) =~= all);
        }
        len
    }

    /// Adds an entry at the end of the keystore.
    pub fn add_entry(&mut self, entry: KeystoreEntry)
        ensures
            final(self)@ == old(self)@.push(entry@),
    {
        self.entries.push(entry);
        assert(self@ =~= old(self)@.push(entry@));
    }

    /// Removes every entry that is equal to `target`, and keeps the others in
    /// their order. A keystore that holds no such entry stays as it is.
    pub fn remove_entry(&mut self, target: &KeystoreEntry)
        ensures
            final(self)@ == old(self)@.filter(differs_from(target@)),
    {
        let ghost all = self@;
        let ghost keep = differs_from(target@);
        let mut kept: Vec<KeystoreEntry> = Vec::new();
        let mut i: usize = 0;
        proof {
            assert(all.take(0) =~= Seq::<EntryView>::empty());
            assert(entries_view(kept@) =~= Seq::<EntryView>::empty());
            reveal(Seq::filter);
            assert(Seq::<EntryView>::empty().filter(keep) =~= Seq::<EntryView>::empty());
        }
        while i < self.entries.len()
            invariant
                i <= self.entries@.len(),
                all == self@,
                keep == differs_from(target@),
                entries_view(kept@) == all.take(i as int).filter(keep),
            decreases self.entries@.len() - i,
        {
            let entry = &self.entries[i];
            proof {
                assert(all[i as int] == entry@);
                assert(all.take(i + 1) =~= all.take(i as int).push(all[i as int]));
                all.take(i as int).lemma_filter_push(all[i as int], keep);
            }
            if !entry.same_as(target) {
                let ghost before = entries_view(kept@);
                let copy = entry.duplicate();
                kept.push(copy);
                assert(entries_view(kept@) =~= before.push(entry@));
            }
            i += 1;
        }
        proof {
            assert(all.take(i as int) =~= all);
        }
        self.entries = kept;
    }
}

} // verus!
