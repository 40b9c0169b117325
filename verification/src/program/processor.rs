//! Program processor: what an instruction asks the runtime to do, and how a
//! keystore buffer changes when an entry is added or removed.

use crate::program::error::{KeyringProgramError, ProgramError};
use crate::program::format::{
    decode_entry, decode_keystore, encode_entry, encode_keystore, entry_valid, keystore_valid,
    EntryView,
};
use crate::program::instruction::{decode_instruction, InstructionView, KeyringProgramInstruction};
use crate::program::roundtrip::{
    lemma_concat_empty, lemma_encode_keystore_push, lemma_entry_decoded,
    lemma_entry_prefix_roundtrip, lemma_keystore_decoded, lemma_keystore_roundtrip,
};
use crate::program::state::{
    checked_bump_seed, differs_from, keyring_address, seed_prefix, Keyring, Keystore,
};
use crate::program::tlv::KeystoreEntry;
use vstd::prelude::*;

verus! {

// ---------------------------------------------------------------------------
// Adding and removing entries
// ---------------------------------------------------------------------------

/// The keystore buffer after `new_entry` is added to `buffer`.
///
/// The new entry must be exactly one entry. It becomes the whole buffer where
/// the buffer was empty; otherwise the buffer is read as a keystore, the
/// entry is put at its end, and the keystore is written out again.
pub open spec fn after_add(buffer: Seq<u8>, new_entry: Seq<u8>) -> Result<
    Seq<u8>,
    KeyringProgramError,
> {
    match decode_entry(new_entry) {
        Ok(entry) => if buffer.len() == 0 {
            Ok(encode_entry(entry))
        } else {
            match decode_keystore(buffer) {
                Ok(entries) => Ok(encode_keystore(entries.push(entry))),
                Err(err) => Err(err),
            }
        },
        Err(err) => Err(err),
    }
}

/// The keystore buffer after every entry equal to `target` is removed from
/// `buffer`.
///
/// The target must be exactly one entry. Nothing can be found in an empty
/// buffer; otherwise the buffer is read as a keystore, the entries equal to
/// the target are dropped, and the keystore is written out again. A keystore
/// that holds no such entry is written out as it was read.
pub open spec fn after_remove(buffer: Seq<u8>, target: Seq<u8>) -> Result<
    Seq<u8>,
    KeyringProgramError,
> {
    match decode_entry(target) {
        Ok(entry) => if buffer.len() == 0 {
            Err(KeyringProgramError::KeystoreEntryNotFound)
        } else {
            match decode_keystore(buffer) {
                Ok(entries) => Ok(encode_keystore(entries.filter(differs_from(entry)))),
                Err(err) => Err(err),
            }
        },
        Err(err) => Err(err),
    }
}

/// Whether the keystore in `buffer` holds an entry equal to the one in
/// `entry`.
pub open spec fn occurs_in(buffer: Seq<u8>, entry: Seq<u8>) -> bool {
    decode_keystore(buffer) is Ok && decode_entry(entry) is Ok && decode_keystore(
        buffer,
    )->Ok_0.contains(decode_entry(entry)->Ok_0)
}

/// Dropping the entries equal to `target` keeps valid entries only, and
/// changes nothing where no entry is equal to `target`.
pub proof fn lemma_filter_keeps(entries: Seq<EntryView>, target: EntryView)
    ensures
        keystore_valid(entries) ==> keystore_valid(entries.filter(differs_from(target))),
        !entries.contains(target) ==> entries.filter(differs_from(target)) == entries,
    decreases entries.len(),
{
    let keep = differs_from(target);
    reveal(Seq::filter);
    if entries.len() == 0 {
        assert(entries.filter(keep) =~= entries);
    } else {
        let front = entries.drop_last();
        let last = entries.last();
        lemma_filter_keeps(front, target);
        assert(entries =~= front.push(last));
        if keystore_valid(entries) {
            assert forall|i: int| 0 <= i < front.len() implies entry_valid(#[trigger] front[i]) by {
                assert(front[i] == entries[i]);
            }
            assert(entry_valid(entries[entries.len() - 1]));
        }
        if !entries.contains(target) {
            assert(last == entries[entries.len() - 1]);
            assert(keep(last));
            assert forall|x: EntryView| front.contains(x) implies entries.contains(x) by {
                let i = choose|i: int| 0 <= i < front.len() && front[i] == x;
                assert(entries[i] == x);
            }
            assert(entries.filter(keep) =~= entries);
        }
    }
}

/// Adding an entry puts its bytes at the end of the buffer: the new buffer is
/// as long as the old one and the entry together.
pub proof fn lemma_add_appends(buffer: Seq<u8>, new_entry: Seq<u8>)
    requires
        after_add(buffer, new_entry) is Ok,
    ensures
        after_add(buffer, new_entry)->Ok_0 == buffer + new_entry,
        after_add(buffer, new_entry)->Ok_0.len() == buffer.len() + new_entry.len(),
{
    let entry = decode_entry(new_entry)->Ok_0;
    lemma_entry_decoded(new_entry);
    if buffer.len() == 0 {
        assert(buffer =~= Seq::<u8>::empty());
        lemma_concat_empty(new_entry);
    } else {
        let entries = decode_keystore(buffer)->Ok_0;
        lemma_keystore_decoded(buffer);
        lemma_encode_keystore_push(entries, entry);
    }
}

/// Removing an entry that the keystore does not hold leaves the buffer as it
/// is, byte for byte.
pub proof fn lemma_remove_absent(buffer: Seq<u8>, target: Seq<u8>)
    requires
        after_remove(buffer, target) is Ok,
        !occurs_in(buffer, target),
    ensures
        after_remove(buffer, target)->Ok_0 == buffer,
{
    let entry = decode_entry(target)->Ok_0;
    let entries = decode_keystore(buffer)->Ok_0;
    lemma_keystore_decoded(buffer);
    lemma_filter_keeps(entries, entry);
}

/// A valid keystore with one more valid entry at its end is read back from
/// its bytes, and is the keystore as it was once that entry is dropped again,
/// where it did not hold the entry before.
pub proof fn lemma_push_then_filter(before: Seq<EntryView>, r: EntryView)
    requires
        keystore_valid(before),
        entry_valid(r),
        !before.contains(r),
    ensures
        decode_keystore(encode_keystore(before.push(r))) == Ok::<
            Seq<EntryView>,
            KeyringProgramError,
        >(before.push(r)),
        encode_keystore(before.push(r)) == encode_keystore(before) + encode_entry(r),
        encode_keystore(before.push(r)).len() > 0,
        before.push(r).filter(differs_from(r)) == before,
{
    let keep = differs_from(r);
    assert(keystore_valid(before.push(r))) by {
        assert forall|i: int| 0 <= i < before.push(r).len() implies entry_valid(
            #[trigger] before.push(r)[i],
        ) by {
            if i < before.len() {
                assert(before.push(r)[i] == before[i]);
            }
        }
    }
    lemma_keystore_roundtrip(before.push(r));
    lemma_encode_keystore_push(before, r);
    lemma_entry_prefix_roundtrip(r, Seq::empty());
    before.lemma_filter_push(r, keep);
    lemma_filter_keeps(before, r);
}

/// Adding an entry that the keystore did not hold, then removing it, gives
/// the buffer back as it was.
pub proof fn lemma_add_then_remove(buffer: Seq<u8>, entry: Seq<u8>)
    requires
        after_add(buffer, entry) is Ok,
        !occurs_in(buffer, entry),
    ensures
        after_remove(after_add(buffer, entry)->Ok_0, entry) == Ok::<Seq<u8>, KeyringProgramError>(
            buffer,
        ),
{
    let r = decode_entry(entry)->Ok_0;
    lemma_entry_decoded(entry);
    if buffer.len() == 0 {
        let before = Seq::<EntryView>::empty();
        assert(buffer =~= Seq::<u8>::empty());
        assert(encode_keystore(before) == Seq::<u8>::empty());
        lemma_push_then_filter(before, r);
        lemma_concat_empty(encode_entry(r));
    } else {
        let before = decode_keystore(buffer)->Ok_0;
        lemma_keystore_decoded(buffer);
        lemma_push_then_filter(before, r);
    }
}

/// Adds an entry to a keystore buffer, and returns the new buffer.
///
/// `new_entry` must hold exactly one packed entry; trailing bytes, or a part
/// that cannot be read, fail with the error of the part at fault. An empty
/// buffer is an empty keystore. Otherwise the buffer is unpacked, the entry is
/// put at its end, and the keystore is packed again: the buffer must be a
/// packed keystore.
pub fn add_entry(buffer: &[u8], new_entry: &[u8]) -> (added: Result<Vec<u8>, KeyringProgramError>)
    ensures
        match (added, after_add(buffer@, new_entry@)) {
            (Ok(data), Ok(bytes)) => data@ == bytes,
            (Err(err), Err(e)) => err == e,
            _ => false,
        },
        added is Ok ==> added->Ok_0@ == buffer@ + new_entry@,
{
    let entry = match KeystoreEntry::unpack(new_entry) {
        Ok(entry) => entry,
        Err(err) => {
            return Err(err);
        },
    };
    proof {
        lemma_entry_decoded(new_entry@);
    }
    if buffer.len() == 0 {
        proof {
            lemma_add_appends(buffer@, new_entry@);
        }
        match entry.pack() {
            Ok(data) => Ok(data),
            Err(err) => Err(err),
        }
    } else {
        let mut keystore = match Keystore::unpack(buffer) {
            Ok(keystore) => keystore,
            Err(err) => {
                return Err(err);
            },
        };
        proof {
            lemma_add_appends(buffer@, new_entry@);
            let ghost before = keystore@;
            assert forall|i: int| 0 <= i < before.push(entry@).len() implies entry_valid(
                #[trigger] before.push(entry@)[i],
            ) by {
                if i < before.len() {
                    assert(before.push(entry@)[i] == before[i]);
                }
            }
        }
        keystore.add_entry(entry);
        match keystore.pack() {
            Ok(data) => Ok(data),
            Err(err) => Err(err),
        }
    }
}

/// Removes an entry from a keystore buffer, and returns the new buffer.
///
/// `target` must hold exactly one packed entry. Nothing is found in an empty
/// buffer. Otherwise the buffer is unpacked, every entry equal to the target
/// is dropped, and the keystore is packed again; where no entry is equal to
/// the target, that is the buffer as it was.
pub fn remove_entry(buffer: &[u8], target: &[u8]) -> (removed: Result<
    Vec<u8>,
    KeyringProgramError,
>)
    ensures
        match (removed, after_remove(buffer@, target@)) {
            (Ok(data), Ok(bytes)) => data@ == bytes,
            (Err(err), Err(e)) => err == e,
            _ => false,
        },
{
    let entry = match KeystoreEntry::unpack(target) {
        Ok(entry) => entry,
        Err(err) => {
            return Err(err);
        },
    };
    if buffer.len() == 0 {
        return Err(KeyringProgramError::KeystoreEntryNotFound);
    }
    let mut keystore = match Keystore::unpack(buffer) {
        Ok(keystore) => keystore,
        Err(err) => {
            return Err(err);
        },
    };
    proof {
        lemma_filter_keeps(keystore@, entry@);
    }
    keystore.remove_entry(&entry);
    match keystore.pack() {
        Ok(data) => Ok(data),
        Err(err) => Err(err),
    }
}

// ---------------------------------------------------------------------------
// Instructions
// ---------------------------------------------------------------------------

/// What the processor reads of an account that an instruction names.
#[derive(Clone, Copy, Debug, PartialEq, Eq)]
pub struct AccountFacts {
    /// The address of the account
    pub key: [u8; 32],
    /// Whether the account signed the transaction
    pub is_signer: bool,
}

/// The account that the runtime is asked to create for a new keyring.
#[derive(Clone, Debug, PartialEq)]
pub struct CreateAccount {
    /// The account that pays for the new account
    pub from: [u8; 32],
    /// The address of the new account
    pub to: [u8; 32],
    /// The number of bytes of the new account
    pub space: u64,
    /// The program that owns the new account
    pub owner: [u8; 32],
    /// The seeds under which the program signs for the new account
    pub signer_seeds: Vec<Vec<u8>>,
}

/// The bytes that the runtime is asked to write over a keyring account, after
/// giving it their length.
#[derive(Clone, Debug, PartialEq)]
pub struct Overwrite {
    /// The address of the keyring account
    pub keyring: [u8; 32],
    /// The new length of the account
    pub new_len: usize,
    /// The new data of the account
    pub data: Vec<u8>,
}

/// What an instruction asks the runtime to do.
#[derive(Clone, Debug, PartialEq)]
pub enum Action {
    /// Create the keyring account
    CreateAccount(CreateAccount),
    /// Resize the keyring account and overwrite its data
    Overwrite(Overwrite),
}

/// The accounts of an instruction as plain data.
pub open spec fn account_keys(accounts: Seq<AccountFacts>) -> Seq<(Seq<u8>, bool)> {
    Seq::new(accounts.len(), |i: int| (accounts[i].key@, accounts[i].is_signer))
}

/// A request to create an account as plain data.
pub struct CreateAccountView {
    pub from: Seq<u8>,
    pub to: Seq<u8>,
    pub space: u64,
    pub owner: Seq<u8>,
    pub signer_seeds: Seq<Seq<u8>>,
}

impl View for CreateAccount {
    type V = CreateAccountView;

    open spec fn view(&self) -> CreateAccountView {
        CreateAccountView {
            from: self.from@,
            to: self.to@,
            space: self.space,
            owner: self.owner@,
            signer_seeds: Seq::new(self.signer_seeds@.len(), |i: int| self.signer_seeds@[i]@),
        }
    }
}

/// A request to overwrite an account as plain data.
pub struct OverwriteView {
    pub keyring: Seq<u8>,
    pub new_len: int,
    pub data: Seq<u8>,
}

impl View for Overwrite {
    type V = OverwriteView;

    open spec fn view(&self) -> OverwriteView {
        OverwriteView { keyring: self.keyring@, new_len: self.new_len as int, data: self.data@ }
    }
}

/// A request to the runtime as plain data.
pub enum ActionView {
    CreateAccount(CreateAccountView),
    Overwrite(OverwriteView),
}

impl View for Action {
    type V = ActionView;

    open spec fn view(&self) -> ActionView {
        match self {
            Action::CreateAccount(request) => ActionView::CreateAccount(request@),
            Action::Overwrite(request) => ActionView::Overwrite(request@),
        }
    }
}

/// Whether the authority signed.
pub open spec fn authority_checked(is_signer: bool) -> Result<(), ProgramError> {
    if is_signer {
        Ok(())
    } else {
        Err(ProgramError::MissingRequiredSignature)
    }
}

/// Checks that the authority signed.
pub fn check_authority(authority: &AccountFacts) -> (checked: Result<(), ProgramError>)
    ensures
        checked == authority_checked(authority.is_signer),
{
    if !authority.is_signer {
        return Err(ProgramError::MissingRequiredSignature);
    }
    Ok(())
}

/// What a `CreateKeyring` instruction asks for, given the address that the
/// authority's seeds give.
///
/// The instruction names the keyring, the authority and the system program.
/// The authority must have signed, and the keyring must be at the address
/// that the seeds give. The new account is empty, is paid for by the
/// authority and owned by the program, which signs with the seeds and the
/// bump seed.
pub open spec fn create_keyring_request(
    program_id: Seq<u8>,
    accounts: Seq<(Seq<u8>, bool)>,
    found: Option<(Seq<u8>, u8)>,
) -> Result<CreateAccountView, ProgramError> {
    if accounts.len() < 3 {
        Err(ProgramError::NotEnoughAccountKeys)
    } else if !accounts[1].1 {
        Err(ProgramError::MissingRequiredSignature)
    } else {
        match checked_bump_seed(found, accounts[0].0) {
            Ok(bump_seed) => Ok(
                CreateAccountView {
                    from: accounts[1].0,
                    to: accounts[0].0,
                    space: 0,
                    owner: program_id,
                    signer_seeds: seq![seed_prefix(), accounts[1].0, seq![bump_seed]],
                },
            ),
            Err(err) => Err(err),
        }
    }
}

/// What an `UpdateKeyring` instruction asks for, given the address that the
/// authority's seeds give.
///
/// The instruction names the keyring and the authority. The keyring must be
/// at the address that the seeds give, and the authority must have signed.
/// The account gets the length of the data, and the data.
pub open spec fn update_keyring_request(
    accounts: Seq<(Seq<u8>, bool)>,
    data: Seq<u8>,
    found: Option<(Seq<u8>, u8)>,
) -> Result<OverwriteView, ProgramError> {
    if accounts.len() < 2 {
        Err(ProgramError::NotEnoughAccountKeys)
    } else {
        match checked_bump_seed(found, accounts[0].0) {
            Ok(_) => if accounts[1].1 {
                Ok(
                    OverwriteView {
                        keyring: accounts[0].0,
                        new_len: data.len() as int,
                        data,
                    },
                )
            } else {
                Err(ProgramError::MissingRequiredSignature)
            },
            Err(err) => Err(err),
        }
    }
}

/// The address that the seeds of the authority, the second account, give
/// under the program; `None` where there is no second account.
pub open spec fn authority_keyring(program_id: Seq<u8>, accounts: Seq<(Seq<u8>, bool)>) -> Option<
    (Seq<u8>, u8),
> {
    if accounts.len() < 2 {
        None
    } else {
        keyring_address(program_id, accounts[1].0)
    }
}

/// What an instruction asks for.
pub open spec fn requested_action(
    program_id: Seq<u8>,
    accounts: Seq<(Seq<u8>, bool)>,
    input: Seq<u8>,
) -> Result<ActionView, ProgramError> {
    match decode_instruction(input) {
        Ok(InstructionView::CreateKeyring) => match create_keyring_request(
            program_id,
            accounts,
            authority_keyring(program_id, accounts),
        ) {
            Ok(request) => Ok(ActionView::CreateAccount(request)),
            Err(err) => Err(err),
        },
        Ok(InstructionView::UpdateKeyring { data }) => match update_keyring_request(
            accounts,
            data,
            authority_keyring(program_id, accounts),
        ) {
            Ok(request) => Ok(ActionView::Overwrite(request)),
            Err(err) => Err(err),
        },
        Err(err) => Err(err),
    }
}

/// The address found for a keyring as plain data.
pub open spec fn found_view(found: Option<([u8; 32], u8)>) -> Option<(Seq<u8>, u8)> {
    match found {
        Some((address, bump_seed)) => Some((address@, bump_seed)),
        None => None,
    }
}

/// Decides a `CreateKeyring` instruction, given the address that the seeds of
/// the authority give under the program.
pub fn create_keyring_with(
    program_id: &[u8; 32],
    accounts: &[AccountFacts],
    found: Option<([u8; 32], u8)>,
) -> (decided: Result<CreateAccount, ProgramError>)
    ensures
        match (
            decided,
            create_keyring_request(program_id@, account_keys(accounts@), found_view(found)),
        ) {
            (Ok(request), Ok(r)) => request@ == r,
            (Err(err), Err(e)) => err == e,
            _ => false,
        },
{
    if accounts.len() < 3 {
        return Err(ProgramError::NotEnoughAccountKeys);
    }
    let keyring = &accounts[0];
    let authority = &accounts[1];
    match check_authority(authority) {
        Ok(_) => {},
        Err(err) => {
            return Err(err);
        },
    }
    let bump_seed = match Keyring::check_found(found, &keyring.key) {
        Ok(bump_seed) => bump_seed,
        Err(err) => {
            return Err(err);
        },
    };
    let mut signer_seeds = Keyring::seeds(&authority.key);
    let mut bump_signer_seed: Vec<u8> = Vec::new();
    bump_signer_seed.push(bump_seed);
    assert(bump_signer_seed@ =~= seq![bump_seed]);
    signer_seeds.push(bump_signer_seed);
    let request = CreateAccount {
        from: authority.key,
        to: keyring.key,
        space: 0u64,
        owner: *program_id,
        signer_seeds,
    };
    assert(request@.signer_seeds =~= seq![seed_prefix(), authority.key@, seq![bump_seed]]);
    Ok(request)
}

/// Decides an `UpdateKeyring` instruction, given the address that the seeds
/// of the authority give under the program.
pub fn update_keyring_with(
    accounts: &[AccountFacts],
    data: Vec<u8>,
    found: Option<([u8; 32], u8)>,
) -> (decided: Result<Overwrite, ProgramError>)
    ensures
        match (decided, update_keyring_request(account_keys(accounts@), data@, found_view(found))) {
            (Ok(request), Ok(r)) => request@ == r,
            (Err(err), Err(e)) => err == e,
            _ => false,
        },
{
    if accounts.len() < 2 {
        return Err(ProgramError::NotEnoughAccountKeys);
    }
    let keyring = &accounts[0];
    let authority = &accounts[1];
    match Keyring::check_found(found, &keyring.key) {
        Ok(_) => {},
        Err(err) => {
            return Err(err);
        },
    }
    match check_authority(authority) {
        Ok(_) => {},
        Err(err) => {
            return Err(err);
        },
    }
    let new_len = data.len();
    Ok(Overwrite { keyring: keyring.key, new_len, data })
}

/// The address that the seeds of the authority, the second account, give
/// under the program.
fn find_authority_keyring(program_id: &[u8; 32], accounts: &[AccountFacts]) -> (found: Option<
    ([u8; 32], u8),
>)
    ensures
        found_view(found) == authority_keyring(program_id@, account_keys(accounts@)),
{
    if accounts.len() < 2 {
        None
    } else {
        Keyring::pda(program_id, &accounts[1].key)
    }
}

/// Processes a `CreateKeyring` instruction: says which account the runtime
/// is to create.
pub fn process_create_keyring(
    program_id: &[u8; 32],
    accounts: &[AccountFacts],
) -> (decided: Result<CreateAccount, ProgramError>)
    ensures
        match (
            decided,
            create_keyring_request(
                program_id@,
                account_keys(accounts@),
                authority_keyring(program_id@, account_keys(accounts@)),
            ),
        ) {
            (Ok(request), Ok(r)) => request@ == r,
            (Err(err), Err(e)) => err == e,
            _ => false,
        },
{
    let found = find_authority_keyring(program_id, accounts);
    create_keyring_with(program_id, accounts, found)
}

/// Processes an `UpdateKeyring` instruction: says which bytes the runtime is
/// to write over the keyring account.
pub fn process_update_keyring(
    program_id: &[u8; 32],
    accounts: &[AccountFacts],
    data: Vec<u8>,
) -> (decided: Result<Overwrite, ProgramError>)
    ensures
        match (
            decided,
            update_keyring_request(
                account_keys(accounts@),
                data@,
                authority_keyring(program_id@, account_keys(accounts@)),
            ),
        ) {
            (Ok(request), Ok(r)) => request@ == r,
            (Err(err), Err(e)) => err == e,
            _ => false,
        },
{
    let found = find_authority_keyring(program_id, accounts);
    update_keyring_with(accounts, data, found)
}

/// Processes a `KeyringProgramInstruction` instruction: reads the
/// instruction, and says what the runtime is to do.
pub fn process(
    program_id: &[u8; 32],
    accounts: &[AccountFacts],
    input: &[u8],
) -> (decided: Result<Action, ProgramError>)
    ensures
        match (decided, requested_action(program_id@, account_keys(accounts@), input@)) {
            (Ok(action), Ok(a)) => action@ == a,
            (Err(err), Err(e)) => err == e,
            _ => false,
        },
{
    let instruction = match KeyringProgramInstruction::unpack(input) {
        Ok(instruction) => instruction,
        Err(err) => {
            return Err(err);
        },
    };
    match instruction {
        KeyringProgramInstruction::CreateKeyring => {
            match process_create_keyring(program_id, accounts) {
                Ok(request) => Ok(Action::CreateAccount(request)),
                Err(err) => Err(err),
            }
        },
        KeyringProgramInstruction::UpdateKeyring { data } => {
            match process_update_keyring(program_id, accounts, data) {
                Ok(request) => Ok(Action::Overwrite(request)),
                Err(err) => Err(err),
            }
        },
    }
}

} // verus!
