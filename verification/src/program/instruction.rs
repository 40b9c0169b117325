//! Keyring Program instructions.

use crate::program::bytes::{append_bytes, copy_bytes, tail_from};
use crate::program::error::ProgramError;
use crate::program::state::{keyring_address, Keyring};
use vstd::prelude::*;

verus! {

/// A keyring instruction as plain data.
pub enum InstructionView {
    CreateKeyring,
    UpdateKeyring { data: Seq<u8> },
}

/// The bytes of an instruction: one byte that tells the instruction, then,
/// for an update, the new data of the keyring.
pub open spec fn encode_instruction(instruction: InstructionView) -> Seq<u8> {
    match instruction {
        InstructionView::CreateKeyring => seq![0u8],
        InstructionView::UpdateKeyring { data } => seq![1u8] + data,
    }
}

/// Reads a byte buffer as an instruction. After the byte that tells a
/// creation, whatever follows is not looked at.
pub open spec fn decode_instruction(input: Seq<u8>) -> Result<InstructionView, ProgramError> {
    if input.len() == 0 {
        Err(ProgramError::InvalidInstructionData)
    } else if input[0] == 0 {
        Ok(InstructionView::CreateKeyring)
    } else if input[0] == 1 {
        Ok(InstructionView::UpdateKeyring { data: input.skip(1) })
    } else {
        Err(ProgramError::InvalidInstructionData)
    }
}

/// Every instruction is read back from its bytes.
pub proof fn lemma_instruction_roundtrip(instruction: InstructionView)
    ensures
        decode_instruction(encode_instruction(instruction)) == Ok::<InstructionView, ProgramError>(
            instruction,
        ),
{
    match instruction {
        InstructionView::CreateKeyring => {},
        InstructionView::UpdateKeyring { data } => {
            assert((seq![1u8] + data).skip(1) =~= data);
        },
    }
}

/// Keyring Program instructions.
#[derive(Clone, Debug, PartialEq)]
pub enum KeyringProgramInstruction {
    /// Create a new keyring account for the keystore
    ///
    /// Accounts expected by this instruction:
    ///
    ///   0. `[w]` Keyring
    ///   1. `[s]` Authority
    CreateKeyring,
    /// Update the keyring with new data
    ///
    /// This can either add or remove a key from the keystore. The keystore is
    /// packed off-chain: the program writes whatever bytes are passed into
    /// this instruction to the keystore, and overwrites the entire data
    /// buffer of the keyring account.
    ///
    /// Accounts expected by this instruction:
    ///
    ///   0. `[w]` Keyring
    ///   1. `[s]` Authority
    UpdateKeyring {
        /// Vector of bytes to be written as the new keystore
        data: Vec<u8>,
    },
}

impl View for KeyringProgramInstruction {
    type V = InstructionView;

    open spec fn view(&self) -> InstructionView {
        match self {
            KeyringProgramInstruction::CreateKeyring => InstructionView::CreateKeyring,
            KeyringProgramInstruction::UpdateKeyring { data } => InstructionView::UpdateKeyring {
                data: data@,
            },
        }
    }
}

impl KeyringProgramInstruction {
    /// Packs a `KeyringProgramInstruction` into a byte array.
    pub fn pack(&self) -> (buf: Vec<u8>)
        ensures
            buf@ == encode_instruction(self@),
    {
        let mut buf: Vec<u8> = Vec::new();
        match self {
            KeyringProgramInstruction::CreateKeyring => {
                buf.push(0);
                assert(buf@ =~= seq![0u8]);
            },
            KeyringProgramInstruction::UpdateKeyring { data } => {
                buf.push(1);
                assert(buf@ =~= seq![1u8]);
                append_bytes(&mut buf, data.as_slice());
            },
        }
        buf
    }

    /// Unpacks a byte buffer into a `KeyringProgramInstruction`.
    pub fn unpack(input: &[u8]) -> (unpacked: Result<Self, ProgramError>)
        ensures
            match (unpacked, decode_instruction(input@)) {
                (Ok(instruction), Ok(i)) => instruction@ == i,
                (Err(err), Err(e)) => err == e,
                _ => false,
            },
    {
        if input.len() == 0 {
            return Err(ProgramError::InvalidInstructionData);
        }
        let instruction: u8 = input[0];
        if instruction == 0 {
            Ok(KeyringProgramInstruction::CreateKeyring)
        } else if instruction == 1 {
            Ok(KeyringProgramInstruction::UpdateKeyring { data: copy_bytes(tail_from(input, 1)) })
        } else {
            Err(ProgramError::InvalidInstructionData)
        }
    }
}

/// An account that an instruction names, and how it is used.
#[derive(Clone, Copy, Debug, PartialEq, Eq)]
pub struct AccountMeta {
    /// The address of the account
    pub pubkey: [u8; 32],
    /// Whether the account must sign the transaction
    pub is_signer: bool,
    /// Whether the instruction may write to the account
    pub is_writable: bool,
}

/// An account of an instruction as plain data.
pub struct AccountMetaView {
    pub pubkey: Seq<u8>,
    pub is_signer: bool,
    pub is_writable: bool,
}

impl View for AccountMeta {
    type V = AccountMetaView;

    open spec fn view(&self) -> AccountMetaView {
        AccountMetaView {
            pubkey: self.pubkey@,
            is_signer: self.is_signer,
            is_writable: self.is_writable,
        }
    }
}

impl AccountMeta {
    /// A writable account.
    pub fn new(pubkey: [u8; 32], is_signer: bool) -> (meta: Self)
        ensures
            meta.pubkey == pubkey,
            meta.is_signer == is_signer,
            meta.is_writable,
    {
        AccountMeta { pubkey, is_signer, is_writable: true }
    }
}

/// An instruction for the keyring program, ready to be put in a transaction.
#[derive(Clone, Debug, PartialEq)]
pub struct Instruction {
    /// The program that runs the instruction
    pub program_id: [u8; 32],
    /// The accounts that the instruction names, in order
    pub accounts: Vec<AccountMeta>,
    /// The packed instruction
    pub data: Vec<u8>,
}

/// An instruction as plain data.
pub struct BuiltInstruction {
    pub program_id: Seq<u8>,
    pub accounts: Seq<AccountMetaView>,
    pub data: Seq<u8>,
}

impl View for Instruction {
    type V = BuiltInstruction;

    open spec fn view(&self) -> BuiltInstruction {
        BuiltInstruction {
            program_id: self.program_id@,
            accounts: Seq::new(self.accounts@.len(), |i: int| self.accounts@[i]@),
            data: self.data@,
        }
    }
}

/// The address of the system program: thirty-two zero bytes.
pub open spec fn system_program_address() -> Seq<u8> {
    Seq::new(32, |i: int| 0u8)
}

/// Calls `solana_system_interface::program::id` and takes the bytes of the
/// address it returns. The crate declares that address as the base-58 string
/// of thirty-two `1`s, which stands for thirty-two zero bytes.
#[verifier::external_body]
fn system_program_id() -> (id: [u8; 32])
    ensures
        id@ == system_program_address(),
{
    solana_system_interface::program::id().to_bytes()
}

/// The 'CreateKeyring' instruction for a keyring at `keyring`: the keyring
/// and the authority, who signs, then the system program.
pub open spec fn create_keyring_instruction(
    program_id: Seq<u8>,
    authority: Seq<u8>,
    keyring: Seq<u8>,
) -> BuiltInstruction {
    BuiltInstruction {
        program_id,
        accounts: seq![
            AccountMetaView { pubkey: keyring, is_signer: false, is_writable: true },
            AccountMetaView { pubkey: authority, is_signer: true, is_writable: true },
            AccountMetaView {
                pubkey: system_program_address(),
                is_signer: false,
                is_writable: true,
            },
        ],
        data: encode_instruction(InstructionView::CreateKeyring),
    }
}

/// The 'UpdateKeyring' instruction for a keyring at `keyring`: the keyring
/// and the authority, who signs.
pub open spec fn update_keyring_instruction(
    program_id: Seq<u8>,
    authority: Seq<u8>,
    keyring: Seq<u8>,
    data: Seq<u8>,
) -> BuiltInstruction {
    BuiltInstruction {
        program_id,
        accounts: seq![
            AccountMetaView { pubkey: keyring, is_signer: false, is_writable: true },
            AccountMetaView { pubkey: authority, is_signer: true, is_writable: true },
        ],
        data: encode_instruction(InstructionView::UpdateKeyring { data }),
    }
}

/// Creates a 'CreateKeyring' instruction for the keyring at a given address.
pub fn create_keyring_at(
    program_id: &[u8; 32],
    authority: &[u8; 32],
    keyring: &[u8; 32],
) -> (built: Instruction)
    ensures
        built@ == create_keyring_instruction(program_id@, authority@, keyring@),
{
    let data = KeyringProgramInstruction::CreateKeyring.pack();
    let mut accounts: Vec<AccountMeta> = Vec::new();
    accounts.push(AccountMeta::new(*keyring, false));
    accounts.push(AccountMeta::new(*authority, true));
    accounts.push(AccountMeta::new(system_program_id(), false));
    let built = Instruction { program_id: *program_id, accounts, data };
    assert(built@.accounts =~= create_keyring_instruction(
        program_id@,
        authority@,
        keyring@,
    ).accounts);
    built
}

/// Creates an 'UpdateKeyring' instruction for the keyring at a given address.
pub fn update_keyring_at(
    program_id: &[u8; 32],
    authority: &[u8; 32],
    keyring: &[u8; 32],
    data: Vec<u8>,
) -> (built: Instruction)
    ensures
        built@ == update_keyring_instruction(program_id@, authority@, keyring@, data@),
{
    let packed = KeyringProgramInstruction::UpdateKeyring { data }.pack();
    let mut accounts: Vec<AccountMeta> = Vec::new();
    accounts.push(AccountMeta::new(*keyring, false));
    accounts.push(AccountMeta::new(*authority, true));
    let built = Instruction { program_id: *program_id, accounts, data: packed };
    assert(built@.accounts =~= update_keyring_instruction(
        program_id@,
        authority@,
        keyring@,
        data@,
    ).accounts);
    built
}

/// Creates a 'CreateKeyring' instruction. The keyring is the one that the
/// authority's seeds give under the program; where they give none, the seeds
/// are refused.
pub fn create_keyring(program_id: &[u8; 32], authority: &[u8; 32]) -> (built: Result<
    Instruction,
    ProgramError,
>)
    ensures
        match keyring_address(program_id@, authority@) {
            Some((keyring, _)) => built is Ok && built->Ok_0@ == create_keyring_instruction(
                program_id@,
                authority@,
                keyring,
            ),
            None => built == Err::<Instruction, ProgramError>(ProgramError::InvalidSeeds),
        },
{
    match Keyring::pda(program_id, authority) {
        Some((keyring, _)) => Ok(create_keyring_at(program_id, authority, &keyring)),
        None => Err(ProgramError::InvalidSeeds),
    }
}

/// Creates an 'UpdateKeyring' instruction. The keyring is the one that the
/// authority's seeds give under the program; where they give none, the seeds
/// are refused.
pub fn update_keyring(
    program_id: &[u8; 32],
    authority: &[u8; 32],
    data: Vec<u8>,
) -> (built: Result<Instruction, ProgramError>)
    ensures
        match keyring_address(program_id@, authority@) {
            Some((keyring, _)) => built is Ok && built->Ok_0@ == update_keyring_instruction(
                program_id@,
                authority@,
                keyring,
                data@,
            ),
            None => built == Err::<Instruction, ProgramError>(ProgramError::InvalidSeeds),
        },
{
    match Keyring::pda(program_id, authority) {
        Some((keyring, _)) => Ok(update_keyring_at(program_id, authority, &keyring, data)),
        None => Err(ProgramError::InvalidSeeds),
    }
}

} // verus!
