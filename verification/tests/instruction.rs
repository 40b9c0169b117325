use solana_program::pubkey::Pubkey;
use spl_keyring::program::error::ProgramError;
use spl_keyring::program::instruction::{
    create_keyring, create_keyring_at, update_keyring, update_keyring_at, AccountMeta,
    KeyringProgramInstruction,
};
use spl_keyring::program::state::Keyring;

#[test]
fn create_keyring_instruction() {
    let program_id = Pubkey::new_unique().to_bytes();
    let authority = Pubkey::new_unique().to_bytes();

    let instruction = create_keyring(&program_id, &authority).unwrap();
    assert_eq!(
        instruction.data,
        KeyringProgramInstruction::CreateKeyring {}.pack()
    );
}

#[test]
fn update_keyring_instruction() {
    let program_id = Pubkey::new_unique().to_bytes();
    let authority = Pubkey::new_unique().to_bytes();
    let data = vec![1, 2, 3];

    let instruction = update_keyring(&program_id, &authority, data.clone()).unwrap();
    assert_eq!(
        instruction.data,
        KeyringProgramInstruction::UpdateKeyring { data }.pack()
    );
}

#[test]
fn test_seeds() {
    let program_id = Pubkey::new_unique();
    let authority = Pubkey::new_unique();
    let seeds = Keyring::seeds(&authority.to_bytes());
    let (pda, bump_seed) = Keyring::pda(&program_id.to_bytes(), &authority.to_bytes()).unwrap();
    let check_seeds = [b"keyring", authority.as_ref()];
    let check_pda = Pubkey::find_program_address(&check_seeds, &program_id);
    assert_eq!(seeds.len(), 2);
    assert_eq!(seeds[0], "keyring".as_bytes());
    assert_eq!(seeds[0], check_seeds[0]);
    assert_eq!(seeds[1], check_seeds[1]);
    assert_eq!(pda, check_pda.0.to_bytes());
    assert_eq!(bump_seed, check_pda.1);
}

#[test]
fn pack_create_keyring_is_one_zero_byte() {
    assert_eq!(KeyringProgramInstruction::CreateKeyring.pack(), vec![0u8]);
}

#[test]
fn pack_update_keyring_is_one_then_data() {
    let packed = KeyringProgramInstruction::UpdateKeyring { data: vec![9, 8, 7] }.pack();
    assert_eq!(packed, vec![1u8, 9, 8, 7]);
    let empty = KeyringProgramInstruction::UpdateKeyring { data: vec![] }.pack();
    assert_eq!(empty, vec![1u8]);
}

#[test]
fn unpack_reads_back_what_pack_wrote() {
    let create = KeyringProgramInstruction::CreateKeyring;
    assert_eq!(KeyringProgramInstruction::unpack(&create.pack()), Ok(create));
    let update = KeyringProgramInstruction::UpdateKeyring { data: vec![0, 1, 255] };
    assert_eq!(KeyringProgramInstruction::unpack(&update.pack()), Ok(update));
}

#[test]
fn unpack_ignores_what_follows_a_create() {
    assert_eq!(
        KeyringProgramInstruction::unpack(&[0, 5, 6]),
        Ok(KeyringProgramInstruction::CreateKeyring)
    );
}

#[test]
fn unpack_refuses_empty_and_unknown_instructions() {
    assert_eq!(
        KeyringProgramInstruction::unpack(&[]),
        Err(ProgramError::InvalidInstructionData)
    );
    assert_eq!(
        KeyringProgramInstruction::unpack(&[2]),
        Err(ProgramError::InvalidInstructionData)
    );
    assert_eq!(
        KeyringProgramInstruction::unpack(&[255, 1, 2]),
        Err(ProgramError::InvalidInstructionData)
    );
}

#[test]
fn create_keyring_names_keyring_authority_and_system_program() {
    let program_id = [7u8; 32];
    let authority = [9u8; 32];
    let keyring = [3u8; 32];
    let built = create_keyring_at(&program_id, &authority, &keyring);
    assert_eq!(built.program_id, program_id);
    assert_eq!(
        built.accounts,
        vec![
            AccountMeta { pubkey: keyring, is_signer: false, is_writable: true },
            AccountMeta { pubkey: authority, is_signer: true, is_writable: true },
            AccountMeta { pubkey: [0u8; 32], is_signer: false, is_writable: true },
        ]
    );
    assert_eq!(built.data, vec![0u8]);
}

#[test]
fn system_program_address_is_the_one_of_the_system_interface() {
    let built = create_keyring_at(&[1u8; 32], &[2u8; 32], &[4u8; 32]);
    assert_eq!(
        built.accounts[2].pubkey,
        solana_system_interface::program::id().to_bytes()
    );
    assert_ne!(built.accounts[2].pubkey, [4u8; 32]);
}

#[test]
fn update_keyring_names_keyring_and_authority() {
    let program_id = [7u8; 32];
    let authority = [9u8; 32];
    let keyring = [3u8; 32];
    let built = update_keyring_at(&program_id, &authority, &keyring, vec![4, 5]);
    assert_eq!(built.program_id, program_id);
    assert_eq!(
        built.accounts,
        vec![
            AccountMeta { pubkey: keyring, is_signer: false, is_writable: true },
            AccountMeta { pubkey: authority, is_signer: true, is_writable: true },
        ]
    );
    assert_eq!(built.data, vec![1u8, 4, 5]);
}

#[test]
fn built_instructions_name_the_derived_keyring() {
    let program_id = spl_keyring::program::id();
    let authority = [42u8; 32];
    let (keyring, _) = Keyring::pda(&program_id, &authority).unwrap();
    let created = create_keyring(&program_id, &authority).unwrap();
    assert_eq!(created, create_keyring_at(&program_id, &authority, &keyring));
    let updated = update_keyring(&program_id, &authority, vec![1]).unwrap();
    assert_eq!(updated, update_keyring_at(&program_id, &authority, &keyring, vec![1]));
}

#[test]
fn pda_is_the_address_that_solana_derives() {
    let program_id = spl_keyring::program::id();
    let authority = [42u8; 32];
    let found = Keyring::pda(&program_id, &authority).unwrap();
    let expected = Pubkey::find_program_address(
        &[b"keyring", &authority],
        &Pubkey::new_from_array(program_id),
    );
    assert_eq!(found.0, expected.0.to_bytes());
    assert_eq!(found.1, expected.1);
    assert_ne!(found.0, authority);
    assert_ne!(found.0, program_id);
}

#[test]
fn check_pda_returns_the_bump_seed_or_refuses_the_seeds() {
    let program_id = spl_keyring::program::id();
    let authority = [42u8; 32];
    let (keyring, bump_seed) = Keyring::pda(&program_id, &authority).unwrap();
    assert_eq!(Keyring::check_pda(&program_id, &authority, &keyring), Ok(bump_seed));
    assert_eq!(
        Keyring::check_pda(&program_id, &authority, &[0u8; 32]),
        Err(ProgramError::InvalidSeeds)
    );
    assert_eq!(Keyring::check_found(Some((keyring, 250)), &keyring), Ok(250));
    assert_eq!(
        Keyring::check_found(Some((keyring, 250)), &authority),
        Err(ProgramError::InvalidSeeds)
    );
    assert_eq!(Keyring::check_found(None, &keyring), Err(ProgramError::InvalidSeeds));
}

#[test]
fn program_id_is_the_declared_address() {
    let expected: Pubkey = "4UucrowYQqM6yHeRgoMW2HB2998W9cnVS6tx6nPMdpVn".parse().unwrap();
    assert_eq!(spl_keyring::program::id(), expected.to_bytes());
}
