use spl_keyring::program::error::{KeyringProgramError, ProgramError};
use spl_keyring::program::instruction::KeyringProgramInstruction;
use spl_keyring::program::processor::{
    add_entry, check_authority, create_keyring_with, process, process_create_keyring,
    process_update_keyring, remove_entry, update_keyring_with, AccountFacts, Action,
    CreateAccount, Overwrite,
};
use spl_keyring::program::state::{Keyring, Keystore};
use spl_keyring::program::tlv::{KeystoreEntry, KeystoreEntryConfig, KeystoreEntryKey};

const T1: [u8; 8] = [91, 118, 136, 53, 132, 35, 78, 142];
const T2: [u8; 8] = [201, 12, 106, 206, 86, 201, 19, 89];

fn record_a() -> KeystoreEntry {
    KeystoreEntry::new(KeystoreEntryKey { discriminator: T1, key: vec![0x06; 32] }, None).unwrap()
}

fn record_b() -> KeystoreEntry {
    KeystoreEntry::new(KeystoreEntryKey { discriminator: T2, key: vec![0x07; 64] }, None).unwrap()
}

fn facts(program_id: &[u8; 32], authority: [u8; 32], signed: bool) -> Vec<AccountFacts> {
    let (keyring, _) = Keyring::pda(program_id, &authority).unwrap();
    vec![
        AccountFacts { key: keyring, is_signer: false },
        AccountFacts { key: authority, is_signer: signed },
        AccountFacts { key: [0u8; 32], is_signer: false },
    ]
}

#[test]
fn add_to_empty_buffer_gives_the_entry_alone() {
    let a = record_a().pack().unwrap();
    let buffer = add_entry(&[], &a).unwrap();
    assert_eq!(buffer.len(), 57);
    assert_eq!(buffer, a);
    assert_eq!(Keystore::unpack(&buffer), Ok(Keystore { entries: vec![record_a()] }));
}

#[test]
fn add_puts_the_entry_at_the_end() {
    let a = record_a().pack().unwrap();
    let b = record_b().pack().unwrap();
    let one = add_entry(&[], &a).unwrap();
    let two = add_entry(&one, &b).unwrap();
    assert_eq!(two.len(), one.len() + b.len());
    let mut expected = a.clone();
    expected.extend_from_slice(&b);
    assert_eq!(two, expected);
    assert_eq!(
        Keystore::unpack(&two),
        Ok(Keystore { entries: vec![record_a(), record_b()] })
    );
}

#[test]
fn add_refuses_a_malformed_new_entry() {
    let mut trailing = record_a().pack().unwrap();
    trailing.push(0);
    assert_eq!(add_entry(&[], &trailing), Err(KeyringProgramError::InvalidFormatForEntry));
    assert_eq!(add_entry(&[], &[]), Err(KeyringProgramError::InvalidFormatForEntry));
    let a = record_a().pack().unwrap();
    assert_eq!(add_entry(&[], &a[..56]), Err(KeyringProgramError::InvalidFormatForEntry));
}

#[test]
fn add_refuses_a_malformed_buffer() {
    let a = record_a().pack().unwrap();
    assert_eq!(add_entry(&[1, 2, 3], &a), Err(KeyringProgramError::InvalidFormatForEntry));
    let mut broken = a.clone();
    broken[20] = 200;
    assert_eq!(add_entry(&broken, &a), Err(KeyringProgramError::InvalidFormatForKey));
}

#[test]
fn remove_first_of_two_leaves_the_second() {
    let buffer = Keystore { entries: vec![record_a(), record_b()] }.pack().unwrap();
    let removed = remove_entry(&buffer, &record_a().pack().unwrap()).unwrap();
    assert_eq!(removed, Keystore { entries: vec![record_b()] }.pack().unwrap());
}

#[test]
fn remove_from_empty_buffer_finds_nothing() {
    assert_eq!(
        remove_entry(&[], &record_a().pack().unwrap()),
        Err(KeyringProgramError::KeystoreEntryNotFound)
    );
}

#[test]
fn remove_of_absent_entry_leaves_the_buffer() {
    let buffer = Keystore { entries: vec![record_b()] }.pack().unwrap();
    assert_eq!(remove_entry(&buffer, &record_a().pack().unwrap()), Ok(buffer));
}

#[test]
fn remove_drops_every_equal_entry() {
    let buffer =
        Keystore { entries: vec![record_a(), record_b(), record_a()] }.pack().unwrap();
    assert_eq!(
        remove_entry(&buffer, &record_a().pack().unwrap()),
        Ok(record_b().pack().unwrap())
    );
    let only = record_a().pack().unwrap();
    assert_eq!(remove_entry(&only, &only), Ok(vec![]));
}

#[test]
fn remove_tells_entries_with_other_configuration_apart() {
    let key = KeystoreEntryKey { discriminator: T1, key: vec![0x06; 32] };
    let empty = KeystoreEntry::new(key, Some(KeystoreEntryConfig(vec![]))).unwrap();
    let buffer = Keystore { entries: vec![empty, record_a()] }.pack().unwrap();
    let removed = remove_entry(&buffer, &record_a().pack().unwrap()).unwrap();
    assert_eq!(removed.len(), 68);
    assert_eq!(&removed[..], &buffer[..68]);
}

#[test]
fn remove_refuses_malformed_input() {
    let buffer = record_a().pack().unwrap();
    assert_eq!(remove_entry(&buffer, &[0; 5]), Err(KeyringProgramError::InvalidFormatForEntry));
    assert_eq!(
        remove_entry(&buffer[..30], &buffer),
        Err(KeyringProgramError::InvalidFormatForEntry)
    );
    assert_eq!(remove_entry(&[], &[0; 5]), Err(KeyringProgramError::InvalidFormatForEntry));
}

#[test]
fn add_then_remove_gives_the_buffer_back() {
    let buffer = Keystore { entries: vec![record_b()] }.pack().unwrap();
    let a = record_a().pack().unwrap();
    let added = add_entry(&buffer, &a).unwrap();
    assert_eq!(remove_entry(&added, &a), Ok(buffer));
    let alone = add_entry(&[], &a).unwrap();
    assert_eq!(remove_entry(&alone, &a), Ok(vec![]));
}

#[test]
fn authority_must_sign() {
    assert_eq!(check_authority(&AccountFacts { key: [1; 32], is_signer: true }), Ok(()));
    assert_eq!(
        check_authority(&AccountFacts { key: [1; 32], is_signer: false }),
        Err(ProgramError::MissingRequiredSignature)
    );
}

#[test]
fn create_keyring_asks_for_an_empty_account() {
    let program_id = spl_keyring::program::id();
    let authority = [5u8; 32];
    let accounts = facts(&program_id, authority, true);
    let (keyring, bump_seed) = Keyring::pda(&program_id, &authority).unwrap();
    let expected = CreateAccount {
        from: authority,
        to: keyring,
        space: 0,
        owner: program_id,
        signer_seeds: vec![b"keyring".to_vec(), authority.to_vec(), vec![bump_seed]],
    };
    assert_eq!(process_create_keyring(&program_id, &accounts), Ok(expected.clone()));
    assert_eq!(
        create_keyring_with(&program_id, &accounts, Some((keyring, bump_seed))),
        Ok(expected.clone())
    );
    assert_eq!(process(&program_id, &accounts, &[0]), Ok(Action::CreateAccount(expected)));
}

#[test]
fn create_keyring_refusals() {
    let program_id = spl_keyring::program::id();
    let authority = [5u8; 32];
    let accounts = facts(&program_id, authority, true);
    assert_eq!(
        process_create_keyring(&program_id, &accounts[..2]),
        Err(ProgramError::NotEnoughAccountKeys)
    );
    assert_eq!(
        process_create_keyring(&program_id, &[]),
        Err(ProgramError::NotEnoughAccountKeys)
    );
    let unsigned = facts(&program_id, authority, false);
    assert_eq!(
        process_create_keyring(&program_id, &unsigned),
        Err(ProgramError::MissingRequiredSignature)
    );
    let mut elsewhere = accounts.clone();
    elsewhere[0].key = [1; 32];
    assert_eq!(
        process_create_keyring(&program_id, &elsewhere),
        Err(ProgramError::InvalidSeeds)
    );
    assert_eq!(
        create_keyring_with(&program_id, &accounts, None),
        Err(ProgramError::InvalidSeeds)
    );
    let mut both = unsigned.clone();
    both[0].key = [1; 32];
    assert_eq!(
        process_create_keyring(&program_id, &both),
        Err(ProgramError::MissingRequiredSignature)
    );
}

#[test]
fn update_keyring_asks_for_an_overwrite() {
    let program_id = spl_keyring::program::id();
    let authority = [5u8; 32];
    let accounts = facts(&program_id, authority, true);
    let keyring = accounts[0].key;
    let expected = Overwrite { keyring, new_len: 3, data: vec![1, 2, 3] };
    assert_eq!(
        process_update_keyring(&program_id, &accounts[..2], vec![1, 2, 3]),
        Ok(expected.clone())
    );
    assert_eq!(
        update_keyring_with(&accounts, vec![1, 2, 3], Some((keyring, 1))),
        Ok(expected.clone())
    );
    assert_eq!(process(&program_id, &accounts, &[1, 1, 2, 3]), Ok(Action::Overwrite(expected)));
    assert_eq!(
        process(&program_id, &accounts, &[1]),
        Ok(Action::Overwrite(Overwrite { keyring, new_len: 0, data: vec![] }))
    );
}

#[test]
fn update_keyring_refusals() {
    let program_id = spl_keyring::program::id();
    let authority = [5u8; 32];
    let accounts = facts(&program_id, authority, true);
    assert_eq!(
        process_update_keyring(&program_id, &accounts[..1], vec![]),
        Err(ProgramError::NotEnoughAccountKeys)
    );
    let unsigned = facts(&program_id, authority, false);
    assert_eq!(
        process_update_keyring(&program_id, &unsigned, vec![]),
        Err(ProgramError::MissingRequiredSignature)
    );
    let mut both = unsigned.clone();
    both[0].key = [1; 32];
    assert_eq!(
        process_update_keyring(&program_id, &both, vec![]),
        Err(ProgramError::InvalidSeeds)
    );
    assert_eq!(
        update_keyring_with(&accounts, vec![], None),
        Err(ProgramError::InvalidSeeds)
    );
}

#[test]
fn process_refuses_unreadable_instructions() {
    let program_id = spl_keyring::program::id();
    let accounts = facts(&program_id, [5u8; 32], true);
    assert_eq!(process(&program_id, &accounts, &[]), Err(ProgramError::InvalidInstructionData));
    assert_eq!(process(&program_id, &accounts, &[3]), Err(ProgramError::InvalidInstructionData));
}

#[test]
fn test_create_keystore() {
    let program_id = spl_keyring::program::id();
    let payer = [11u8; 32];
    let accounts = facts(&program_id, payer, true);
    let input = KeyringProgramInstruction::CreateKeyring.pack();
    let action = process(&program_id, &accounts, &input).unwrap();
    let created = match action {
        Action::CreateAccount(request) => request,
        Action::Overwrite(_) => panic!("a keyring is created, not written"),
    };
    assert_eq!(created.to, Keyring::pda(&program_id, &payer).unwrap().0);
    assert_eq!(created.space, 0);
    assert_eq!(created.owner, program_id);
}

#[test]
fn test_add_entry() {
    let program_id = spl_keyring::program::id();
    let payer = [11u8; 32];
    let accounts = facts(&program_id, payer, true);
    let curve_entry_data = record_a();
    let rsa_entry_data = record_b();

    let mut account: Vec<u8> = Vec::new();
    for entry in [&curve_entry_data, &rsa_entry_data] {
        let data = add_entry(&account, &entry.pack().unwrap()).unwrap();
        let input = KeyringProgramInstruction::UpdateKeyring { data }.pack();
        match process(&program_id, &accounts, &input).unwrap() {
            Action::Overwrite(request) => {
                account.resize(request.new_len, 0);
                account.copy_from_slice(&request.data);
            }
            Action::CreateAccount(_) => panic!("a keyring is written, not created"),
        }
    }

    let keystore = Keystore::unpack(&account).unwrap();
    let mock_keystore = Keystore { entries: vec![curve_entry_data, rsa_entry_data] };
    assert_eq!(keystore, mock_keystore);
}

#[test]
fn test_remove_entry() {
    let program_id = spl_keyring::program::id();
    let payer = [11u8; 32];
    let accounts = facts(&program_id, payer, true);
    let curve_entry_data = record_a();
    let rsa_entry_data = record_b();

    let mut account: Vec<u8> = Vec::new();
    let steps = [
        add_entry(&account, &curve_entry_data.pack().unwrap()).unwrap(),
        add_entry(
            &add_entry(&account, &curve_entry_data.pack().unwrap()).unwrap(),
            &rsa_entry_data.pack().unwrap(),
        )
        .unwrap(),
        rsa_entry_data.pack().unwrap(),
    ];
    for data in steps {
        let input = KeyringProgramInstruction::UpdateKeyring { data }.pack();
        match process(&program_id, &accounts, &input).unwrap() {
            Action::Overwrite(request) => {
                account.resize(request.new_len, 0);
                account.copy_from_slice(&request.data);
            }
            Action::CreateAccount(_) => panic!("a keyring is written, not created"),
        }
    }
    let two = Keystore { entries: vec![curve_entry_data.clone(), rsa_entry_data.clone()] };
    assert_eq!(
        remove_entry(&two.pack().unwrap(), &curve_entry_data.pack().unwrap()),
        Ok(account.clone())
    );

    let keystore = Keystore::unpack(&account).unwrap();
    let mock_keystore = Keystore { entries: vec![rsa_entry_data] };
    assert_eq!(keystore, mock_keystore);
}
