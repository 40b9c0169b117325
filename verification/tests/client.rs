use solana_program::pubkey::Pubkey;
use spl_keyring::client::algorithm::{
    ComplexAlgorithmConfigurations, Configurations, EncryptionAlgorithm, NoConfigurations,
};
use spl_keyring::client::error::KeyringError;
use spl_keyring::client::keyring::Keyring;
use spl_keyring::client::keystore::{
    ComplexAlgorithm, Curve25519, EncryptionKeyConfig, Keystore, Rsa,
};
use spl_keyring::client::state::EncryptionAlgorithm as StateAlgorithm;
use spl_keyring::client::state::{
    ChaCha20Poly1305, ChaCha20Poly1305Configurations, Ed25519, X25519,
};
use spl_keyring::program::error::{KeyringProgramError, ProgramError};
use spl_keyring::program::instruction::{update_keyring_at, KeyringProgramInstruction};
use spl_keyring::program::processor::{process, AccountFacts, Action};
use spl_keyring::program::tlv::{
    KeystoreEntry, KeystoreEntryConfig, KeystoreEntryConfigEntry, KeystoreEntryKey,
};

/// A keyring account as the tests keep it: nothing before it is created.
struct TestContext {
    keyring: Keyring,
    authority: [u8; 32],
    account: Option<Vec<u8>>,
}

impl TestContext {
    fn new() -> Self {
        let authority = Pubkey::new_unique().to_bytes();
        let keyring = Keyring::new(&spl_keyring::program::id(), authority);
        Self { keyring, authority, account: None }
    }

    fn accounts(&self) -> Vec<AccountFacts> {
        let (address, _) = self.keyring.get_keyring_address(&self.authority).unwrap();
        vec![
            AccountFacts { key: address, is_signer: false },
            AccountFacts { key: self.authority, is_signer: true },
            AccountFacts { key: [0u8; 32], is_signer: false },
        ]
    }

    fn send(&mut self, data: &[u8]) -> Result<(), ProgramError> {
        match process(&spl_keyring::program::id(), &self.accounts(), data)? {
            Action::CreateAccount(request) => {
                assert_eq!(request.space, 0);
                self.account = Some(Vec::new());
            }
            Action::Overwrite(request) => {
                let account = self.account.as_mut().expect("no keyring account");
                account.resize(request.new_len, 0);
                account.copy_from_slice(&request.data);
            }
        }
        Ok(())
    }

    fn create_keyring(&mut self) -> Result<(), KeyringError> {
        let built = self.keyring.create_keyring(&self.authority)?;
        self.send(&built.data).map_err(KeyringError::Program)
    }

    fn add_entry(&mut self, entry: EncryptionKeyConfig) -> Result<(), KeyringError> {
        let built = self.keyring.add_entry(&self.authority, self.account.clone(), entry)?;
        self.send(&built.data).map_err(KeyringError::Program)
    }

    fn remove_entry(&mut self, entry: EncryptionKeyConfig) -> Result<(), KeyringError> {
        let built = self.keyring.remove_entry(&self.authority, self.account.clone(), entry)?;
        self.send(&built.data).map_err(KeyringError::Program)
    }

    fn get_keystore(&self) -> Result<Keystore, KeyringError> {
        Keyring::get_keystore(self.account.clone())
    }
}

fn fake_rsa_key() -> EncryptionKeyConfig {
    let mut fake_rsa_key_bytes = [0u8; 64];
    fake_rsa_key_bytes
        .copy_from_slice(&[Pubkey::new_unique().as_ref(), Pubkey::new_unique().as_ref()].concat());
    EncryptionKeyConfig::Rsa(Rsa(fake_rsa_key_bytes))
}

#[test]
fn can_create_keyring() {
    let mut context = TestContext::new();

    context.create_keyring().expect("Failed to create keyring");

    let _keyring = context.get_keystore().expect("Failed to fetch keyring");
}

#[test]
fn can_add_key() {
    let mut context = TestContext::new();

    context.create_keyring().expect("Failed to create keyring");

    let new_key = EncryptionKeyConfig::Curve25519(Curve25519(Pubkey::new_unique().to_bytes()));

    context.add_entry(new_key.clone()).expect("Failed to add key");

    let keyring_account =
        Keyring::get_keyring_account(context.account.clone()).expect("Failed to fetch keyring account");
    println!("Keystore data length: {}", keyring_account.len());

    let keystore = context.get_keystore().expect("Failed to fetch keyring");
    let mock_keystore = Keystore(vec![new_key]);
    assert_eq!(keystore, mock_keystore);
}

#[test]
fn can_add_multiple_keys() {
    let mut context = TestContext::new();

    context.create_keyring().expect("Failed to create keyring");

    let curve_key = EncryptionKeyConfig::Curve25519(Curve25519(Pubkey::new_unique().to_bytes()));
    context.add_entry(curve_key.clone()).expect("Failed to add key");

    let rsa_key = fake_rsa_key();
    context.add_entry(rsa_key.clone()).expect("Failed to add key");

    let keyring_account =
        Keyring::get_keyring_account(context.account.clone()).expect("Failed to fetch keyring account");
    println!("Keystore data length: {}", keyring_account.len());

    let keystore = context.get_keystore().expect("Failed to fetch keyring");
    let mock_keystore = Keystore(vec![curve_key, rsa_key]);
    assert_eq!(keystore, mock_keystore);
}

#[test]
fn can_remove_key() {
    let mut context = TestContext::new();

    context.create_keyring().expect("Failed to create keyring");

    let curve_key = EncryptionKeyConfig::Curve25519(Curve25519(Pubkey::new_unique().to_bytes()));
    context.add_entry(curve_key.clone()).expect("Failed to add key");

    let rsa_key = fake_rsa_key();
    context.add_entry(rsa_key.clone()).expect("Failed to add key");

    let keyring_account =
        Keyring::get_keyring_account(context.account.clone()).expect("Failed to fetch keyring account");
    println!("Added two keys to keystore");
    println!("Keystore data length: {}", keyring_account.len());

    context.remove_entry(curve_key).expect("Failed to remove key");

    let keyring_account =
        Keyring::get_keyring_account(context.account.clone()).expect("Failed to fetch keyring account");
    println!("Removed Curve25519 key from keystore");
    println!("Keystore data length: {}", keyring_account.len());

    let keystore = context.get_keystore().expect("Failed to fetch keyring");
    let mock_keystore = Keystore(vec![rsa_key]);
    assert_eq!(keystore, mock_keystore);
}

#[test]
fn keystore_of_a_missing_account_is_not_found() {
    assert_eq!(Keyring::get_keystore(None), Err(KeyringError::KeystoreNotFound));
    assert_eq!(Keyring::get_keyring_account(None), Err(KeyringError::KeystoreNotFound));
    assert_eq!(Keyring::get_keyring_account(Some(vec![1, 2])), Ok(vec![1, 2]));
    let context = TestContext::new();
    let key = EncryptionKeyConfig::Curve25519(Curve25519([1; 32]));
    assert_eq!(
        context.keyring.add_entry(&context.authority, None, key),
        Err(KeyringError::KeystoreNotFound)
    );
    assert_eq!(
        context.keyring.remove_entry(&context.authority, None, key),
        Err(KeyringError::KeystoreNotFound)
    );
}

#[test]
fn keystore_of_an_empty_account_is_empty() {
    assert_eq!(Keyring::get_keystore(Some(vec![])), Ok(Keystore(vec![])));
    assert_eq!(Keystore::unpack(&[]), Ok(Keystore::default()));
    assert_eq!(Keystore(vec![]).pack(), Vec::<u8>::new());
}

#[test]
fn keystore_of_a_malformed_account_is_a_program_error() {
    assert_eq!(
        Keyring::get_keystore(Some(vec![1, 2, 3])),
        Err(KeyringError::Program(ProgramError::Custom(0)))
    );
    let mut key_at_fault = spl_keyring::discriminator::derive("spl_keyring_program:keystore_entry").to_vec();
    key_at_fault.extend_from_slice(&[2, 0, 0, 0, 1, 1]);
    assert_eq!(
        Keyring::get_keystore(Some(key_at_fault)),
        Err(KeyringError::Program(ProgramError::Custom(1)))
    );
}

#[test]
fn client_data_after_add_and_remove() {
    let curve = EncryptionKeyConfig::Curve25519(Curve25519([6; 32]));
    let rsa = EncryptionKeyConfig::Rsa(Rsa([7; 64]));
    let one = Keyring::data_with_entry(Some(vec![]), curve).unwrap();
    assert_eq!(one.len(), 57);
    assert_eq!(one, curve.to_keystore_entry().pack().unwrap());
    let two = Keyring::data_with_entry(Some(one.clone()), rsa).unwrap();
    assert_eq!(two, Keystore(vec![curve, rsa]).pack());
    assert_eq!(Keyring::data_without_entry(Some(two.clone()), curve), Ok(Keystore(vec![rsa]).pack()));
    assert_eq!(Keyring::data_without_entry(Some(one.clone()), rsa), Ok(one.clone()));
    assert_eq!(Keyring::data_without_entry(Some(one), curve), Ok(vec![]));
}

#[test]
fn remove_from_an_empty_slot_finds_nothing() {
    let not_found = KeyringError::Program(ProgramError::Custom(
        KeyringProgramError::KeystoreEntryNotFound.code(),
    ));
    assert_eq!(not_found, KeyringError::Program(ProgramError::Custom(4)));
    let curve = EncryptionKeyConfig::Curve25519(Curve25519([6u8; 32]));
    assert_eq!(Keyring::data_without_entry(Some(vec![]), curve), Err(not_found));

    let mut context = TestContext::new();
    context.create_keyring().expect("Failed to create keyring");
    assert_eq!(context.account, Some(vec![]));
    assert_eq!(
        context.keyring.remove_entry(&context.authority, context.account.clone(), curve),
        Err(not_found)
    );
    assert_eq!(context.remove_entry(curve), Err(not_found));
    assert_eq!(context.account, Some(vec![]));
}

#[test]
fn client_removes_as_the_program_does() {
    let curve = EncryptionKeyConfig::Curve25519(Curve25519([6; 32]));
    let rsa = EncryptionKeyConfig::Rsa(Rsa([7; 64]));
    let target = curve.to_keystore_entry().pack().unwrap();
    for data in [vec![], Keystore(vec![rsa]).pack(), Keystore(vec![curve, rsa, curve]).pack()] {
        let by_client = Keyring::data_without_entry(Some(data.clone()), curve);
        let by_program = spl_keyring::program::processor::remove_entry(&data, &target)
            .map_err(|err| KeyringError::Program(err.to_program_error()));
        assert_eq!(by_client, by_program);
    }
}

#[test]
fn client_add_then_remove_gives_the_data_back() {
    let curve = EncryptionKeyConfig::Curve25519(Curve25519([6; 32]));
    let rsa = EncryptionKeyConfig::Rsa(Rsa([7; 64]));
    for data in [vec![], Keystore(vec![rsa]).pack()] {
        let added = Keyring::data_with_entry(Some(data.clone()), curve).unwrap();
        assert!(!added.is_empty());
        assert_eq!(Keyring::data_without_entry(Some(added), curve), Ok(data));
    }
}

#[test]
fn client_instructions_write_the_new_keystore() {
    let context = TestContext::new();
    let curve = EncryptionKeyConfig::Curve25519(Curve25519([6; 32]));
    let (address, _) = context.keyring.get_keyring_address(&context.authority).unwrap();
    let built = context.keyring.add_entry(&context.authority, Some(vec![]), curve).unwrap();
    let expected = update_keyring_at(
        &spl_keyring::program::id(),
        &context.authority,
        &address,
        Keystore(vec![curve]).pack(),
    );
    assert_eq!(built, expected);
    assert_eq!(
        KeyringProgramInstruction::unpack(&built.data),
        Ok(KeyringProgramInstruction::UpdateKeyring { data: Keystore(vec![curve]).pack() })
    );
    let removed = context
        .keyring
        .remove_entry(&context.authority, Some(Keystore(vec![curve]).pack()), curve)
        .unwrap();
    assert_eq!(removed.data, vec![1u8]);
}

#[test]
fn typed_keystore_round_trip() {
    let keystore = Keystore(vec![
        EncryptionKeyConfig::Curve25519(Curve25519([1; 32])),
        EncryptionKeyConfig::ComplexAlgorithm(ComplexAlgorithm {
            key: [2; 32],
            nonce: [3; 12],
            aad: [4; 12],
        }),
        EncryptionKeyConfig::Rsa(Rsa([5; 64])),
    ]);
    let packed = keystore.pack();
    assert_eq!(packed.len(), 57 + (12 + 44 + 12 + 24 + 24) + 89);
    assert_eq!(Keystore::unpack(&packed), Ok(keystore));
}

#[test]
fn typed_keystore_adds_and_removes() {
    let curve = EncryptionKeyConfig::Curve25519(Curve25519([1; 32]));
    let rsa = EncryptionKeyConfig::Rsa(Rsa([5; 64]));
    let mut keystore = Keystore::default();
    keystore.add_entry(curve);
    keystore.add_entry(rsa);
    keystore.add_entry(curve);
    assert_eq!(keystore, Keystore(vec![curve, rsa, curve]));
    keystore.remove_entry(&EncryptionKeyConfig::Curve25519(Curve25519([2; 32])));
    assert_eq!(keystore, Keystore(vec![curve, rsa, curve]));
    keystore.remove_entry(&curve);
    assert_eq!(keystore, Keystore(vec![rsa]));
    assert!(curve.same_as(&curve));
    assert!(!curve.same_as(&rsa));
}

#[test]
fn entries_of_unrecognized_shape_are_refused() {
    let curve_tag = spl_keyring::discriminator::derive("spl_keyring_program:key:Curve25519");
    let short = KeystoreEntry::new(KeystoreEntryKey { discriminator: curve_tag, key: vec![1; 31] }, None)
        .unwrap();
    assert_eq!(EncryptionKeyConfig::from_keystore_entry(&short), None);
    assert_eq!(
        Keystore::unpack(&short.pack().unwrap()),
        Err(KeyringProgramError::InvalidFormatForEntry)
    );
    let unknown = KeystoreEntry::new(KeystoreEntryKey { discriminator: [0; 8], key: vec![1; 32] }, None)
        .unwrap();
    assert_eq!(EncryptionKeyConfig::from_keystore_entry(&unknown), None);
    let configured = KeystoreEntry::new(
        KeystoreEntryKey { discriminator: curve_tag, key: vec![1; 32] },
        Some(KeystoreEntryConfig(vec![])),
    )
    .unwrap();
    assert_eq!(EncryptionKeyConfig::from_keystore_entry(&configured), None);
    let complex_tag = spl_keyring::discriminator::derive("spl_keyring_program:key:ComplexAlgorithm");
    let swapped = KeystoreEntry::new(
        KeystoreEntryKey { discriminator: complex_tag, key: vec![1; 32] },
        Some(KeystoreEntryConfig(vec![
            KeystoreEntryConfigEntry { key: *b"aad\0\0\0\0\0", value: vec![0; 12] },
            KeystoreEntryConfigEntry { key: *b"nonce\0\0\0", value: vec![0; 12] },
        ])),
    )
    .unwrap();
    assert_eq!(EncryptionKeyConfig::from_keystore_entry(&swapped), None);
}

#[test]
fn keys_are_read_back_from_their_entries() {
    let keys = [
        EncryptionKeyConfig::Curve25519(Curve25519([1; 32])),
        EncryptionKeyConfig::Rsa(Rsa([5; 64])),
        EncryptionKeyConfig::ComplexAlgorithm(ComplexAlgorithm {
            key: [2; 32],
            nonce: [3; 12],
            aad: [4; 12],
        }),
    ];
    for key in keys {
        assert_eq!(EncryptionKeyConfig::from_keystore_entry(&key.to_keystore_entry()), Some(key));
    }
}

#[test]
fn algorithms_make_their_keystore_entries() {
    let curve = spl_keyring::client::algorithm::Curve25519::new([6; 32]);
    assert_eq!(curve.key(), vec![6u8; 32]);
    assert_eq!(curve.keystore_entry_config(), None);
    assert_eq!(curve.to_buffer(), Ok(vec![6u8; 32]));
    let entry = curve.to_keystore_entry().unwrap();
    assert_eq!(entry.discriminator, spl_keyring::discriminator::derive("spl_keyring_program:keystore_entry"));
    assert_eq!(entry.key.discriminator, spl_keyring::discriminator::derive("spl_keyring_program:key:Curve25519"));
    assert_eq!(entry.key.discriminator, [91, 118, 136, 53, 132, 35, 78, 142]);
    assert_eq!(entry.key.key, vec![6u8; 32]);
    assert_eq!(entry.config, None);
    assert_eq!(entry.pack().unwrap().len(), 57);

    let rsa = spl_keyring::client::algorithm::Rsa::new([7; 64]);
    assert_eq!(rsa.key(), vec![7u8; 64]);
    assert_eq!(rsa.to_buffer(), Ok(vec![7u8; 64]));
    let entry = rsa.to_keystore_entry().unwrap();
    assert_eq!(entry.key.discriminator, [201, 12, 106, 206, 86, 201, 19, 89]);
    assert_eq!(entry.config, None);
    assert_eq!(
        spl_keyring::client::algorithm::Rsa::discriminator(),
        spl_keyring::discriminator::derive("spl_keyring_program:key:RSA")
    );
}

#[test]
fn complex_algorithm_carries_nonce_and_aad() {
    let complex = spl_keyring::client::algorithm::ComplexAlgorithm::new([1; 32], [2; 12], [3; 12]);
    assert_eq!(complex.key(), vec![1u8; 32]);
    let mut buffer = vec![1u8; 32];
    buffer.extend_from_slice(&[2; 12]);
    buffer.extend_from_slice(&[3; 12]);
    assert_eq!(complex.to_buffer(), Ok(buffer));
    let expected = KeystoreEntryConfig(vec![
        KeystoreEntryConfigEntry { key: [b'n', b'o', b'n', b'c', b'e', 0, 0, 0], value: vec![2; 12] },
        KeystoreEntryConfigEntry { key: [b'a', b'a', b'd', 0, 0, 0, 0, 0], value: vec![3; 12] },
    ]);
    assert_eq!(complex.keystore_entry_config(), Some(expected.clone()));
    let entry = complex.to_keystore_entry().unwrap();
    assert_eq!(entry.key.discriminator, [238, 108, 0, 133, 126, 20, 221, 160]);
    assert_eq!(entry.config, Some(expected));
    assert_eq!(KeystoreEntry::unpack(&entry.pack().unwrap()), Ok(entry));
}

#[test]
fn configurations_to_buffers() {
    assert_eq!(NoConfigurations.to_buffer(), Ok(vec![0u8]));
    assert_eq!(NoConfigurations.to_keystore_entry_config(), None);
    let configurations = ComplexAlgorithmConfigurations { nonce: [2; 12], aad: [3; 12] };
    let mut buffer = vec![2u8; 12];
    buffer.extend_from_slice(&[3; 12]);
    assert_eq!(configurations.to_buffer(), Ok(buffer));
    assert_eq!(
        ComplexAlgorithmConfigurations::discriminator(),
        spl_keyring::discriminator::derive("spl_keyring_program:configuration:ComplexAlgorithm")
    );
}

#[test]
fn state_algorithms_have_their_lengths_and_tags() {
    assert_eq!(<spl_keyring::client::state::Curve25519 as StateAlgorithm>::key_length(), 32);
    assert_eq!(<X25519 as StateAlgorithm>::key_length(), 32);
    assert_eq!(<Ed25519 as StateAlgorithm>::key_length(), 32);
    assert_eq!(<ChaCha20Poly1305 as StateAlgorithm>::key_length(), 32);
    assert_eq!(
        <spl_keyring::client::state::Curve25519 as StateAlgorithm>::discriminator(),
        [96, 90, 220, 199, 147, 218, 153, 161]
    );
    assert_eq!(<X25519 as StateAlgorithm>::discriminator(), spl_keyring::discriminator::derive("key:x25519"));
    assert_eq!(<Ed25519 as StateAlgorithm>::discriminator(), spl_keyring::discriminator::derive("key:ed25519"));
    assert_eq!(
        <ChaCha20Poly1305 as StateAlgorithm>::discriminator(),
        spl_keyring::discriminator::derive("key:cha-cha20-poly1305")
    );
    assert_eq!(
        <X25519 as StateAlgorithm>::configurations_discriminator(),
        [57, 5, 55, 82, 200, 247, 212, 181]
    );
    assert_eq!(
        <ChaCha20Poly1305 as StateAlgorithm>::configurations_discriminator(),
        ChaCha20Poly1305Configurations::discriminator()
    );
    assert_eq!(
        ChaCha20Poly1305Configurations::discriminator(),
        spl_keyring::discriminator::derive("configurations:cha-cha20-poly1305")
    );
    assert_eq!(
        spl_keyring::client::state::NoConfigurations::discriminator(),
        spl_keyring::discriminator::derive("configurations:none")
    );
    assert_eq!(ChaCha20Poly1305Configurations::default().nonce, [0u8; 12]);
}
