//! Types for managing the nested TLV structure of the keystore entry data.

use crate::discriminator::same_discriminator;
use crate::program::bytes::{
    append_bytes, append_section, copy_bytes, copy_discriminator, front_upto, read_length,
    same_bytes, section_at_front, starts_with_discriminator, tail_from,
};
use crate::program::error::KeyringProgramError;
use crate::program::format::{
    config_entry_valid, config_tag, config_valid, decode_config_entries, decode_config_entry,
    decode_config_entry_prefix, decode_entry, decode_entry_prefix, decode_key, decode_key_prefix,
    decode_optional_config, encode_config, encode_config_entries, encode_config_entry,
    encode_entry, encode_key, encode_optional_config, entry_tag, entry_valid, key_valid,
    optional_config_valid, ConfigEntryView, EntryView, KeyView, DISCRIM_PLUS_LENGTH,
    MAX_PAYLOAD_LENGTH,
};
use crate::program::roundtrip::{
    lemma_concat_empty, lemma_encode_config_entries_take, lemma_entry_decoded,
    lemma_section_is_tlv,
};
use vstd::prelude::*;
use vstd::slice::slice_subrange;

verus! {

/// The discriminator that opens every keystore entry.
pub fn entry_discriminator() -> (tag: [u8; 8])
    ensures
        tag@ == entry_tag(),
{
    crate::discriminator::derive("spl_keyring_program:keystore_entry")
}

/// The discriminator that opens every configuration section.
pub fn config_discriminator() -> (tag: [u8; 8])
    ensures
        tag@ == config_tag(),
{
    crate::discriminator::derive("spl_keyring_program:keystore_entry:configuration")
}

/// Key-value entry for additional encryption algorithm configurations.
///
/// The "key" of this key-value entry is used as the TLV discriminator and is
/// passed in when creating a new configuration entry.
#[derive(Clone, Debug, Default, PartialEq)]
pub struct KeystoreEntryConfigEntry {
    /// The configuration entry key
    pub key: [u8; 8],
    /// The configuration entry value
    pub value: Vec<u8>,
}

impl View for KeystoreEntryConfigEntry {
    type V = ConfigEntryView;

    open spec fn view(&self) -> ConfigEntryView {
        ConfigEntryView { key: self.key@, value: self.value@ }
    }
}

impl KeystoreEntryConfigEntry {
    /// Returns the length of a `KeystoreEntryConfigEntry`: the number of
    /// bytes that it packs into.
    pub fn data_len(&self) -> (len: usize)
        requires
            encode_config_entry(self@).len() <= usize::MAX,
        ensures
            len == encode_config_entry(self@).len(),
            len == 12 + self.value@.len(),
    {
        DISCRIM_PLUS_LENGTH + self.value.len()
    }

    /// Packs a `KeystoreEntryConfigEntry` into a vector of bytes. Fails when
    /// the value is longer than four length bytes can say.
    pub fn pack(&self) -> (packed: Result<Vec<u8>, KeyringProgramError>)
        ensures
            packed is Ok <==> config_entry_valid(self@),
            packed is Ok ==> packed->Ok_0@ == encode_config_entry(self@),
            packed is Err ==> packed->Err_0 == KeyringProgramError::InvalidFormatForConfigEntry,
    {
        if self.value.len() > MAX_PAYLOAD_LENGTH {
            return Err(KeyringProgramError::InvalidFormatForConfigEntry);
        }
        let mut data: Vec<u8> = Vec::new();
        append_section(&mut data, &self.key, self.value.as_slice());
        proof {
            lemma_concat_empty(encode_config_entry(self@));
        }
        Ok(data)
    }

    /// Peels one configuration entry off the front of `data`, and says how
    /// many bytes it took.
    pub fn unpack_prefix(data: &[u8]) -> (unpacked: Result<(Self, usize), KeyringProgramError>)
        ensures
            match (unpacked, decode_config_entry_prefix(data@)) {
                (Ok((entry, used)), Ok((e, n))) => entry@ == e && used == n,
                (Err(err), Err(e)) => err == e,
                _ => false,
            },
    {
        match section_at_front(data) {
            Some(total) => {
                let key = copy_discriminator(data);
                let value = copy_bytes(slice_subrange(data, 12, total));
                Ok((KeystoreEntryConfigEntry { key, value }, total))
            },
            None => Err(KeyringProgramError::InvalidFormatForConfigEntry),
        }
    }

    /// Unpacks a slice of data into a `KeystoreEntryConfigEntry`. The slice
    /// must hold the entry and nothing else.
    pub fn unpack(data: &[u8]) -> (unpacked: Result<Self, KeyringProgramError>)
        ensures
            match (unpacked, decode_config_entry(data@)) {
                (Ok(entry), Ok(e)) => entry@ == e,
                (Err(err), Err(e)) => err == e,
                _ => false,
            },
    {
        match Self::unpack_prefix(data) {
            Ok((entry, used)) => {
                if used == data.len() {
                    Ok(entry)
                } else {
                    Err(KeyringProgramError::InvalidFormatForConfigEntry)
                }
            },
            Err(err) => Err(err),
        }
    }

    /// Unpacks a slice of data into a `Vec<KeystoreEntryConfigEntry>`: entries
    /// are peeled off the front until nothing is left.
    pub fn unpack_to_vec(data: &[u8]) -> (unpacked: Result<Vec<Self>, KeyringProgramError>)
        ensures
            match (unpacked, decode_config_entries(data@)) {
                (Ok(entries), Ok(es)) => config_entries_view(entries@) == es,
                (Err(err), Err(e)) => err == e,
                _ => false,
            },
    {
        let mut entries: Vec<Self> = Vec::new();
        let mut rest: &[u8] = data;
        proof {
            assert(config_entries_view(entries@) =~= Seq::<ConfigEntryView>::empty());
            assert(Seq::<ConfigEntryView>::empty() + decode_config_entries(data@)->Ok_0
                =~= decode_config_entries(data@)->Ok_0);
        }
        while rest.len() > 0
            invariant
                match (decode_config_entries(rest@), decode_config_entries(data@)) {
                    (Ok(tail), Ok(all)) => all == config_entries_view(entries@) + tail,
                    (Err(e), Err(f)) => e == f,
                    _ => false,
                },
            decreases rest@.len(),
        {
            match Self::unpack_prefix(rest) {
                Ok((entry, used)) => {
                    proof {
                        lemma_section_is_tlv(rest@);
                        let ghost before = config_entries_view(entries@);
                        assert(config_entries_view(entries@.push(entry)) =~= before.push(entry@));
                        if decode_config_entries(rest@.skip(used as int)) is Ok {
                            let tail = decode_config_entries(rest@.skip(used as int))->Ok_0;
                            assert(before + (seq![entry@] + tail) =~= before.push(entry@) + tail);
                        }
                    }
                    entries.push(entry);
                    rest = tail_from(rest, used);
                },
                Err(err) => {
                    return Err(err);
                },
            }
        }
        proof {
            assert(decode_config_entries(rest@) == Ok::<Seq<ConfigEntryView>, KeyringProgramError>(
                Seq::empty(),
            ));
            assert(config_entries_view(entries@) + Seq::<ConfigEntryView>::empty()
                =~= config_entries_view(entries@));
        }
        Ok(entries)
    }

    /// A copy that holds the same key and value.
    pub fn duplicate(&self) -> (copy: Self)
        ensures
            copy@ == self@,
    {
        KeystoreEntryConfigEntry { key: self.key, value: copy_bytes(self.value.as_slice()) }
    }

    /// Whether two configuration entries hold the same key and value.
    pub fn same_as(&self, other: &Self) -> (same: bool)
        ensures
            same == (self@ == other@),
    {
        same_discriminator(&self.key, &other.key) && same_bytes(
            self.value.as_slice(),
            other.value.as_slice(),
        )
    }
}

/// The configuration entries of a vector as plain data.
pub open spec fn config_entries_view(entries: Seq<KeystoreEntryConfigEntry>) -> Seq<
    ConfigEntryView,
> {
    Seq::new(entries.len(), |i: int| entries[i]@)
}

/// Key section in a keystore entry.
///
/// The "key discriminator" of the key section is used as the TLV
/// discriminator and is passed in when creating a new keystore entry.
#[derive(Clone, Debug, Default, PartialEq)]
pub struct KeystoreEntryKey {
    /// The key discriminator
    pub discriminator: [u8; 8],
    /// The key data
    pub key: Vec<u8>,
}

impl View for KeystoreEntryKey {
    type V = KeyView;

    open spec fn view(&self) -> KeyView {
        KeyView { discriminator: self.discriminator@, key: self.key@ }
    }
}

impl KeystoreEntryKey {
    /// Returns the length of a `KeystoreEntryKey`: the number of bytes that
    /// it packs into.
    pub fn data_len(&self) -> (len: usize)
        requires
            encode_key(self@).len() <= usize::MAX,
        ensures
            len == encode_key(self@).len(),
            len == 12 + self.key@.len(),
    {
        DISCRIM_PLUS_LENGTH + self.key.len()
    }

    /// Packs a `KeystoreEntryKey` into a vector of bytes. Fails when the key
    /// is longer than four length bytes can say.
    pub fn pack(&self) -> (packed: Result<Vec<u8>, KeyringProgramError>)
        ensures
            packed is Ok <==> key_valid(self@),
            packed is Ok ==> packed->Ok_0@ == encode_key(self@),
            packed is Err ==> packed->Err_0 == KeyringProgramError::InvalidFormatForKey,
    {
        if self.key.len() > MAX_PAYLOAD_LENGTH {
            return Err(KeyringProgramError::InvalidFormatForKey);
        }
        let mut data: Vec<u8> = Vec::new();
        append_section(&mut data, &self.discriminator, self.key.as_slice());
        proof {
            lemma_concat_empty(encode_key(self@));
        }
        Ok(data)
    }

    /// Peels one key section off the front of `data`, and says how many bytes
    /// it took.
    pub fn unpack_prefix(data: &[u8]) -> (unpacked: Result<(Self, usize), KeyringProgramError>)
        ensures
            match (unpacked, decode_key_prefix(data@)) {
                (Ok((key, used)), Ok((k, n))) => key@ == k && used == n,
                (Err(err), Err(e)) => err == e,
                _ => false,
            },
    {
        match section_at_front(data) {
            Some(total) => {
                let discriminator = copy_discriminator(data);
                let key = copy_bytes(slice_subrange(data, 12, total));
                Ok((KeystoreEntryKey { discriminator, key }, total))
            },
            None => Err(KeyringProgramError::InvalidFormatForKey),
        }
    }

    /// Unpacks a slice of data into a `KeystoreEntryKey`. The slice must hold
    /// the key section and nothing else.
    pub fn unpack(data: &[u8]) -> (unpacked: Result<Self, KeyringProgramError>)
        ensures
            match (unpacked, decode_key(data@)) {
                (Ok(key), Ok(k)) => key@ == k,
                (Err(err), Err(e)) => err == e,
                _ => false,
            },
    {
        match Self::unpack_prefix(data) {
            Ok((key, used)) => {
                if used == data.len() {
                    Ok(key)
                } else {
                    Err(KeyringProgramError::InvalidFormatForKey)
                }
            },
            Err(err) => Err(err),
        }
    }

    /// A copy that holds the same discriminator and key.
    pub fn duplicate(&self) -> (copy: Self)
        ensures
            copy@ == self@,
    {
        KeystoreEntryKey { discriminator: self.discriminator, key: copy_bytes(self.key.as_slice()) }
    }

    /// Whether two key sections hold the same discriminator and key.
    pub fn same_as(&self, other: &Self) -> (same: bool)
        ensures
            same == (self@ == other@),
    {
        same_discriminator(&self.discriminator, &other.discriminator) && same_bytes(
            self.key.as_slice(),
            other.key.as_slice(),
        )
    }
}

/// Packs a run of configuration entries one after the other, if each of them
/// can be packed.
fn pack_config_entries(entries: &Vec<KeystoreEntryConfigEntry>) -> (packed: Option<Vec<u8>>)
    ensures
        packed is Some <==> (forall|i: int|
            0 <= i < entries@.len() ==> config_entry_valid(
                #[trigger] config_entries_view(entries@)[i],
            )),
        packed is Some ==> packed->Some_0@ == encode_config_entries(config_entries_view(entries@)),
{
    let ghost all = config_entries_view(entries@);
    let mut payload: Vec<u8> = Vec::new();
    let mut i: usize = 0;
    proof {
        assert(all.take(0) =~= Seq::<ConfigEntryView>::empty());
    }
    while i < entries.len()
        invariant
            i <= entries@.len(),
            all == config_entries_view(entries@),
            payload@ == encode_config_entries(all.take(i as int)),
            forall|j: int| 0 <= j < i ==> config_entry_valid(#[trigger] all[j]),
        decreases entries@.len() - i,
    {
        let entry = &entries[i];
        assert(all[i as int] == entry@);
        if entry.value.len() > MAX_PAYLOAD_LENGTH {
            assert(!config_entry_valid(config_entries_view(entries@)[i as int]));
            return None;
        }
        append_section(&mut payload, &entry.key, entry.value.as_slice());
        proof {
            lemma_encode_config_entries_take(all, i as int);
        }
        i += 1;
    }
    proof {
        assert(all.take(i as int) =~= all);
    }
    Some(payload)
}

/// Configurations section in a keystore entry.
///
/// This section is identified by its own TLV discriminator.
#[derive(Clone, Debug, Default, PartialEq)]
pub struct KeystoreEntryConfig(pub Vec<KeystoreEntryConfigEntry>);

impl View for KeystoreEntryConfig {
    type V = Seq<ConfigEntryView>;

    open spec fn view(&self) -> Seq<ConfigEntryView> {
        config_entries_view(self.0@)
    }
}

/// A configuration section, or its absence, as plain data.
pub open spec fn optional_config_view(config: Option<KeystoreEntryConfig>) -> Option<
    Seq<ConfigEntryView>,
> {
    match config {
        Some(c) => Some(c@),
        None => None,
    }
}

impl KeystoreEntryConfig {
    /// Returns the length of a `KeystoreEntryConfig`: the number of bytes
    /// that it packs into, header included.
    pub fn data_len(&self) -> (len: usize)
        requires
            encode_config(self@).len() <= usize::MAX,
        ensures
            len == encode_config(self@).len(),
    {
        let ghost all = self@;
        let mut len: usize = DISCRIM_PLUS_LENGTH;
        let mut i: usize = 0;
        proof {
            assert(all.take(0) =~= Seq::<ConfigEntryView>::empty());
        }
        while i < self.0.len()
            invariant
                i <= self.0@.len(),
                all == self@,
                len == 12 + encode_config_entries(all.take(i as int)).len(),
                12 + encode_config_entries(all).len() <= usize::MAX,
            decreases self.0@.len() - i,
        {
            let entry = &self.0[i];
            proof {
                assert(all[i as int] == entry@);
                lemma_encode_config_entries_take(all, i as int);
            }
            len = len + entry.data_len();
            i += 1;
        }
        proof {
            assert(all.take(i as int) =~= all);
        }
        len
    }

    /// Packs a `KeystoreEntryConfig` into a vector of bytes: the section's
    /// discriminator, the length of all its entries, then the entries. Fails
    /// when a value, or the entries together, are longer than four length
    /// bytes can say.
    pub fn pack(&self) -> (packed: Result<Vec<u8>, KeyringProgramError>)
        ensures
            packed is Ok <==> config_valid(self@),
            packed is Ok ==> packed->Ok_0@ == encode_config(self@),
            packed is Err ==> packed->Err_0 == KeyringProgramError::InvalidFormatForConfig,
    {
        match pack_config_entries(&self.0) {
            Some(payload) => {
                if payload.len() > MAX_PAYLOAD_LENGTH {
                    return Err(KeyringProgramError::InvalidFormatForConfig);
                }
                let tag = config_discriminator();
                let mut data: Vec<u8> = Vec::new();
                append_section(&mut data, &tag, payload.as_slice());
                proof {
                    lemma_concat_empty(encode_config(self@));
                }
                Ok(data)
            },
            None => Err(KeyringProgramError::InvalidFormatForConfig),
        }
    }

    /// Unpacks a slice of data into a `KeystoreEntryConfig`, or into `None`
    /// where the slice is the single zero byte that stands for "no
    /// configuration". A section must fill the slice exactly.
    pub fn unpack(data: &[u8]) -> (unpacked: Result<Option<Self>, KeyringProgramError>)
        ensures
            match (unpacked, decode_optional_config(data@)) {
                (Ok(config), Ok(c)) => optional_config_view(config) == c,
                (Err(err), Err(e)) => err == e,
                _ => false,
            },
    {
        if data.len() == 1 && data[0] == 0 {
            return Ok(None);
        }
        let tag = config_discriminator();
        if data.len() < 12 || !starts_with_discriminator(data, &tag) {
            return Err(KeyringProgramError::InvalidFormatForConfig);
        }
        let declared: u32 = read_length(data);
        if declared as usize != data.len() - 12 {
            return Err(KeyringProgramError::InvalidFormatForConfig);
        }
        match KeystoreEntryConfigEntry::unpack_to_vec(tail_from(data, 12)) {
            Ok(entries) => Ok(Some(KeystoreEntryConfig(entries))),
            Err(err) => Err(err),
        }
    }

    /// A copy that holds the same entries in the same order.
    pub fn duplicate(&self) -> (copy: Self)
        ensures
            copy@ == self@,
    {
        let mut entries: Vec<KeystoreEntryConfigEntry> = Vec::new();
        let mut i: usize = 0;
        while i < self.0.len()
            invariant
                i <= self.0@.len(),
                entries@.len() == i,
                forall|j: int| 0 <= j < i ==> (#[trigger] entries@[j])@ == self.0@[j]@,
            decreases self.0@.len() - i,
        {
            entries.push(self.0[i].duplicate());
            i += 1;
        }
        let copy = KeystoreEntryConfig(entries);
        assert(copy@ =~= self@);
        copy
    }

    /// Whether two configuration sections hold the same entries in the same
    /// order.
    pub fn same_as(&self, other: &Self) -> (same: bool)
        ensures
            same == (self@ == other@),
    {
        if self.0.len() != other.0.len() {
            assert(self@.len() != other@.len());
            return false;
        }
        let mut i: usize = 0;
        while i < self.0.len()
            invariant
                self.0@.len() == other.0@.len(),
                i <= self.0@.len(),
                forall|j: int| 0 <= j < i ==> (#[trigger] self.0@[j])@ == other.0@[j]@,
            decreases self.0@.len() - i,
        {
            if !self.0[i].same_as(&other.0[i]) {
                assert(self@[i as int] == self.0@[i as int]@);
                assert(other@[i as int] == other.0@[i as int]@);
                return false;
            }
            i += 1;
        }
        assert(self@ =~= other@);
        true
    }
}

/// A keystore entry.
///
/// Each entry is identified by its own TLV discriminator.
#[derive(Clone, Debug, Default, PartialEq)]
pub struct KeystoreEntry {
    /// The new entry discriminator
    pub discriminator: [u8; 8],
    /// The key data
    pub key: KeystoreEntryKey,
    /// Additional configuration data
    pub config: Option<KeystoreEntryConfig>,
}

impl View for KeystoreEntry {
    type V = EntryView;

    open spec fn view(&self) -> EntryView {
        EntryView {
            discriminator: self.discriminator@,
            key: self.key@,
            config: optional_config_view(self.config),
        }
    }
}

/// Packs what closes an entry: the configuration section, or a single zero
/// byte where there is none.
fn pack_optional_config(config: &Option<KeystoreEntryConfig>) -> (packed: Option<Vec<u8>>)
    ensures
        packed is Some <==> optional_config_valid(optional_config_view(*config)),
        packed is Some ==> packed->Some_0@ == encode_optional_config(
            optional_config_view(*config),
        ),
{
    match config {
        Some(section) => match section.pack() {
            Ok(data) => Some(data),
            Err(_) => None,
        },
        None => {
            let mut data: Vec<u8> = Vec::new();
            data.push(0u8);
            assert(data@ =~= seq![0u8]);
            Some(data)
        },
    }
}

impl KeystoreEntry {
    /// Creates a new `KeystoreEntry` under the entry discriminator.
    pub fn new(key: KeystoreEntryKey, config: Option<KeystoreEntryConfig>) -> (entry: Result<
        Self,
        KeyringProgramError,
    >)
        ensures
            entry is Ok,
            entry->Ok_0.key == key,
            entry->Ok_0.config == config,
            entry->Ok_0.discriminator@ == entry_tag(),
    {
        Ok(KeystoreEntry { discriminator: entry_discriminator(), key, config })
    }

    /// Returns the length of the keystore entry: the number of bytes that it
    /// packs into, with its header and with the single byte that stands for
    /// an absent configuration.
    pub fn data_len(&self) -> (len: usize)
        requires
            encode_entry(self@).len() <= usize::MAX,
        ensures
            len == encode_entry(self@).len(),
            len == 12 + encode_key(self@.key).len() + encode_optional_config(self@.config).len(),
    {
        proof {
            reveal(encode_entry);
        }
        let mut len: usize = DISCRIM_PLUS_LENGTH + self.key.data_len();
        match &self.config {
            Some(config) => {
                len = len + config.data_len();
            },
            None => {
                len = len + 1;
            },
        }
        len
    }

    /// Packs a `KeystoreEntry` into a vector of bytes: the entry
    /// discriminator, the length of all that follows, the key section, then
    /// the configuration section or a single zero byte. Fails when the entry
    /// does not carry the entry discriminator, or when a part of it is longer
    /// than four length bytes can say.
    pub fn pack(&self) -> (packed: Result<Vec<u8>, KeyringProgramError>)
        ensures
            packed is Ok <==> entry_valid(self@),
            packed is Ok ==> packed->Ok_0@ == encode_entry(self@),
            packed is Err ==> packed->Err_0 == KeyringProgramError::InvalidFormatForEntry,
    {
        proof {
            reveal(encode_entry);
        }
        let tag = entry_discriminator();
        if !same_discriminator(&self.discriminator, &tag) {
            return Err(KeyringProgramError::InvalidFormatForEntry);
        }
        let mut payload: Vec<u8> = match self.key.pack() {
            Ok(data) => data,
            Err(_) => {
                return Err(KeyringProgramError::InvalidFormatForEntry);
            },
        };
        match pack_optional_config(&self.config) {
            Some(closing) => {
                append_bytes(&mut payload, closing.as_slice());
            },
            None => {
                return Err(KeyringProgramError::InvalidFormatForEntry);
            },
        }
        if payload.len() > MAX_PAYLOAD_LENGTH {
            return Err(KeyringProgramError::InvalidFormatForEntry);
        }
        let mut data: Vec<u8> = Vec::new();
        append_section(&mut data, &tag, payload.as_slice());
        proof {
            lemma_concat_empty(encode_entry(self@));
        }
        Ok(data)
    }

    /// Unpacks a slice of data into a `KeystoreEntry`. The slice must hold
    /// the entry and nothing else: its length field must cover exactly what
    /// follows it.
    pub fn unpack(data: &[u8]) -> (unpacked: Result<Self, KeyringProgramError>)
        ensures
            match (unpacked, decode_entry(data@)) {
                (Ok(entry), Ok(r)) => entry@ == r,
                (Err(err), Err(e)) => err == e,
                _ => false,
            },
            unpacked is Ok ==> entry_valid(unpacked->Ok_0@) && encode_entry(unpacked->Ok_0@)
                == data@,
    {
        proof {
            reveal(decode_entry);
            if decode_entry(data@) is Ok {
                lemma_entry_decoded(data@);
            }
        }
        let tag = entry_discriminator();
        if data.len() < 12 || !starts_with_discriminator(data, &tag) {
            return Err(KeyringProgramError::InvalidFormatForEntry);
        }
        let declared: u32 = read_length(data);
        if declared as usize != data.len() - 12 {
            return Err(KeyringProgramError::InvalidFormatForEntry);
        }
        let body = tail_from(data, 12);
        match KeystoreEntryKey::unpack_prefix(body) {
            Ok((key, used)) => {
                match KeystoreEntryConfig::unpack(tail_from(body, used)) {
                    Ok(config) => Ok(KeystoreEntry { discriminator: tag, key, config }),
                    Err(err) => Err(err),
                }
            },
            Err(err) => Err(err),
        }
    }

    /// Peels one keystore entry off the front of `data`, and says how many
    /// bytes it took.
    pub fn unpack_prefix(data: &[u8]) -> (unpacked: Result<(Self, usize), KeyringProgramError>)
        ensures
            match (unpacked, decode_entry_prefix(data@)) {
                (Ok((entry, used)), Ok((r, n))) => entry@ == r && used == n,
                (Err(err), Err(e)) => err == e,
                _ => false,
            },
    {
        match section_at_front(data) {
            Some(total) => match Self::unpack(front_upto(data, total)) {
                Ok(entry) => Ok((entry, total)),
                Err(err) => Err(err),
            },
            None => Err(KeyringProgramError::InvalidFormatForEntry),
        }
    }

    /// A copy that holds the same key and configuration.
    pub fn duplicate(&self) -> (copy: Self)
        ensures
            copy@ == self@,
    {
        let config = match &self.config {
            Some(section) => Some(section.duplicate()),
            None => None,
        };
        KeystoreEntry { discriminator: self.discriminator, key: self.key.duplicate(), config }
    }

    /// Whether two entries are equal: the same discriminator, the same key
    /// section and the same configuration, if any.
    pub fn same_as(&self, other: &Self) -> (same: bool)
        ensures
            same == (self@ == other@),
    {
        if !same_discriminator(&self.discriminator, &other.discriminator) {
            return false;
        }
        if !self.key.same_as(&other.key) {
            return false;
        }
        match (&self.config, &other.config) {
            (Some(a), Some(b)) => a.same_as(b),
            (None, None) => true,
            _ => false,
        }
    }
}

} // verus!
