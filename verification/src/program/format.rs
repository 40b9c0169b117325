//! The byte format of keystore entries, stated over sequences of bytes.
//!
//! Every section is a type-length-value triple: an eight-byte discriminator,
//! the payload length as four little-endian bytes, then the payload. An entry
//! wraps a key section and either a configuration section or one zero byte
//! that stands for "no configuration". A keystore is the concatenation of its
//! entries, with nothing around them.

use crate::discriminator::hash_input_discriminator;
use crate::program::error::KeyringProgramError;
use vstd::prelude::*;

verus! {

/// Length of the eight-byte discriminator plus a four-byte length value.
pub const DISCRIM_PLUS_LENGTH: usize = 12;

/// The largest payload length that the four length bytes can carry.
pub const MAX_PAYLOAD_LENGTH: usize = 0xffff_ffff;

/// A configuration entry as plain data.
pub struct ConfigEntryView {
    pub key: Seq<u8>,
    pub value: Seq<u8>,
}

/// A key section as plain data.
pub struct KeyView {
    pub discriminator: Seq<u8>,
    pub key: Seq<u8>,
}

/// A keystore entry as plain data.
pub struct EntryView {
    pub discriminator: Seq<u8>,
    pub key: KeyView,
    pub config: Option<Seq<ConfigEntryView>>,
}

/// The discriminator that opens every keystore entry.
pub open spec fn entry_tag() -> Seq<u8> {
    hash_input_discriminator("spl_keyring_program:keystore_entry"@)@
}

/// The discriminator that opens every configuration section.
pub open spec fn config_tag() -> Seq<u8> {
    hash_input_discriminator("spl_keyring_program:keystore_entry:configuration"@)@
}

/// The four little-endian bytes of a length.
pub open spec fn length_bytes(n: int) -> Seq<u8> {
    seq![
        (n % 256) as u8,
        ((n / 256) % 256) as u8,
        ((n / 65536) % 256) as u8,
        ((n / 16777216) % 256) as u8,
    ]
}

/// The length that four little-endian bytes stand for.
pub open spec fn length_value(bytes: Seq<u8>) -> int
    recommends
        bytes.len() == 4,
{
    bytes[0] + bytes[1] * 256 + bytes[2] * 65536 + bytes[3] * 16777216
}

/// The length that the header at the front of `data` declares.
pub open spec fn declared_length(data: Seq<u8>) -> int
    recommends
        data.len() >= 12,
{
    length_value(data.subrange(8, 12))
}

/// One type-length-value triple.
pub open spec fn tlv(tag: Seq<u8>, payload: Seq<u8>) -> Seq<u8> {
    tag + length_bytes(payload.len() as int) + payload
}

// ---------------------------------------------------------------------------
// Validity
// ---------------------------------------------------------------------------

/// A configuration entry that the format can hold.
pub open spec fn config_entry_valid(e: ConfigEntryView) -> bool {
    e.key.len() == 8 && e.value.len() <= MAX_PAYLOAD_LENGTH
}

/// A key section that the format can hold.
pub open spec fn key_valid(k: KeyView) -> bool {
    k.discriminator.len() == 8 && k.key.len() <= MAX_PAYLOAD_LENGTH
}

/// A configuration section that the format can hold.
pub open spec fn config_valid(entries: Seq<ConfigEntryView>) -> bool {
    &&& forall|i: int| 0 <= i < entries.len() ==> config_entry_valid(#[trigger] entries[i])
    &&& encode_config_entries(entries).len() <= MAX_PAYLOAD_LENGTH
}

/// A configuration section, or its absence, that the format can hold.
pub open spec fn optional_config_valid(config: Option<Seq<ConfigEntryView>>) -> bool {
    match config {
        Some(entries) => config_valid(entries),
        None => true,
    }
}

/// A keystore entry that the format can hold.
pub open spec fn entry_valid(r: EntryView) -> bool {
    &&& r.discriminator == entry_tag()
    &&& key_valid(r.key)
    &&& optional_config_valid(r.config)
    &&& entry_payload(r).len() <= MAX_PAYLOAD_LENGTH
}

/// A keystore whose entries the format can all hold.
pub open spec fn keystore_valid(entries: Seq<EntryView>) -> bool {
    forall|i: int| 0 <= i < entries.len() ==> entry_valid(#[trigger] entries[i])
}

// ---------------------------------------------------------------------------
// Encoding
// ---------------------------------------------------------------------------

/// The bytes of a configuration entry.
pub open spec fn encode_config_entry(e: ConfigEntryView) -> Seq<u8> {
    tlv(e.key, e.value)
}

/// The bytes of a run of configuration entries, in order.
pub open spec fn encode_config_entries(entries: Seq<ConfigEntryView>) -> Seq<u8>
    decreases entries.len(),
{
    if entries.len() == 0 {
        Seq::empty()
    } else {
        encode_config_entry(entries[0]) + encode_config_entries(entries.skip(1))
    }
}

/// The bytes of a configuration section.
pub open spec fn encode_config(entries: Seq<ConfigEntryView>) -> Seq<u8> {
    tlv(config_tag(), encode_config_entries(entries))
}

/// The bytes that close an entry: a configuration section, or a single zero.
pub open spec fn encode_optional_config(config: Option<Seq<ConfigEntryView>>) -> Seq<u8> {
    match config {
        Some(entries) => encode_config(entries),
        None => seq![0u8],
    }
}

/// The bytes of a key section.
pub open spec fn encode_key(k: KeyView) -> Seq<u8> {
    tlv(k.discriminator, k.key)
}

/// What an entry's length field covers: the key section and what closes it.
pub open spec fn entry_payload(r: EntryView) -> Seq<u8> {
    encode_key(r.key) + encode_optional_config(r.config)
}

/// The bytes of a keystore entry.
#[verifier::opaque]
pub open spec fn encode_entry(r: EntryView) -> Seq<u8> {
    tlv(r.discriminator, entry_payload(r))
}

/// The bytes of a keystore: its entries one after the other.
pub open spec fn encode_keystore(entries: Seq<EntryView>) -> Seq<u8>
    decreases entries.len(),
{
    if entries.len() == 0 {
        Seq::empty()
    } else {
        encode_entry(entries[0]) + encode_keystore(entries.skip(1))
    }
}

// ---------------------------------------------------------------------------
// Decoding
// ---------------------------------------------------------------------------

/// Whether `data` opens with a complete header and the payload it declares.
pub open spec fn holds_section(data: Seq<u8>) -> bool {
    data.len() >= 12 && declared_length(data) <= data.len() - 12
}

/// The number of bytes of the section at the front of `data`.
pub open spec fn section_length(data: Seq<u8>) -> int
    recommends
        holds_section(data),
{
    12 + declared_length(data)
}

/// The payload of the section at the front of `data`.
pub open spec fn section_payload(data: Seq<u8>) -> Seq<u8>
    recommends
        holds_section(data),
{
    data.subrange(12, section_length(data))
}

/// Peels one configuration entry off the front of `data`, with the number of
/// bytes it took.
pub open spec fn decode_config_entry_prefix(data: Seq<u8>) -> Result<
    (ConfigEntryView, int),
    KeyringProgramError,
> {
    if holds_section(data) {
        Ok(
            (
                ConfigEntryView { key: data.subrange(0, 8), value: section_payload(data) },
                section_length(data),
            ),
        )
    } else {
        Err(KeyringProgramError::InvalidFormatForConfigEntry)
    }
}

/// Reads `data` as exactly one configuration entry.
pub open spec fn decode_config_entry(data: Seq<u8>) -> Result<
    ConfigEntryView,
    KeyringProgramError,
> {
    match decode_config_entry_prefix(data) {
        Ok((e, used)) => if used == data.len() {
            Ok(e)
        } else {
            Err(KeyringProgramError::InvalidFormatForConfigEntry)
        },
        Err(e) => Err(e),
    }
}

/// Reads `data` as a run of configuration entries, until nothing is left.
pub open spec fn decode_config_entries(data: Seq<u8>) -> Result<
    Seq<ConfigEntryView>,
    KeyringProgramError,
>
    decreases data.len(),
{
    if data.len() == 0 {
        Ok(Seq::empty())
    } else {
        match decode_config_entry_prefix(data) {
            Ok((e, used)) => match decode_config_entries(data.skip(used)) {
                Ok(rest) => Ok(seq![e] + rest),
                Err(err) => Err(err),
            },
            Err(err) => Err(err),
        }
    }
}

/// Reads `data` as what closes an entry: the single zero byte that stands for
/// no configuration, or a configuration section that fills `data` exactly.
pub open spec fn decode_optional_config(data: Seq<u8>) -> Result<
    Option<Seq<ConfigEntryView>>,
    KeyringProgramError,
> {
    if data.len() == 1 && data[0] == 0 {
        Ok(None)
    } else if data.len() < 12 || data.subrange(0, 8) != config_tag() || declared_length(data)
        != data.len() - 12 {
        Err(KeyringProgramError::InvalidFormatForConfig)
    } else {
        match decode_config_entries(data.skip(12)) {
            Ok(entries) => Ok(Some(entries)),
            Err(err) => Err(err),
        }
    }
}

/// Peels one key section off the front of `data`, with the number of bytes it
/// took.
pub open spec fn decode_key_prefix(data: Seq<u8>) -> Result<(KeyView, int), KeyringProgramError> {
    if holds_section(data) {
        Ok(
            (
                KeyView { discriminator: data.subrange(0, 8), key: section_payload(data) },
                section_length(data),
            ),
        )
    } else {
        Err(KeyringProgramError::InvalidFormatForKey)
    }
}

/// Reads `data` as exactly one key section.
pub open spec fn decode_key(data: Seq<u8>) -> Result<KeyView, KeyringProgramError> {
    match decode_key_prefix(data) {
        Ok((k, used)) => if used == data.len() {
            Ok(k)
        } else {
            Err(KeyringProgramError::InvalidFormatForKey)
        },
        Err(e) => Err(e),
    }
}

/// Reads `data` as exactly one keystore entry: the entry discriminator, a
/// length that covers all the rest, a key section, and what closes the entry.
#[verifier::opaque]
pub open spec fn decode_entry(data: Seq<u8>) -> Result<EntryView, KeyringProgramError> {
    if data.len() < 12 || data.subrange(0, 8) != entry_tag() || declared_length(data) != data.len()
        - 12 {
        Err(KeyringProgramError::InvalidFormatForEntry)
    } else {
        match decode_key_prefix(data.skip(12)) {
            Ok((key, used)) => match decode_optional_config(data.skip(12).skip(used)) {
                Ok(config) => Ok(EntryView { discriminator: entry_tag(), key, config }),
                Err(err) => Err(err),
            },
            Err(err) => Err(err),
        }
    }
}

/// Peels one keystore entry off the front of `data`, with the number of bytes
/// it took.
pub open spec fn decode_entry_prefix(data: Seq<u8>) -> Result<
    (EntryView, int),
    KeyringProgramError,
> {
    if holds_section(data) {
        match decode_entry(data.take(section_length(data))) {
            Ok(r) => Ok((r, section_length(data))),
            Err(err) => Err(err),
        }
    } else {
        Err(KeyringProgramError::InvalidFormatForEntry)
    }
}

/// Reads `data` as a keystore: entries peeled off the front until nothing is
/// left. The first entry that cannot be read fails the whole buffer.
pub open spec fn decode_keystore(data: Seq<u8>) -> Result<Seq<EntryView>, KeyringProgramError>
    decreases data.len(),
{
    if data.len() == 0 {
        Ok(Seq::empty())
    } else {
        match decode_entry_prefix(data) {
            Ok((r, used)) => match decode_keystore(data.skip(used)) {
                Ok(rest) => Ok(seq![r] + rest),
                Err(err) => Err(err),
            },
            Err(err) => Err(err),
        }
    }
}

} // verus!
