//! Encoding and decoding are inverse to each other, at every level of the
//! format.

use crate::program::error::KeyringProgramError;
use crate::program::format::{
    config_entry_valid, config_tag, declared_length, decode_config_entries, encode_config,
    decode_config_entry_prefix, decode_entry, decode_entry_prefix, decode_key, decode_key_prefix,
    decode_keystore, decode_optional_config, encode_config_entries, encode_config_entry,
    encode_entry, encode_key, encode_keystore, encode_optional_config, entry_payload, entry_tag,
    entry_valid, holds_section, key_valid, keystore_valid, length_bytes, length_value,
    optional_config_valid, section_length, section_payload, tlv, ConfigEntryView, EntryView,
    KeyView, MAX_PAYLOAD_LENGTH,
};
use vstd::prelude::*;

verus! {

/// Joining three runs of bytes does not depend on the grouping.
pub proof fn lemma_concat_assoc(a: Seq<u8>, b: Seq<u8>, c: Seq<u8>)
    ensures
        (a + b) + c == a + (b + c),
{
    assert((a + b) + c =~= a + (b + c));
}

/// Joining a run of bytes with nothing leaves it as it is.
pub proof fn lemma_concat_empty(a: Seq<u8>)
    ensures
        a + Seq::<u8>::empty() == a,
        Seq::<u8>::empty() + a == a,
{
    assert(a + Seq::<u8>::empty() =~= a);
    assert(Seq::<u8>::empty() + a =~= a);
}

/// Both discriminators of the format are eight bytes long.
pub proof fn lemma_tag_lengths()
    ensures
        entry_tag().len() == 8,
        config_tag().len() == 8,
{
}

/// Four length bytes carry every length up to the largest payload exactly.
pub proof fn lemma_length_roundtrip(n: int)
    requires
        0 <= n <= MAX_PAYLOAD_LENGTH,
    ensures
        length_bytes(n).len() == 4,
        length_value(length_bytes(n)) == n,
{
    let q1 = n / 256;
    let q2 = q1 / 256;
    let q3 = q2 / 256;
    assert(n == 256 * q1 + n % 256);
    assert(q1 == 256 * q2 + q1 % 256);
    assert(q2 == 256 * q3 + q2 % 256);
    assert(n / 65536 == q2) by {
        vstd::arithmetic::div_mod::lemma_div_denominator(n, 256, 256);
    }
    assert(n / 16777216 == q3) by {
        vstd::arithmetic::div_mod::lemma_div_denominator(n, 65536, 256);
    }
    assert(0 <= q3 < 256);
    let bytes = length_bytes(n);
    assert(bytes[0] == n % 256);
    assert(bytes[1] == q1 % 256);
    assert(bytes[2] == q2 % 256);
    assert(bytes[3] == q3);
}

/// Four bytes always stand for a length that the format can carry, and that
/// length is written back as the same four bytes.
pub proof fn lemma_length_bytes_of_value(bytes: Seq<u8>)
    requires
        bytes.len() == 4,
    ensures
        0 <= length_value(bytes) <= MAX_PAYLOAD_LENGTH,
        length_bytes(length_value(bytes)) == bytes,
{
    let b0 = bytes[0] as int;
    let b1 = bytes[1] as int;
    let b2 = bytes[2] as int;
    let b3 = bytes[3] as int;
    let v = length_value(bytes);
    let q1 = b1 + 256 * (b2 + 256 * b3);
    let q2 = b2 + 256 * b3;
    assert(v == b0 + 256 * q1);
    assert(v % 256 == b0 && v / 256 == q1);
    assert(q1 % 256 == b1 && q1 / 256 == q2);
    assert(q2 % 256 == b2 && q2 / 256 == b3);
    assert(v / 65536 == q2) by {
        vstd::arithmetic::div_mod::lemma_div_denominator(v, 256, 256);
    }
    assert(v / 16777216 == b3) by {
        vstd::arithmetic::div_mod::lemma_div_denominator(v, 65536, 256);
    }
    assert(length_bytes(v) =~= bytes);
}

/// A triple followed by anything is read back as that triple.
pub proof fn lemma_tlv_then_rest(tag: Seq<u8>, payload: Seq<u8>, rest: Seq<u8>)
    requires
        tag.len() == 8,
        payload.len() <= MAX_PAYLOAD_LENGTH,
    ensures
        tlv(tag, payload).len() == 12 + payload.len(),
        holds_section(tlv(tag, payload) + rest),
        (tlv(tag, payload) + rest).subrange(0, 8) == tag,
        declared_length(tlv(tag, payload) + rest) == payload.len(),
        section_length(tlv(tag, payload) + rest) == 12 + payload.len(),
        section_payload(tlv(tag, payload) + rest) == payload,
        (tlv(tag, payload) + rest).skip(12 + payload.len() as int) == rest,
        (tlv(tag, payload) + rest).take(12 + payload.len() as int) == tlv(tag, payload),
{
    let n = payload.len() as int;
    let d = tlv(tag, payload) + rest;
    lemma_length_roundtrip(n);
    assert(d.subrange(8, 12) =~= length_bytes(n));
    assert(d.subrange(0, 8) =~= tag);
    assert(d.subrange(12, 12 + n) =~= payload);
    assert(d.skip(12 + n) =~= rest);
    assert(d.take(12 + n) =~= tlv(tag, payload));
}

/// A triple alone is read back as that triple.
pub proof fn lemma_tlv_alone(tag: Seq<u8>, payload: Seq<u8>)
    requires
        tag.len() == 8,
        payload.len() <= MAX_PAYLOAD_LENGTH,
    ensures
        tlv(tag, payload).len() == 12 + payload.len(),
        holds_section(tlv(tag, payload)),
        tlv(tag, payload).subrange(0, 8) == tag,
        declared_length(tlv(tag, payload)) == payload.len(),
        section_payload(tlv(tag, payload)) == payload,
        tlv(tag, payload).skip(12) == payload,
{
    lemma_tlv_then_rest(tag, payload, Seq::empty());
    assert(tlv(tag, payload) + Seq::<u8>::empty() =~= tlv(tag, payload));
    assert(tlv(tag, payload).skip(12) =~= payload) by {
        lemma_length_roundtrip(payload.len() as int);
    }
}

/// The section at the front of a buffer is the triple of its discriminator
/// and its payload.
pub proof fn lemma_section_is_tlv(data: Seq<u8>)
    requires
        holds_section(data),
    ensures
        section_payload(data).len() == declared_length(data),
        0 <= declared_length(data) <= MAX_PAYLOAD_LENGTH,
        data.take(section_length(data)) == tlv(data.subrange(0, 8), section_payload(data)),
{
    lemma_length_bytes_of_value(data.subrange(8, 12));
    assert(data.take(section_length(data)) =~= tlv(data.subrange(0, 8), section_payload(data)));
}

/// The bytes of a run of entries followed by one more entry.
pub proof fn lemma_encode_config_entries_push(entries: Seq<ConfigEntryView>, e: ConfigEntryView)
    ensures
        encode_config_entries(entries.push(e)) == encode_config_entries(entries)
            + encode_config_entry(e),
    decreases entries.len(),
{
    let one = encode_config_entry(e);
    let none = Seq::<ConfigEntryView>::empty();
    assert(encode_config_entries(none) == Seq::<u8>::empty());
    if entries.len() == 0 {
        assert(entries.push(e).skip(1) =~= none);
        assert(entries.push(e)[0] == e);
        assert(encode_config_entries(entries.push(e)) == one + Seq::<u8>::empty());
        lemma_concat_empty(one);
    } else {
        let head = encode_config_entry(entries[0]);
        let tail = encode_config_entries(entries.skip(1));
        assert(entries.push(e).skip(1) =~= entries.skip(1).push(e));
        assert(entries.push(e)[0] == entries[0]);
        lemma_encode_config_entries_push(entries.skip(1), e);
        assert(encode_config_entries(entries.push(e)) == head + (tail + one));
        lemma_concat_assoc(head, tail, one);
    }
}

/// The bytes of two runs of configuration entries joined are the bytes of
/// the first followed by the bytes of the second.
pub proof fn lemma_encode_config_entries_concat(a: Seq<ConfigEntryView>, b: Seq<ConfigEntryView>)
    ensures
        encode_config_entries(a + b) == encode_config_entries(a) + encode_config_entries(b),
    decreases a.len(),
{
    if a.len() == 0 {
        assert(a + b =~= b);
        lemma_concat_empty(encode_config_entries(b));
    } else {
        let head = encode_config_entry(a[0]);
        assert((a + b).skip(1) =~= a.skip(1) + b);
        assert((a + b)[0] == a[0]);
        lemma_encode_config_entries_concat(a.skip(1), b);
        lemma_concat_assoc(head, encode_config_entries(a.skip(1)), encode_config_entries(b));
    }
}

/// The bytes of the first `n` configuration entries, and of one more, are
/// never longer than the bytes of all of them.
pub proof fn lemma_encode_config_entries_take(entries: Seq<ConfigEntryView>, n: int)
    requires
        0 <= n < entries.len(),
    ensures
        encode_config_entries(entries.take(n + 1)) == encode_config_entries(entries.take(n))
            + encode_config_entry(entries[n]),
        encode_config_entries(entries.take(n + 1)).len() <= encode_config_entries(entries).len(),
{
    assert(entries.take(n + 1) =~= entries.take(n).push(entries[n]));
    lemma_encode_config_entries_push(entries.take(n), entries[n]);
    assert(entries =~= entries.take(n + 1) + entries.skip(n + 1));
    lemma_encode_config_entries_concat(entries.take(n + 1), entries.skip(n + 1));
}

/// A run of valid configuration entries is read back from its bytes.
pub proof fn lemma_config_entries_roundtrip(entries: Seq<ConfigEntryView>)
    requires
        forall|i: int| 0 <= i < entries.len() ==> config_entry_valid(#[trigger] entries[i]),
    ensures
        decode_config_entries(encode_config_entries(entries)) == Ok::<
            Seq<ConfigEntryView>,
            KeyringProgramError,
        >(entries),
    decreases entries.len(),
{
    if entries.len() == 0 {
        assert(entries =~= Seq::<ConfigEntryView>::empty());
    } else {
        let e = entries[0];
        let rest = entries.skip(1);
        assert(config_entry_valid(e));
        assert forall|i: int| 0 <= i < rest.len() implies config_entry_valid(
            #[trigger] rest[i],
        ) by {
            assert(rest[i] == entries[i + 1]);
        }
        lemma_tlv_then_rest(e.key, e.value, encode_config_entries(rest));
        lemma_config_entries_roundtrip(rest);
        assert(seq![e] + rest =~= entries);
    }
}

/// Whatever is read as a run of configuration entries is valid, and its bytes
/// are the buffer it was read from.
pub proof fn lemma_config_entries_decoded(data: Seq<u8>)
    requires
        decode_config_entries(data) is Ok,
    ensures
        forall|i: int|
            0 <= i < decode_config_entries(data)->Ok_0.len() ==> config_entry_valid(
                #[trigger] decode_config_entries(data)->Ok_0[i],
            ),
        encode_config_entries(decode_config_entries(data)->Ok_0) == data,
    decreases data.len(),
{
    let entries = decode_config_entries(data)->Ok_0;
    if data.len() == 0 {
        assert(encode_config_entries(entries) =~= data);
    } else {
        let (e, used) = decode_config_entry_prefix(data)->Ok_0;
        let tail = decode_config_entries(data.skip(used))->Ok_0;
        lemma_section_is_tlv(data);
        lemma_config_entries_decoded(data.skip(used));
        assert(entries == seq![e] + tail);
        assert(entries.skip(1) =~= tail);
        assert(entries[0] == e);
        assert(data =~= data.take(used) + data.skip(used));
        assert forall|i: int| 0 <= i < entries.len() implies config_entry_valid(
            #[trigger] entries[i],
        ) by {
            if i > 0 {
                assert(entries[i] == tail[i - 1]);
            }
        }
    }
}

/// A valid configuration section, or its absence, is read back from the
/// bytes that close an entry.
pub proof fn lemma_optional_config_roundtrip(config: Option<Seq<ConfigEntryView>>)
    requires
        optional_config_valid(config),
    ensures
        decode_optional_config(encode_optional_config(config)) == Ok::<
            Option<Seq<ConfigEntryView>>,
            KeyringProgramError,
        >(config),
{
    match config {
        Some(entries) => {
            lemma_tag_lengths();
            lemma_tlv_alone(config_tag(), encode_config_entries(entries));
            lemma_config_entries_roundtrip(entries);
        },
        None => {},
    }
}

/// Whatever is read from the bytes that close an entry is valid, and its
/// bytes are the buffer it was read from.
pub proof fn lemma_optional_config_decoded(data: Seq<u8>)
    requires
        decode_optional_config(data) is Ok,
    ensures
        optional_config_valid(decode_optional_config(data)->Ok_0),
        encode_optional_config(decode_optional_config(data)->Ok_0) == data,
{
    if data.len() == 1 && data[0] == 0 {
        assert(data =~= seq![0u8]);
    } else {
        lemma_section_is_tlv(data);
        lemma_config_entries_decoded(data.skip(12));
        assert(data.take(data.len() as int) =~= data);
        assert(section_payload(data) =~= data.skip(12));
    }
}

/// A valid key section is read back from its bytes, whatever follows them.
pub proof fn lemma_key_roundtrip(k: KeyView, rest: Seq<u8>)
    requires
        key_valid(k),
    ensures
        decode_key_prefix(encode_key(k) + rest) == Ok::<(KeyView, int), KeyringProgramError>(
            (k, encode_key(k).len() as int),
        ),
        decode_key(encode_key(k)) == Ok::<KeyView, KeyringProgramError>(k),
{
    lemma_tlv_then_rest(k.discriminator, k.key, rest);
    lemma_tlv_alone(k.discriminator, k.key);
}

/// Whatever is peeled off as a key section is valid, and its bytes are the
/// front of the buffer it was read from.
pub proof fn lemma_key_decoded(data: Seq<u8>)
    requires
        decode_key_prefix(data) is Ok,
    ensures
        key_valid(decode_key_prefix(data)->Ok_0.0),
        12 <= decode_key_prefix(data)->Ok_0.1 <= data.len(),
        encode_key(decode_key_prefix(data)->Ok_0.0) == data.take(decode_key_prefix(data)->Ok_0.1),
{
    lemma_section_is_tlv(data);
}

/// Round trip of one entry: a valid entry is read back from its bytes.
pub proof fn lemma_entry_roundtrip(r: EntryView)
    requires
        entry_valid(r),
    ensures
        decode_entry(encode_entry(r)) == Ok::<EntryView, KeyringProgramError>(r),
{
    reveal(encode_entry);
    reveal(decode_entry);
    let closing = encode_optional_config(r.config);
    lemma_tag_lengths();
    lemma_tlv_alone(r.discriminator, entry_payload(r));
    lemma_key_roundtrip(r.key, closing);
    lemma_tlv_then_rest(r.key.discriminator, r.key.key, closing);
    lemma_optional_config_roundtrip(r.config);
    let data = encode_entry(r);
    assert(data.skip(12) == entry_payload(r));
    assert(data.skip(12).skip(encode_key(r.key).len() as int) == closing);
}

/// Whatever is read as one entry is valid, and its bytes are the buffer it
/// was read from: no two buffers are read as the same entry.
pub proof fn lemma_entry_decoded(data: Seq<u8>)
    requires
        decode_entry(data) is Ok,
    ensures
        entry_valid(decode_entry(data)->Ok_0),
        encode_entry(decode_entry(data)->Ok_0) == data,
{
    reveal(encode_entry);
    reveal(decode_entry);
    let r = decode_entry(data)->Ok_0;
    let body = data.skip(12);
    let (key, used) = decode_key_prefix(body)->Ok_0;
    lemma_tag_lengths();
    lemma_section_is_tlv(data);
    lemma_key_decoded(body);
    lemma_optional_config_decoded(body.skip(used));
    assert(body =~= body.take(used) + body.skip(used));
    assert(entry_payload(r) == body);
    assert(section_payload(data) =~= body);
    assert(data.take(data.len() as int) =~= data);
}

/// A valid entry is peeled off the front of any buffer that starts with its
/// bytes.
pub proof fn lemma_entry_prefix_roundtrip(r: EntryView, rest: Seq<u8>)
    requires
        entry_valid(r),
    ensures
        decode_entry_prefix(encode_entry(r) + rest) == Ok::<(EntryView, int), KeyringProgramError>(
            (r, encode_entry(r).len() as int),
        ),
        encode_entry(r).len() >= 12,
        (encode_entry(r) + rest).skip(encode_entry(r).len() as int) == rest,
{
    reveal(encode_entry);
    lemma_tag_lengths();
    lemma_tlv_then_rest(r.discriminator, entry_payload(r), rest);
    lemma_entry_roundtrip(r);
}

/// Whatever is peeled off as an entry is valid, and its bytes are the front
/// of the buffer it was read from.
pub proof fn lemma_entry_prefix_decoded(data: Seq<u8>)
    requires
        decode_entry_prefix(data) is Ok,
    ensures
        entry_valid(decode_entry_prefix(data)->Ok_0.0),
        12 <= decode_entry_prefix(data)->Ok_0.1 <= data.len(),
        encode_entry(decode_entry_prefix(data)->Ok_0.0) == data.take(
            decode_entry_prefix(data)->Ok_0.1,
        ),
{
    lemma_section_is_tlv(data);
    lemma_entry_decoded(data.take(section_length(data)));
}

/// The bytes of a keystore followed by one more entry.
pub proof fn lemma_encode_keystore_push(entries: Seq<EntryView>, r: EntryView)
    ensures
        encode_keystore(entries.push(r)) == encode_keystore(entries) + encode_entry(r),
    decreases entries.len(),
{
    let one = encode_entry(r);
    let none = Seq::<EntryView>::empty();
    assert(encode_keystore(none) == Seq::<u8>::empty());
    if entries.len() == 0 {
        assert(entries.push(r).skip(1) =~= none);
        assert(entries.push(r)[0] == r);
        assert(encode_keystore(entries.push(r)) == one + Seq::<u8>::empty());
        lemma_concat_empty(one);
    } else {
        let head = encode_entry(entries[0]);
        let tail = encode_keystore(entries.skip(1));
        assert(entries.push(r).skip(1) =~= entries.skip(1).push(r));
        assert(entries.push(r)[0] == entries[0]);
        lemma_encode_keystore_push(entries.skip(1), r);
        assert(encode_keystore(entries.push(r)) == head + (tail + one));
        lemma_concat_assoc(head, tail, one);
    }
}

/// The bytes of two keystores joined are the bytes of the first followed by
/// the bytes of the second.
pub proof fn lemma_encode_keystore_concat(a: Seq<EntryView>, b: Seq<EntryView>)
    ensures
        encode_keystore(a + b) == encode_keystore(a) + encode_keystore(b),
    decreases a.len(),
{
    if a.len() == 0 {
        assert(a + b =~= b);
        lemma_concat_empty(encode_keystore(b));
    } else {
        let head = encode_entry(a[0]);
        assert((a + b).skip(1) =~= a.skip(1) + b);
        assert((a + b)[0] == a[0]);
        lemma_encode_keystore_concat(a.skip(1), b);
        lemma_concat_assoc(head, encode_keystore(a.skip(1)), encode_keystore(b));
    }
}

/// The bytes of the first `n` entries of a keystore, and of one more, are
/// never longer than the bytes of all of them.
pub proof fn lemma_encode_keystore_take(entries: Seq<EntryView>, n: int)
    requires
        0 <= n < entries.len(),
    ensures
        encode_keystore(entries.take(n + 1)) == encode_keystore(entries.take(n)) + encode_entry(
            entries[n],
        ),
        encode_keystore(entries.take(n + 1)).len() <= encode_keystore(entries).len(),
{
    assert(entries.take(n + 1) =~= entries.take(n).push(entries[n]));
    lemma_encode_keystore_push(entries.take(n), entries[n]);
    assert(entries =~= entries.take(n + 1) + entries.skip(n + 1));
    lemma_encode_keystore_concat(entries.take(n + 1), entries.skip(n + 1));
}

/// Round trip of a keystore: a keystore of valid entries is read back from
/// its bytes.
pub proof fn lemma_keystore_roundtrip(entries: Seq<EntryView>)
    requires
        keystore_valid(entries),
    ensures
        decode_keystore(encode_keystore(entries)) == Ok::<Seq<EntryView>, KeyringProgramError>(
            entries,
        ),
    decreases entries.len(),
{
    if entries.len() == 0 {
        assert(entries =~= Seq::<EntryView>::empty());
    } else {
        let r = entries[0];
        let rest = entries.skip(1);
        assert(entry_valid(r));
        assert forall|i: int| 0 <= i < rest.len() implies entry_valid(#[trigger] rest[i]) by {
            assert(rest[i] == entries[i + 1]);
        }
        lemma_entry_prefix_roundtrip(r, encode_keystore(rest));
        lemma_keystore_roundtrip(rest);
        assert(seq![r] + rest =~= entries);
    }
}

/// Whatever is read as a keystore holds valid entries only, and its bytes are
/// the buffer it was read from.
pub proof fn lemma_keystore_decoded(data: Seq<u8>)
    requires
        decode_keystore(data) is Ok,
    ensures
        keystore_valid(decode_keystore(data)->Ok_0),
        encode_keystore(decode_keystore(data)->Ok_0) == data,
    decreases data.len(),
{
    let entries = decode_keystore(data)->Ok_0;
    if data.len() == 0 {
        assert(encode_keystore(entries) =~= data);
    } else {
        let (r, used) = decode_entry_prefix(data)->Ok_0;
        let tail = decode_keystore(data.skip(used))->Ok_0;
        lemma_entry_prefix_decoded(data);
        lemma_keystore_decoded(data.skip(used));
        assert(entries == seq![r] + tail);
        assert(entries.skip(1) =~= tail);
        assert(entries[0] == r);
        assert(data =~= data.take(used) + data.skip(used));
        assert forall|i: int| 0 <= i < entries.len() implies entry_valid(#[trigger] entries[i]) by {
            if i > 0 {
                assert(entries[i] == tail[i - 1]);
            }
        }
    }
}

/// An entry without configuration closes with exactly one zero byte after its
/// key section. An entry whose configuration section is there but holds no
/// entry closes with the twelve bytes of that section's header, with length
/// zero. The two are never packed into the same bytes, and each is read back
/// as what it was.
pub proof fn lemma_absent_config_is_not_empty_config(absent: EntryView, empty: EntryView)
    requires
        entry_valid(absent),
        entry_valid(empty),
        absent.config is None,
        empty.config == Some(Seq::<ConfigEntryView>::empty()),
        absent.key == empty.key,
    ensures
        entry_payload(absent) == encode_key(absent.key) + seq![0u8],
        entry_payload(empty) == encode_key(empty.key) + (config_tag() + seq![0u8, 0u8, 0u8, 0u8]),
        encode_entry(absent).len() == 12 + encode_key(absent.key).len() + 1,
        encode_entry(empty).len() == 12 + encode_key(empty.key).len() + 12,
        encode_entry(absent) != encode_entry(empty),
        decode_entry(encode_entry(absent)) == Ok::<EntryView, KeyringProgramError>(absent),
        decode_entry(encode_entry(empty)) == Ok::<EntryView, KeyringProgramError>(empty),
{
    reveal(encode_entry);
    lemma_tag_lengths();
    let none = Seq::<ConfigEntryView>::empty();
    assert(encode_config_entries(none) == Seq::<u8>::empty());
    assert(length_bytes(0) =~= seq![0u8, 0u8, 0u8, 0u8]);
    assert(encode_config(none) =~= config_tag() + seq![0u8, 0u8, 0u8, 0u8]);
    lemma_tlv_alone(absent.discriminator, entry_payload(absent));
    lemma_tlv_alone(empty.discriminator, entry_payload(empty));
    lemma_entry_roundtrip(absent);
    lemma_entry_roundtrip(empty);
}

} // verus!
