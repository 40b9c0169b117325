//! Reading and writing the pieces that every section is made of.

use crate::program::format::{
    declared_length, holds_section, length_bytes, length_value, section_length, tlv,
    MAX_PAYLOAD_LENGTH,
};
use vstd::prelude::*;
use vstd::slice::slice_subrange;

verus! {

/// Appends `src` to `out`.
pub fn append_bytes(out: &mut Vec<u8>, src: &[u8])
    ensures
        final(out)@ == old(out)@ + src@,
{
    let ghost before = out@;
    let mut i: usize = 0;
    while i < src.len()
        invariant
            i <= src@.len(),
            out@ == before + src@.take(i as int),
        decreases src@.len() - i,
    {
        out.push(src[i]);
        i += 1;
        assert(out@ =~= before + src@.take(i as int));
    }
    assert(src@.take(src@.len() as int) =~= src@);
}

/// Copies `src` into a vector of its own.
pub fn copy_bytes(src: &[u8]) -> (out: Vec<u8>)
    ensures
        out@ == src@,
{
    let mut out: Vec<u8> = Vec::new();
    append_bytes(&mut out, src);
    assert(out@ =~= src@);
    out
}

/// Copies the eight bytes at the front of `src` into an array.
pub fn copy_discriminator(src: &[u8]) -> (out: [u8; 8])
    requires
        src@.len() >= 8,
    ensures
        out@ == src@.subrange(0, 8),
{
    let out: [u8; 8] = [src[0], src[1], src[2], src[3], src[4], src[5], src[6], src[7]];
    assert(out@ =~= src@.subrange(0, 8));
    out
}

/// Whether two runs of bytes are the same.
pub fn same_bytes(a: &[u8], b: &[u8]) -> (same: bool)
    ensures
        same == (a@ == b@),
{
    if a.len() != b.len() {
        return false;
    }
    let mut i: usize = 0;
    while i < a.len()
        invariant
            a@.len() == b@.len(),
            i <= a@.len(),
            forall|j: int| 0 <= j < i ==> a@[j] == b@[j],
        decreases a@.len() - i,
    {
        if a[i] != b[i] {
            return false;
        }
        i += 1;
    }
    assert(a@ =~= b@);
    true
}

/// Whether `data` opens with the discriminator `tag`.
pub fn starts_with_discriminator(data: &[u8], tag: &[u8; 8]) -> (found: bool)
    ensures
        found == (data@.len() >= 8 && data@.subrange(0, 8) == tag@),
{
    if data.len() < 8 {
        return false;
    }
    let mut i: usize = 0;
    while i < 8
        invariant
            data@.len() >= 8,
            i <= 8,
            forall|j: int| 0 <= j < i ==> data@[j] == tag@[j],
        decreases 8 - i,
    {
        if data[i] != tag[i] {
            assert(data@.subrange(0, 8)[i as int] == data@[i as int]);
            return false;
        }
        i += 1;
    }
    assert(data@.subrange(0, 8) =~= tag@);
    true
}

/// Appends the four little-endian bytes of `n` to `out`.
pub fn append_length(out: &mut Vec<u8>, n: u32)
    ensures
        final(out)@ == old(out)@ + length_bytes(n as int),
{
    let ghost before = out@;
    out.push((n % 256) as u8);
    out.push(((n / 256) % 256) as u8);
    out.push(((n / 65536) % 256) as u8);
    out.push(((n / 16777216) % 256) as u8);
    assert(out@ =~= before + length_bytes(n as int));
}

/// Reads the length that the header at the front of `data` declares.
pub fn read_length(data: &[u8]) -> (n: u32)
    requires
        data@.len() >= 12,
    ensures
        n == declared_length(data@),
{
    let b0: u32 = data[8] as u32;
    let b1: u32 = data[9] as u32;
    let b2: u32 = data[10] as u32;
    let b3: u32 = data[11] as u32;
    assert(declared_length(data@) == length_value(data@.subrange(8, 12)));
    assert(data@.subrange(8, 12)[0] == data@[8]);
    assert(data@.subrange(8, 12)[1] == data@[9]);
    assert(data@.subrange(8, 12)[2] == data@[10]);
    assert(data@.subrange(8, 12)[3] == data@[11]);
    b0 + b1 * 256 + b2 * 65536 + b3 * 16777216
}

/// Appends one type-length-value triple to `out`.
pub fn append_section(out: &mut Vec<u8>, tag: &[u8; 8], payload: &[u8])
    requires
        payload@.len() <= MAX_PAYLOAD_LENGTH,
    ensures
        final(out)@ == old(out)@ + tlv(tag@, payload@),
{
    let ghost before = out@;
    append_bytes(out, tag.as_slice());
    append_length(out, payload.len() as u32);
    append_bytes(out, payload);
    assert(out@ =~= before + tlv(tag@, payload@));
}

/// The number of bytes of the section at the front of `data`, if `data`
/// opens with a complete header and holds the payload that it declares.
pub fn section_at_front(data: &[u8]) -> (total: Option<usize>)
    ensures
        total is Some <==> holds_section(data@),
        total is Some ==> total->Some_0 == section_length(data@),
{
    if data.len() < 12 {
        return None;
    }
    let declared: u32 = read_length(data);
    if declared as usize > data.len() - 12 {
        return None;
    }
    Some(12 + declared as usize)
}

/// The part of `data` from `from` to its end.
pub fn tail_from(data: &[u8], from: usize) -> (out: &[u8])
    requires
        from <= data@.len(),
    ensures
        out@ == data@.skip(from as int),
{
    let out = slice_subrange(data, from, data.len());
    assert(out@ =~= data@.skip(from as int));
    out
}

/// The first `upto` bytes of `data`.
pub fn front_upto(data: &[u8], upto: usize) -> (out: &[u8])
    requires
        upto <= data@.len(),
    ensures
        out@ == data@.take(upto as int),
{
    let out = slice_subrange(data, 0, upto);
    assert(out@ =~= data@.take(upto as int));
    out
}

/// Copies `src`, which holds as many bytes as the array, into an array.
pub fn copy_into_array<const N: usize>(src: &[u8]) -> (out: [u8; N])
    requires
        src@.len() == N,
    ensures
        out@ == src@,
{
    let mut out: [u8; N] = [0u8; N];
    let mut i: usize = 0;
    while i < N
        invariant
            src@.len() == N,
            i <= N,
            forall|j: int| 0 <= j < i ==> out@[j] == src@[j],
        decreases N - i,
    {
        out[i] = src[i];
        i += 1;
    }
    assert(out@ =~= src@);
    out
}

} // verus!
