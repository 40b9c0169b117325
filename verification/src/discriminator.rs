//! Eight-byte type tags derived from domain strings.

use vstd::prelude::*;

verus! {

/// The discriminator that `spl_discriminator` derives from a hash input: the
/// first eight bytes of the SHA-256 digest of the string's UTF-8 bytes.
pub uninterp spec fn hash_input_discriminator(hash_input: Seq<char>) -> [u8; 8];

/// Calls `spl_discriminator::ArrayDiscriminator::new_with_hash_input` and
/// unwraps the array it holds. The contract only names the digest prefix; it
/// claims that equal strings give equal discriminators and nothing else.
#[verifier::external_body]
fn new_with_hash_input(hash_input: &str) -> (out: [u8; 8])
    ensures
        out == hash_input_discriminator(hash_input@),
{
    spl_discriminator::ArrayDiscriminator::new_with_hash_input(hash_input).into()
}

/// Derives the discriminator of a domain string.
pub fn derive(domain: &str) -> (tag: [u8; 8])
    ensures
        tag == hash_input_discriminator(domain@),
{
    new_with_hash_input(domain)
}

/// Whether two discriminators hold the same bytes.
pub fn same_discriminator(a: &[u8; 8], b: &[u8; 8]) -> (same: bool)
    ensures
        same == (a@ == b@),
{
    let mut i: usize = 0;
    while i < 8
        invariant
            i <= 8,
            forall|j: int| 0 <= j < i ==> a@[j] == b@[j],
        decreases 8 - i,
    {
        if a[i] != b[i] {
            return false;
        }
        i += 1;
    }
    assert(a@ =~= b@);
    true
}

} // verus!
