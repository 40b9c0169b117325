//! The keyring program: byte format, keystore mutations, instructions.

use vstd::prelude::*;

pub mod bytes;
pub mod error;
pub mod format;
pub mod instruction;
pub mod processor;
pub mod roundtrip;
pub mod state;
pub mod tlv;

verus! {

/// The address of the keyring program, as plain data:
/// `4UucrowYQqM6yHeRgoMW2HB2998W9cnVS6tx6nPMdpVn` in base 58.
pub open spec fn program_address() -> Seq<u8> {
    seq![
        51u8, 185u8, 60u8, 255u8, 143u8, 13u8, 132u8, 114u8, 197u8, 153u8, 192u8, 46u8, 53u8, 85u8,
        182u8, 112u8, 52u8, 254u8, 178u8, 178u8, 90u8, 134u8, 220u8, 250u8, 193u8, 221u8, 223u8,
        83u8, 96u8, 64u8, 109u8, 129u8,
    ]
}

/// The address of the keyring program.
pub fn id() -> (address: [u8; 32])
    ensures
        address@ == program_address(),
{
    let address: [u8; 32] = [
        51, 185, 60, 255, 143, 13, 132, 114, 197, 153, 192, 46, 53, 85, 182, 112, 52, 254, 178, 178,
        90, 134, 220, 250, 193, 221, 223, 83, 96, 64, 109, 129,
    ];
    assert(address@ =~= program_address());
    address
}

} // verus!
