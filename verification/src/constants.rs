//! Where the counterpart venue's pool factory lives on the main chain.

use vstd::prelude::*;
use crate::primitives::Address;

verus! {

/// Block in which the pool factory was deployed.
pub const FACTORY_DEPLOYMENT_BLOCK: u64 = 14650730;

/// The bytes of the pool factory's address,
/// `0xb16c1342e617a5b6e4b631eb114483fdb289c0a4`.
pub open spec fn factory_address_bytes() -> Seq<u8> {
    seq![
        0xb1u8, 0x6c, 0x13, 0x42, 0xe6, 0x17, 0xa5, 0xb6, 0xe4, 0xb6,
        0x31, 0xeb, 0x11, 0x44, 0x83, 0xfd, 0xb2, 0x89, 0xc0, 0xa4,
    ]
}

/// Address of the pool factory.
pub fn lssvm_pair_factory_address() -> (address: Address)
    ensures
        address.bytes@ == factory_address_bytes(),
{
    let address = Address {
        bytes: [
            0xb1, 0x6c, 0x13, 0x42, 0xe6, 0x17, 0xa5, 0xb6, 0xe4, 0xb6,
            0x31, 0xeb, 0x11, 0x44, 0x83, 0xfd, 0xb2, 0x89, 0xc0, 0xa4,
        ],
    };
    assert(address.bytes@ =~= factory_address_bytes());
    address
}

} // verus!
