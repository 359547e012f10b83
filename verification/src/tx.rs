use vstd::prelude::*;
use crate::bytes::bytes_eq;
use crate::uint::U256;

verus! {

/// A 20-byte account address.
pub type Address = [u8; 20];

/// A 32-byte transaction hash.
pub type TxHash = [u8; 32];

/// The all-zero address, which stands for "no recipient" (contract creation).
pub open spec fn zero_address_bytes() -> Seq<u8> {
    Seq::new(20, |i: int| 0u8)
}

/// The all-zero address.
pub fn zero_address() -> (r: Address)
    ensures
        r@ == zero_address_bytes(),
{
    let r = [0u8; 20];
    assert(r@ =~= zero_address_bytes());
    r
}

/// Equality of two addresses.
pub fn address_eq(a: &Address, b: &Address) -> (r: bool)
    ensures
        r == (a@ == b@),
{
    bytes_eq(a.as_slice(), b.as_slice())
}

/// The fields of a pending transaction that the filters read.
pub struct Transaction {
    pub hash: TxHash,
    pub from: Address,
    /// `None` for a contract creation.
    pub to: Option<Address>,
    pub value: U256,
    pub nonce: U256,
    pub gas_price: Option<U256>,
    pub max_priority_fee_per_gas: Option<U256>,
    pub max_fee_per_gas: Option<U256>,
    /// The calldata.
    pub input: Vec<u8>,
}

} // verus!
