use vstd::prelude::*;

verus! {

/// 2^256: one more than the largest value a [`U256`] can hold.
pub open spec fn u256_bound() -> nat {
    115792089237316195423570985008687907853269984665640564039457584007913129639936nat
}

/// 2^64: one more than the largest value a [`u64`] can hold.
pub open spec fn u64_bound() -> nat {
    18446744073709551616nat
}

/// The number that four little-endian 64-bit limbs stand for.
pub open spec fn limbs_value(l0: u64, l1: u64, l2: u64, l3: u64) -> nat {
    (l0 + l1 * 18446744073709551616nat + l2 * 340282366920938463463374607431768211456nat
        + l3 * 6277101735386680763835789423207666416102355444464034512896nat) as nat
}

/// An unsigned 256-bit integer, held as four 64-bit limbs with the least
/// significant limb first (the layout of the Ethereum `U256` type).
#[derive(Clone, Copy, Debug, PartialEq, Eq)]
pub struct U256(pub [u64; 4]);

impl View for U256 {
    type V = nat;

    open spec fn view(&self) -> nat {
        limbs_value(self.0[0], self.0[1], self.0[2], self.0[3])
    }
}

impl U256 {
    /// The value zero.
    pub fn zero() -> (r: Self)
        ensures
            r@ == 0,
    {
        U256([0u64, 0u64, 0u64, 0u64])
    }

    /// The value of a `u64`.
    pub fn from_u64(v: u64) -> (r: Self)
        ensures
            r@ == v,
    {
        U256([v, 0u64, 0u64, 0u64])
    }

    /// Every value is below 2^256.
    pub proof fn lemma_bounded(self)
        ensures
            self@ < u256_bound(),
    {
    }

    /// Numeric comparison `self < other`.
    pub fn is_less_than(&self, other: &Self) -> (r: bool)
        ensures
            r == (self@ < other@),
    {
        let a = self.0;
        let b = other.0;
        if a[3] != b[3] {
            a[3] < b[3]
        } else if a[2] != b[2] {
            a[2] < b[2]
        } else if a[1] != b[1] {
            a[1] < b[1]
        } else {
            a[0] < b[0]
        }
    }

    /// Numeric equality `self == other`.
    pub fn is_equal(&self, other: &Self) -> (r: bool)
        ensures
            r == (self@ == other@),
    {
        let a = self.0;
        let b = other.0;
        if a[3] != b[3] {
            false
        } else if a[2] != b[2] {
            false
        } else if a[1] != b[1] {
            false
        } else {
            a[0] == b[0]
        }
    }
}

} // verus!
