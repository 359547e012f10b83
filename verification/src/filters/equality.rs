use vstd::prelude::*;
use crate::tx::{address_eq, zero_address, zero_address_bytes, Address, Transaction};
use crate::uint::U256;

verus! {

/// Whether an optional numeric field is present and equal to `value`.
pub open spec fn option_equals(field: Option<U256>, value: nat) -> bool {
    match field {
        Some(v) => v@ == value,
        None => false,
    }
}

fn option_field_equals(field: &Option<U256>, value: &U256) -> (r: bool)
    ensures
        r == option_equals(*field, value@),
{
    match field {
        Some(v) => v.is_equal(value),
        None => false,
    }
}

/// Accepts transactions sent to one address; a contract creation counts as
/// sent to the zero address.
pub struct ToFilter {
    pub value: Address,
}

impl ToFilter {
    pub fn new(value: Address) -> (r: Self)
        ensures
            r.value == value,
    {
        Self { value }
    }

    pub open spec fn matches(&self, o: &Transaction) -> bool {
        match o.to {
            Some(addr) => addr@ == self.value@,
            None => self.value@ == zero_address_bytes(),
        }
    }

    pub fn apply(&self, o: &Transaction) -> (r: bool)
        ensures
            r == self.matches(o),
            r == (match o.to {
                Some(a) => a@ == self.value@,
                None => self.value@ == zero_address_bytes(),
            }),
    {
        match &o.to {
            Some(addr) => address_eq(addr, &self.value),
            None => {
                let zero = zero_address();
                address_eq(&self.value, &zero)
            },
        }
    }
}

/// Accepts transactions sent from one address.
pub struct FromFilter {
    pub value: Address,
}

impl FromFilter {
    pub fn new(value: Address) -> (r: Self)
        ensures
            r.value == value,
    {
        Self { value }
    }

    pub open spec fn matches(&self, o: &Transaction) -> bool {
        o.from@ == self.value@
    }

    pub fn apply(&self, o: &Transaction) -> (r: bool)
        ensures
            r == self.matches(o),
            r == (o.from@ == self.value@),
    {
        address_eq(&o.from, &self.value)
    }
}

/// Accepts transactions with one nonce.
pub struct NonceFilter {
    pub value: U256,
}

impl NonceFilter {
    pub fn new(value: U256) -> (r: Self)
        ensures
            r.value == value,
    {
        Self { value }
    }

    pub open spec fn matches(&self, o: &Transaction) -> bool {
        o.nonce@ == self.value@
    }

    pub fn apply(&self, o: &Transaction) -> (r: bool)
        ensures
            r == self.matches(o),
            r == (o.nonce@ == self.value@),
    {
        o.nonce.is_equal(&self.value)
    }
}

/// Accepts transactions that transfer exactly one amount of wei.
pub struct ValueFilter {
    pub value: U256,
}

impl ValueFilter {
    pub fn new(value: U256) -> (r: Self)
        ensures
            r.value == value,
    {
        Self { value }
    }

    pub open spec fn matches(&self, o: &Transaction) -> bool {
        o.value@ == self.value@
    }

    pub fn apply(&self, o: &Transaction) -> (r: bool)
        ensures
            r == self.matches(o),
            r == (o.value@ == self.value@),
    {
        o.value.is_equal(&self.value)
    }
}

/// Accepts transactions whose priority fee (tip) is present and equal to a
/// value.
pub struct TipFilter {
    pub value: U256,
}

impl TipFilter {
    pub fn new(value: U256) -> (r: Self)
        ensures
            r.value == value,
    {
        Self { value }
    }

    pub open spec fn matches(&self, o: &Transaction) -> bool {
        option_equals(o.max_priority_fee_per_gas, self.value@)
    }

    pub fn apply(&self, o: &Transaction) -> (r: bool)
        ensures
            r == self.matches(o),
            r == (o.max_priority_fee_per_gas matches Some(x) && x@ == self.value@),
    {
        option_field_equals(&o.max_priority_fee_per_gas, &self.value)
    }
}

/// Accepts transactions whose gas price is present and equal to a value.
pub struct GasPriceFilter {
    pub value: U256,
}

impl GasPriceFilter {
    pub fn new(value: U256) -> (r: Self)
        ensures
            r.value == value,
    {
        Self { value }
    }

    pub open spec fn matches(&self, o: &Transaction) -> bool {
        option_equals(o.gas_price, self.value@)
    }

    pub fn apply(&self, o: &Transaction) -> (r: bool)
        ensures
            r == self.matches(o),
            r == (o.gas_price matches Some(x) && x@ == self.value@),
    {
        option_field_equals(&o.gas_price, &self.value)
    }
}

/// Accepts transactions whose fee cap is present and equal to a value.
pub struct MaxFeeFilter {
    pub value: U256,
}

impl MaxFeeFilter {
    pub fn new(value: U256) -> (r: Self)
        ensures
            r.value == value,
    {
        Self { value }
    }

    pub open spec fn matches(&self, o: &Transaction) -> bool {
        option_equals(o.max_fee_per_gas, self.value@)
    }

    pub fn apply(&self, o: &Transaction) -> (r: bool)
        ensures
            r == self.matches(o),
            r == (o.max_fee_per_gas matches Some(x) && x@ == self.value@),
    {
        option_field_equals(&o.max_fee_per_gas, &self.value)
    }
}

} // verus!
