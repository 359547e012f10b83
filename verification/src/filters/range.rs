use vstd::prelude::*;
use crate::tx::Transaction;
use crate::uint::U256;

verus! {

/// Whether `v` lies strictly above the lower bound and strictly below the
/// upper bound, where a missing bound does not restrict.
pub open spec fn strictly_between(v: nat, min: Option<nat>, max: Option<nat>) -> bool {
    &&& (min matches Some(lo) ==> lo < v)
    &&& (max matches Some(hi) ==> v < hi)
}

/// The value of an optional number.
pub open spec fn opt_value(o: Option<U256>) -> Option<nat> {
    match o {
        Some(v) => Some(v@),
        None => None,
    }
}

fn value_strictly_between(v: &U256, min: &Option<U256>, max: &Option<U256>) -> (r: bool)
    ensures
        r == strictly_between(v@, opt_value(*min), opt_value(*max)),
{
    if let Some(lo) = min {
        if !lo.is_less_than(v) {
            return false;
        }
    }
    if let Some(hi) = max {
        if !v.is_less_than(hi) {
            return false;
        }
    }
    true
}

/// Whether an optional field is present and strictly between the bounds.
pub open spec fn option_strictly_between(
    field: Option<U256>,
    min: Option<nat>,
    max: Option<nat>,
) -> bool {
    match field {
        Some(v) => strictly_between(v@, min, max),
        None => false,
    }
}

fn option_value_strictly_between(
    field: &Option<U256>,
    min: &Option<U256>,
    max: &Option<U256>,
) -> (r: bool)
    ensures
        r == option_strictly_between(*field, opt_value(*min), opt_value(*max)),
{
    match field {
        Some(v) => value_strictly_between(v, min, max),
        None => false,
    }
}

/// Accepts transactions whose value is greater than `min` and less than
/// `max` (each bound optional).
pub struct ValueRangeFilter {
    pub min: Option<U256>,
    pub max: Option<U256>,
}

impl ValueRangeFilter {
    pub fn new(min: Option<U256>, max: Option<U256>) -> (r: Self)
        ensures
            r.min == min,
            r.max == max,
    {
        Self { min, max }
    }

    pub open spec fn matches(&self, tx: &Transaction) -> bool {
        strictly_between(tx.value@, opt_value(self.min), opt_value(self.max))
    }

    pub fn apply(&self, tx: &Transaction) -> (r: bool)
        ensures
            r == self.matches(tx),
            r == ((self.min matches Some(lo) ==> lo@ < tx.value@) && (self.max matches Some(hi) ==> tx.value@ < hi@)),
    {
        value_strictly_between(&tx.value, &self.min, &self.max)
    }
}

/// Accepts transactions whose nonce is greater than `min` and less than
/// `max` (each bound optional).
pub struct NonceRangeFilter {
    pub min: Option<U256>,
    pub max: Option<U256>,
}

impl NonceRangeFilter {
    pub fn new(min: Option<U256>, max: Option<U256>) -> (r: Self)
        ensures
            r.min == min,
            r.max == max,
    {
        Self { min, max }
    }

    pub open spec fn matches(&self, tx: &Transaction) -> bool {
        strictly_between(tx.nonce@, opt_value(self.min), opt_value(self.max))
    }

    pub fn apply(&self, tx: &Transaction) -> (r: bool)
        ensures
            r == self.matches(tx),
            r == ((self.min matches Some(lo) ==> lo@ < tx.nonce@) && (self.max matches Some(hi) ==> tx.nonce@ < hi@)),
    {
        value_strictly_between(&tx.nonce, &self.min, &self.max)
    }
}

/// Accepts transactions whose priority fee is present, greater than `min`
/// and less than `max` (each bound optional).
pub struct TipRangeFilter {
    pub min: Option<U256>,
    pub max: Option<U256>,
}

impl TipRangeFilter {
    pub fn new(min: Option<U256>, max: Option<U256>) -> (r: Self)
        ensures
            r.min == min,
            r.max == max,
    {
        Self { min, max }
    }

    pub open spec fn matches(&self, o: &Transaction) -> bool {
        option_strictly_between(o.max_priority_fee_per_gas, opt_value(self.min), opt_value(self.max))
    }

    pub fn apply(&self, o: &Transaction) -> (r: bool)
        ensures
            r == self.matches(o),
            r == (o.max_priority_fee_per_gas matches Some(x) && (self.min matches Some(lo) ==> lo@ < x@) && (self.max matches Some(hi) ==> x@ < hi@)),
    {
        option_value_strictly_between(&o.max_priority_fee_per_gas, &self.min, &self.max)
    }
}

/// Accepts transactions whose gas price is present, greater than `min` and
/// less than `max` (each bound optional).
pub struct GasPriceRangeFilter {
    pub min: Option<U256>,
    pub max: Option<U256>,
}

impl GasPriceRangeFilter {
    pub fn new(min: Option<U256>, max: Option<U256>) -> (r: Self)
        ensures
            r.min == min,
            r.max == max,
    {
        Self { min, max }
    }

    pub open spec fn matches(&self, o: &Transaction) -> bool {
        option_strictly_between(o.gas_price, opt_value(self.min), opt_value(self.max))
    }

    pub fn apply(&self, o: &Transaction) -> (r: bool)
        ensures
            r == self.matches(o),
            r == (o.gas_price matches Some(x) && (self.min matches Some(lo) ==> lo@ < x@) && (self.max matches Some(hi) ==> x@ < hi@)),
    {
        option_value_strictly_between(&o.gas_price, &self.min, &self.max)
    }
}

} // verus!
