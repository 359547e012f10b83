pub mod cache;
pub mod calldata;
pub mod equality;
pub mod range;

use vstd::prelude::*;
use crate::bytes::hex_text;
use crate::tx::{zero_address_bytes, Transaction};
use crate::uint::U256;
use crate::filters::calldata::regex_finds;
use crate::filters::equality::option_equals;
use crate::filters::range::{opt_value, option_strictly_between, strictly_between};
use crate::filters::cache::{entries_accept, CacheFilter};
use crate::filters::calldata::{DataFilter, RegexFilter, SigFilter};
use crate::filters::equality::{
    FromFilter, GasPriceFilter, MaxFeeFilter, NonceFilter, TipFilter, ToFilter, ValueFilter,
};
use crate::filters::range::{
    GasPriceRangeFilter, NonceRangeFilter, TipRangeFilter, ValueRangeFilter,
};

verus! {

/// One condition on a transaction.
pub enum Filter {
    To(ToFilter),
    From(FromFilter),
    Value(ValueFilter),
    Nonce(NonceFilter),
    Tip(TipFilter),
    GasPrice(GasPriceFilter),
    MaxFee(MaxFeeFilter),
    ValueRange(ValueRangeFilter),
    NonceRange(NonceRangeFilter),
    TipRange(TipRangeFilter),
    GasPriceRange(GasPriceRangeFilter),
    Sig(SigFilter),
    Data(DataFilter),
    Regex(RegexFilter),
    Cache(CacheFilter),
}

/// What a filter is, as plain values: which field it reads and what it
/// compares it with.
pub enum FilterModel {
    To(Seq<u8>),
    From(Seq<u8>),
    Value(nat),
    Nonce(nat),
    Tip(nat),
    GasPrice(nat),
    MaxFee(nat),
    ValueRange(Option<nat>, Option<nat>),
    NonceRange(Option<nat>, Option<nat>),
    TipRange(Option<nat>, Option<nat>),
    GasPriceRange(Option<nat>, Option<nat>),
    Sig(Seq<u8>),
    Data(Seq<u8>),
    Regex(Seq<char>),
    Cache(Seq<(Seq<u8>, bool)>),
}

impl FilterModel {
    /// Whether the filter accepts `tx`.
    pub open spec fn matches(self, tx: &Transaction) -> bool {
        match self {
            FilterModel::To(a) => match tx.to {
                Some(t) => t@ == a,
                None => a == zero_address_bytes(),
            },
            FilterModel::From(a) => tx.from@ == a,
            FilterModel::Value(v) => tx.value@ == v,
            FilterModel::Nonce(v) => tx.nonce@ == v,
            FilterModel::Tip(v) => option_equals(tx.max_priority_fee_per_gas, v),
            FilterModel::GasPrice(v) => option_equals(tx.gas_price, v),
            FilterModel::MaxFee(v) => option_equals(tx.max_fee_per_gas, v),
            FilterModel::ValueRange(lo, hi) => strictly_between(tx.value@, lo, hi),
            FilterModel::NonceRange(lo, hi) => strictly_between(tx.nonce@, lo, hi),
            FilterModel::TipRange(lo, hi) => option_strictly_between(
                tx.max_priority_fee_per_gas,
                lo,
                hi,
            ),
            FilterModel::GasPriceRange(lo, hi) => option_strictly_between(tx.gas_price, lo, hi),
            FilterModel::Sig(s) => s.is_prefix_of(tx.input@),
            FilterModel::Data(d) => tx.input@ == d,
            FilterModel::Regex(p) => regex_finds(p, hex_text(tx.input@)),
            FilterModel::Cache(entries) => entries_accept(entries, tx.hash@),
        }
    }
}

impl View for Filter {
    type V = FilterModel;

    open spec fn view(&self) -> FilterModel {
        match self {
            Filter::To(f) => FilterModel::To(f.value@),
            Filter::From(f) => FilterModel::From(f.value@),
            Filter::Value(f) => FilterModel::Value(f.value@),
            Filter::Nonce(f) => FilterModel::Nonce(f.value@),
            Filter::Tip(f) => FilterModel::Tip(f.value@),
            Filter::GasPrice(f) => FilterModel::GasPrice(f.value@),
            Filter::MaxFee(f) => FilterModel::MaxFee(f.value@),
            Filter::ValueRange(f) => FilterModel::ValueRange(opt_value(f.min), opt_value(f.max)),
            Filter::NonceRange(f) => FilterModel::NonceRange(opt_value(f.min), opt_value(f.max)),
            Filter::TipRange(f) => FilterModel::TipRange(opt_value(f.min), opt_value(f.max)),
            Filter::GasPriceRange(f) => FilterModel::GasPriceRange(
                opt_value(f.min),
                opt_value(f.max),
            ),
            Filter::Sig(f) => FilterModel::Sig(f.value@),
            Filter::Data(f) => FilterModel::Data(f.value@),
            Filter::Regex(f) => FilterModel::Regex(f.pattern()),
            Filter::Cache(f) => FilterModel::Cache(f.entries()),
        }
    }
}

impl Filter {

    /// Whether the transaction meets this condition.
    pub fn apply(&self, tx: &Transaction) -> (r: bool)
        ensures
            r == self@.matches(tx),
    {
        match self {
            Filter::To(f) => f.apply(tx),
            Filter::From(f) => f.apply(tx),
            Filter::Value(f) => f.apply(tx),
            Filter::Nonce(f) => f.apply(tx),
            Filter::Tip(f) => f.apply(tx),
            Filter::GasPrice(f) => f.apply(tx),
            Filter::MaxFee(f) => f.apply(tx),
            Filter::ValueRange(f) => f.apply(tx),
            Filter::NonceRange(f) => f.apply(tx),
            Filter::TipRange(f) => f.apply(tx),
            Filter::GasPriceRange(f) => f.apply(tx),
            Filter::Sig(f) => f.apply(tx),
            Filter::Data(f) => f.apply(tx),
            Filter::Regex(f) => f.apply(tx),
            Filter::Cache(f) => f.apply(tx),
        }
    }
}

/// Whether every filter of `fs` accepts `tx`.
pub open spec fn all_accept(fs: Seq<FilterModel>, tx: &Transaction) -> bool {
    forall|i: int| 0 <= i < fs.len() ==> (#[trigger] fs[i]).matches(tx)
}

/// A conjunction of filters: a transaction passes when every filter accepts
/// it.
pub struct Filters {
    filters: Vec<Filter>,
}

impl View for Filters {
    type V = Seq<FilterModel>;

    closed spec fn view(&self) -> Seq<FilterModel> {
        self.filters@.map_values(|f: Filter| f@)
    }
}

impl Filters {
    /// No filters.
    pub fn new() -> (r: Self)
        ensures
            r@ == Seq::<FilterModel>::empty(),
    {
        let r = Filters { filters: Vec::new() };
        assert(r@ =~= Seq::<FilterModel>::empty());
        r
    }

    /// Adds a filter after the present ones.
    pub fn add_filter(&mut self, filter: Filter)
        ensures
            final(self)@ == old(self)@.push(filter@),
    {
        let ghost model = filter@;
        self.filters.push(filter);
        assert(self@ =~= old(self)@.push(model));
    }

    /// Whether every filter accepts `tx`.
    pub fn apply(&self, tx: &Transaction) -> (r: bool)
        ensures
            r == all_accept(self@, tx),
    {
        let n = self.filters.len();
        let mut i: usize = 0;
        while i < n
            invariant
                n == self.filters@.len(),
                i <= n,
                forall|j: int| 0 <= j < i ==> (#[trigger] self.filters@[j])@.matches(tx),
            decreases n - i,
        {
            if !self.filters[i].apply(tx) {
                assert(self@[i as int] == self.filters@[i as int]@);
                return false;
            }
            i = i + 1;
        }
        assert forall|j: int| 0 <= j < self@.len() implies (#[trigger] self@[j]).matches(tx) by {
            assert(self@[j] == self.filters@[j]@);
        }
        true
    }
}

/// With no filters every transaction passes.
pub proof fn lemma_no_filters_accept_all(tx: &Transaction)
    ensures
        all_accept(Seq::<FilterModel>::empty(), tx),
{
}

/// Adding a filter keeps exactly the transactions that passed before and
/// that the new filter accepts.
pub proof fn lemma_add_filter_narrows(fs: Seq<FilterModel>, m: FilterModel, tx: &Transaction)
    ensures
        all_accept(fs.push(m), tx) == (all_accept(fs, tx) && m.matches(tx)),
{
    if all_accept(fs, tx) && m.matches(tx) {
        assert forall|i: int| 0 <= i < fs.push(m).len() implies (#[trigger] fs.push(m)[i]).matches(
            tx,
        ) by {
            if i < fs.len() {
                assert(fs.push(m)[i] == fs[i]);
            }
        }
    }
    if all_accept(fs.push(m), tx) {
        assert(fs.push(m)[fs.len() as int] == m);
        assert forall|i: int| 0 <= i < fs.len() implies (#[trigger] fs[i]).matches(tx) by {
            assert(fs.push(m)[i] == fs[i]);
        }
    }
}

/// The order in which filters were added does not change which
/// transactions pass.
pub proof fn lemma_filter_order_irrelevant(a: Seq<FilterModel>, b: Seq<FilterModel>, tx: &Transaction)
    ensures
        all_accept(a + b, tx) == all_accept(b + a, tx),
{
    assert(all_accept(a + b, tx) == (all_accept(a, tx) && all_accept(b, tx))) by {
        if all_accept(a, tx) && all_accept(b, tx) {
            assert forall|i: int| 0 <= i < (a + b).len() implies (#[trigger] (a + b)[i]).matches(tx) by {
                if i < a.len() {
                    assert((a + b)[i] == a[i]);
                } else {
                    assert((a + b)[i] == b[i - a.len()]);
                }
            }
        }
        if all_accept(a + b, tx) {
            assert forall|i: int| 0 <= i < a.len() implies (#[trigger] a[i]).matches(tx) by {
                assert((a + b)[i] == a[i]);
            }
            assert forall|i: int| 0 <= i < b.len() implies (#[trigger] b[i]).matches(tx) by {
                assert((a + b)[a.len() + i] == b[i]);
            }
        }
    }
    assert(all_accept(b + a, tx) == (all_accept(b, tx) && all_accept(a, tx))) by {
        if all_accept(b, tx) && all_accept(a, tx) {
            assert forall|i: int| 0 <= i < (b + a).len() implies (#[trigger] (b + a)[i]).matches(tx) by {
                if i < b.len() {
                    assert((b + a)[i] == b[i]);
                } else {
                    assert((b + a)[i] == a[i - b.len()]);
                }
            }
        }
        if all_accept(b + a, tx) {
            assert forall|i: int| 0 <= i < b.len() implies (#[trigger] b[i]).matches(tx) by {
                assert((b + a)[i] == b[i]);
            }
            assert forall|i: int| 0 <= i < a.len() implies (#[trigger] a[i]).matches(tx) by {
                assert((b + a)[b.len() + i] == a[i]);
            }
        }
    }
}

/// A range filter without bounds accepts every value, and a present bound
/// is exclusive: a value equal to it is refused.
pub proof fn lemma_range_bounds(v: nat, lo: nat, hi: nat)
    ensures
        strictly_between(v, None, None),
        !strictly_between(lo, Some(lo), None),
        !strictly_between(hi, None, Some(hi)),
        strictly_between(v, Some(lo), Some(hi)) == (lo < v && v < hi),
        strictly_between(v, Some(lo), None) == (lo < v),
        strictly_between(v, None, Some(hi)) == (v < hi),
{
}

/// An equality filter on an optional fee field accepts exactly the
/// transactions where the field is present and equal to the value; a missing
/// field, or any other value (larger or smaller), is refused.
pub proof fn lemma_option_equality_exact(field: Option<U256>, v: nat)
    ensures
        option_equals(field, v) == (field matches Some(x) && x@ == v),
        option_equals(None, v) == false,
{
}

/// What each kind of filter accepts, in terms of the transaction's fields.
pub proof fn lemma_filter_meaning(m: FilterModel, tx: &Transaction)
    ensures
        m matches FilterModel::From(a) ==> m.matches(tx) == (tx.from@ == a),
        m matches FilterModel::To(a) ==> m.matches(tx) == (match tx.to {
            Some(t) => t@ == a,
            None => a == zero_address_bytes(),
        }),
        m matches FilterModel::Value(v) ==> m.matches(tx) == (tx.value@ == v),
        m matches FilterModel::Nonce(v) ==> m.matches(tx) == (tx.nonce@ == v),
        m matches FilterModel::Tip(v) ==> m.matches(tx) == (tx.max_priority_fee_per_gas matches Some(
            x,
        ) && x@ == v),
        m matches FilterModel::GasPrice(v) ==> m.matches(tx) == (tx.gas_price matches Some(x) && x@
            == v),
        m matches FilterModel::MaxFee(v) ==> m.matches(tx) == (tx.max_fee_per_gas matches Some(x)
            && x@ == v),
        m matches FilterModel::ValueRange(lo, hi) ==> m.matches(tx) == ((lo matches Some(l) ==> l
            < tx.value@) && (hi matches Some(h) ==> tx.value@ < h)),
        m matches FilterModel::NonceRange(lo, hi) ==> m.matches(tx) == ((lo matches Some(l) ==> l
            < tx.nonce@) && (hi matches Some(h) ==> tx.nonce@ < h)),
        m matches FilterModel::TipRange(lo, hi) ==> m.matches(tx) == (tx.max_priority_fee_per_gas
            matches Some(x) && (lo matches Some(l) ==> l < x@) && (hi matches Some(h) ==> x@ < h)),
        m matches FilterModel::GasPriceRange(lo, hi) ==> m.matches(tx) == (tx.gas_price matches Some(
            x,
        ) && (lo matches Some(l) ==> l < x@) && (hi matches Some(h) ==> x@ < h)),
        m matches FilterModel::Sig(s) ==> m.matches(tx) == (s.len() <= tx.input@.len()
            && tx.input@.subrange(0, s.len() as int) == s),
        m matches FilterModel::Data(d) ==> m.matches(tx) == (tx.input@ == d),
{
}

/// A `--to` filter for the zero address accepts contract creations, and
/// one for any other address refuses them.
pub proof fn lemma_to_zero_matches_creation(a: Seq<u8>, tx: &Transaction)
    requires
        tx.to is None,
    ensures
        FilterModel::To(a).matches(tx) == (a == zero_address_bytes()),
{
}

/// A calldata filter that accepts a transaction implies that a selector
/// filter for the first four bytes of that calldata accepts it too.
pub proof fn lemma_data_match_implies_selector_match(d: Seq<u8>, tx: &Transaction)
    requires
        d.len() >= 4,
        FilterModel::Data(d).matches(tx),
    ensures
        FilterModel::Sig(d.take(4)).matches(tx),
{
    assert(tx.input@.subrange(0, 4) =~= d.take(4));
}

/// A cache filter with nothing recorded refuses every transaction.
pub proof fn lemma_empty_cache_refuses(tx: &Transaction)
    ensures
        !FilterModel::Cache(Seq::empty()).matches(tx),
{
}

/// Adds `factory(v)` when `opt_value` is `Some(v)`; otherwise leaves the
/// filters as they are.
pub fn add_optional_filter<T, F: Fn(T) -> Filter>(
    filters: &mut Filters,
    opt_value: Option<T>,
    factory: F,
)
    requires
        forall|v: T| #[trigger] factory.requires((v,)),
    ensures
        match opt_value {
            Some(v) => {
                &&& final(filters)@.len() == old(filters)@.len() + 1
                &&& final(filters)@.drop_last() == old(filters)@
                &&& exists|f: Filter| factory.ensures((v,), f) && f@ == final(filters)@.last()
            },
            None => final(filters)@ == old(filters)@,
        },
{
    if let Some(value) = opt_value {
        let f = factory(value);
        filters.add_filter(f);
        assert(filters@.drop_last() =~= old(filters)@);
    }
}

/// Adds `factory(opt_gt, opt_lt)` when at least one bound is given;
/// otherwise leaves the filters as they are.
pub fn add_range_filter<T, F: Fn(Option<T>, Option<T>) -> Filter>(
    filters: &mut Filters,
    opt_gt: Option<T>,
    opt_lt: Option<T>,
    factory: F,
)
    requires
        forall|gt: Option<T>, lt: Option<T>| #[trigger] factory.requires((gt, lt)),
    ensures
        if opt_gt is Some || opt_lt is Some {
            &&& final(filters)@.len() == old(filters)@.len() + 1
            &&& final(filters)@.drop_last() == old(filters)@
            &&& exists|f: Filter| factory.ensures((opt_gt, opt_lt), f) && f@ == final(filters)@.last()
        } else {
            final(filters)@ == old(filters)@
        },
{
    if opt_gt.is_some() || opt_lt.is_some() {
        let f = factory(opt_gt, opt_lt);
        filters.add_filter(f);
        assert(filters@.drop_last() =~= old(filters)@);
    }
}

} // verus!
