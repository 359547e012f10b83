use vstd::prelude::*;
use vstd::utf8::encode_utf8;
use crate::abi::{array_sizes_fit, array_sizes_fit_in, function_selector, parse_function_selector};
use crate::bytes::{hex_decode, hex_decoded};
use crate::cmd::watch::TxArgs;
use crate::filters::calldata::{regex_compiles, DataFilter, RegexFilter, SigFilter};
use crate::filters::equality::{FromFilter, GasPriceFilter, NonceFilter, TipFilter, ToFilter, ValueFilter};
use crate::filters::range::{
    opt_value, GasPriceRangeFilter, NonceRangeFilter, TipRangeFilter, ValueRangeFilter,
};
use crate::filters::{
    add_optional_filter, add_range_filter, all_accept, lemma_add_filter_narrows, lemma_filter_meaning,
    Filter, FilterModel, Filters,
};
use crate::bytes::hex_text;
use crate::filters::calldata::regex_finds;
use crate::tx::zero_address_bytes;
use crate::tx::{Address, Transaction};
use crate::uint::U256;

verus! {

/// Why the filters could not be set up from the options.
#[derive(Clone, Copy, Debug, PartialEq, Eq)]
pub enum SetupError {
    /// `--sig` is not a function signature, or holds a number too large to
    /// be an array size.
    InvalidSignature,
    /// `--data` is not hex.
    InvalidHex,
    /// `--data-re` is not a regular expression.
    InvalidRegex,
}

/// `s` with `m` added at the end when `c` holds.
pub open spec fn push_when(s: Seq<FilterModel>, c: bool, m: FilterModel) -> Seq<FilterModel> {
    if c {
        s.push(m)
    } else {
        s
    }
}

/// The equality filters, in option order: from, to, value, nonce, tip, gas
/// price.
pub open spec fn equality_filters(args: &TxArgs) -> Seq<FilterModel> {
    let s = Seq::<FilterModel>::empty();
    let s = push_when(s, args.from is Some, FilterModel::From(args.from->0@));
    let s = push_when(s, args.to is Some, FilterModel::To(args.to->0@));
    let s = push_when(s, args.value is Some, FilterModel::Value(args.value->0@));
    let s = push_when(s, args.nonce is Some, FilterModel::Nonce(args.nonce->0@));
    let s = push_when(s, args.tip is Some, FilterModel::Tip(args.tip->0@));
    push_when(s, args.gas_price is Some, FilterModel::GasPrice(args.gas_price->0@))
}

/// The equality filters followed by the range filters (value, nonce, tip,
/// gas price), each added when at least one of its bounds is given.
pub open spec fn field_filters(args: &TxArgs) -> Seq<FilterModel> {
    let s = equality_filters(args);
    let s = push_when(
        s,
        args.value_gt is Some || args.value_lt is Some,
        FilterModel::ValueRange(opt_value(args.value_gt), opt_value(args.value_lt)),
    );
    let s = push_when(
        s,
        args.nonce_gt is Some || args.nonce_lt is Some,
        FilterModel::NonceRange(opt_value(args.nonce_gt), opt_value(args.nonce_lt)),
    );
    let s = push_when(
        s,
        args.tip_gt is Some || args.tip_lt is Some,
        FilterModel::TipRange(opt_value(args.tip_gt), opt_value(args.tip_lt)),
    );
    push_when(
        s,
        args.gas_price_gt is Some || args.gas_price_lt is Some,
        FilterModel::GasPriceRange(opt_value(args.gas_price_gt), opt_value(args.gas_price_lt)),
    )
}

/// The filters that the `tx` options ask for, or the first option (in the
/// order signature, data, data regex) that cannot be used.
pub open spec fn tx_filter_setup(args: &TxArgs) -> Result<Seq<FilterModel>, SetupError> {
    let s = field_filters(args);
    let after_sig = match args.sig {
        None => Ok(s),
        Some(sig) => if !array_sizes_fit(encode_utf8(sig@)) {
            Err(SetupError::InvalidSignature)
        } else {
            match function_selector(sig@) {
                Some(sel) => Ok(s.push(FilterModel::Sig(sel))),
                None => Err(SetupError::InvalidSignature),
            }
        },
    };
    let after_data = match after_sig {
        Err(e) => Err(e),
        Ok(s) => match args.data {
            None => Ok(s),
            Some(d) => match hex_decoded(encode_utf8(d@)) {
                Some(bytes) => Ok(s.push(FilterModel::Data(bytes))),
                None => Err(SetupError::InvalidHex),
            },
        },
    };
    match after_data {
        Err(e) => Err(e),
        Ok(s) => match args.data_re {
            None => Ok(s),
            Some(re) => if regex_compiles(re@) {
                Ok(s.push(FilterModel::Regex(re@)))
            } else {
                Err(SetupError::InvalidRegex)
            },
        },
    }
}

proof fn lemma_pushed_when(after: Seq<FilterModel>, before: Seq<FilterModel>, c: bool, m: FilterModel)
    requires
        c ==> after.len() == before.len() + 1 && after.drop_last() == before && after.last() == m,
        !c ==> after == before,
    ensures
        after == push_when(before, c, m),
{
    if c {
        assert(after =~= before.push(m));
    }
}

fn from_filter(v: Address) -> (f: Filter)
    ensures
        f@ == FilterModel::From(v@),
{
    Filter::From(FromFilter::new(v))
}

fn to_filter(v: Address) -> (f: Filter)
    ensures
        f@ == FilterModel::To(v@),
{
    Filter::To(ToFilter::new(v))
}

fn value_filter(v: U256) -> (f: Filter)
    ensures
        f@ == FilterModel::Value(v@),
{
    Filter::Value(ValueFilter::new(v))
}

fn nonce_filter(v: U256) -> (f: Filter)
    ensures
        f@ == FilterModel::Nonce(v@),
{
    Filter::Nonce(NonceFilter::new(v))
}

fn tip_filter(v: U256) -> (f: Filter)
    ensures
        f@ == FilterModel::Tip(v@),
{
    Filter::Tip(TipFilter::new(v))
}

fn gas_price_filter(v: U256) -> (f: Filter)
    ensures
        f@ == FilterModel::GasPrice(v@),
{
    Filter::GasPrice(GasPriceFilter::new(v))
}

fn value_range_filter(gt: Option<U256>, lt: Option<U256>) -> (f: Filter)
    ensures
        f@ == FilterModel::ValueRange(opt_value(gt), opt_value(lt)),
{
    Filter::ValueRange(ValueRangeFilter::new(gt, lt))
}

fn nonce_range_filter(gt: Option<U256>, lt: Option<U256>) -> (f: Filter)
    ensures
        f@ == FilterModel::NonceRange(opt_value(gt), opt_value(lt)),
{
    Filter::NonceRange(NonceRangeFilter::new(gt, lt))
}

fn tip_range_filter(gt: Option<U256>, lt: Option<U256>) -> (f: Filter)
    ensures
        f@ == FilterModel::TipRange(opt_value(gt), opt_value(lt)),
{
    Filter::TipRange(TipRangeFilter::new(gt, lt))
}

fn gas_price_range_filter(gt: Option<U256>, lt: Option<U256>) -> (f: Filter)
    ensures
        f@ == FilterModel::GasPriceRange(opt_value(gt), opt_value(lt)),
{
    Filter::GasPriceRange(GasPriceRangeFilter::new(gt, lt))
}

proof fn lemma_push_when_accept(s: Seq<FilterModel>, c: bool, m: FilterModel, tx: &Transaction)
    ensures
        all_accept(push_when(s, c, m), tx) == (all_accept(s, tx) && (c ==> m.matches(tx))),
{
    if c {
        lemma_add_filter_narrows(s, m, tx);
    }
}

proof fn lemma_equality_filters_accept(args: &TxArgs, tx: &Transaction)
    ensures
        all_accept(equality_filters(args), tx) <==> {
            &&& args.from matches Some(a) ==> tx.from@ == a@
            &&& args.to matches Some(a) ==> (match tx.to {
                Some(t) => t@ == a@,
                None => a@ == zero_address_bytes(),
            })
            &&& args.value matches Some(v) ==> tx.value@ == v@
            &&& args.nonce matches Some(v) ==> tx.nonce@ == v@
            &&& args.tip matches Some(v) ==> (tx.max_priority_fee_per_gas matches Some(x) && x@
                == v@)
            &&& args.gas_price matches Some(v) ==> (tx.gas_price matches Some(x) && x@ == v@)
        },
{
    let e0 = Seq::<FilterModel>::empty();
    let m1 = FilterModel::From(args.from->0@);
    let e1 = push_when(e0, args.from is Some, m1);
    let m2 = FilterModel::To(args.to->0@);
    let e2 = push_when(e1, args.to is Some, m2);
    let m3 = FilterModel::Value(args.value->0@);
    let e3 = push_when(e2, args.value is Some, m3);
    let m4 = FilterModel::Nonce(args.nonce->0@);
    let e4 = push_when(e3, args.nonce is Some, m4);
    let m5 = FilterModel::Tip(args.tip->0@);
    let e5 = push_when(e4, args.tip is Some, m5);
    let m6 = FilterModel::GasPrice(args.gas_price->0@);
    assert(all_accept(e0, tx));
    lemma_push_when_accept(e0, args.from is Some, m1, tx);
    lemma_push_when_accept(e1, args.to is Some, m2, tx);
    lemma_push_when_accept(e2, args.value is Some, m3, tx);
    lemma_push_when_accept(e3, args.nonce is Some, m4, tx);
    lemma_push_when_accept(e4, args.tip is Some, m5, tx);
    lemma_push_when_accept(e5, args.gas_price is Some, m6, tx);
    lemma_filter_meaning(m1, tx);
    lemma_filter_meaning(m2, tx);
    lemma_filter_meaning(m3, tx);
    lemma_filter_meaning(m4, tx);
    lemma_filter_meaning(m5, tx);
    lemma_filter_meaning(m6, tx);
}

proof fn lemma_field_filters_accept(args: &TxArgs, tx: &Transaction)
    ensures
        all_accept(field_filters(args), tx) <==> {
            &&& all_accept(equality_filters(args), tx)
            &&& args.value_gt matches Some(g) ==> g@ < tx.value@
            &&& args.value_lt matches Some(l) ==> tx.value@ < l@
            &&& args.nonce_gt matches Some(g) ==> g@ < tx.nonce@
            &&& args.nonce_lt matches Some(l) ==> tx.nonce@ < l@
            &&& (args.tip_gt is Some || args.tip_lt is Some) ==> (tx.max_priority_fee_per_gas
                matches Some(x) && (args.tip_gt matches Some(g) ==> g@ < x@) && (args.tip_lt matches Some(
                l,
            ) ==> x@ < l@))
            &&& (args.gas_price_gt is Some || args.gas_price_lt is Some) ==> (tx.gas_price matches Some(
                x,
            ) && (args.gas_price_gt matches Some(g) ==> g@ < x@) && (args.gas_price_lt matches Some(
                l,
            ) ==> x@ < l@))
        },
{
    let e6 = equality_filters(args);
    let c7 = args.value_gt is Some || args.value_lt is Some;
    let m7 = FilterModel::ValueRange(opt_value(args.value_gt), opt_value(args.value_lt));
    let e7 = push_when(e6, c7, m7);
    let c8 = args.nonce_gt is Some || args.nonce_lt is Some;
    let m8 = FilterModel::NonceRange(opt_value(args.nonce_gt), opt_value(args.nonce_lt));
    let e8 = push_when(e7, c8, m8);
    let c9 = args.tip_gt is Some || args.tip_lt is Some;
    let m9 = FilterModel::TipRange(opt_value(args.tip_gt), opt_value(args.tip_lt));
    let e9 = push_when(e8, c9, m9);
    let c10 = args.gas_price_gt is Some || args.gas_price_lt is Some;
    let m10 = FilterModel::GasPriceRange(opt_value(args.gas_price_gt), opt_value(args.gas_price_lt));
    lemma_push_when_accept(e6, c7, m7, tx);
    lemma_push_when_accept(e7, c8, m8, tx);
    lemma_push_when_accept(e8, c9, m9, tx);
    lemma_push_when_accept(e9, c10, m10, tx);
    lemma_filter_meaning(m7, tx);
    lemma_filter_meaning(m8, tx);
    lemma_filter_meaning(m9, tx);
    lemma_filter_meaning(m10, tx);
}

/// The filters set up from the `tx` options accept a transaction exactly
/// when it meets every option given: each equality option asks for that
/// value (a fee option also for the fee to be present; `--to` of the zero
/// address also takes contract creations), each `--*-gt` is a strict lower
/// bound and each `--*-lt` a strict upper bound on its field, `--sig` asks
/// that the calldata begin with the signature's selector, `--data` that the
/// calldata be the decoded hex, and `--data-re` that the lowercase hex of the
/// calldata match the regex.
pub proof fn lemma_setup_accepts_exactly(args: &TxArgs, tx: &Transaction)
    ensures
        tx_filter_setup(args) matches Ok(fs) ==> (all_accept(fs, tx) <==> {
            &&& args.from matches Some(a) ==> tx.from@ == a@
            &&& args.to matches Some(a) ==> (match tx.to {
                Some(t) => t@ == a@,
                None => a@ == zero_address_bytes(),
            })
            &&& args.value matches Some(v) ==> tx.value@ == v@
            &&& args.nonce matches Some(v) ==> tx.nonce@ == v@
            &&& args.tip matches Some(v) ==> (tx.max_priority_fee_per_gas matches Some(x) && x@
                == v@)
            &&& args.gas_price matches Some(v) ==> (tx.gas_price matches Some(x) && x@ == v@)
            &&& args.value_gt matches Some(g) ==> g@ < tx.value@
            &&& args.value_lt matches Some(l) ==> tx.value@ < l@
            &&& args.nonce_gt matches Some(g) ==> g@ < tx.nonce@
            &&& args.nonce_lt matches Some(l) ==> tx.nonce@ < l@
            &&& (args.tip_gt is Some || args.tip_lt is Some) ==> (tx.max_priority_fee_per_gas
                matches Some(x) && (args.tip_gt matches Some(g) ==> g@ < x@) && (args.tip_lt matches Some(
                l,
            ) ==> x@ < l@))
            &&& (args.gas_price_gt is Some || args.gas_price_lt is Some) ==> (tx.gas_price matches Some(
                x,
            ) && (args.gas_price_gt matches Some(g) ==> g@ < x@) && (args.gas_price_lt matches Some(
                l,
            ) ==> x@ < l@))
            &&& args.sig matches Some(sig) ==> (function_selector(sig@) matches Some(sel)
                && sel.is_prefix_of(tx.input@))
            &&& args.data matches Some(d) ==> hex_decoded(encode_utf8(d@)) == Some(tx.input@)
            &&& args.data_re matches Some(re) ==> regex_finds(re@, hex_text(tx.input@))
        }),
{
    lemma_equality_filters_accept(args, tx);
    lemma_field_filters_accept(args, tx);
    let e10 = field_filters(args);
    if let Ok(fs) = tx_filter_setup(args) {
        let e11 = match args.sig {
            None => e10,
            Some(sig) => e10.push(FilterModel::Sig(function_selector(sig@)->0)),
        };
        if let Some(sig) = args.sig {
            lemma_add_filter_narrows(e10, FilterModel::Sig(function_selector(sig@)->0), tx);
        }
        let e12 = match args.data {
            None => e11,
            Some(d) => e11.push(FilterModel::Data(hex_decoded(encode_utf8(d@))->0)),
        };
        if let Some(d) = args.data {
            lemma_add_filter_narrows(e11, FilterModel::Data(hex_decoded(encode_utf8(d@))->0), tx);
        }
        if let Some(re) = args.data_re {
            lemma_add_filter_narrows(e12, FilterModel::Regex(re@), tx);
            assert(fs == e12.push(FilterModel::Regex(re@)));
        } else {
            assert(fs == e12);
        }
    }
}

/// The filters' models, or the error.
pub open spec fn setup_model(res: Result<Filters, SetupError>) -> Result<Seq<FilterModel>, SetupError> {
    match res {
        Ok(f) => Ok(f@),
        Err(e) => Err(e),
    }
}

/// Builds the filters that the `tx` options ask for.
#[verifier::rlimit(40)]
pub fn tx_args_filters(args: &TxArgs) -> (res: Result<Filters, SetupError>)
    ensures
        setup_model(res) == tx_filter_setup(args),
{
    let mut filters = Filters::new();

    let ghost before = filters@;
    add_optional_filter(&mut filters, args.from, from_filter);
    proof {
        lemma_pushed_when(filters@, before, args.from is Some, FilterModel::From(args.from->0@));
    }
    let ghost before = filters@;
    add_optional_filter(&mut filters, args.to, to_filter);
    proof {
        lemma_pushed_when(filters@, before, args.to is Some, FilterModel::To(args.to->0@));
    }
    let ghost before = filters@;
    add_optional_filter(&mut filters, args.value, value_filter);
    proof {
        lemma_pushed_when(filters@, before, args.value is Some, FilterModel::Value(args.value->0@));
    }
    let ghost before = filters@;
    add_optional_filter(&mut filters, args.nonce, nonce_filter);
    proof {
        lemma_pushed_when(filters@, before, args.nonce is Some, FilterModel::Nonce(args.nonce->0@));
    }
    let ghost before = filters@;
    add_optional_filter(&mut filters, args.tip, tip_filter);
    proof {
        lemma_pushed_when(filters@, before, args.tip is Some, FilterModel::Tip(args.tip->0@));
    }
    let ghost before = filters@;
    add_optional_filter(&mut filters, args.gas_price, gas_price_filter);
    proof {
        lemma_pushed_when(filters@, before, args.gas_price is Some, FilterModel::GasPrice(args.gas_price->0@));
        assert(filters@ == equality_filters(args));
    }

    let ghost before = filters@;
    add_range_filter(&mut filters, args.value_gt, args.value_lt, value_range_filter);
    proof {
        lemma_pushed_when(
            filters@,
            before,
            args.value_gt is Some || args.value_lt is Some,
            FilterModel::ValueRange(opt_value(args.value_gt), opt_value(args.value_lt)),
        );
    }
    let ghost before = filters@;
    add_range_filter(&mut filters, args.nonce_gt, args.nonce_lt, nonce_range_filter);
    proof {
        lemma_pushed_when(
            filters@,
            before,
            args.nonce_gt is Some || args.nonce_lt is Some,
            FilterModel::NonceRange(opt_value(args.nonce_gt), opt_value(args.nonce_lt)),
        );
    }
    let ghost before = filters@;
    add_range_filter(&mut filters, args.tip_gt, args.tip_lt, tip_range_filter);
    proof {
        lemma_pushed_when(
            filters@,
            before,
            args.tip_gt is Some || args.tip_lt is Some,
            FilterModel::TipRange(opt_value(args.tip_gt), opt_value(args.tip_lt)),
        );
    }
    let ghost before = filters@;
    add_range_filter(&mut filters, args.gas_price_gt, args.gas_price_lt, gas_price_range_filter);
    proof {
        lemma_pushed_when(
            filters@,
            before,
            args.gas_price_gt is Some || args.gas_price_lt is Some,
            FilterModel::GasPriceRange(opt_value(args.gas_price_gt), opt_value(args.gas_price_lt)),
        );
        assert(filters@ == field_filters(args));
    }

    if let Some(sig) = &args.sig {
        if !array_sizes_fit_in(sig.as_str()) {
            return Err(SetupError::InvalidSignature);
        }
        match parse_function_selector(sig.as_str()) {
            Some(selector) => filters.add_filter(Filter::Sig(SigFilter::new(selector))),
            None => return Err(SetupError::InvalidSignature),
        }
    }
    if let Some(data) = &args.data {
        match hex_decode(data.as_str().as_bytes()) {
            Some(bytes) => filters.add_filter(Filter::Data(DataFilter::new(bytes))),
            None => return Err(SetupError::InvalidHex),
        }
    }
    if let Some(re) = &args.data_re {
        match RegexFilter::try_new(re) {
            Some(f) => filters.add_filter(Filter::Regex(f)),
            None => return Err(SetupError::InvalidRegex),
        }
    }
    Ok(filters)
}

/// What to do with a pending transaction once it has been received.
#[derive(Clone, Copy, Debug, PartialEq, Eq)]
pub enum TxStep {
    /// A filter refused it.
    Skip,
    /// Write it out once.
    Output,
    /// Trace its execution and write it out once if the `--touches` options
    /// pick some call.
    Trace,
}

/// The step for a transaction: skipped when a filter refuses it, traced
/// when a `--touches` address is given, written out otherwise.
pub fn decide_transaction(filters: &Filters, touches: &Option<Address>, tx: &Transaction) -> (r:
    TxStep)
    ensures
        r == (if !all_accept(filters@, tx) {
            TxStep::Skip
        } else if touches is None {
            TxStep::Output
        } else {
            TxStep::Trace
        }),
{
    if !filters.apply(tx) {
        TxStep::Skip
    } else if touches.is_none() {
        TxStep::Output
    } else {
        TxStep::Trace
    }
}

/// Counts the transactions written out against the `--n` limit, which is
/// the number of transactions to write. Without a limit nothing is counted;
/// with limit `n` the run is over once `n` transactions have been written
/// (at once when `n` is zero).
pub struct OutputCounter {
    count: u64,
    limit: Option<u64>,
}

impl OutputCounter {
    #[verifier::type_invariant]
    spec fn within_limit(self) -> bool {
        match self.limit {
            Some(n) => self.count <= n,
            None => self.count == 0,
        }
    }

    /// Outputs counted so far.
    pub closed spec fn count(&self) -> nat {
        self.count as nat
    }

    /// The `--n` limit.
    pub closed spec fn limit(&self) -> Option<u64> {
        self.limit
    }

    /// Whether the limit has been reached, so that nothing more may be
    /// written and the run is over.
    pub open spec fn done(&self) -> bool {
        self.limit() matches Some(n) && self.count() >= n
    }

    /// Nothing counted yet.
    pub fn new(limit: Option<u64>) -> (r: Self)
        ensures
            r.count() == 0,
            r.limit() == limit,
    {
        OutputCounter { count: 0, limit }
    }

    /// Whether the limit has been reached.
    pub fn is_done(&self) -> (r: bool)
        ensures
            r == self.done(),
    {
        match self.limit {
            Some(n) => self.count >= n,
            None => false,
        }
    }

    /// Counts one output, which may only happen before the limit is
    /// reached; returns whether the run must end now.
    pub fn record_output(&mut self) -> (exit: bool)
        requires
            !old(self).done(),
        ensures
            final(self).limit() == old(self).limit(),
            match old(self).limit() {
                Some(n) => {
                    &&& final(self).count() == old(self).count() + 1
                    &&& final(self).count() <= n
                    &&& exit == (final(self).count() == n)
                },
                None => final(self).count() == old(self).count() && !exit,
            },
            exit == final(self).done(),
    {
        proof {
            use_type_invariant(&*self);
        }
        match self.limit {
            Some(n) => {
                self.count = self.count + 1;
                self.count >= n
            },
            None => false,
        }
    }
}

/// Over a run of outputs with limit `k`, each allowed only while the counter
/// is not done and each adding one to the count (as `new` and
/// `record_output` state), the count is the number of outputs and never
/// exceeds `k`: at most `k` transactions are written, and the run ends with
/// the output that brings the count to `k`.
pub proof fn lemma_outputs_within_limit(counts: Seq<nat>, k: nat)
    requires
        counts.len() >= 1,
        counts[0] == 0,
        forall|i: int|
            0 <= i < counts.len() - 1 ==> #[trigger] counts[i] < k && counts[i + 1] == counts[i]
                + 1,
    ensures
        counts.last() == counts.len() - 1,
        counts.len() - 1 <= k,
        forall|i: int| 0 <= i < counts.len() - 1 ==> #[trigger] counts[i] < k,
    decreases counts.len(),
{
    if counts.len() > 1 {
        let prefix = counts.drop_last();
        assert forall|i: int| 0 <= i < prefix.len() - 1 implies #[trigger] prefix[i] < k
            && prefix[i + 1] == prefix[i] + 1 by {
            assert(prefix[i] == counts[i]);
            assert(prefix[i + 1] == counts[i + 1]);
        }
        lemma_outputs_within_limit(prefix, k);
        assert(prefix.last() == counts[counts.len() - 2]);
        assert(counts[counts.len() - 2] < k);
    }
}

} // verus!
