use memshark::filters::cache::CacheFilter;
use memshark::filters::calldata::{DataFilter, RegexFilter, SigFilter};
use memshark::filters::equality::{
    FromFilter, GasPriceFilter, MaxFeeFilter, NonceFilter, TipFilter, ToFilter, ValueFilter,
};
use memshark::filters::range::{
    GasPriceRangeFilter, NonceRangeFilter, TipRangeFilter, ValueRangeFilter,
};
use memshark::filters::{add_optional_filter, add_range_filter, Filter, Filters};
use memshark::tx::{zero_address, Address, Transaction};
use memshark::uint::U256;

fn addr(b: u8) -> Address {
    [b; 20]
}

fn num(v: u64) -> U256 {
    U256::from_u64(v)
}

fn sample_tx() -> Transaction {
    Transaction {
        hash: [7u8; 32],
        from: addr(1),
        to: Some(addr(2)),
        value: num(1000),
        nonce: num(5),
        gas_price: Some(num(30)),
        max_priority_fee_per_gas: Some(num(2)),
        max_fee_per_gas: Some(num(40)),
        input: vec![0xa9, 0x05, 0x9c, 0xbb, 0x00, 0x11],
    }
}

#[test]
fn to_filter_matches_recipient_and_creation() {
    let tx = sample_tx();
    assert!(ToFilter::new(addr(2)).apply(&tx));
    assert!(!ToFilter::new(addr(3)).apply(&tx));
    let mut creation = sample_tx();
    creation.to = None;
    assert!(ToFilter::new(zero_address()).apply(&creation));
    assert!(!ToFilter::new(addr(2)).apply(&creation));
}

#[test]
fn equality_filters_match_fields() {
    let tx = sample_tx();
    assert!(FromFilter::new(addr(1)).apply(&tx));
    assert!(!FromFilter::new(addr(2)).apply(&tx));
    assert!(ValueFilter::new(num(1000)).apply(&tx));
    assert!(!ValueFilter::new(num(999)).apply(&tx));
    assert!(NonceFilter::new(num(5)).apply(&tx));
    assert!(!NonceFilter::new(num(6)).apply(&tx));
    assert!(TipFilter::new(num(2)).apply(&tx));
    assert!(GasPriceFilter::new(num(30)).apply(&tx));
    assert!(MaxFeeFilter::new(num(40)).apply(&tx));
    assert!(!MaxFeeFilter::new(num(41)).apply(&tx));
}

#[test]
fn optional_field_filters_refuse_missing_fields() {
    let mut tx = sample_tx();
    tx.max_priority_fee_per_gas = None;
    tx.gas_price = None;
    tx.max_fee_per_gas = None;
    assert!(!TipFilter::new(num(2)).apply(&tx));
    assert!(!GasPriceFilter::new(num(30)).apply(&tx));
    assert!(!MaxFeeFilter::new(num(40)).apply(&tx));
    assert!(!TipRangeFilter::new(None, None).apply(&tx));
    assert!(!GasPriceRangeFilter::new(Some(num(1)), None).apply(&tx));
}

#[test]
fn range_filters_use_exclusive_bounds() {
    let tx = sample_tx();
    assert!(ValueRangeFilter::new(Some(num(999)), Some(num(1001))).apply(&tx));
    assert!(!ValueRangeFilter::new(Some(num(1000)), None).apply(&tx));
    assert!(!ValueRangeFilter::new(None, Some(num(1000))).apply(&tx));
    assert!(ValueRangeFilter::new(None, None).apply(&tx));
    assert!(NonceRangeFilter::new(Some(num(4)), None).apply(&tx));
    assert!(!NonceRangeFilter::new(None, Some(num(5))).apply(&tx));
    assert!(TipRangeFilter::new(Some(num(1)), Some(num(3))).apply(&tx));
    assert!(!TipRangeFilter::new(Some(num(2)), None).apply(&tx));
    assert!(GasPriceRangeFilter::new(None, Some(num(31))).apply(&tx));
    assert!(!GasPriceRangeFilter::new(Some(num(30)), None).apply(&tx));
}

#[test]
fn calldata_filters() {
    let tx = sample_tx();
    assert!(SigFilter::new([0xa9, 0x05, 0x9c, 0xbb]).apply(&tx));
    assert!(!SigFilter::new([0xa9, 0x05, 0x9c, 0xbc]).apply(&tx));
    let mut short = sample_tx();
    short.input = vec![0xa9, 0x05];
    assert!(!SigFilter::new([0xa9, 0x05, 0x9c, 0xbb]).apply(&short));
    assert!(DataFilter::new(vec![0xa9, 0x05, 0x9c, 0xbb, 0x00, 0x11]).apply(&tx));
    assert!(!DataFilter::new(vec![0xa9, 0x05, 0x9c, 0xbb]).apply(&tx));
}

#[test]
fn data_match_implies_selector_match() {
    let tx = sample_tx();
    let data = tx.input.clone();
    assert!(DataFilter::new(data.clone()).apply(&tx));
    assert!(SigFilter::new([data[0], data[1], data[2], data[3]]).apply(&tx));
}

#[test]
fn regex_filter_reads_lowercase_hex() {
    let tx = sample_tx();
    let f = RegexFilter::try_new(&"^a9059cbb".to_string()).unwrap();
    assert!(f.apply(&tx));
    let g = RegexFilter::new(&"0011$".to_string());
    assert!(g.apply(&tx));
    let h = RegexFilter::new(&"A9059CBB".to_string());
    assert!(!h.apply(&tx));
}

#[test]
fn regex_filter_refuses_bad_pattern() {
    assert!(RegexFilter::try_new(&"(".to_string()).is_none());
    assert!(RegexFilter::try_new(&"[a-".to_string()).is_none());
}

#[test]
fn fresh_cache_filter_refuses_everything() {
    let tx = sample_tx();
    assert!(!CacheFilter::new().apply(&tx));
}

#[test]
fn empty_filters_accept_everything() {
    let filters = Filters::new();
    assert!(filters.apply(&sample_tx()));
}

#[test]
fn filters_form_a_conjunction() {
    let tx = sample_tx();
    let mut filters = Filters::new();
    filters.add_filter(Filter::From(FromFilter::new(addr(1))));
    assert!(filters.apply(&tx));
    filters.add_filter(Filter::Value(ValueFilter::new(num(1000))));
    assert!(filters.apply(&tx));
    filters.add_filter(Filter::Nonce(NonceFilter::new(num(6))));
    assert!(!filters.apply(&tx));
}

#[test]
fn filter_order_does_not_matter() {
    let tx = sample_tx();
    let mut a = Filters::new();
    a.add_filter(Filter::To(ToFilter::new(addr(2))));
    a.add_filter(Filter::Nonce(NonceFilter::new(num(9))));
    let mut b = Filters::new();
    b.add_filter(Filter::Nonce(NonceFilter::new(num(9))));
    b.add_filter(Filter::To(ToFilter::new(addr(2))));
    assert_eq!(a.apply(&tx), b.apply(&tx));
    assert!(!a.apply(&tx));
}

#[test]
fn optional_and_range_helpers() {
    let tx = sample_tx();
    let mut filters = Filters::new();
    add_optional_filter(&mut filters, None::<Address>, |v| Filter::From(FromFilter::new(v)));
    add_range_filter(&mut filters, None::<U256>, None, |gt, lt| {
        Filter::ValueRange(ValueRangeFilter::new(gt, lt))
    });
    assert!(filters.apply(&tx));
    add_optional_filter(&mut filters, Some(addr(9)), |v| Filter::From(FromFilter::new(v)));
    assert!(!filters.apply(&tx));

    let mut ranged = Filters::new();
    add_range_filter(&mut ranged, Some(num(1000)), None, |gt, lt| {
        Filter::ValueRange(ValueRangeFilter::new(gt, lt))
    });
    assert!(!ranged.apply(&tx));
}
