use memshark::cmd::watch::{OutputMode, RpcOpts, TxArgs};
use memshark::process::{decide_transaction, tx_args_filters, OutputCounter, SetupError, TxStep};
use memshark::trace::{flatten_trace, some_call_selected, trace_matches, CallFrame, TraceError};
use memshark::tx::{Address, Transaction};
use memshark::uint::U256;

fn addr(b: u8) -> Address {
    [b; 20]
}

fn num(v: u64) -> U256 {
    U256::from_u64(v)
}

fn sample_tx() -> Transaction {
    Transaction {
        hash: [7u8; 32],
        from: addr(1),
        to: Some(addr(2)),
        value: num(1000),
        nonce: num(5),
        gas_price: Some(num(30)),
        max_priority_fee_per_gas: Some(num(2)),
        max_fee_per_gas: Some(num(40)),
        input: vec![0xa9, 0x05, 0x9c, 0xbb, 0x00, 0x11],
    }
}

fn no_args() -> TxArgs {
    TxArgs {
        n: None,
        with_missed: false,
        to: None,
        from: None,
        sig: None,
        data: None,
        data_re: None,
        value: None,
        value_gt: None,
        value_lt: None,
        nonce: None,
        nonce_gt: None,
        nonce_lt: None,
        tip: None,
        tip_gt: None,
        tip_lt: None,
        gas_price: None,
        gas_price_gt: None,
        gas_price_lt: None,
        touches: None,
        touches_sig: None,
        touches_data: None,
        output: OutputMode::Hash,
        rpc: RpcOpts { rpc_url: "ws://localhost:8546".to_string(), legacy: false },
    }
}

#[test]
fn no_options_pass_every_transaction() {
    let filters = tx_args_filters(&no_args()).unwrap();
    assert!(filters.apply(&sample_tx()));
}

#[test]
fn options_combine_into_one_conjunction() {
    let mut args = no_args();
    args.from = Some(addr(1));
    args.value_gt = Some(num(10));
    args.sig = Some("transfer(address,uint256)".to_string());
    args.data_re = Some("0011$".to_string());
    let filters = tx_args_filters(&args).unwrap();
    assert!(filters.apply(&sample_tx()));
    args.value_lt = Some(num(1000));
    let filters = tx_args_filters(&args).unwrap();
    assert!(!filters.apply(&sample_tx()));
}

#[test]
fn data_option_is_hex_of_the_calldata() {
    let mut args = no_args();
    args.data = Some("a9059cbb0011".to_string());
    assert!(tx_args_filters(&args).unwrap().apply(&sample_tx()));
    args.data = Some("0xA9059CBB0011".to_string());
    assert!(tx_args_filters(&args).unwrap().apply(&sample_tx()));
    args.data = Some("a9059cbb".to_string());
    assert!(!tx_args_filters(&args).unwrap().apply(&sample_tx()));
}

#[test]
fn setup_errors_come_in_option_order() {
    let mut args = no_args();
    args.sig = Some("((".to_string());
    args.data = Some("zz".to_string());
    args.data_re = Some("(".to_string());
    assert_eq!(tx_args_filters(&args).err(), Some(SetupError::InvalidSignature));
    args.sig = None;
    assert_eq!(tx_args_filters(&args).err(), Some(SetupError::InvalidHex));
    args.data = None;
    assert_eq!(tx_args_filters(&args).err(), Some(SetupError::InvalidRegex));
    args.data_re = None;
    assert!(tx_args_filters(&args).is_ok());
}

#[test]
fn decide_skips_outputs_or_traces() {
    let mut args = no_args();
    let tx = sample_tx();
    let filters = tx_args_filters(&args).unwrap();
    assert_eq!(decide_transaction(&filters, &None, &tx), TxStep::Output);
    assert_eq!(decide_transaction(&filters, &Some(addr(3)), &tx), TxStep::Trace);
    args.nonce = Some(num(99));
    let filters = tx_args_filters(&args).unwrap();
    assert_eq!(decide_transaction(&filters, &None, &tx), TxStep::Skip);
}

fn frame(to: Option<u8>, input: Vec<u8>, calls: Vec<CallFrame>) -> CallFrame {
    CallFrame { to: to.map(addr), input, calls }
}

#[test]
fn flatten_lists_calls_depth_first() {
    let root = frame(
        Some(1),
        vec![1],
        vec![
            frame(Some(2), vec![2], vec![frame(Some(3), vec![3], vec![])]),
            frame(None, vec![9], vec![frame(Some(4), vec![4], vec![])]),
            frame(Some(5), vec![5], vec![]),
        ],
    );
    let flat = flatten_trace(&root);
    let got: Vec<(u8, u8)> = flat.iter().map(|(a, i)| (a[0], i[0])).collect();
    assert_eq!(got, vec![(1, 1), (2, 2), (3, 3), (4, 4), (5, 5)]);
}

#[test]
fn trace_matches_tells_whether_some_call_is_picked() {
    let calls = vec![
        (addr(1), vec![0xa9, 0x05, 0x9c, 0xbb, 0x01]),
        (addr(2), vec![0xa9, 0x05, 0x9c, 0xbb, 0x02]),
        (addr(1), vec![0x12, 0x34]),
        (addr(1), vec![0xa9, 0x05, 0x9c, 0xbb, 0x03]),
    ];
    assert_eq!(trace_matches(&calls, &addr(1), &None, &None), Ok(true));
    assert_eq!(trace_matches(&calls, &addr(3), &None, &None), Ok(false));
    let sig = Some("transfer(address,uint256)".to_string());
    assert_eq!(trace_matches(&calls, &addr(1), &None, &sig), Ok(true));
    let approve = Some("approve(address,uint256)".to_string());
    assert_eq!(trace_matches(&calls, &addr(1), &None, &approve), Ok(false));
    let data = Some("1234".to_string());
    assert_eq!(trace_matches(&calls, &addr(1), &data, &None), Ok(true));
    assert_eq!(trace_matches(&calls, &addr(2), &data, &None), Ok(false));
    assert_eq!(trace_matches(&calls, &addr(1), &data, &sig), Ok(false));
    let prefixed = Some("0x1234".to_string());
    assert_eq!(trace_matches(&calls, &addr(1), &prefixed, &None), Ok(true));
    let not_hex = Some("12zz".to_string());
    assert_eq!(trace_matches(&calls, &addr(1), &not_hex, &None), Ok(false));
}

#[test]
fn trace_data_ignores_letter_case() {
    let calls = vec![(addr(1), vec![0xab, 0xcd])];
    let upper = Some("ABCD".to_string());
    assert_eq!(trace_matches(&calls, &addr(1), &upper, &None), Ok(true));
    let mixed = Some("aBcD".to_string());
    assert_eq!(trace_matches(&calls, &addr(1), &mixed, &None), Ok(true));
    let other = Some("ABCE".to_string());
    assert_eq!(trace_matches(&calls, &addr(1), &other, &None), Ok(false));
}

#[test]
fn trace_bad_signature_fails_only_when_used() {
    let calls = vec![(addr(1), vec![0x12, 0x34])];
    let bad = Some("((".to_string());
    assert_eq!(trace_matches(&calls, &addr(1), &None, &bad), Err(TraceError::InvalidSignature));
    assert_eq!(trace_matches(&calls, &addr(2), &None, &bad), Ok(false));
    let huge = Some("function f(uint8[99999999999999999999])".to_string());
    assert_eq!(trace_matches(&calls, &addr(1), &None, &huge), Err(TraceError::InvalidSignature));
    assert_eq!(trace_matches(&calls, &addr(2), &None, &huge), Ok(false));
}

#[test]
fn counter_ends_run_at_limit() {
    let mut c = OutputCounter::new(Some(2));
    assert!(!c.is_done());
    assert!(!c.record_output());
    assert!(!c.is_done());
    assert!(c.record_output());
    assert!(c.is_done());

    let zero = OutputCounter::new(Some(0));
    assert!(zero.is_done());

    let mut one = OutputCounter::new(Some(1));
    assert!(!one.is_done());
    assert!(one.record_output());
    assert!(one.is_done());

    let mut unlimited = OutputCounter::new(None);
    for _ in 0..5 {
        assert!(!unlimited.record_output());
    }
    assert!(!unlimited.is_done());
}

#[test]
fn signature_option_selects_by_selector() {
    let mut args = no_args();
    args.sig = Some("function transfer(address,uint256)".to_string());
    assert!(tx_args_filters(&args).unwrap().apply(&sample_tx()));
    args.sig = Some("transfer(address,uint256)".to_string());
    assert!(tx_args_filters(&args).unwrap().apply(&sample_tx()));
    args.sig = Some("approve(address,uint256)".to_string());
    assert!(!tx_args_filters(&args).unwrap().apply(&sample_tx()));
    args.sig = Some("not a signature (".to_string());
    assert_eq!(tx_args_filters(&args).err(), Some(SetupError::InvalidSignature));
}

#[test]
fn data_option_decoding_rules() {
    let mut args = no_args();
    let mut tx = sample_tx();
    tx.input = b"kiwi".to_vec();
    args.data = Some("0X6B697769".to_string());
    assert!(tx_args_filters(&args).unwrap().apply(&tx));
    args.data = Some("6b69776".to_string());
    assert_eq!(tx_args_filters(&args).err(), Some(SetupError::InvalidHex));
    args.data = Some("0x6b69776".to_string());
    assert_eq!(tx_args_filters(&args).err(), Some(SetupError::InvalidHex));
    args.data = Some("6g697769".to_string());
    assert_eq!(tx_args_filters(&args).err(), Some(SetupError::InvalidHex));
    tx.input = vec![];
    args.data = Some("0x".to_string());
    assert!(tx_args_filters(&args).unwrap().apply(&tx));
}

#[test]
fn hex_round_trip_through_data_and_regex() {
    let mut tx = sample_tx();
    tx.input = vec![0u8, 1, 0x7f, 0x80, 0xfe, 0xff, 0x0a];
    let mut args = no_args();
    args.data = Some("00017f80feff0a".to_string());
    args.data_re = None;
    assert!(tx_args_filters(&args).unwrap().apply(&tx));
    args.data = None;
    args.data_re = Some("^00017f80feff0a$".to_string());
    assert!(tx_args_filters(&args).unwrap().apply(&tx));
}

#[test]
fn some_call_with_given_selector_and_data() {
    let calls = vec![
        (addr(1), vec![0xde, 0xad, 0xbe, 0xef, 0x01]),
        (addr(1), vec![0xde, 0xad]),
        (addr(2), vec![0xde, 0xad, 0xbe, 0xef]),
    ];
    let sel = Some([0xde, 0xad, 0xbe, 0xef]);
    assert!(some_call_selected(&calls, &addr(1), &None, &sel));
    assert!(some_call_selected(&calls, &addr(1), &None, &None));
    assert!(some_call_selected(&calls, &addr(1), &Some(vec![0xde, 0xad]), &None));
    assert!(!some_call_selected(&calls, &addr(1), &Some(vec![0xde, 0xad]), &sel));
    assert!(!some_call_selected(&calls, &addr(1), &Some(vec![0xde, 0xad, 0xbe, 0xef]), &sel));
    assert!(some_call_selected(&calls, &addr(2), &Some(vec![0xde, 0xad, 0xbe, 0xef]), &sel));
    assert!(!some_call_selected(&calls, &addr(9), &None, &None));
}

#[test]
fn signature_with_oversized_array_is_refused() {
    let mut args = no_args();
    args.sig = Some("function f(uint8[99999999999999999999])".to_string());
    assert_eq!(tx_args_filters(&args).err(), Some(SetupError::InvalidSignature));
    args.sig = Some("function f(uint8[ 99999999999999999999 ])".to_string());
    assert_eq!(tx_args_filters(&args).err(), Some(SetupError::InvalidSignature));
    args.sig = Some("function f(uint8[3])".to_string());
    assert!(tx_args_filters(&args).is_ok());
    args.sig = Some("function f99999999999999999999(uint8[3])".to_string());
    assert!(tx_args_filters(&args).is_ok());
}

#[test]
fn at_most_limit_outputs_over_a_run() {
    for k in [0u64, 1, 3] {
        let mut counter = OutputCounter::new(Some(k));
        let mut written = 0u64;
        for _ in 0..10 {
            if counter.is_done() {
                break;
            }
            written += 1;
            if counter.record_output() {
                break;
            }
        }
        assert_eq!(written, k);
        assert!(counter.is_done());
    }
}

#[test]
fn signature_guard_checks_only_parsed_array_sizes() {
    let mut args = no_args();
    for accepted in [
        "function f(uint256 é99999999999999999999)",
        "function f() 99999999999999999999999",
        "function f() [99999999999999999999]",
        "function f(), (uint8[99999999999999999999])",
        "function f(uint8[18446744073709551615])",
        "function f() foo (uint8[99999999999999999999])",
        "function f() view public (uint8[99999999999999999999])",
        "function f() View (uint8[99999999999999999999])",
    ] {
        args.sig = Some(accepted.to_string());
        assert!(tx_args_filters(&args).is_ok(), "{}", accepted);
    }
    for refused in [
        "function f(uint8[99999999999999999999])",
        "function f((uint8[99999999999999999999],bool))",
        "function f() view returns (uint8[99999999999999999999])",
        "function f(uint8[\u{a0}99999999999999999999])",
        "function f() public pure virtual override returns(uint8[99999999999999999999])",
    ] {
        args.sig = Some(refused.to_string());
        assert_eq!(tx_args_filters(&args).err(), Some(SetupError::InvalidSignature), "{}", refused);
    }
}

#[test]
fn trace_accepts_signature_with_long_digits_outside_arrays() {
    let calls = vec![(addr(1), vec![0xa9, 0x05, 0x9c, 0xbb, 0x01])];
    let named = Some("function transfer(address é99999999999999999999, uint256)".to_string());
    assert_eq!(trace_matches(&calls, &addr(1), &None, &named), Ok(true));
    let trailing = Some("function transfer(address,uint256) 99999999999999999999999".to_string());
    assert_eq!(trace_matches(&calls, &addr(1), &None, &trailing), Ok(true));
}
