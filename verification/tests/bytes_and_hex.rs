use memshark::bytes::{bytes_eq, bytes_start_with};
use memshark::filters::calldata::RegexFilter;
use memshark::tx::Transaction;
use memshark::uint::U256;

fn tx_with_input(input: Vec<u8>) -> Transaction {
    Transaction {
        hash: [0u8; 32],
        from: [1u8; 20],
        to: None,
        value: U256::zero(),
        nonce: U256::zero(),
        gas_price: None,
        max_priority_fee_per_gas: None,
        max_fee_per_gas: None,
        input,
    }
}

fn regex_accepts(pattern: &str, input: Vec<u8>) -> bool {
    RegexFilter::try_new(&pattern.to_string()).unwrap().apply(&tx_with_input(input))
}

#[test]
fn bytes_eq_and_prefix() {
    assert!(bytes_eq(&[1, 2, 3], &[1, 2, 3]));
    assert!(!bytes_eq(&[1, 2, 3], &[1, 2]));
    assert!(!bytes_eq(&[1, 2, 3], &[1, 2, 4]));
    assert!(bytes_start_with(&[1, 2, 3], &[1, 2]));
    assert!(bytes_start_with(&[1, 2, 3], &[]));
    assert!(!bytes_start_with(&[1, 2], &[1, 2, 3]));
    assert!(!bytes_start_with(&[1, 2, 3], &[2]));
}

#[test]
fn calldata_text_is_lowercase_hex_without_prefix() {
    assert!(regex_accepts("^6b697769$", b"kiwi".to_vec()));
    assert!(regex_accepts("^00abff$", vec![0x00, 0xab, 0xff]));
    assert!(!regex_accepts("AB", vec![0x00, 0xab, 0xff]));
    assert!(!regex_accepts("^0x", vec![0x00, 0xab, 0xff]));
    assert!(regex_accepts("^$", vec![]));
    assert!(!regex_accepts("kiwi", b"kiwi".to_vec()));
}
