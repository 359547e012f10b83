use memshark::cmd::watch::{parse_u256, parse_u64, strip_0x_prefix, NumberError};
use memshark::uint::U256;

fn value(v: U256) -> (u64, u64, u64, u64) {
    (v.0[0], v.0[1], v.0[2], v.0[3])
}

#[test]
fn parse_u256_decimal() {
    assert_eq!(value(parse_u256("1000").unwrap()), (1000, 0, 0, 0));
    assert_eq!(value(parse_u256("18446744073709551616").unwrap()), (0, 1, 0, 0));
    assert_eq!(value(parse_u256("").unwrap()), (0, 0, 0, 0));
    assert_eq!(parse_u256("12a"), Err(NumberError::InvalidDecimal));
    assert_eq!(parse_u256("-1"), Err(NumberError::InvalidDecimal));
    assert_eq!(parse_u256("0X10"), Err(NumberError::InvalidDecimal));
    let max = "115792089237316195423570985008687907853269984665640564039457584007913129639935";
    assert_eq!(value(parse_u256(max).unwrap()), (u64::MAX, u64::MAX, u64::MAX, u64::MAX));
    let too_big = "115792089237316195423570985008687907853269984665640564039457584007913129639936";
    assert_eq!(parse_u256(too_big), Err(NumberError::InvalidDecimal));
}

#[test]
fn parse_u256_hex() {
    assert_eq!(value(parse_u256("0xff").unwrap()), (255, 0, 0, 0));
    assert_eq!(value(parse_u256("0xFf").unwrap()), (255, 0, 0, 0));
    assert_eq!(value(parse_u256("0xabc").unwrap()), (0xabc, 0, 0, 0));
    assert_eq!(value(parse_u256("0x").unwrap()), (0, 0, 0, 0));
    assert_eq!(value(parse_u256("0x10000000000000000").unwrap()), (0, 1, 0, 0));
    let digits64 = format!("0x{}", "f".repeat(64));
    assert_eq!(value(parse_u256(&digits64).unwrap()), (u64::MAX, u64::MAX, u64::MAX, u64::MAX));
    let digits65 = format!("0x{}", "0".repeat(65));
    assert_eq!(parse_u256(&digits65), Err(NumberError::InvalidHex));
    assert_eq!(parse_u256("0xzz"), Err(NumberError::InvalidHex));
}

#[test]
fn parse_u64_both_forms() {
    assert_eq!(parse_u64("18446744073709551615"), Ok(u64::MAX));
    assert_eq!(parse_u64("18446744073709551616"), Err(NumberError::InvalidDecimal));
    assert_eq!(parse_u64("0x1f"), Ok(31));
    assert_eq!(parse_u64("0xffffffffffffffff"), Ok(u64::MAX));
    assert_eq!(parse_u64("0x10000000000000000"), Err(NumberError::InvalidHex));
    assert_eq!(parse_u64("7"), Ok(7));
}

#[test]
fn strip_0x_prefix_drops_one_prefix() {
    assert_eq!(strip_0x_prefix("0xabc"), Ok("abc".to_string()));
    assert_eq!(strip_0x_prefix("abc"), Ok("abc".to_string()));
    assert_eq!(strip_0x_prefix("0x0xab"), Ok("0xab".to_string()));
    assert_eq!(strip_0x_prefix("0X12"), Ok("0X12".to_string()));
    assert_eq!(strip_0x_prefix("0x"), Ok("".to_string()));
    assert_eq!(strip_0x_prefix(""), Ok("".to_string()));
}

#[test]
fn rendered_numbers_parse_back() {
    for text in ["0", "7", "1000", "18446744073709551616", "115792089237316195423570985008687907853269984665640564039457584007913129639935"] {
        let n = ethers::types::U256::from_dec_str(text).unwrap();
        let dec = n.to_string();
        let hex = format!("{:#x}", n);
        assert_eq!(parse_u256(&dec).map(|v| v.0), Ok(n.0));
        assert_eq!(parse_u256(&hex).map(|v| v.0), Ok(n.0));
    }
}
