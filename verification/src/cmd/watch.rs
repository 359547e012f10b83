use vstd::prelude::*;
use vstd::string::StringSliceAdditionalSpecFns;
use crate::bytes::{all_hex_digits, hex_nibble};
use crate::tx::Address;
use crate::uint::{u256_bound, u64_bound, U256};

verus! {

/// Whether a byte is an ASCII decimal digit.
pub open spec fn is_dec_digit(b: u8) -> bool {
    48 <= b <= 57
}

/// The number that a run of decimal digits stands for.
pub open spec fn dec_value(s: Seq<u8>) -> nat
    decreases s.len(),
{
    if s.len() == 0 {
        0
    } else {
        dec_value(s.drop_last()) * 10 + (s.last() - 48) as nat
    }
}

/// Decimal text: every byte a digit (the empty text stands for zero) and
/// the value below `bound`.
pub open spec fn dec_parsed(s: Seq<u8>, bound: nat) -> Option<nat> {
    if (forall|i: int| 0 <= i < s.len() ==> #[trigger] is_dec_digit(s[i])) && dec_value(s)
        < bound {
        Some(dec_value(s))
    } else {
        None
    }
}

/// The number that a run of hex digits stands for, most significant first.
pub open spec fn hex_value(s: Seq<u8>) -> nat
    decreases s.len(),
{
    if s.len() == 0 {
        0
    } else {
        hex_value(s.drop_last()) * 16 + hex_nibble(s.last())->0 as nat
    }
}

/// Whether text begins with the two bytes `0x`.
pub open spec fn has_0x(s: Seq<u8>) -> bool {
    s.len() >= 2 && s[0] == 48 && s[1] == 120
}

/// Hex text of a `words`-limb number: one leading `0x` is dropped, then at
/// most `16 * words` digits of either case (none stands for zero).
pub open spec fn hex_parsed(s: Seq<u8>, words: nat) -> Option<nat> {
    let t = if has_0x(s) {
        s.skip(2)
    } else {
        s
    };
    if t.len() <= 16 * words && all_hex_digits(t) {
        Some(hex_value(t))
    } else {
        None
    }
}

/// What a numeric argument stands for: hex after a `0x` prefix, decimal
/// otherwise.
pub open spec fn number_arg(s: Seq<u8>, words: nat, bound: nat) -> Option<nat> {
    if has_0x(s) {
        hex_parsed(s, words)
    } else {
        dec_parsed(s, bound)
    }
}

/// Why a numeric argument was refused.
#[derive(Clone, Copy, Debug, PartialEq, Eq)]
pub enum NumberError {
    /// The text began with `0x` and is not valid hex of the right size.
    InvalidHex,
    /// The text is not decimal digits of a value that fits.
    InvalidDecimal,
}

/// `U256::from_dec_str` of `ethers::types` (the `uint` crate). Trusted: it
/// accepts exactly the texts whose bytes are all decimal digits with a value
/// below 2^256, and returns that value, as the crate's source does.
#[verifier::external_body]
fn u256_from_dec_str(s: &str) -> (res: Option<U256>)
    ensures
        match res {
            Some(v) => dec_parsed(s.spec_bytes(), u256_bound()) == Some(v@),
            None => dec_parsed(s.spec_bytes(), u256_bound()) is None,
        },
{
    match ethers::types::U256::from_dec_str(s) {
        Ok(v) => Some(U256(v.0)),
        Err(_) => None,
    }
}

/// `U256::from_str` of `ethers::types` (the `uint` crate's hex parser).
/// Trusted: it drops one leading `0x`, accepts at most 64 hex digits of
/// either case and returns their value, as the crate's source does.
#[verifier::external_body]
fn u256_from_hex_str(s: &str) -> (res: Option<U256>)
    ensures
        match res {
            Some(v) => hex_parsed(s.spec_bytes(), 4) == Some(v@),
            None => hex_parsed(s.spec_bytes(), 4) is None,
        },
{
    match s.parse::<ethers::types::U256>() {
        Ok(v) => Some(U256(v.0)),
        Err(_) => None,
    }
}

/// `U64::from_dec_str` of `ethers::types` (the `uint` crate). Trusted: it
/// accepts exactly the texts whose bytes are all decimal digits with a value
/// below 2^64, and returns that value.
#[verifier::external_body]
fn u64_from_dec_str(s: &str) -> (res: Option<u64>)
    ensures
        match res {
            Some(v) => dec_parsed(s.spec_bytes(), u64_bound()) == Some(v as nat),
            None => dec_parsed(s.spec_bytes(), u64_bound()) is None,
        },
{
    match ethers::types::U64::from_dec_str(s) {
        Ok(v) => Some(v.0[0]),
        Err(_) => None,
    }
}

/// `U64::from_str` of `ethers::types` (the `uint` crate's hex parser).
/// Trusted: it drops one leading `0x`, accepts at most 16 hex digits of
/// either case and returns their value.
#[verifier::external_body]
fn u64_from_hex_str(s: &str) -> (res: Option<u64>)
    ensures
        match res {
            Some(v) => hex_parsed(s.spec_bytes(), 1) == Some(v as nat),
            None => hex_parsed(s.spec_bytes(), 1) is None,
        },
{
    match s.parse::<ethers::types::U64>() {
        Ok(v) => Some(v.0[0]),
        Err(_) => None,
    }
}

fn starts_with_0x(s: &str) -> (r: bool)
    ensures
        r == has_0x(s.spec_bytes()),
{
    let b = s.as_bytes();
    b.len() >= 2 && b[0] == 48u8 && b[1] == 120u8
}

/// Parses a hex (`0x`-prefixed) or decimal number of at most 64 bits.
pub fn parse_u64(s: &str) -> (res: Result<u64, NumberError>)
    ensures
        match res {
            Ok(v) => number_arg(s.spec_bytes(), 1, u64_bound()) == Some(v as nat),
            Err(e) => {
                &&& number_arg(s.spec_bytes(), 1, u64_bound()) is None
                &&& e == (if has_0x(s.spec_bytes()) {
                    NumberError::InvalidHex
                } else {
                    NumberError::InvalidDecimal
                })
            },
        },
{
    if starts_with_0x(s) {
        match u64_from_hex_str(s) {
            Some(v) => Ok(v),
            None => Err(NumberError::InvalidHex),
        }
    } else {
        match u64_from_dec_str(s) {
            Some(v) => Ok(v),
            None => Err(NumberError::InvalidDecimal),
        }
    }
}

/// Parses a hex (`0x`-prefixed) or decimal number of at most 256 bits.
pub fn parse_u256(s: &str) -> (res: Result<U256, NumberError>)
    ensures
        match res {
            Ok(v) => number_arg(s.spec_bytes(), 4, u256_bound()) == Some(v@),
            Err(e) => {
                &&& number_arg(s.spec_bytes(), 4, u256_bound()) is None
                &&& e == (if has_0x(s.spec_bytes()) {
                    NumberError::InvalidHex
                } else {
                    NumberError::InvalidDecimal
                })
            },
        },
{
    if starts_with_0x(s) {
        match u256_from_hex_str(s) {
            Some(v) => Ok(v),
            None => Err(NumberError::InvalidHex),
        }
    } else {
        match u256_from_dec_str(s) {
            Some(v) => Ok(v),
            None => Err(NumberError::InvalidDecimal),
        }
    }
}

/// The decimal text of a number: its digits, most significant first, with
/// no leading zeros (`0` for zero).
pub open spec fn dec_text(v: nat) -> Seq<u8>
    decreases v,
{
    if v < 10 {
        seq![(48 + v) as u8]
    } else {
        dec_text(v / 10).push((48 + v % 10) as u8)
    }
}

/// The byte of a lowercase hex digit.
pub open spec fn hex_digit_byte(d: nat) -> u8 {
    if d < 10 {
        (48 + d) as u8
    } else {
        (87 + d) as u8
    }
}

/// The lowercase hex digits of a number, most significant first, with no
/// leading zeros (`0` for zero).
pub open spec fn hex_text_of(v: nat) -> Seq<u8>
    decreases v,
{
    if v < 16 {
        seq![hex_digit_byte(v)]
    } else {
        hex_text_of(v / 16).push(hex_digit_byte(v % 16))
    }
}

/// 16 to the power `k`.
pub open spec fn pow16(k: nat) -> nat
    decreases k,
{
    if k == 0 {
        1
    } else {
        16 * pow16((k - 1) as nat)
    }
}

proof fn lemma_dec_text(v: nat)
    ensures
        forall|k: int| 0 <= k < dec_text(v).len() ==> #[trigger] is_dec_digit(dec_text(v)[k]),
        dec_value(dec_text(v)) == v,
        dec_text(v).len() >= 1,
    decreases v,
{
    let t = dec_text(v);
    if v < 10 {
        assert(t.drop_last() =~= Seq::<u8>::empty());
        assert(t.last() == (48 + v) as u8);
        assert(dec_value(t) == dec_value(t.drop_last()) * 10 + (t.last() - 48) as nat);
    } else {
        lemma_dec_text(v / 10);
        assert(t.drop_last() =~= dec_text(v / 10));
        assert(t.last() == (48 + v % 10) as u8);
        assert(dec_value(t) == dec_value(t.drop_last()) * 10 + (t.last() - 48) as nat);
        assert((v / 10) * 10 + v % 10 == v);
        assert forall|k: int| 0 <= k < t.len() implies #[trigger] is_dec_digit(t[k]) by {
            if k < t.len() - 1 {
                assert(t[k] == dec_text(v / 10)[k]);
            }
        }
    }
}

proof fn lemma_hex_text(v: nat)
    ensures
        all_hex_digits(hex_text_of(v)),
        hex_value(hex_text_of(v)) == v,
        hex_text_of(v).len() >= 1,
    decreases v,
{
    let t = hex_text_of(v);
    if v < 16 {
        assert(t.drop_last() =~= Seq::<u8>::empty());
        assert(t.last() == hex_digit_byte(v));
        assert(hex_nibble(t.last())->0 == v);
        assert(hex_value(t) == hex_value(t.drop_last()) * 16 + hex_nibble(t.last())->0 as nat);
    } else {
        lemma_hex_text(v / 16);
        assert(t.drop_last() =~= hex_text_of(v / 16));
        assert(t.last() == hex_digit_byte(v % 16));
        assert(hex_nibble(t.last())->0 == v % 16);
        assert(hex_value(t) == hex_value(t.drop_last()) * 16 + hex_nibble(t.last())->0 as nat);
        assert((v / 16) * 16 + v % 16 == v);
        assert forall|k: int| 0 <= k < t.len() implies (#[trigger] hex_nibble(t[k])) is Some by {
            if k < t.len() - 1 {
                assert(t[k] == hex_text_of(v / 16)[k]);
            }
        }
    }
}

proof fn lemma_hex_text_len(v: nat, k: nat)
    requires
        k >= 1,
        v < pow16(k),
    ensures
        hex_text_of(v).len() <= k,
    decreases v,
{
    if v >= 16 {
        let k1 = (k - 1) as nat;
        if k1 == 0 {
            assert(pow16(1) == 16) by {
                reveal_with_fuel(pow16, 2);
            }
        }
        assert(v / 16 < pow16(k1)) by (nonlinear_arith)
            requires
                v < 16 * pow16(k1),
        ;
        lemma_hex_text_len(v / 16, k1);
    }
}

/// Writing a number below 2^256 in decimal, or in lowercase hex after `0x`,
/// and parsing that text as a 256-bit argument gives the number back.
pub proof fn lemma_number_text_round_trip(v: nat)
    requires
        v < u256_bound(),
    ensures
        number_arg(dec_text(v), 4, u256_bound()) == Some(v),
        number_arg(seq![48u8, 120u8] + hex_text_of(v), 4, u256_bound()) == Some(v),
{
    lemma_dec_text(v);
    let d = dec_text(v);
    if d.len() >= 2 {
        assert(is_dec_digit(d[1]));
    }
    assert(!has_0x(d));
    lemma_hex_text(v);
    assert(pow16(64) == u256_bound()) by {
        reveal_with_fuel(pow16, 65);
    }
    lemma_hex_text_len(v, 64);
    let s = seq![48u8, 120u8] + hex_text_of(v);
    assert(has_0x(s));
    assert(s.skip(2) =~= hex_text_of(v));
}

/// `str::strip_prefix`: the rest of `s` after `prefix`, if `s` begins with
/// it. Trusted to behave as the standard library documents.
#[verifier::external_body]
fn str_strip_prefix<'a>(s: &'a str, prefix: &str) -> (res: Option<&'a str>)
    ensures
        match res {
            Some(rest) => s@ == prefix@ + rest@,
            None => !prefix@.is_prefix_of(s@),
        },
{
    s.strip_prefix(prefix)
}

/// The text of `s` after one leading `0x`, or all of `s` when there is none.
pub open spec fn without_0x(s: Seq<char>) -> Seq<char> {
    if seq!['0', 'x'].is_prefix_of(s) {
        s.skip(2)
    } else {
        s
    }
}

/// Drops one leading `0x`; never fails.
pub fn strip_0x_prefix(s: &str) -> (res: Result<String, &'static str>)
    ensures
        res matches Ok(r) && r@ == without_0x(s@),
{
    proof {
        reveal_strlit("0x");
    }
    let rest = match str_strip_prefix(s, "0x") {
        Some(rest) => {
            assert(s@.skip(2) =~= rest@);
            rest
        },
        None => {
            assert(!seq!['0', 'x'].is_prefix_of(s@)) by {
                assert("0x"@ =~= seq!['0', 'x']);
            }
            s
        },
    };
    Ok(rest.to_owned())
}

/// How to reach the node.
pub struct RpcOpts {
    pub rpc_url: String,
    pub legacy: bool,
}

/// How each selected transaction is written out.
#[derive(Clone, Copy, Debug, PartialEq, Eq)]
pub enum OutputMode {
    Rlp,
    Hash,
    Json,
}

/// The options of the `tx` command.
pub struct TxArgs {
    pub n: Option<u64>,
    pub with_missed: bool,
    pub to: Option<Address>,
    pub from: Option<Address>,
    pub sig: Option<String>,
    pub data: Option<String>,
    pub data_re: Option<String>,
    pub value: Option<U256>,
    pub value_gt: Option<U256>,
    pub value_lt: Option<U256>,
    pub nonce: Option<U256>,
    pub nonce_gt: Option<U256>,
    pub nonce_lt: Option<U256>,
    pub tip: Option<U256>,
    pub tip_gt: Option<U256>,
    pub tip_lt: Option<U256>,
    pub gas_price: Option<U256>,
    pub gas_price_gt: Option<U256>,
    pub gas_price_lt: Option<U256>,
    pub touches: Option<Address>,
    pub touches_sig: Option<String>,
    pub touches_data: Option<String>,
    pub output: OutputMode,
    pub rpc: RpcOpts,
}

/// The options of the `block` command.
pub struct BlockArgs {
    pub number: Option<u64>,
    pub rpc: RpcOpts,
}

/// The subcommands.
pub enum Command {
    WithBlock(BlockArgs),
    Tx(TxArgs),
}

/// The command line.
pub struct App {
    pub command: Command,
}

} // verus!
