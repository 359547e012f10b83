use vstd::prelude::*;

verus! {

/// Byte-wise equality of two slices.
pub fn bytes_eq(a: &[u8], b: &[u8]) -> (r: bool)
    ensures
        r == (a@ == b@),
{
    if a.len() != b.len() {
        return false;
    }
    let n = a.len();
    let mut i: usize = 0;
    while i < n
        invariant
            n == a@.len(),
            n == b@.len(),
            i <= n,
            forall|j: int| 0 <= j < i ==> a@[j] == b@[j],
        decreases n - i,
    {
        if a[i] != b[i] {
            return false;
        }
        i = i + 1;
    }
    assert(a@ =~= b@);
    true
}

/// Whether `data` begins with `prefix`.
pub fn bytes_start_with(data: &[u8], prefix: &[u8]) -> (r: bool)
    ensures
        r == prefix@.is_prefix_of(data@),
{
    if prefix.len() > data.len() {
        return false;
    }
    let n = prefix.len();
    let mut i: usize = 0;
    while i < n
        invariant
            n == prefix@.len(),
            n <= data@.len(),
            i <= n,
            forall|j: int| 0 <= j < i ==> prefix@[j] == data@[j],
        decreases n - i,
    {
        if prefix[i] != data[i] {
            assert(prefix@[i as int] != data@.subrange(0, n as int)[i as int]);
            return false;
        }
        i = i + 1;
    }
    assert(prefix@ =~= data@.subrange(0, n as int));
    true
}

/// The lowercase hex digit for a value below 16.
pub open spec fn hex_digit(n: int) -> char {
    if n < 10 {
        (48 + n) as char
    } else {
        (87 + n) as char
    }
}

/// The lowercase hex text of a byte string: two digits per byte, high
/// nibble first, no prefix.
pub open spec fn hex_text(data: Seq<u8>) -> Seq<char> {
    Seq::new(
        2 * data.len(),
        |i: int|
            if i % 2 == 0 {
                hex_digit(data[i / 2] as int / 16)
            } else {
                hex_digit(data[i / 2] as int % 16)
            },
    )
}

/// The value of one hex digit byte (`0-9`, `a-f`, `A-F`), if it is one.
pub open spec fn hex_nibble(c: u8) -> Option<int> {
    if 48 <= c <= 57 {
        Some(c - 48)
    } else if 97 <= c <= 102 {
        Some(c - 87)
    } else if 65 <= c <= 70 {
        Some(c - 55)
    } else {
        None
    }
}

/// Whether every byte is a hex digit.
pub open spec fn all_hex_digits(s: Seq<u8>) -> bool {
    forall|i: int| 0 <= i < s.len() ==> (#[trigger] hex_nibble(s[i])) is Some
}

/// `s` without a leading `0x` or `0X`.
pub open spec fn without_hex_prefix(s: Seq<u8>) -> Seq<u8> {
    if s.len() >= 2 && s[0] == 48 && (s[1] == 120 || s[1] == 88) {
        s.skip(2)
    } else {
        s
    }
}

/// The bytes that an even-length run of hex digits stands for.
pub open spec fn hex_pairs(t: Seq<u8>) -> Seq<u8> {
    Seq::new(
        t.len() / 2,
        |i: int| (hex_nibble(t[2 * i])->0 * 16 + hex_nibble(t[2 * i + 1])->0) as u8,
    )
}

/// Decoding of hex text given as bytes: the whole text must have even
/// length; a leading `0x`/`0X` is dropped; the rest must be hex digits.
pub open spec fn hex_decoded(s: Seq<u8>) -> Option<Seq<u8>> {
    let t = without_hex_prefix(s);
    if s.len() % 2 == 0 && all_hex_digits(t) {
        Some(hex_pairs(t))
    } else {
        None
    }
}

/// The bytes of ASCII text.
pub open spec fn ascii_bytes(cs: Seq<char>) -> Seq<u8> {
    Seq::new(cs.len(), |i: int| cs[i] as u8)
}

/// Decoding hex text gives back the bytes that were encoded.
pub proof fn lemma_hex_round_trip(data: Seq<u8>)
    ensures
        hex_decoded(ascii_bytes(hex_text(data))) == Some(data),
{
    let s = ascii_bytes(hex_text(data));
    assert forall|i: int| 0 <= i < s.len() implies #[trigger] hex_nibble(s[i]) is Some by {
        let b = data[i / 2];
        assert(b / 16 < 16 && b % 16 < 16);
    }
    if s.len() >= 2 && s[0] == 48 {
        assert(s[1] != 120 && s[1] != 88);
    }
    assert(without_hex_prefix(s) == s);
    assert forall|i: int| 0 <= i < data.len() implies #[trigger] hex_pairs(s)[i] == data[i] by {
        let b = data[i];
        assert(s[2 * i] == hex_text(data)[2 * i] as u8);
        assert((2 * i) / 2 == i && (2 * i) % 2 == 0);
        assert((2 * i + 1) / 2 == i && (2 * i + 1) % 2 == 1);
        assert(hex_nibble(s[2 * i])->0 == b / 16);
        assert(hex_nibble(s[2 * i + 1])->0 == b % 16);
    }
    assert(hex_pairs(s) =~= data);
}

/// Lowercase hex text of `data`, by `ethers::utils::hex::encode` (the
/// `const-hex` crate's `encode`). Trusted to give two lowercase digits per
/// byte, high nibble first, with no prefix, as that crate documents and
/// implements.
#[verifier::external_body]
pub(crate) fn hex_encode(data: &[u8]) -> (res: String)
    ensures
        res@ == hex_text(data@),
{
    ethers::utils::hex::encode(data)
}

/// Bytes of hex text, by `ethers::utils::hex::decode` (the `const-hex`
/// crate's `decode`). Trusted to fail on odd length (counted before a prefix
/// is dropped), to drop one leading `0x`/`0X`, to accept digits of either
/// case, to fail on any other byte, and otherwise to return one byte per
/// digit pair, as the crate's source does.
#[verifier::external_body]
pub(crate) fn hex_decode(text: &[u8]) -> (res: Option<Vec<u8>>)
    ensures
        match res {
            Some(v) => hex_decoded(text@) == Some(v@),
            None => hex_decoded(text@) is None,
        },
{
    match ethers::utils::hex::decode(text) {
        Ok(v) => Some(v),
        Err(_) => None,
    }
}

} // verus!
