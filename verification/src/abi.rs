use vstd::prelude::*;
use vstd::string::StringSliceAdditionalSpecFns;
use crate::bytes::bytes_eq;
use crate::cmd::watch::is_dec_digit;

verus! {

/// The 4-byte selector of a human-readable function signature such as
/// `"function transfer(address,uint256)"`, or `None` when the text is not a
/// function signature.
pub uninterp spec fn function_selector(signature: Seq<char>) -> Option<Seq<u8>>;

/// Where a scan of a signature text stands after some of its bytes.
pub struct GuardScan {
    /// Past the part of the text that the parser can read.
    pub stopped: bool,
    /// An array size that does not fit in `usize` was found.
    pub failed: bool,
    /// How many parentheses are open.
    pub depth: nat,
    /// How many top-level parenthesised groups have been closed.
    pub closes: nat,
    /// Since the first group closed, only keywords in their order and
    /// whitespace were seen.
    pub between_ok: bool,
    /// The letters of the word being read after the first group.
    pub word: Seq<u8>,
    /// The rank of the last keyword read after the first group.
    pub last_rank: int,
    /// The last byte other than whitespace was `[`.
    pub after_bracket: bool,
    /// The current digits are an array size inside parentheses.
    pub in_run: bool,
    /// The value of those digits so far.
    pub value: nat,
}

/// A byte that the lexer skips or that can only belong to a non-ASCII
/// character: ASCII whitespace, or any byte of a multi-byte character.
pub open spec fn is_skippable_byte(b: u8) -> bool {
    (9 <= b <= 13) || b == 32 || b >= 128
}

/// An ASCII letter.
pub open spec fn is_letter_byte(b: u8) -> bool {
    (65 <= b <= 90) || (97 <= b <= 122)
}

/// The place of a keyword that may stand between a function's parameters
/// and its outputs: visibility (`internal`, `external`, `private`,
/// `public`), then mutability (`view`, `pure`, `payable`), then `virtual`,
/// `override`, `returns`; -1 for any other word.
pub open spec fn keyword_rank(w: Seq<u8>) -> int {
    if w == seq![105u8, 110, 116, 101, 114, 110, 97, 108] || w == seq![
        101u8,
        120,
        116,
        101,
        114,
        110,
        97,
        108,
    ] || w == seq![112u8, 114, 105, 118, 97, 116, 101] || w == seq![112u8, 117, 98, 108, 105, 99] {
        0
    } else if w == seq![118u8, 105, 101, 119] || w == seq![112u8, 117, 114, 101] || w == seq![
        112u8,
        97,
        121,
        97,
        98,
        108,
        101,
    ] {
        1
    } else if w == seq![118u8, 105, 114, 116, 117, 97, 108] {
        2
    } else if w == seq![111u8, 118, 101, 114, 114, 105, 100, 101] {
        3
    } else if w == seq![114u8, 101, 116, 117, 114, 110, 115] {
        4
    } else {
        -1
    }
}

/// Whether the word being read may follow the keywords read so far.
pub open spec fn word_fits(st: GuardScan) -> bool {
    st.word.len() == 0 || (keyword_rank(st.word) >= 0 && keyword_rank(st.word) > st.last_rank)
}

/// The scan before any byte.
pub open spec fn scan_start() -> GuardScan {
    GuardScan {
        stopped: false,
        failed: false,
        depth: 0,
        closes: 0,
        between_ok: true,
        word: Seq::empty(),
        last_rank: -1,
        after_bracket: false,
        in_run: false,
        value: 0,
    }
}

/// One byte of the scan. Array sizes are checked only where the parser can
/// parse them: digits right after `[` (whitespace between allowed) inside
/// the first top-level parenthesised group (the inputs), or inside the
/// second when only the keywords that the parser skips, in its order, and
/// whitespace lie between the two (the outputs). Outside that part, and
/// after a stray `)`, nothing more is checked.
pub open spec fn scan_step(st: GuardScan, b: u8) -> GuardScan {
    let at_gap = st.closes == 1 && st.depth == 0;
    if st.failed || st.stopped {
        st
    } else if is_dec_digit(b) {
        let d = (b - 48) as nat;
        if st.in_run {
            if st.value * 10 + d > usize::MAX {
                GuardScan { failed: true, ..st }
            } else {
                GuardScan { value: st.value * 10 + d, ..st }
            }
        } else if st.after_bracket && st.depth >= 1 {
            GuardScan { in_run: true, value: d, after_bracket: false, ..st }
        } else {
            GuardScan { after_bracket: false, between_ok: st.between_ok && !at_gap, ..st }
        }
    } else if b == 40 {
        if at_gap && !(st.between_ok && word_fits(st)) {
            GuardScan { stopped: true, in_run: false, ..st }
        } else {
            GuardScan {
                depth: st.depth + 1,
                after_bracket: false,
                in_run: false,
                word: Seq::empty(),
                ..st
            }
        }
    } else if b == 41 {
        if st.depth == 0 || (st.depth == 1 && st.closes >= 1) {
            GuardScan { stopped: true, in_run: false, ..st }
        } else if st.depth == 1 {
            GuardScan {
                depth: 0,
                closes: st.closes + 1,
                after_bracket: false,
                in_run: false,
                ..st
            }
        } else {
            GuardScan { depth: (st.depth - 1) as nat, after_bracket: false, in_run: false, ..st }
        }
    } else if b == 91 {
        GuardScan { after_bracket: true, in_run: false, between_ok: st.between_ok && !at_gap, ..st }
    } else if is_skippable_byte(b) {
        if at_gap && st.word.len() > 0 {
            if word_fits(st) {
                GuardScan {
                    in_run: false,
                    word: Seq::empty(),
                    last_rank: keyword_rank(st.word),
                    ..st
                }
            } else {
                GuardScan { in_run: false, word: Seq::empty(), between_ok: false, ..st }
            }
        } else {
            GuardScan { in_run: false, ..st }
        }
    } else if is_letter_byte(b) {
        if at_gap {
            GuardScan { after_bracket: false, in_run: false, word: st.word.push(b), ..st }
        } else {
            GuardScan { after_bracket: false, in_run: false, ..st }
        }
    } else {
        GuardScan {
            after_bracket: false,
            in_run: false,
            between_ok: st.between_ok && !at_gap,
            ..st
        }
    }
}

/// The scan after all bytes of `s`.
pub open spec fn scan(s: Seq<u8>) -> GuardScan
    decreases s.len(),
{
    if s.len() == 0 {
        scan_start()
    } else {
        scan_step(scan(s.drop_last()), s.last())
    }
}

/// Whether every fixed-array size that the signature parser can reach in
/// `s` fits in `usize` (see [`scan_step`]). Bytes of non-ASCII characters
/// are taken as whitespace, since some of them are; so a keyword glued to a
/// non-ASCII letter (which the parser reads as a plain name) still counts as
/// a keyword here, and the outputs after it are checked.
pub open spec fn array_sizes_fit(s: Seq<u8>) -> bool {
    !scan(s).failed
}

struct Scanner {
    stopped: bool,
    failed: bool,
    depth: usize,
    closes: u8,
    between_ok: bool,
    word: Vec<u8>,
    last_rank: i8,
    after_bracket: bool,
    in_run: bool,
    value: u128,
}

impl View for Scanner {
    type V = GuardScan;

    closed spec fn view(&self) -> GuardScan {
        GuardScan {
            stopped: self.stopped,
            failed: self.failed,
            depth: self.depth as nat,
            closes: self.closes as nat,
            between_ok: self.between_ok,
            word: self.word@,
            last_rank: self.last_rank as int,
            after_bracket: self.after_bracket,
            in_run: self.in_run,
            value: self.value as nat,
        }
    }
}

fn keyword_rank_of(w: &Vec<u8>) -> (r: i8)
    ensures
        r as int == keyword_rank(w@),
{
    let ws = w.as_slice();
    let internal: [u8; 8] = [105, 110, 116, 101, 114, 110, 97, 108];
    let external: [u8; 8] = [101, 120, 116, 101, 114, 110, 97, 108];
    let private: [u8; 7] = [112, 114, 105, 118, 97, 116, 101];
    let public: [u8; 6] = [112, 117, 98, 108, 105, 99];
    let view: [u8; 4] = [118, 105, 101, 119];
    let pure: [u8; 4] = [112, 117, 114, 101];
    let payable: [u8; 7] = [112, 97, 121, 97, 98, 108, 101];
    let virtual_: [u8; 7] = [118, 105, 114, 116, 117, 97, 108];
    let override_: [u8; 8] = [111, 118, 101, 114, 114, 105, 100, 101];
    let returns_: [u8; 7] = [114, 101, 116, 117, 114, 110, 115];
    proof {
        assert(internal@ =~= seq![105u8, 110, 116, 101, 114, 110, 97, 108]);
        assert(external@ =~= seq![101u8, 120, 116, 101, 114, 110, 97, 108]);
        assert(private@ =~= seq![112u8, 114, 105, 118, 97, 116, 101]);
        assert(public@ =~= seq![112u8, 117, 98, 108, 105, 99]);
        assert(view@ =~= seq![118u8, 105, 101, 119]);
        assert(pure@ =~= seq![112u8, 117, 114, 101]);
        assert(payable@ =~= seq![112u8, 97, 121, 97, 98, 108, 101]);
        assert(virtual_@ =~= seq![118u8, 105, 114, 116, 117, 97, 108]);
        assert(override_@ =~= seq![111u8, 118, 101, 114, 114, 105, 100, 101]);
        assert(returns_@ =~= seq![114u8, 101, 116, 117, 114, 110, 115]);
    }
    if bytes_eq(ws, internal.as_slice()) || bytes_eq(ws, external.as_slice()) || bytes_eq(
        ws,
        private.as_slice(),
    ) || bytes_eq(ws, public.as_slice()) {
        0
    } else if bytes_eq(ws, view.as_slice()) || bytes_eq(ws, pure.as_slice()) || bytes_eq(
        ws,
        payable.as_slice(),
    ) {
        1
    } else if bytes_eq(ws, virtual_.as_slice()) {
        2
    } else if bytes_eq(ws, override_.as_slice()) {
        3
    } else if bytes_eq(ws, returns_.as_slice()) {
        4
    } else {
        -1
    }
}

fn word_fits_now(st: &Scanner) -> (r: bool)
    ensures
        r == word_fits(st@),
{
    if st.word.len() == 0 {
        true
    } else {
        let rank = keyword_rank_of(&st.word);
        rank >= 0 && rank > st.last_rank
    }
}

fn scanner_step(st: &mut Scanner, b: u8)
    requires
        old(st).depth < usize::MAX,
        old(st).closes <= 1,
        old(st).value <= usize::MAX,
    ensures
        final(st)@ == scan_step(old(st)@, b),
        final(st).depth <= old(st).depth + 1,
        final(st).closes <= 1 || final(st).stopped,
        final(st).value <= usize::MAX,
{
    let at_gap = st.closes == 1 && st.depth == 0;
    if st.failed || st.stopped {
    } else if 48 <= b && b <= 57 {
        let d = (b - 48) as u128;
        if st.in_run {
            let v = st.value * 10 + d;
            if v > usize::MAX as u128 {
                st.failed = true;
            } else {
                st.value = v;
            }
        } else if st.after_bracket && st.depth >= 1 {
            st.in_run = true;
            st.value = d;
            st.after_bracket = false;
        } else {
            st.after_bracket = false;
            st.between_ok = st.between_ok && !at_gap;
        }
    } else if b == 40 {
        st.in_run = false;
        if at_gap && !(st.between_ok && word_fits_now(st)) {
            st.stopped = true;
        } else {
            st.depth = st.depth + 1;
            st.after_bracket = false;
            st.word = Vec::new();
        }
    } else if b == 41 {
        st.in_run = false;
        if st.depth == 0 || (st.depth == 1 && st.closes >= 1) {
            st.stopped = true;
        } else if st.depth == 1 {
            st.depth = 0;
            st.closes = st.closes + 1;
            st.after_bracket = false;
        } else {
            st.depth = st.depth - 1;
            st.after_bracket = false;
        }
    } else if b == 91 {
        st.after_bracket = true;
        st.in_run = false;
        st.between_ok = st.between_ok && !at_gap;
    } else if (9 <= b && b <= 13) || b == 32 || b >= 128 {
        st.in_run = false;
        if at_gap && st.word.len() > 0 {
            if word_fits_now(st) {
                st.last_rank = keyword_rank_of(&st.word);
            } else {
                st.between_ok = false;
            }
            st.word = Vec::new();
        }
    } else if (65 <= b && b <= 90) || (97 <= b && b <= 122) {
        st.after_bracket = false;
        st.in_run = false;
        if at_gap {
            st.word.push(b);
        }
    } else {
        st.after_bracket = false;
        st.in_run = false;
        st.between_ok = st.between_ok && !at_gap;
    }
}

/// Checks [`array_sizes_fit`] on the bytes of `s`.
pub fn array_sizes_fit_in(s: &str) -> (r: bool)
    ensures
        r == array_sizes_fit(s.spec_bytes()),
{
    let b = s.as_bytes();
    let ghost t = b@;
    let n = b.len();
    let mut st = Scanner {
        stopped: false,
        failed: false,
        depth: 0,
        closes: 0,
        between_ok: true,
        word: Vec::new(),
        last_rank: -1,
        after_bracket: false,
        in_run: false,
        value: 0,
    };
    let mut i: usize = 0;
    proof {
        assert(t.take(0) =~= Seq::<u8>::empty());
        assert(st@ =~= scan_start());
    }
    while i < n
        invariant
            t == b@,
            b@ == s.spec_bytes(),
            n == t.len(),
            i <= n,
            st@ == scan(t.take(i as int)),
            st.depth <= i,
            st.closes <= 1 || st.stopped,
            st.value <= usize::MAX,
        decreases n - i,
    {
        if st.stopped || st.failed {
            proof {
                lemma_scan_settled(t, i as int);
            }
            assert(t.take(n as int) =~= t);
            return !st.failed;
        }
        scanner_step(&mut st, b[i]);
        proof {
            assert(t.take(i + 1).drop_last() =~= t.take(i as int));
            assert(t.take(i + 1).last() == t[i as int]);
        }
        i = i + 1;
    }
    assert(t.take(n as int) =~= t);
    !st.failed
}

/// Once a scan has stopped or failed, later bytes leave it as it is.
proof fn lemma_scan_settled(t: Seq<u8>, i: int)
    requires
        0 <= i <= t.len(),
        scan(t.take(i)).stopped || scan(t.take(i)).failed,
    ensures
        scan(t) == scan(t.take(i)),
    decreases t.len() - i,
{
    if i < t.len() {
        assert(t.take(i + 1).drop_last() =~= t.take(i));
        lemma_scan_settled(t, i + 1);
    } else {
        assert(t.take(i) =~= t);
    }
}

/// Parses `signature` with `ethers::abi::HumanReadableParser::parse_function`
/// and takes the parsed function's `short_signature` (the first four bytes of
/// the Keccak-256 hash of its canonical signature). The parser panics only
/// when the size of a fixed array (a run of digits after `[` inside the
/// input or output parameters) does not fit in `usize`; [`array_sizes_fit`]
/// rules that out. Trusted: the result is
/// [`function_selector`] of the text, a name that is not described further;
/// `None` stands for the parser's error.
#[verifier::external_body]
pub(crate) fn parse_function_selector(signature: &str) -> (res: Option<[u8; 4]>)
    requires
        array_sizes_fit(signature.spec_bytes()),
    ensures
        match res {
            Some(s) => function_selector(signature@) == Some(s@),
            None => function_selector(signature@) is None,
        },
{
    match ethers::abi::HumanReadableParser::parse_function(signature) {
        Ok(f) => Some(f.short_signature()),
        Err(_) => None,
    }
}

} // verus!
