use vstd::prelude::*;
use vstd::utf8::encode_utf8;
use crate::abi::{array_sizes_fit, array_sizes_fit_in, function_selector, parse_function_selector};
use crate::bytes::{bytes_eq, bytes_start_with, hex_decode, hex_decoded};
use crate::tx::{address_eq, Address};

verus! {

/// One call in an execution trace, with the calls that it made in turn.
pub struct CallFrame {
    /// The called account; `None` when the trace names none (a creation).
    pub to: Option<Address>,
    pub input: Vec<u8>,
    pub calls: Vec<CallFrame>,
}

/// The (callee, calldata) pairs of a call and of all calls below it, each
/// call before the calls it made, sibling calls in order; calls without a
/// callee are left out.
pub open spec fn frame_calls(f: CallFrame) -> Seq<(Seq<u8>, Seq<u8>)>
    decreases f,
{
    let own = if f.to is Some {
        seq![(f.to->0@, f.input@)]
    } else {
        Seq::empty()
    };
    own + frames_calls(f.calls@)
}

/// [`frame_calls`] of each frame, concatenated in order.
pub open spec fn frames_calls(fs: Seq<CallFrame>) -> Seq<(Seq<u8>, Seq<u8>)>
    decreases fs,
{
    if fs.len() == 0 {
        Seq::empty()
    } else {
        frames_calls(fs.drop_last()) + frame_calls(fs.last())
    }
}

proof fn lemma_frames_include(fs: Seq<CallFrame>, i: int)
    requires
        0 <= i < fs.len(),
    ensures
        forall|k: int|
            0 <= k < frame_calls(fs[i]).len() ==> frames_calls(fs).contains(
                #[trigger] frame_calls(fs[i])[k],
            ),
    decreases fs.len(),
{
    let prefix = frames_calls(fs.drop_last());
    let whole = frames_calls(fs);
    assert(whole == prefix + frame_calls(fs.last()));
    if i == fs.len() - 1 {
        assert forall|k: int| 0 <= k < frame_calls(fs[i]).len() implies whole.contains(
            #[trigger] frame_calls(fs[i])[k],
        ) by {
            assert(whole[prefix.len() + k] == frame_calls(fs[i])[k]);
        }
    } else {
        lemma_frames_include(fs.drop_last(), i);
        assert(fs.drop_last()[i] == fs[i]);
        assert forall|k: int| 0 <= k < frame_calls(fs[i]).len() implies whole.contains(
            #[trigger] frame_calls(fs[i])[k],
        ) by {
            let x = frame_calls(fs[i])[k];
            assert(prefix.contains(x));
            let j = choose|j: int| 0 <= j < prefix.len() && prefix[j] == x;
            assert(whole[j] == x);
        }
    }
}

/// Every call made at any depth below a call is among that call's
/// flattened calls: a call made by the `i`-th direct sub-call (or by any
/// call below it) is listed for the whole frame.
pub proof fn lemma_nested_calls_included(f: CallFrame, i: int)
    requires
        0 <= i < f.calls@.len(),
    ensures
        forall|k: int|
            0 <= k < frame_calls(f.calls@[i]).len() ==> frame_calls(f).contains(
                #[trigger] frame_calls(f.calls@[i])[k],
            ),
{
    lemma_frames_include(f.calls@, i);
    let own: Seq<(Seq<u8>, Seq<u8>)> = if f.to is Some {
        seq![(f.to->0@, f.input@)]
    } else {
        Seq::empty()
    };
    let rest = frames_calls(f.calls@);
    assert(frame_calls(f) == own + rest);
    assert forall|k: int| 0 <= k < frame_calls(f.calls@[i]).len() implies frame_calls(f).contains(
        #[trigger] frame_calls(f.calls@[i])[k],
    ) by {
        let x = frame_calls(f.calls@[i])[k];
        assert(rest.contains(x));
        let j = choose|j: int| 0 <= j < rest.len() && rest[j] == x;
        assert(frame_calls(f)[own.len() + j] == x);
    }
}

/// A call reached from `f` by following `path`: each entry picks a call
/// made by the call reached so far.
pub open spec fn frame_at(f: CallFrame, path: Seq<int>) -> Option<CallFrame>
    decreases path.len(),
{
    if path.len() == 0 {
        Some(f)
    } else if 0 <= path[0] < f.calls@.len() {
        frame_at(f.calls@[path[0]], path.drop_first())
    } else {
        None
    }
}

/// A call with a callee is listed first among its own flattened calls, with
/// its calldata as it is, empty or not.
pub proof fn lemma_own_call_first(f: CallFrame)
    requires
        f.to is Some,
    ensures
        frame_calls(f).len() >= 1,
        frame_calls(f)[0] == (f.to->0@, f.input@),
{
}

/// Every call with a callee, at any depth of a trace, is listed with its
/// callee and calldata among the trace's flattened calls.
pub proof fn lemma_every_call_listed(f: CallFrame, path: Seq<int>)
    requires
        frame_at(f, path) matches Some(g) && g.to is Some,
    ensures
        frame_calls(f).contains((frame_at(f, path)->0.to->0@, frame_at(f, path)->0.input@)),
    decreases path.len(),
{
    let g = frame_at(f, path)->0;
    let x = (g.to->0@, g.input@);
    if path.len() == 0 {
        lemma_own_call_first(f);
        assert(frame_calls(f)[0] == x);
    } else {
        let i = path[0];
        let c = f.calls@[i];
        assert(frame_at(c, path.drop_first()) == frame_at(f, path));
        lemma_every_call_listed(c, path.drop_first());
        let k = choose|k: int| 0 <= k < frame_calls(c).len() && frame_calls(c)[k] == x;
        lemma_nested_calls_included(f, i);
        assert(frame_calls(c)[k] == x);
    }
}

/// The (callee, calldata) pairs of a list, as plain values.
pub open spec fn call_pairs(v: Seq<(Address, Vec<u8>)>) -> Seq<(Seq<u8>, Seq<u8>)> {
    v.map_values(|p: (Address, Vec<u8>)| (p.0@, p.1@))
}

fn copy_bytes(v: &Vec<u8>) -> (r: Vec<u8>)
    ensures
        r@ == v@,
{
    let r = v.clone();
    assert(r@ =~= v@);
    r
}

fn push_calls(f: &CallFrame, out: &mut Vec<(Address, Vec<u8>)>)
    ensures
        call_pairs(final(out)@) == call_pairs(old(out)@) + frame_calls(*f),
    decreases f,
{
    if let Some(to) = &f.to {
        let entry = (*to, copy_bytes(&f.input));
        out.push(entry);
    }
    let ghost start = call_pairs(out@);
    proof {
        let own: Seq<(Seq<u8>, Seq<u8>)> = if f.to is Some {
            seq![(f.to->0@, f.input@)]
        } else {
            Seq::empty()
        };
        assert(start =~= call_pairs(old(out)@) + own);
        assert(f.calls@.take(0) =~= Seq::<CallFrame>::empty());
        assert(start + frames_calls(f.calls@.take(0)) =~= start);
    }
    let n = f.calls.len();
    let mut i: usize = 0;
    while i < n
        invariant
            n == f.calls@.len(),
            i <= n,
            call_pairs(out@) == start + frames_calls(f.calls@.take(i as int)),
        decreases n - i,
    {
        push_calls(&f.calls[i], out);
        proof {
            assert(f.calls@.take(i + 1).drop_last() =~= f.calls@.take(i as int));
            assert(f.calls@.take(i + 1).last() == f.calls@[i as int]);
        }
        i = i + 1;
    }
    proof {
        assert(f.calls@.take(n as int) =~= f.calls@);
    }
}

/// The (callee, calldata) pairs of every call in a trace, in the order of
/// [`frame_calls`].
pub fn flatten_trace(root: &CallFrame) -> (r: Vec<(Address, Vec<u8>)>)
    ensures
        call_pairs(r@) == frame_calls(*root),
        root.to matches Some(t) ==> r@.len() >= 1 && r@[0].0@ == t@ && r@[0].1@ == root.input@,
{
    let mut out: Vec<(Address, Vec<u8>)> = Vec::new();
    push_calls(root, &mut out);
    assert(call_pairs(Seq::<(Address, Vec<u8>)>::empty()) =~= Seq::empty());
    assert(Seq::<(Seq<u8>, Seq<u8>)>::empty() + frame_calls(*root) =~= frame_calls(*root));
    proof {
        if root.to is Some {
            lemma_own_call_first(*root);
            assert(call_pairs(out@)[0] == (out@[0].0@, out@[0].1@));
        }
    }
    out
}

/// Whether the `--touches` options pick a call: its callee is `touches`,
/// its calldata is `data` when that is given, and it begins with `selector`
/// when that is given.
pub open spec fn call_selected(
    call: (Seq<u8>, Seq<u8>),
    touches: Seq<u8>,
    data: Option<Seq<u8>>,
    selector: Option<Seq<u8>>,
) -> bool {
    &&& call.0 == touches
    &&& (data matches Some(d) ==> call.1 == d)
    &&& (selector matches Some(sel) ==> sel.is_prefix_of(call.1))
}

/// Whether the `--touches` options pick some call.
pub open spec fn some_selected(
    calls: Seq<(Seq<u8>, Seq<u8>)>,
    touches: Seq<u8>,
    data: Option<Seq<u8>>,
    selector: Option<Seq<u8>>,
) -> bool {
    exists|i: int| 0 <= i < calls.len() && call_selected(#[trigger] calls[i], touches, data, selector)
}

/// Why a trace could not be checked.
#[derive(Clone, Copy, Debug, PartialEq, Eq)]
pub enum TraceError {
    /// `--touches-sig` is not a function signature (or holds a number too
    /// large to be an array size), and some call reaches the address, so the
    /// signature had to be used.
    InvalidSignature,
}

/// The text of an optional string.
pub open spec fn opt_text(o: Option<String>) -> Option<Seq<char>> {
    match o {
        Some(s) => Some(s@),
        None => None,
    }
}

/// The bytes of an optional selector.
pub open spec fn opt_selector(o: Option<[u8; 4]>) -> Option<Seq<u8>> {
    match o {
        Some(s) => Some(s@),
        None => None,
    }
}

/// The bytes of an optional byte vector.
pub open spec fn opt_bytes(o: Option<Vec<u8>>) -> Option<Seq<u8>> {
    match o {
        Some(v) => Some(v@),
        None => None,
    }
}

/// Whether some call reaches `touches`.
pub open spec fn reaches(calls: Seq<(Seq<u8>, Seq<u8>)>, touches: Seq<u8>) -> bool {
    exists|i: int| 0 <= i < calls.len() && (#[trigger] calls[i]).0 == touches
}

/// The selector that `--touches-sig` stands for, or `None` when the text
/// cannot be used as a signature.
pub open spec fn usable_selector(sig: Seq<char>) -> Option<Seq<u8>> {
    if array_sizes_fit(encode_utf8(sig)) {
        function_selector(sig)
    } else {
        None
    }
}

/// The outcome of checking a trace against the `--touches` options: whether
/// some call is picked (the transaction is then written once), or the error
/// when the signature is needed (some call reaches `touches`) and cannot be
/// used. `--touches-data` is hex text (either case, optional `0x`) that
/// stands for the exact calldata; text that is not hex picks no call.
pub open spec fn trace_outcome(
    calls: Seq<(Seq<u8>, Seq<u8>)>,
    touches: Seq<u8>,
    data: Option<Seq<char>>,
    sig: Option<Seq<char>>,
) -> Result<bool, TraceError> {
    let selector = match sig {
        None => Some(None),
        Some(s) => match usable_selector(s) {
            Some(sel) => Some(Some(sel)),
            None => None,
        },
    };
    match selector {
        None => if reaches(calls, touches) {
            Err(TraceError::InvalidSignature)
        } else {
            Ok(false)
        },
        Some(sel) => match data {
            None => Ok(some_selected(calls, touches, None, sel)),
            Some(d) => match hex_decoded(encode_utf8(d)) {
                Some(bytes) => Ok(some_selected(calls, touches, Some(bytes), sel)),
                None => Ok(false),
            },
        },
    }
}

fn reaches_address(calls: &Vec<(Address, Vec<u8>)>, touches: &Address) -> (r: bool)
    ensures
        r == reaches(call_pairs(calls@), touches@),
{
    let ghost pairs = call_pairs(calls@);
    let n = calls.len();
    let mut i: usize = 0;
    while i < n
        invariant
            n == calls@.len(),
            pairs == call_pairs(calls@),
            i <= n,
            forall|j: int| 0 <= j < i ==> (#[trigger] pairs[j]).0 != touches@,
        decreases n - i,
    {
        if address_eq(&calls[i].0, touches) {
            assert(pairs[i as int].0 == touches@);
            return true;
        }
        i = i + 1;
    }
    false
}

/// Whether some call of a flattened trace has callee `touches`, calldata
/// `data` (when given) and begins with `selector` (when given).
pub fn some_call_selected(
    calls: &Vec<(Address, Vec<u8>)>,
    touches: &Address,
    data: &Option<Vec<u8>>,
    selector: &Option<[u8; 4]>,
) -> (r: bool)
    ensures
        r == some_selected(call_pairs(calls@), touches@, opt_bytes(*data), opt_selector(*selector)),
{
    let ghost pairs = call_pairs(calls@);
    let n = calls.len();
    let mut i: usize = 0;
    while i < n
        invariant
            n == calls@.len(),
            pairs == call_pairs(calls@),
            i <= n,
            forall|j: int|
                0 <= j < i ==> !call_selected(
                    #[trigger] pairs[j],
                    touches@,
                    opt_bytes(*data),
                    opt_selector(*selector),
                ),
        decreases n - i,
    {
        let call = &calls[i];
        proof {
            assert(pairs[i as int] == (call.0@, call.1@));
        }
        if address_eq(&call.0, touches) {
            let data_ok = match data {
                None => true,
                Some(d) => bytes_eq(call.1.as_slice(), d.as_slice()),
            };
            let selector_ok = match selector {
                None => true,
                Some(sel) => bytes_start_with(call.1.as_slice(), sel.as_slice()),
            };
            if data_ok && selector_ok {
                return true;
            }
        }
        i = i + 1;
    }
    false
}

/// Whether the `--touches` options pick some call of a flattened trace; the
/// transaction is then written once. The signature is parsed only when some
/// call reaches the address.
pub fn trace_matches(
    calls: &Vec<(Address, Vec<u8>)>,
    touches: &Address,
    touches_data: &Option<String>,
    touches_sig: &Option<String>,
) -> (r: Result<bool, TraceError>)
    ensures
        match r {
            Ok(b) => trace_outcome(
                call_pairs(calls@),
                touches@,
                opt_text(*touches_data),
                opt_text(*touches_sig),
            ) == Ok::<bool, TraceError>(b),
            Err(e) => trace_outcome(
                call_pairs(calls@),
                touches@,
                opt_text(*touches_data),
                opt_text(*touches_sig),
            ) == Err::<bool, TraceError>(e),
        },
{
    let selector = match touches_sig {
        None => None,
        Some(s) => {
            let usable = if array_sizes_fit_in(s.as_str()) {
                parse_function_selector(s.as_str())
            } else {
                None
            };
            match usable {
                Some(sel) => Some(sel),
                None => {
                    if reaches_address(calls, touches) {
                        return Err(TraceError::InvalidSignature);
                    } else {
                        return Ok(false);
                    }
                },
            }
        },
    };
    let data = match touches_data {
        None => None,
        Some(d) => match hex_decode(d.as_str().as_bytes()) {
            Some(bytes) => Some(bytes),
            None => return Ok(false),
        },
    };
    Ok(some_call_selected(calls, touches, &data, &selector))
}

} // verus!
