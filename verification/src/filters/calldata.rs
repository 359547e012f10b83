use vstd::prelude::*;
use crate::bytes::{bytes_eq, bytes_start_with, hex_encode, hex_text};
use crate::tx::Transaction;

verus! {

/// Accepts transactions whose calldata begins with a 4-byte function
/// selector.
pub struct SigFilter {
    pub value: [u8; 4],
}

impl SigFilter {
    pub fn new(value: [u8; 4]) -> (r: Self)
        ensures
            r.value == value,
    {
        Self { value }
    }

    pub open spec fn matches(&self, o: &Transaction) -> bool {
        self.value@.is_prefix_of(o.input@)
    }

    pub fn apply(&self, o: &Transaction) -> (r: bool)
        ensures
            r == self.matches(o),
            r == (o.input@.len() >= 4 && o.input@.subrange(0, 4) == self.value@),
    {
        bytes_start_with(o.input.as_slice(), self.value.as_slice())
    }
}

/// Accepts transactions whose calldata is exactly a given byte string.
pub struct DataFilter {
    pub value: Vec<u8>,
}

impl DataFilter {
    pub fn new(value: Vec<u8>) -> (r: Self)
        ensures
            r.value@ == value@,
    {
        Self { value }
    }

    pub open spec fn matches(&self, o: &Transaction) -> bool {
        o.input@ == self.value@
    }

    pub fn apply(&self, o: &Transaction) -> (r: bool)
        ensures
            r == self.matches(o),
            r == (o.input@ == self.value@),
    {
        bytes_eq(o.input.as_slice(), self.value.as_slice())
    }
}

/// Whether `regex::Regex::new` accepts a pattern.
pub uninterp spec fn regex_compiles(pattern: Seq<char>) -> bool;

/// Whether the regex compiled from `pattern` matches somewhere in `haystack`
/// (`regex::Regex::is_match`).
pub uninterp spec fn regex_finds(pattern: Seq<char>, haystack: Seq<char>) -> bool;

/// Compiles `pattern` with `regex::Regex::new` and, if that succeeds,
/// searches `haystack` with `regex::Regex::is_match`. Trusted: `None`
/// exactly when the pattern does not compile, and otherwise the match
/// result; both are named, not described.
#[verifier::external_body]
pub(crate) fn regex_search(pattern: &str, haystack: &str) -> (res: Option<bool>)
    ensures
        res is Some == regex_compiles(pattern@),
        res matches Some(b) ==> b == regex_finds(pattern@, haystack@),
{
    match regex::Regex::new(pattern) {
        Ok(re) => Some(re.is_match(haystack)),
        Err(_) => None,
    }
}

/// Accepts transactions whose calldata, written as lowercase hex without
/// prefix, matches a regular expression.
pub struct RegexFilter {
    pattern: String,
}

impl RegexFilter {
    #[verifier::type_invariant]
    spec fn pattern_compiles(self) -> bool {
        regex_compiles(self.pattern@)
    }

    /// The regular expression's source text.
    pub closed spec fn pattern(&self) -> Seq<char> {
        self.pattern@
    }

    /// A filter for the pattern `s`, which must compile.
    pub fn new(s: &String) -> (r: Self)
        requires
            regex_compiles(s@),
        ensures
            r.pattern() == s@,
    {
        Self { pattern: s.clone() }
    }

    /// A filter for the pattern `s`, or `None` when it does not compile.
    pub fn try_new(s: &String) -> (r: Option<Self>)
        ensures
            r is Some == regex_compiles(s@),
            r matches Some(f) ==> f.pattern() == s@,
    {
        if regex_search(s.as_str(), "").is_some() {
            Some(Self::new(s))
        } else {
            None
        }
    }

    pub open spec fn matches(&self, o: &Transaction) -> bool {
        regex_finds(self.pattern(), hex_text(o.input@))
    }

    pub fn apply(&self, o: &Transaction) -> (r: bool)
        ensures
            r == self.matches(o),
    {
        proof {
            use_type_invariant(self);
        }
        let text = hex_encode(o.input.as_slice());
        match regex_search(self.pattern.as_str(), text.as_str()) {
            Some(found) => found,
            None => false,
        }
    }
}

} // verus!
