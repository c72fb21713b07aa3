//! Comparison and construction of identifier text.

use vstd::prelude::*;
use vstd::string::StringSliceAdditionalSpecFns;

verus! {

/// Whether two strings hold the same characters.
///
/// The comparison runs over the UTF-8 bytes; since encoding is injective,
/// equal bytes mean equal characters and the other way round.
pub fn str_eq(a: &str, b: &str) -> (same: bool)
    ensures
        same == (a@ == b@),
{
    let x = a.as_bytes();
    let y = b.as_bytes();
    proof {
        vstd::utf8::encode_utf8_decode_utf8(a@);
        vstd::utf8::encode_utf8_decode_utf8(b@);
    }
    if x.len() != y.len() {
        return false;
    }
    let mut i: usize = 0;
    while i < x.len()
        invariant
            x.len() == y.len(),
            i <= x.len(),
            forall|k: int| 0 <= k < i ==> x@[k] == y@[k],
            x@ == a.spec_bytes(),
            y@ == b.spec_bytes(),
        decreases x.len() - i,
    {
        if x[i] != y[i] {
            return false;
        }
        i += 1;
    }
    assert(x@ =~= y@);
    true
}

/// An owned, boxed copy of `text`.
///
/// Trusted: wraps std's `From<&str> for Box<str>`, which allocates a box and
/// copies the characters of `text` into it unchanged.
#[verifier::external_body]
pub(crate) fn boxed_str(text: &str) -> (boxed: Box<str>)
    ensures
        boxed@ == text@,
{
    Box::<str>::from(text)
}

} // verus!
