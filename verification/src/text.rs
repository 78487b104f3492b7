//! Comparing texts.

use vstd::prelude::*;
use vstd::string::StringSliceAdditionalSpecFns;
use vstd::utf8::{encode_utf8, encode_utf8_decode_utf8};

verus! {

/// Whether two texts are the same.
pub fn same_text(a: &str, b: &str) -> (same: bool)
    ensures
        same == (a@ == b@),
{
    let x: &[u8] = a.as_bytes();
    let y: &[u8] = b.as_bytes();
    proof {
        encode_utf8_decode_utf8(a@);
        encode_utf8_decode_utf8(b@);
    }
    let n: usize = x.len();
    if n != y.len() {
        return false;
    }
    let mut i: usize = 0;
    while i < n
        invariant
            x@ == a.spec_bytes(),
            y@ == b.spec_bytes(),
            n == x@.len(),
            n == y@.len(),
            i <= n,
            forall|j: int| 0 <= j < i ==> x@[j] == y@[j],
        decreases n - i,
    {
        if x[i] != y[i] {
            return false;
        }
        i = i + 1;
    }
    assert(x@ =~= y@);
    true
}

/// Whether `text` begins with `prefix`, both taken as their UTF-8 bytes.
pub open spec fn begins_with(text: Seq<char>, prefix: Seq<char>) -> bool {
    let bytes = encode_utf8(text);
    let first = encode_utf8(prefix);
    first.len() <= bytes.len() && bytes.subrange(0, first.len() as int) == first
}

/// Whether `text` begins with `prefix`.
pub fn starts_with(text: &str, prefix: &str) -> (starts: bool)
    ensures
        starts == begins_with(text@, prefix@),
{
    let x: &[u8] = text.as_bytes();
    let y: &[u8] = prefix.as_bytes();
    let n: usize = y.len();
    if n > x.len() {
        return false;
    }
    let mut i: usize = 0;
    while i < n
        invariant
            x@ == text.spec_bytes(),
            y@ == prefix.spec_bytes(),
            n == y@.len(),
            n <= x@.len(),
            i <= n,
            forall|j: int| 0 <= j < i ==> x@[j] == y@[j],
        decreases n - i,
    {
        if x[i] != y[i] {
            assert(x@.subrange(0, n as int)[i as int] != y@[i as int]);
            return false;
        }
        i = i + 1;
    }
    assert(x@.subrange(0, n as int) =~= y@);
    true
}

} // verus!
