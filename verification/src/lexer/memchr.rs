//! Byte searching over a haystack for a small, fixed set of needle bytes.
use vstd::prelude::*;

verus! {

/// `i` is the first index of `haystack` whose byte satisfies `pred`.
pub open spec fn is_first_match(haystack: Seq<u8>, i: int, pred: spec_fn(u8) -> bool) -> bool {
    &&& 0 <= i < haystack.len()
    &&& pred(haystack[i])
    &&& forall|j: int| 0 <= j < i ==> !pred(#[trigger] haystack[j])
}

/// The result of searching `haystack` for the first byte that satisfies `pred`.
pub open spec fn first_match(haystack: Seq<u8>, pred: spec_fn(u8) -> bool, r: Option<usize>) -> bool {
    match r {
        Some(i) => is_first_match(haystack, i as int, pred),
        None => forall|j: int| 0 <= j < haystack.len() ==> !pred(#[trigger] haystack[j]),
    }
}

/// Predicate: the byte is one of the needles.
pub open spec fn in_needles(needles: Seq<u8>) -> spec_fn(u8) -> bool {
    |b: u8| needles.contains(b)
}

/// Predicate: the byte is none of the needles.
pub open spec fn not_in_needles(needles: Seq<u8>) -> spec_fn(u8) -> bool {
    |b: u8| !needles.contains(b)
}

fn contains_byte<const N: usize>(needles: &[u8; N], byte: u8) -> (r: bool)
    ensures
        r == needles@.contains(byte),
{
    let mut k: usize = 0;
    while k < N
        invariant
            k <= N,
            N == needles@.len(),
            forall|j: int| 0 <= j < k ==> needles@[j] != byte,
        decreases N - k,
    {
        if needles[k] == byte {
            assert(needles@[k as int] == byte);
            return true;
        }
        k += 1;
    }
    proof {
        if needles@.contains(byte) {
            let j = choose|j: int| 0 <= j < needles@.len() && needles@[j] == byte;
            assert(needles@[j] == byte);
        }
    }
    false
}

/// Position of the first byte of `haystack` that is one of `needles`.
pub fn memchrn<const N: usize>(needles: [u8; N], haystack: &[u8]) -> (r: Option<usize>)
    ensures
        first_match(haystack@, in_needles(needles@), r),
{
    let mut i: usize = 0;
    while i < haystack.len()
        invariant
            i <= haystack@.len(),
            forall|j: int| 0 <= j < i ==> !in_needles(needles@)(#[trigger] haystack@[j]),
        decreases haystack@.len() - i,
    {
        if contains_byte(&needles, haystack[i]) {
            return Some(i);
        }
        i += 1;
    }
    None
}

/// Position of the first byte of `haystack` that is none of `needles`.
pub fn memchrn_inv<const N: usize>(needles: [u8; N], haystack: &[u8]) -> (r: Option<usize>)
    ensures
        first_match(haystack@, not_in_needles(needles@), r),
{
    let mut i: usize = 0;
    while i < haystack.len()
        invariant
            i <= haystack@.len(),
            forall|j: int| 0 <= j < i ==> !not_in_needles(needles@)(#[trigger] haystack@[j]),
        decreases haystack@.len() - i,
    {
        if !contains_byte(&needles, haystack[i]) {
            return Some(i);
        }
        i += 1;
    }
    None
}

/// Searching a byte buffer for bytes in or out of a small set of needles.
pub trait FindByte {
    spec fn haystack(&self) -> Seq<u8>;

    /// Search for the first occurence of a byte that matches one of the `N` input bytes
    fn find_byte_in<const N: usize>(&self, needles: [u8; N]) -> (r: Option<usize>)
        ensures
            first_match(self.haystack(), in_needles(needles@), r),
    ;

    /// Search for the first occurence of a byte that does not match one of the `N` input bytes
    fn find_byte_not_in<const N: usize>(&self, needles: [u8; N]) -> (r: Option<usize>)
        ensures
            first_match(self.haystack(), not_in_needles(needles@), r),
    ;

    fn find_byte(&self, needle: u8) -> (r: Option<usize>)
        ensures
            first_match(self.haystack(), in_needles(seq![needle]), r),
    {
        let r = self.find_byte_in([needle]);
        proof {
            assert([needle]@ =~= seq![needle]);
        }
        r
    }
}

impl FindByte for [u8] {
    open spec fn haystack(&self) -> Seq<u8> {
        self@
    }

    fn find_byte_in<const N: usize>(&self, needles: [u8; N]) -> (r: Option<usize>) {
        memchrn(needles, self)
    }

    fn find_byte_not_in<const N: usize>(&self, needles: [u8; N]) -> (r: Option<usize>) {
        memchrn_inv(needles, self)
    }
}

} // verus!
