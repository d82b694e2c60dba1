//! Small verified helpers on byte strings, shared by the locator codec and
//! the configuration document codec.

use vstd::prelude::*;

verus! {

/// Whether a byte occurs in a sequence.
pub open spec fn has_byte(s: Seq<u8>, b: u8) -> bool {
    exists|j: int| 0 <= j < s.len() && s[j] == b
}

/// The index of the first occurrence of a byte, or the length of the
/// sequence when the byte does not occur.
pub open spec fn first_byte_at(s: Seq<u8>, b: u8) -> int
    decreases s.len(),
{
    if s.len() == 0 {
        0
    } else if s[0] == b {
        0
    } else {
        1 + first_byte_at(s.skip(1), b)
    }
}

/// What `first_byte_at` returns: an in-range index of `b` preceded only by
/// other bytes, or the length when `b` does not occur.
pub proof fn lemma_first_byte_at(s: Seq<u8>, b: u8)
    ensures
        0 <= first_byte_at(s, b) <= s.len(),
        first_byte_at(s, b) < s.len() ==> s[first_byte_at(s, b)] == b,
        forall|k: int| 0 <= k < first_byte_at(s, b) ==> s[k] != b,
        has_byte(s, b) <==> first_byte_at(s, b) < s.len(),
    decreases s.len(),
{
    if s.len() == 0 {
        assert(!has_byte(s, b));
    } else if s[0] == b {
        assert(has_byte(s, b));
    } else {
        lemma_first_byte_at(s.skip(1), b);
        let f = first_byte_at(s.skip(1), b);
        assert forall|k: int| 0 <= k < 1 + f implies s[k] != b by {
            if k > 0 {
                assert(s.skip(1)[k - 1] != b);
            }
        }
        if f < s.skip(1).len() {
            assert(s[1 + f] == s.skip(1)[f]);
            assert(has_byte(s, b));
        } else {
            if has_byte(s, b) {
                let j = choose|j: int| 0 <= j < s.len() && s[j] == b;
                assert(s.skip(1)[j - 1] == b);
                assert(has_byte(s.skip(1), b));
            }
        }
    }
}

/// A byte at index `i` with no earlier occurrence pins `first_byte_at`.
pub proof fn lemma_first_byte_at_is(s: Seq<u8>, b: u8, i: int)
    requires
        0 <= i < s.len(),
        s[i] == b,
        forall|k: int| 0 <= k < i ==> s[k] != b,
    ensures
        first_byte_at(s, b) == i,
{
    lemma_first_byte_at(s, b);
    let f = first_byte_at(s, b);
    assert(has_byte(s, b));
    if f < i {
        assert(s[f] != b);
    }
    if i < f {
        assert(s[i] != b);
    }
}

pub fn contains_byte(data: &[u8], b: u8) -> (r: bool)
    ensures
        r == has_byte(data@, b),
{
    let mut i: usize = 0;
    while i < data.len()
        invariant
            0 <= i <= data@.len(),
            forall|j: int| 0 <= j < i ==> data@[j] != b,
        decreases data@.len() - i,
    {
        if data[i] == b {
            return true;
        }
        i += 1;
    }
    false
}

/// The first index of `b` in `data`, if `b` occurs at all.
pub fn find_byte(data: &[u8], b: u8) -> (r: Option<usize>)
    ensures
        match r {
            Some(i) => i < data@.len() && data@[i as int] == b && forall|k: int|
                0 <= k < i ==> data@[k] != b,
            None => !has_byte(data@, b),
        },
{
    let mut i: usize = 0;
    while i < data.len()
        invariant
            0 <= i <= data@.len(),
            forall|j: int| 0 <= j < i ==> data@[j] != b,
        decreases data@.len() - i,
    {
        if data[i] == b {
            return Some(i);
        }
        i += 1;
    }
    None
}

/// Whether `data` starts with `prefix`, byte for byte.
pub fn starts_with(data: &[u8], prefix: &[u8]) -> (r: bool)
    ensures
        r == (data@.len() >= prefix@.len() && data@.take(prefix@.len() as int) == prefix@),
{
    if data.len() < prefix.len() {
        proof {
            assert(!(data@.len() >= prefix@.len()));
        }
        return false;
    }
    let mut i: usize = 0;
    while i < prefix.len()
        invariant
            0 <= i <= prefix@.len(),
            prefix@.len() <= data@.len(),
            forall|j: int| 0 <= j < i ==> data@[j] == prefix@[j],
        decreases prefix@.len() - i,
    {
        if data[i] != prefix[i] {
            proof {
                assert(data@.take(prefix@.len() as int)[i as int] != prefix@[i as int]);
            }
            return false;
        }
        i += 1;
    }
    proof {
        assert(data@.take(prefix@.len() as int) =~= prefix@);
    }
    true
}

/// Whether two byte strings are equal.
pub fn bytes_eq(a: &[u8], b: &[u8]) -> (r: bool)
    ensures
        r == (a@ == b@),
{
    if a.len() != b.len() {
        proof {
            assert(a@ != b@);
        }
        return false;
    }
    let mut i: usize = 0;
    while i < a.len()
        invariant
            0 <= i <= a@.len(),
            a@.len() == b@.len(),
            forall|j: int| 0 <= j < i ==> a@[j] == b@[j],
        decreases a@.len() - i,
    {
        if a[i] != b[i] {
            return false;
        }
        i += 1;
    }
    proof {
        assert(a@ =~= b@);
    }
    true
}

/// Copy the bytes of `data[from..to]` into a fresh vector.
pub fn sub_to_vec(data: &[u8], from: usize, to: usize) -> (r: Vec<u8>)
    requires
        from <= to <= data@.len(),
    ensures
        r@ == data@.subrange(from as int, to as int),
{
    let mut out: Vec<u8> = Vec::new();
    let mut i: usize = from;
    while i < to
        invariant
            from <= i <= to <= data@.len(),
            out@ == data@.subrange(from as int, i as int),
        decreases to - i,
    {
        out.push(data[i]);
        proof {
            assert(out@ =~= data@.subrange(from as int, i + 1 as int));
        }
        i += 1;
    }
    out
}

} // verus!
