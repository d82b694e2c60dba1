//! The stable textual encoding used for fixed-length binary values:
//! lowercase hexadecimal, two digits per byte, round-trip exact.

use vstd::prelude::*;

verus! {

/// The lowercase hex digit for a value below sixteen.
pub open spec fn hex_digit(n: u8) -> u8
    recommends
        n < 16,
{
    if n < 10 {
        (48 + n) as u8
    } else {
        (87 + n) as u8
    }
}

/// Whether a byte is a lowercase hex digit.
pub open spec fn is_hex_digit(c: u8) -> bool {
    (48 <= c && c <= 57) || (97 <= c && c <= 102)
}

/// The numeric value of a hex digit byte.
pub open spec fn hex_val(c: u8) -> u8
    recommends
        is_hex_digit(c),
{
    if 48 <= c && c <= 57 {
        (c - 48) as u8
    } else {
        (c - 87) as u8
    }
}

/// The hex encoding of a byte sequence: two digits per byte, high first.
pub open spec fn hex_of(s: Seq<u8>) -> Seq<u8> {
    Seq::new(
        2 * s.len(),
        |i: int|
            if i % 2 == 0 {
                hex_digit(s[i / 2] / 16)
            } else {
                hex_digit(s[i / 2] % 16)
            },
    )
}

/// Whether a byte sequence is a well-formed hex encoding.
pub open spec fn is_hex_seq(t: Seq<u8>) -> bool {
    t.len() % 2 == 0 && forall|i: int| 0 <= i < t.len() ==> is_hex_digit(#[trigger] t[i])
}

/// The bytes a hex encoding denotes.
pub open spec fn unhex(t: Seq<u8>) -> Seq<u8>
    recommends
        is_hex_seq(t),
{
    Seq::new(t.len() / 2, |i: int| (hex_val(t[2 * i]) * 16 + hex_val(t[2 * i + 1])) as u8)
}

/// Decoding inverts encoding, for every byte sequence.
pub proof fn lemma_hex_round_trip(s: Seq<u8>)
    ensures
        hex_of(s).len() == 2 * s.len(),
        is_hex_seq(hex_of(s)),
        unhex(hex_of(s)) == s,
{
    assert forall|i: int| 0 <= i < hex_of(s).len() implies is_hex_digit(#[trigger] hex_of(s)[i]) by {
        if i % 2 == 0 {
            assert(s[i / 2] / 16 < 16);
        } else {
            assert(s[i / 2] % 16 < 16);
        }
    }
    assert forall|i: int| 0 <= i < s.len() implies unhex(hex_of(s))[i] == s[i] by {
        let b = s[i];
        assert(hex_of(s)[2 * i] == hex_digit(b / 16));
        assert(hex_of(s)[2 * i + 1] == hex_digit(b % 16));
        assert(hex_val(hex_digit(b / 16)) == b / 16);
        assert(hex_val(hex_digit(b % 16)) == b % 16);
        assert((b / 16) * 16 + b % 16 == b) by {
            vstd::arithmetic::div_mod::lemma_fundamental_div_mod(b as int, 16);
        }
    }
    assert(unhex(hex_of(s)) =~= s);
}

/// A hex encoding never holds a byte that the locator or document grammar
/// treats as a separator.
pub proof fn lemma_hex_has_no_separators(s: Seq<u8>)
    ensures
        forall|i: int| 0 <= i < hex_of(s).len() ==> hex_of(s)[i] != 10 && hex_of(s)[i] != 35
            && hex_of(s)[i] != 38 && hex_of(s)[i] != 61 && hex_of(s)[i] != 63,
{
    lemma_hex_round_trip(s);
    assert forall|i: int| 0 <= i < hex_of(s).len() implies hex_of(s)[i] != 10 && hex_of(s)[i]
        != 35 && hex_of(s)[i] != 38 && hex_of(s)[i] != 61 && hex_of(s)[i] != 63 by {
        assert(is_hex_digit(hex_of(s)[i]));
    }
}

fn hex_digit_exec(n: u8) -> (r: u8)
    requires
        n < 16,
    ensures
        r == hex_digit(n),
{
    if n < 10 {
        48 + n
    } else {
        87 + n
    }
}

/// Encode bytes as lowercase hex.
pub fn bytes_to_hex(data: &[u8]) -> (r: Vec<u8>)
    ensures
        r@ == hex_of(data@),
{
    let mut out: Vec<u8> = Vec::new();
    let mut i: usize = 0;
    while i < data.len()
        invariant
            0 <= i <= data@.len(),
            out@ == hex_of(data@.take(i as int)),
        decreases data@.len() - i,
    {
        let b = data[i];
        out.push(hex_digit_exec(b / 16));
        out.push(hex_digit_exec(b % 16));
        proof {
            assert(out@ =~= hex_of(data@.take(i + 1 as int)));
        }
        i += 1;
    }
    proof {
        assert(data@.take(data@.len() as int) =~= data@);
    }
    out
}

fn hex_val_exec(c: u8) -> (r: u8)
    requires
        is_hex_digit(c),
    ensures
        r == hex_val(c),
{
    if c <= 57 {
        c - 48
    } else {
        c - 87
    }
}

/// Decode a lowercase hex encoding; `None` exactly when the text is not a
/// well-formed hex encoding.
pub fn hex_to_bytes(text: &[u8]) -> (r: Option<Vec<u8>>)
    ensures
        r is Some <==> is_hex_seq(text@),
        r is Some ==> r->0@ == unhex(text@),
{
    if text.len() % 2 != 0 {
        return None;
    }
    let mut out: Vec<u8> = Vec::new();
    let mut i: usize = 0;
    while i + 1 < text.len()
        invariant
            i % 2 == 0,
            0 <= i <= text@.len(),
            text@.len() % 2 == 0,
            forall|j: int| 0 <= j < i ==> is_hex_digit(#[trigger] text@[j]),
            out@ == unhex(text@.take(i as int)),
        decreases text@.len() - i,
    {
        let hi = text[i];
        let lo = text[i + 1];
        let hi_ok = (48 <= hi && hi <= 57) || (97 <= hi && hi <= 102);
        let lo_ok = (48 <= lo && lo <= 57) || (97 <= lo && lo <= 102);
        if !hi_ok || !lo_ok {
            return None;
        }
        let v = hex_val_exec(hi) * 16 + hex_val_exec(lo);
        out.push(v);
        proof {
            assert(out@ =~= unhex(text@.take(i + 2 as int)));
        }
        i += 2;
    }
    proof {
        assert(i == text@.len());
        assert(text@.take(text@.len() as int) =~= text@);
    }
    Some(out)
}

} // verus!
