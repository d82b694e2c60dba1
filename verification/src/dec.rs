//! Decimal rendering and parsing for the two KDF cost parameters, round-trip
//! exact.

use vstd::prelude::*;

verus! {

/// Whether a byte is a decimal digit.
pub open spec fn is_dec_digit(c: u8) -> bool {
    48 <= c && c <= 57
}

/// The decimal rendering of a non-negative number, most significant digit
/// first, no leading zeros (a zero renders as the single digit `0`).
pub open spec fn dec_of(n: int) -> Seq<u8>
    recommends
        n >= 0,
    decreases n,
{
    if n < 10 {
        seq![(48 + if n >= 0 { n } else { 0 }) as u8]
    } else {
        dec_of(n / 10) + seq![(48 + n % 10) as u8]
    }
}

/// The number a digit sequence denotes.
pub open spec fn dec_val(t: Seq<u8>) -> int
    decreases t.len(),
{
    if t.len() == 0 {
        0
    } else {
        dec_val(t.drop_last()) * 10 + (t.last() - 48)
    }
}

/// Whether a byte sequence is made of decimal digits only, at least one.
pub open spec fn is_dec_seq(t: Seq<u8>) -> bool {
    t.len() >= 1 && forall|i: int| 0 <= i < t.len() ==> is_dec_digit(#[trigger] t[i])
}

/// What decimal parsing accepts: one to ten digits whose value fits in u32.
pub open spec fn dec_parse_spec(t: Seq<u8>) -> Option<u32> {
    if is_dec_seq(t) && t.len() <= 10 && dec_val(t) <= u32::MAX as int {
        Some(dec_val(t) as u32)
    } else {
        None
    }
}

/// Every rendered digit is a decimal digit, and the rendering of a u32 value
/// is at most ten digits.
pub proof fn lemma_dec_of_digits(n: int)
    requires
        n >= 0,
    ensures
        is_dec_seq(dec_of(n)),
        dec_of(n).len() >= 1,
        n < 10 ==> dec_of(n).len() == 1,
        n <= u32::MAX as int ==> dec_of(n).len() <= 10,
    decreases n,
{
    if n < 10 {
    } else {
        lemma_dec_of_digits(n / 10);
        assert forall|i: int| 0 <= i < dec_of(n).len() implies is_dec_digit(
            #[trigger] dec_of(n)[i],
        ) by {
            if i < dec_of(n / 10).len() {
                assert(dec_of(n)[i] == dec_of(n / 10)[i]);
            }
        }
        if n <= u32::MAX as int {
            assert(dec_len_bound(n, 10)) by {
                lemma_dec_len(n, 10);
            }
            assert(pow10(10nat) == 10000000000) by {
                reveal_with_fuel(pow10, 11);
            }
        }
    }
}

/// `dec_of(n).len() <= k` whenever `n < 10^k`, packaged as a predicate so the
/// induction below can speak of it.
pub open spec fn dec_len_bound(n: int, k: nat) -> bool {
    n < pow10(k) ==> dec_of(n).len() <= k
}

/// Ten to the `k`.
pub open spec fn pow10(k: nat) -> int
    decreases k,
{
    if k == 0 {
        1
    } else {
        10 * pow10((k - 1) as nat)
    }
}

pub proof fn lemma_dec_len(n: int, k: nat)
    requires
        n >= 0,
        k >= 1,
    ensures
        dec_len_bound(n, k),
    decreases k,
{
    if n < 10 {
    } else if n < pow10(k) {
        assert(pow10(k) == 10 * pow10((k - 1) as nat));
        lemma_dec_len(n / 10, (k - 1) as nat);
        assert(n / 10 < pow10((k - 1) as nat)) by {
            assert(n < 10 * pow10((k - 1) as nat));
        }
        assert(k - 1 >= 1) by {
            if k == 1 {
                assert(pow10(1nat) == 10);
            }
        }
    }
}

/// Parsing inverts rendering for every u32 value.
pub proof fn lemma_dec_round_trip(n: u32)
    ensures
        dec_parse_spec(dec_of(n as int)) == Some(n),
{
    lemma_dec_of_digits(n as int);
    lemma_dec_val_of(n as int);
}

/// The denoted value of a rendering is the rendered number.
pub proof fn lemma_dec_val_of(n: int)
    requires
        n >= 0,
    ensures
        dec_val(dec_of(n)) == n,
    decreases n,
{
    if n < 10 {
        let t = dec_of(n);
        assert(t.len() == 1);
        assert(t.drop_last() =~= Seq::<u8>::empty());
        assert(dec_val(t.drop_last()) == 0);
        assert(t.last() == (48 + n) as u8);
    } else {
        lemma_dec_val_of(n / 10);
        let t = dec_of(n);
        assert(t.len() == dec_of(n / 10).len() + 1);
        assert(t.drop_last() =~= dec_of(n / 10));
        assert(t.last() == (48 + n % 10) as u8);
        vstd::arithmetic::div_mod::lemma_fundamental_div_mod(n, 10);
        assert(0 <= n % 10 < 10);
        assert(t.last() - 48 == n % 10);
        assert(dec_val(t) == dec_val(t.drop_last()) * 10 + (t.last() - 48));
        assert(dec_val(t) == (n / 10) * 10 + n % 10);
    }
}

/// Digit sequences denote values below `10^len`.
pub proof fn lemma_dec_val_bound(t: Seq<u8>)
    requires
        forall|i: int| 0 <= i < t.len() ==> is_dec_digit(#[trigger] t[i]),
    ensures
        0 <= dec_val(t) < pow10(t.len()),
    decreases t.len(),
{
    if t.len() == 0 {
    } else {
        lemma_dec_val_bound(t.drop_last());
        assert(is_dec_digit(t.last()));
        assert(pow10(t.len()) == 10 * pow10((t.len() - 1) as nat));
    }
}

/// Render a u32 in decimal.
pub fn u32_to_dec(n: u32) -> (r: Vec<u8>)
    ensures
        r@ == dec_of(n as int),
    decreases n,
{
    if n < 10 {
        let mut out: Vec<u8> = Vec::new();
        out.push(48 + (n as u8));
        proof {
            assert(out@ =~= dec_of(n as int));
        }
        out
    } else {
        let mut out = u32_to_dec(n / 10);
        out.push(48 + ((n % 10) as u8));
        proof {
            assert(out@ =~= dec_of(n as int));
        }
        out
    }
}

/// Parse a decimal text back into a u32; `None` exactly when the text is not
/// one to ten digits, or denotes a value above `u32::MAX`.
pub fn dec_to_u32(text: &[u8]) -> (r: Option<u32>)
    ensures
        r == dec_parse_spec(text@),
{
    if text.len() == 0 || text.len() > 10 {
        return None;
    }
    let mut acc: u64 = 0;
    let mut i: usize = 0;
    while i < text.len()
        invariant
            0 <= i <= text@.len(),
            text@.len() <= 10,
            forall|j: int| 0 <= j < i ==> is_dec_digit(#[trigger] text@[j]),
            acc == dec_val(text@.take(i as int)),
            0 <= acc < 10000000000u64,
        decreases text@.len() - i,
    {
        let c = text[i];
        if c < 48 || c > 57 {
            proof {
                assert(!is_dec_seq(text@));
            }
            return None;
        }
        proof {
            assert(text@.take(i + 1 as int).drop_last() =~= text@.take(i as int));
            assert(text@.take(i + 1 as int).last() == text@[i as int]);
            lemma_dec_val_bound(text@.take(i + 1 as int));
            assert(pow10(10nat) == 10000000000) by {
                reveal_with_fuel(pow10, 11);
            }
            assert(pow10(text@.take(i + 1 as int).len()) <= pow10(10nat)) by {
                lemma_pow10_le(text@.take(i + 1 as int).len(), 10nat);
            }
        }
        acc = acc * 10 + ((c - 48) as u64);
        i += 1;
    }
    proof {
        assert(text@.take(text@.len() as int) =~= text@);
    }
    if acc <= 0xffff_ffffu64 {
        Some(acc as u32)
    } else {
        None
    }
}

/// `pow10` is monotonic.
pub proof fn lemma_pow10_le(a: nat, b: nat)
    requires
        a <= b,
    ensures
        pow10(a) <= pow10(b),
    decreases b,
{
    if a < b {
        lemma_pow10_le(a, (b - 1) as nat);
        assert(pow10(b) == 10 * pow10((b - 1) as nat));
        assert(pow10((b - 1) as nat) >= 1) by {
            lemma_pow10_pos((b - 1) as nat);
        }
    }
}

/// `pow10` is positive.
pub proof fn lemma_pow10_pos(k: nat)
    ensures
        pow10(k) >= 1,
    decreases k,
{
    if k > 0 {
        lemma_pow10_pos((k - 1) as nat);
    }
}

} // verus!
