//! The persisted configuration document: a fixed-field, human-editable
//! key/value text with explanatory comment banners. Rendering and parsing
//! are round-trip exact; parsing ignores comments and blank lines.

use vstd::prelude::*;

use crate::bin_types::BinDataSized;
use crate::bin_types::SecretDataSized;
use crate::bytestr::find_byte;
use crate::bytestr::first_byte_at;
use crate::bytestr::has_byte;
use crate::bytestr::lemma_first_byte_at;
use crate::bytestr::lemma_first_byte_at_is;
use crate::bytestr::starts_with;
use crate::bytestr::sub_to_vec;
use crate::bytestr::bytes_eq;
use crate::config::ConfigView;
use crate::config::FallbackView;
use crate::config::LairServerConfigInner;
use crate::config::LairServerSignatureFallback;
use crate::config::NL;
use crate::config::config_wf;
use crate::config::fallback_wf;
use crate::conn_url::ConnectionUrl;
use crate::conn_url::QMARK;
use crate::conn_url::UrlView;
use crate::conn_url::lemma_url_round_trip;
use crate::conn_url::parse_url_spec;
use crate::conn_url::render_url_spec;
use crate::conn_url::scheme_prefix;
use crate::dec::dec_of;
use crate::dec::dec_parse_spec;
use crate::dec::dec_to_u32;
use crate::dec::is_dec_digit;
use crate::dec::lemma_dec_of_digits;
use crate::dec::lemma_dec_round_trip;
use crate::dec::u32_to_dec;
use crate::err::LairError;
use crate::err::LairResult;
use crate::hex::hex_of;
use crate::hex::hex_to_bytes;
use crate::hex::is_hex_seq;
use crate::hex::lemma_hex_has_no_separators;
use crate::hex::lemma_hex_round_trip;
use crate::hex::unhex;

verus! {

/// `#`, the comment marker of the document.
pub const HASH: u8 = 35;

/// A text that ends at a line boundary.
pub open spec fn line_complete(s: Seq<u8>) -> bool {
    s.len() == 0 || s.last() == NL
}

/// The text split at line separators; a trailing separator closes the last
/// line rather than opening an empty one.
pub open spec fn split_lines(s: Seq<u8>) -> Seq<Seq<u8>>
    decreases s.len(),
{
    if s.len() == 0 {
        Seq::empty()
    } else {
        let i = first_byte_at(s, NL);
        if 0 <= i < s.len() {
            seq![s.take(i)] + split_lines(s.skip(i + 1))
        } else {
            seq![s]
        }
    }
}

/// A line parsing ignores: empty, or a comment.
pub open spec fn is_ignorable(l: Seq<u8>) -> bool {
    l.len() == 0 || l[0] == HASH
}

/// The lines left once ignorable lines are dropped.
pub open spec fn clean_lines(ls: Seq<Seq<u8>>) -> Seq<Seq<u8>>
    decreases ls.len(),
{
    if ls.len() == 0 {
        Seq::empty()
    } else if is_ignorable(ls[0]) {
        clean_lines(ls.skip(1))
    } else {
        seq![ls[0]] + clean_lines(ls.skip(1))
    }
}

/// Splitting after appending one full line appends one split line.
pub proof fn lemma_split_append(a: Seq<u8>, x: Seq<u8>)
    requires
        line_complete(a),
        !has_byte(x, NL),
    ensures
        split_lines(a + x + seq![NL]) == split_lines(a) + seq![x],
        line_complete(a + x + seq![NL]),
    decreases a.len(),
{
    let t = a + x + seq![NL];
    assert forall|k: int| 0 <= k < x.len() implies x[k] != NL by {
        if x[k] == NL {
            assert(has_byte(x, NL));
        }
    }
    if a.len() == 0 {
        assert(t =~= x + seq![NL]);
        lemma_first_byte_at_is(t, NL, x.len() as int);
        assert(t.take(x.len() as int) =~= x);
        assert(t.skip(x.len() as int + 1) =~= Seq::<u8>::empty());
        assert(split_lines(Seq::<u8>::empty()) =~~= Seq::<Seq<u8>>::empty());
        assert(split_lines(t) =~~= seq![x]);
        assert(split_lines(a) + seq![x] =~~= seq![x]);
    } else {
        assert(a[a.len() - 1] == NL);
        assert(has_byte(a, NL));
        lemma_first_byte_at(a, NL);
        let i = first_byte_at(a, NL);
        lemma_first_byte_at_is(t, NL, i);
        assert(t.take(i) =~= a.take(i));
        assert(t.skip(i + 1) =~= a.skip(i + 1) + x + seq![NL]);
        assert(line_complete(a.skip(i + 1))) by {
            if a.skip(i + 1).len() > 0 {
                assert(a.skip(i + 1).last() == a.last());
            }
        }
        lemma_split_append(a.skip(i + 1), x);
        assert(split_lines(t) =~~= split_lines(a) + seq![x]);
    }
}

/// Cleaning distributes over concatenation.
pub proof fn lemma_clean_append(a: Seq<Seq<u8>>, b: Seq<Seq<u8>>)
    ensures
        clean_lines(a + b) == clean_lines(a) + clean_lines(b),
    decreases a.len(),
{
    if a.len() == 0 {
        assert(a + b =~= b);
        assert(clean_lines(a) + clean_lines(b) =~~= clean_lines(b));
    } else {
        assert((a + b).skip(1) =~~= a.skip(1) + b);
        lemma_clean_append(a.skip(1), b);
        assert(clean_lines(a + b) =~~= clean_lines(a) + clean_lines(b));
    }
}

/// The views of a vector of byte vectors.
pub open spec fn views_of(v: Seq<Vec<u8>>) -> Seq<Seq<u8>> {
    Seq::new(v.len(), |i: int| v[i]@)
}

/// The shape every field key has: non-empty, not a comment, within one line.
pub open spec fn key_shape(k: Seq<u8>) -> bool {
    k.len() > 0 && k[0] != HASH && !has_byte(k, NL)
}

/// One field line of the rendered document.
pub open spec fn line_of(content: Seq<u8>) -> Seq<u8> {
    content + seq![NL]
}

/// One comment line of the rendered document.
pub open spec fn comment_of(text: Seq<u8>) -> Seq<u8> {
    seq![HASH, 32u8] + text + seq![NL]
}

/// The empty separator line of the rendered document.
pub open spec fn blank_line() -> Seq<u8> {
    seq![NL]
}

/// A comment text with line separators replaced by spaces, so that whatever
/// is handed in stays one comment line.
pub open spec fn sanitize_comment(t: Seq<u8>) -> Seq<u8> {
    Seq::new(
        t.len(),
        |i: int|
            if t[i] == NL {
                32u8
            } else {
                t[i]
            },
    )
}

/// Sanitizing changes nothing in a text that already stays on one line.
pub proof fn lemma_sanitize_id(t: Seq<u8>)
    requires
        !has_byte(t, NL),
    ensures
        sanitize_comment(t) == t,
{
    assert forall|i: int| 0 <= i < t.len() implies sanitize_comment(t)[i] == t[i] by {
        if t[i] == NL {
            assert(has_byte(t, NL));
        }
    }
    assert(sanitize_comment(t) =~= t);
}

/// A fixed banner line of the rendered document.
#[verifier::opaque]
pub open spec fn b_url_0() -> Seq<u8> {
    seq![84u8, 104u8, 101u8, 32u8, 99u8, 111u8, 110u8, 110u8, 101u8, 99u8, 116u8, 105u8, 111u8, 110u8, 32u8, 117u8, 114u8, 108u8, 32u8, 102u8, 111u8, 114u8, 32u8, 99u8, 111u8, 109u8, 109u8, 117u8, 110u8, 105u8, 99u8, 97u8, 116u8, 105u8, 111u8, 110u8, 115u8, 32u8, 98u8, 101u8, 116u8, 119u8, 101u8, 101u8, 110u8, 32u8, 115u8, 101u8, 114u8, 118u8, 101u8, 114u8, 32u8, 47u8, 32u8, 99u8, 108u8, 105u8, 101u8, 110u8, 116u8, 46u8]
}

#[verifier::rlimit(100)]
fn b_url_0_exec() -> (r: Vec<u8>)
    ensures
        r@ == b_url_0(),
        !has_byte(b_url_0(), NL),
{
    let mut v: Vec<u8> = Vec::new();
    v.push(84u8);
    v.push(104u8);
    v.push(101u8);
    v.push(32u8);
    v.push(99u8);
    v.push(111u8);
    v.push(110u8);
    v.push(110u8);
    v.push(101u8);
    v.push(99u8);
    v.push(116u8);
    v.push(105u8);
    v.push(111u8);
    v.push(110u8);
    v.push(32u8);
    v.push(117u8);
    v.push(114u8);
    v.push(108u8);
    v.push(32u8);
    v.push(102u8);
    v.push(111u8);
    v.push(114u8);
    v.push(32u8);
    v.push(99u8);
    v.push(111u8);
    v.push(109u8);
    v.push(109u8);
    v.push(117u8);
    v.push(110u8);
    v.push(105u8);
    v.push(99u8);
    v.push(97u8);
    v.push(116u8);
    v.push(105u8);
    v.push(111u8);
    v.push(110u8);
    v.push(115u8);
    v.push(32u8);
    v.push(98u8);
    v.push(101u8);
    v.push(116u8);
    v.push(119u8);
    v.push(101u8);
    v.push(101u8);
    v.push(110u8);
    v.push(32u8);
    v.push(115u8);
    v.push(101u8);
    v.push(114u8);
    v.push(118u8);
    v.push(101u8);
    v.push(114u8);
    v.push(32u8);
    v.push(47u8);
    v.push(32u8);
    v.push(99u8);
    v.push(108u8);
    v.push(105u8);
    v.push(101u8);
    v.push(110u8);
    v.push(116u8);
    v.push(46u8);
    proof {
        reveal(b_url_0);
        assert(v@ =~= b_url_0());
        assert forall|j: int| 0 <= j < b_url_0().len() implies b_url_0()[j] != NL by {}
        assert(!has_byte(b_url_0(), NL));
    }
    v
}

/// A fixed banner line of the rendered document.
#[verifier::opaque]
pub open spec fn b_url_1() -> Seq<u8> {
    seq![45u8, 32u8, 96u8, 117u8, 110u8, 105u8, 120u8, 58u8, 47u8, 47u8, 47u8, 112u8, 97u8, 116u8, 104u8, 47u8, 116u8, 111u8, 47u8, 117u8, 110u8, 105u8, 120u8, 47u8, 115u8, 111u8, 99u8, 107u8, 101u8, 116u8, 63u8, 107u8, 61u8, 89u8, 97u8, 100u8, 97u8, 96u8]
}

#[verifier::rlimit(100)]
fn b_url_1_exec() -> (r: Vec<u8>)
    ensures
        r@ == b_url_1(),
        !has_byte(b_url_1(), NL),
{
    let mut v: Vec<u8> = Vec::new();
    v.push(45u8);
    v.push(32u8);
    v.push(96u8);
    v.push(117u8);
    v.push(110u8);
    v.push(105u8);
    v.push(120u8);
    v.push(58u8);
    v.push(47u8);
    v.push(47u8);
    v.push(47u8);
    v.push(112u8);
    v.push(97u8);
    v.push(116u8);
    v.push(104u8);
    v.push(47u8);
    v.push(116u8);
    v.push(111u8);
    v.push(47u8);
    v.push(117u8);
    v.push(110u8);
    v.push(105u8);
    v.push(120u8);
    v.push(47u8);
    v.push(115u8);
    v.push(111u8);
    v.push(99u8);
    v.push(107u8);
    v.push(101u8);
    v.push(116u8);
    v.push(63u8);
    v.push(107u8);
    v.push(61u8);
    v.push(89u8);
    v.push(97u8);
    v.push(100u8);
    v.push(97u8);
    v.push(96u8);
    proof {
        reveal(b_url_1);
        assert(v@ =~= b_url_1());
        assert forall|j: int| 0 <= j < b_url_1().len() implies b_url_1()[j] != NL by {}
        assert(!has_byte(b_url_1(), NL));
    }
    v
}

/// A fixed banner line of the rendered document.
#[verifier::opaque]
pub open spec fn b_url_2() -> Seq<u8> {
    seq![45u8, 32u8, 96u8, 110u8, 97u8, 109u8, 101u8, 100u8, 45u8, 112u8, 105u8, 112u8, 101u8, 58u8, 92u8, 92u8, 46u8, 92u8, 112u8, 105u8, 112u8, 101u8, 92u8, 109u8, 121u8, 95u8, 112u8, 105u8, 112u8, 101u8, 95u8, 110u8, 97u8, 109u8, 101u8, 63u8, 107u8, 61u8, 89u8, 97u8, 100u8, 97u8, 96u8]
}

#[verifier::rlimit(100)]
fn b_url_2_exec() -> (r: Vec<u8>)
    ensures
        r@ == b_url_2(),
        !has_byte(b_url_2(), NL),
{
    let mut v: Vec<u8> = Vec::new();
    v.push(45u8);
    v.push(32u8);
    v.push(96u8);
    v.push(110u8);
    v.push(97u8);
    v.push(109u8);
    v.push(101u8);
    v.push(100u8);
    v.push(45u8);
    v.push(112u8);
    v.push(105u8);
    v.push(112u8);
    v.push(101u8);
    v.push(58u8);
    v.push(92u8);
    v.push(92u8);
    v.push(46u8);
    v.push(92u8);
    v.push(112u8);
    v.push(105u8);
    v.push(112u8);
    v.push(101u8);
    v.push(92u8);
    v.push(109u8);
    v.push(121u8);
    v.push(95u8);
    v.push(112u8);
    v.push(105u8);
    v.push(112u8);
    v.push(101u8);
    v.push(95u8);
    v.push(110u8);
    v.push(97u8);
    v.push(109u8);
    v.push(101u8);
    v.push(63u8);
    v.push(107u8);
    v.push(61u8);
    v.push(89u8);
    v.push(97u8);
    v.push(100u8);
    v.push(97u8);
    v.push(96u8);
    proof {
        reveal(b_url_2);
        assert(v@ =~= b_url_2());
        assert forall|j: int| 0 <= j < b_url_2().len() implies b_url_2()[j] != NL by {}
        assert(!has_byte(b_url_2(), NL));
    }
    v
}

/// A fixed banner line of the rendered document.
#[verifier::opaque]
pub open spec fn b_url_3() -> Seq<u8> {
    seq![45u8, 32u8, 40u8, 110u8, 111u8, 116u8, 32u8, 121u8, 101u8, 116u8, 32u8, 115u8, 117u8, 112u8, 112u8, 111u8, 114u8, 116u8, 101u8, 100u8, 41u8, 32u8, 96u8, 116u8, 99u8, 112u8, 58u8, 47u8, 47u8, 49u8, 50u8, 55u8, 46u8, 48u8, 46u8, 48u8, 46u8, 49u8, 58u8, 49u8, 50u8, 51u8, 52u8, 53u8, 63u8, 107u8, 61u8, 89u8, 97u8, 100u8, 97u8, 96u8]
}

#[verifier::rlimit(100)]
fn b_url_3_exec() -> (r: Vec<u8>)
    ensures
        r@ == b_url_3(),
        !has_byte(b_url_3(), NL),
{
    let mut v: Vec<u8> = Vec::new();
    v.push(45u8);
    v.push(32u8);
    v.push(40u8);
    v.push(110u8);
    v.push(111u8);
    v.push(116u8);
    v.push(32u8);
    v.push(121u8);
    v.push(101u8);
    v.push(116u8);
    v.push(32u8);
    v.push(115u8);
    v.push(117u8);
    v.push(112u8);
    v.push(112u8);
    v.push(111u8);
    v.push(114u8);
    v.push(116u8);
    v.push(101u8);
    v.push(100u8);
    v.push(41u8);
    v.push(32u8);
    v.push(96u8);
    v.push(116u8);
    v.push(99u8);
    v.push(112u8);
    v.push(58u8);
    v.push(47u8);
    v.push(47u8);
    v.push(49u8);
    v.push(50u8);
    v.push(55u8);
    v.push(46u8);
    v.push(48u8);
    v.push(46u8);
    v.push(48u8);
    v.push(46u8);
    v.push(49u8);
    v.push(58u8);
    v.push(49u8);
    v.push(50u8);
    v.push(51u8);
    v.push(52u8);
    v.push(53u8);
    v.push(63u8);
    v.push(107u8);
    v.push(61u8);
    v.push(89u8);
    v.push(97u8);
    v.push(100u8);
    v.push(97u8);
    v.push(96u8);
    proof {
        reveal(b_url_3);
        assert(v@ =~= b_url_3());
        assert forall|j: int| 0 <= j < b_url_3().len() implies b_url_3()[j] != NL by {}
        assert(!has_byte(b_url_3(), NL));
    }
    v
}

/// A fixed banner line of the rendered document.
#[verifier::opaque]
pub open spec fn b_pid_0() -> Seq<u8> {
    seq![84u8, 104u8, 101u8, 32u8, 112u8, 105u8, 100u8, 32u8, 102u8, 105u8, 108u8, 101u8, 32u8, 102u8, 111u8, 114u8, 32u8, 109u8, 97u8, 110u8, 97u8, 103u8, 105u8, 110u8, 103u8, 32u8, 97u8, 32u8, 114u8, 117u8, 110u8, 110u8, 105u8, 110u8, 103u8, 32u8, 108u8, 97u8, 105u8, 114u8, 45u8, 107u8, 101u8, 121u8, 115u8, 116u8, 111u8, 114u8, 101u8, 32u8, 112u8, 114u8, 111u8, 99u8, 101u8, 115u8, 115u8]
}

#[verifier::rlimit(100)]
fn b_pid_0_exec() -> (r: Vec<u8>)
    ensures
        r@ == b_pid_0(),
        !has_byte(b_pid_0(), NL),
{
    let mut v: Vec<u8> = Vec::new();
    v.push(84u8);
    v.push(104u8);
    v.push(101u8);
    v.push(32u8);
    v.push(112u8);
    v.push(105u8);
    v.push(100u8);
    v.push(32u8);
    v.push(102u8);
    v.push(105u8);
    v.push(108u8);
    v.push(101u8);
    v.push(32u8);
    v.push(102u8);
    v.push(111u8);
    v.push(114u8);
    v.push(32u8);
    v.push(109u8);
    v.push(97u8);
    v.push(110u8);
    v.push(97u8);
    v.push(103u8);
    v.push(105u8);
    v.push(110u8);
    v.push(103u8);
    v.push(32u8);
    v.push(97u8);
    v.push(32u8);
    v.push(114u8);
    v.push(117u8);
    v.push(110u8);
    v.push(110u8);
    v.push(105u8);
    v.push(110u8);
    v.push(103u8);
    v.push(32u8);
    v.push(108u8);
    v.push(97u8);
    v.push(105u8);
    v.push(114u8);
    v.push(45u8);
    v.push(107u8);
    v.push(101u8);
    v.push(121u8);
    v.push(115u8);
    v.push(116u8);
    v.push(111u8);
    v.push(114u8);
    v.push(101u8);
    v.push(32u8);
    v.push(112u8);
    v.push(114u8);
    v.push(111u8);
    v.push(99u8);
    v.push(101u8);
    v.push(115u8);
    v.push(115u8);
    proof {
        reveal(b_pid_0);
        assert(v@ =~= b_pid_0());
        assert forall|j: int| 0 <= j < b_pid_0().len() implies b_pid_0()[j] != NL by {}
        assert(!has_byte(b_pid_0(), NL));
    }
    v
}

/// A fixed banner line of the rendered document.
#[verifier::opaque]
pub open spec fn b_store_0() -> Seq<u8> {
    seq![84u8, 104u8, 101u8, 32u8, 115u8, 113u8, 108u8, 99u8, 105u8, 112u8, 104u8, 101u8, 114u8, 32u8, 115u8, 116u8, 111u8, 114u8, 101u8, 32u8, 102u8, 105u8, 108u8, 101u8, 32u8, 102u8, 111u8, 114u8, 32u8, 112u8, 101u8, 114u8, 115u8, 105u8, 115u8, 116u8, 105u8, 110u8, 103u8, 32u8, 115u8, 101u8, 99u8, 114u8, 101u8, 116u8, 115u8]
}

#[verifier::rlimit(100)]
fn b_store_0_exec() -> (r: Vec<u8>)
    ensures
        r@ == b_store_0(),
        !has_byte(b_store_0(), NL),
{
    let mut v: Vec<u8> = Vec::new();
    v.push(84u8);
    v.push(104u8);
    v.push(101u8);
    v.push(32u8);
    v.push(115u8);
    v.push(113u8);
    v.push(108u8);
    v.push(99u8);
    v.push(105u8);
    v.push(112u8);
    v.push(104u8);
    v.push(101u8);
    v.push(114u8);
    v.push(32u8);
    v.push(115u8);
    v.push(116u8);
    v.push(111u8);
    v.push(114u8);
    v.push(101u8);
    v.push(32u8);
    v.push(102u8);
    v.push(105u8);
    v.push(108u8);
    v.push(101u8);
    v.push(32u8);
    v.push(102u8);
    v.push(111u8);
    v.push(114u8);
    v.push(32u8);
    v.push(112u8);
    v.push(101u8);
    v.push(114u8);
    v.push(115u8);
    v.push(105u8);
    v.push(115u8);
    v.push(116u8);
    v.push(105u8);
    v.push(110u8);
    v.push(103u8);
    v.push(32u8);
    v.push(115u8);
    v.push(101u8);
    v.push(99u8);
    v.push(114u8);
    v.push(101u8);
    v.push(116u8);
    v.push(115u8);
    proof {
        reveal(b_store_0);
        assert(v@ =~= b_store_0());
        assert forall|j: int| 0 <= j < b_store_0().len() implies b_store_0()[j] != NL by {}
        assert(!has_byte(b_store_0(), NL));
    }
    v
}

/// A fixed banner line of the rendered document.
#[verifier::opaque]
pub open spec fn b_fb_0() -> Seq<u8> {
    seq![67u8, 111u8, 110u8, 102u8, 105u8, 103u8, 117u8, 114u8, 97u8, 116u8, 105u8, 111u8, 110u8, 32u8, 102u8, 111u8, 114u8, 32u8, 109u8, 97u8, 110u8, 97u8, 103u8, 105u8, 110u8, 103u8, 32u8, 115u8, 105u8, 103u8, 110u8, 95u8, 98u8, 121u8, 95u8, 112u8, 117u8, 98u8, 95u8, 107u8, 101u8, 121u8, 32u8, 102u8, 97u8, 108u8, 108u8, 98u8, 97u8, 99u8, 107u8]
}

#[verifier::rlimit(100)]
fn b_fb_0_exec() -> (r: Vec<u8>)
    ensures
        r@ == b_fb_0(),
        !has_byte(b_fb_0(), NL),
{
    let mut v: Vec<u8> = Vec::new();
    v.push(67u8);
    v.push(111u8);
    v.push(110u8);
    v.push(102u8);
    v.push(105u8);
    v.push(103u8);
    v.push(117u8);
    v.push(114u8);
    v.push(97u8);
    v.push(116u8);
    v.push(105u8);
    v.push(111u8);
    v.push(110u8);
    v.push(32u8);
    v.push(102u8);
    v.push(111u8);
    v.push(114u8);
    v.push(32u8);
    v.push(109u8);
    v.push(97u8);
    v.push(110u8);
    v.push(97u8);
    v.push(103u8);
    v.push(105u8);
    v.push(110u8);
    v.push(103u8);
    v.push(32u8);
    v.push(115u8);
    v.push(105u8);
    v.push(103u8);
    v.push(110u8);
    v.push(95u8);
    v.push(98u8);
    v.push(121u8);
    v.push(95u8);
    v.push(112u8);
    v.push(117u8);
    v.push(98u8);
    v.push(95u8);
    v.push(107u8);
    v.push(101u8);
    v.push(121u8);
    v.push(32u8);
    v.push(102u8);
    v.push(97u8);
    v.push(108u8);
    v.push(108u8);
    v.push(98u8);
    v.push(97u8);
    v.push(99u8);
    v.push(107u8);
    proof {
        reveal(b_fb_0);
        assert(v@ =~= b_fb_0());
        assert forall|j: int| 0 <= j < b_fb_0().len() implies b_fb_0()[j] != NL by {}
        assert(!has_byte(b_fb_0(), NL));
    }
    v
}

/// A fixed banner line of the rendered document.
#[verifier::opaque]
pub open spec fn b_fb_1() -> Seq<u8> {
    seq![105u8, 110u8, 32u8, 99u8, 97u8, 115u8, 101u8, 32u8, 116u8, 104u8, 101u8, 32u8, 112u8, 117u8, 98u8, 32u8, 107u8, 101u8, 121u8, 32u8, 100u8, 111u8, 101u8, 115u8, 32u8, 110u8, 111u8, 116u8, 32u8, 101u8, 120u8, 105u8, 115u8, 116u8, 32u8, 105u8, 110u8, 32u8, 116u8, 104u8, 101u8, 32u8, 108u8, 97u8, 105u8, 114u8, 32u8, 115u8, 116u8, 111u8, 114u8, 101u8, 46u8]
}

#[verifier::rlimit(100)]
fn b_fb_1_exec() -> (r: Vec<u8>)
    ensures
        r@ == b_fb_1(),
        !has_byte(b_fb_1(), NL),
{
    let mut v: Vec<u8> = Vec::new();
    v.push(105u8);
    v.push(110u8);
    v.push(32u8);
    v.push(99u8);
    v.push(97u8);
    v.push(115u8);
    v.push(101u8);
    v.push(32u8);
    v.push(116u8);
    v.push(104u8);
    v.push(101u8);
    v.push(32u8);
    v.push(112u8);
    v.push(117u8);
    v.push(98u8);
    v.push(32u8);
    v.push(107u8);
    v.push(101u8);
    v.push(121u8);
    v.push(32u8);
    v.push(100u8);
    v.push(111u8);
    v.push(101u8);
    v.push(115u8);
    v.push(32u8);
    v.push(110u8);
    v.push(111u8);
    v.push(116u8);
    v.push(32u8);
    v.push(101u8);
    v.push(120u8);
    v.push(105u8);
    v.push(115u8);
    v.push(116u8);
    v.push(32u8);
    v.push(105u8);
    v.push(110u8);
    v.push(32u8);
    v.push(116u8);
    v.push(104u8);
    v.push(101u8);
    v.push(32u8);
    v.push(108u8);
    v.push(97u8);
    v.push(105u8);
    v.push(114u8);
    v.push(32u8);
    v.push(115u8);
    v.push(116u8);
    v.push(111u8);
    v.push(114u8);
    v.push(101u8);
    v.push(46u8);
    proof {
        reveal(b_fb_1);
        assert(v@ =~= b_fb_1());
        assert forall|j: int| 0 <= j < b_fb_1().len() implies b_fb_1()[j] != NL by {}
        assert(!has_byte(b_fb_1(), NL));
    }
    v
}

/// A fixed banner line of the rendered document.
#[verifier::opaque]
pub open spec fn b_fb_2() -> Seq<u8> {
    seq![45u8, 32u8, 96u8, 115u8, 105u8, 103u8, 110u8, 97u8, 116u8, 117u8, 114u8, 101u8, 70u8, 97u8, 108u8, 108u8, 98u8, 97u8, 99u8, 107u8, 58u8, 32u8, 110u8, 111u8, 110u8, 101u8, 96u8]
}

#[verifier::rlimit(100)]
fn b_fb_2_exec() -> (r: Vec<u8>)
    ensures
        r@ == b_fb_2(),
        !has_byte(b_fb_2(), NL),
{
    let mut v: Vec<u8> = Vec::new();
    v.push(45u8);
    v.push(32u8);
    v.push(96u8);
    v.push(115u8);
    v.push(105u8);
    v.push(103u8);
    v.push(110u8);
    v.push(97u8);
    v.push(116u8);
    v.push(117u8);
    v.push(114u8);
    v.push(101u8);
    v.push(70u8);
    v.push(97u8);
    v.push(108u8);
    v.push(108u8);
    v.push(98u8);
    v.push(97u8);
    v.push(99u8);
    v.push(107u8);
    v.push(58u8);
    v.push(32u8);
    v.push(110u8);
    v.push(111u8);
    v.push(110u8);
    v.push(101u8);
    v.push(96u8);
    proof {
        reveal(b_fb_2);
        assert(v@ =~= b_fb_2());
        assert forall|j: int| 0 <= j < b_fb_2().len() implies b_fb_2()[j] != NL by {}
        assert(!has_byte(b_fb_2(), NL));
    }
    v
}

/// A fixed banner line of the rendered document.
#[verifier::opaque]
pub open spec fn b_fb_3() -> Seq<u8> {
    seq![45u8, 32u8, 96u8, 96u8, 96u8]
}

#[verifier::rlimit(100)]
fn b_fb_3_exec() -> (r: Vec<u8>)
    ensures
        r@ == b_fb_3(),
        !has_byte(b_fb_3(), NL),
{
    let mut v: Vec<u8> = Vec::new();
    v.push(45u8);
    v.push(32u8);
    v.push(96u8);
    v.push(96u8);
    v.push(96u8);
    proof {
        reveal(b_fb_3);
        assert(v@ =~= b_fb_3());
        assert forall|j: int| 0 <= j < b_fb_3().len() implies b_fb_3()[j] != NL by {}
        assert(!has_byte(b_fb_3(), NL));
    }
    v
}

/// A fixed banner line of the rendered document.
#[verifier::opaque]
pub open spec fn b_fb_4() -> Seq<u8> {
    seq![32u8, 32u8, 115u8, 105u8, 103u8, 110u8, 97u8, 116u8, 117u8, 114u8, 101u8, 70u8, 97u8, 108u8, 108u8, 98u8, 97u8, 99u8, 107u8, 58u8, 32u8, 33u8, 99u8, 111u8, 109u8, 109u8, 97u8, 110u8, 100u8]
}

#[verifier::rlimit(100)]
fn b_fb_4_exec() -> (r: Vec<u8>)
    ensures
        r@ == b_fb_4(),
        !has_byte(b_fb_4(), NL),
{
    let mut v: Vec<u8> = Vec::new();
    v.push(32u8);
    v.push(32u8);
    v.push(115u8);
    v.push(105u8);
    v.push(103u8);
    v.push(110u8);
    v.push(97u8);
    v.push(116u8);
    v.push(117u8);
    v.push(114u8);
    v.push(101u8);
    v.push(70u8);
    v.push(97u8);
    v.push(108u8);
    v.push(108u8);
    v.push(98u8);
    v.push(97u8);
    v.push(99u8);
    v.push(107u8);
    v.push(58u8);
    v.push(32u8);
    v.push(33u8);
    v.push(99u8);
    v.push(111u8);
    v.push(109u8);
    v.push(109u8);
    v.push(97u8);
    v.push(110u8);
    v.push(100u8);
    proof {
        reveal(b_fb_4);
        assert(v@ =~= b_fb_4());
        assert forall|j: int| 0 <= j < b_fb_4().len() implies b_fb_4()[j] != NL by {}
        assert(!has_byte(b_fb_4(), NL));
    }
    v
}

/// A fixed banner line of the rendered document.
#[verifier::opaque]
pub open spec fn b_fb_5() -> Seq<u8> {
    seq![32u8, 32u8, 32u8, 32u8, 35u8, 32u8, 39u8, 112u8, 114u8, 111u8, 103u8, 114u8, 97u8, 109u8, 39u8, 32u8, 119u8, 105u8, 108u8, 108u8, 32u8, 114u8, 101u8, 115u8, 111u8, 108u8, 118u8, 101u8, 32u8, 116u8, 111u8, 32u8, 97u8, 32u8, 112u8, 97u8, 116u8, 104u8, 44u8, 32u8, 115u8, 112u8, 101u8, 99u8, 105u8, 102u8, 121u8, 105u8, 110u8, 103u8, 32u8, 39u8, 101u8, 99u8, 104u8, 111u8, 39u8]
}

#[verifier::rlimit(100)]
fn b_fb_5_exec() -> (r: Vec<u8>)
    ensures
        r@ == b_fb_5(),
        !has_byte(b_fb_5(), NL),
{
    let mut v: Vec<u8> = Vec::new();
    v.push(32u8);
    v.push(32u8);
    v.push(32u8);
    v.push(32u8);
    v.push(35u8);
    v.push(32u8);
    v.push(39u8);
    v.push(112u8);
    v.push(114u8);
    v.push(111u8);
    v.push(103u8);
    v.push(114u8);
    v.push(97u8);
    v.push(109u8);
    v.push(39u8);
    v.push(32u8);
    v.push(119u8);
    v.push(105u8);
    v.push(108u8);
    v.push(108u8);
    v.push(32u8);
    v.push(114u8);
    v.push(101u8);
    v.push(115u8);
    v.push(111u8);
    v.push(108u8);
    v.push(118u8);
    v.push(101u8);
    v.push(32u8);
    v.push(116u8);
    v.push(111u8);
    v.push(32u8);
    v.push(97u8);
    v.push(32u8);
    v.push(112u8);
    v.push(97u8);
    v.push(116u8);
    v.push(104u8);
    v.push(44u8);
    v.push(32u8);
    v.push(115u8);
    v.push(112u8);
    v.push(101u8);
    v.push(99u8);
    v.push(105u8);
    v.push(102u8);
    v.push(121u8);
    v.push(105u8);
    v.push(110u8);
    v.push(103u8);
    v.push(32u8);
    v.push(39u8);
    v.push(101u8);
    v.push(99u8);
    v.push(104u8);
    v.push(111u8);
    v.push(39u8);
    proof {
        reveal(b_fb_5);
        assert(v@ =~= b_fb_5());
        assert forall|j: int| 0 <= j < b_fb_5().len() implies b_fb_5()[j] != NL by {}
        assert(!has_byte(b_fb_5(), NL));
    }
    v
}

/// A fixed banner line of the rendered document.
#[verifier::opaque]
pub open spec fn b_fb_6() -> Seq<u8> {
    seq![32u8, 32u8, 32u8, 32u8, 35u8, 32u8, 119u8, 105u8, 108u8, 108u8, 32u8, 116u8, 114u8, 121u8, 32u8, 116u8, 111u8, 32u8, 114u8, 117u8, 110u8, 32u8, 39u8, 46u8, 47u8, 101u8, 99u8, 104u8, 111u8, 39u8, 44u8, 32u8, 112u8, 114u8, 111u8, 98u8, 97u8, 98u8, 108u8, 121u8, 32u8, 110u8, 111u8, 116u8, 32u8, 119u8, 104u8, 97u8, 116u8, 32u8, 121u8, 111u8, 117u8, 32u8, 119u8, 97u8, 110u8, 116u8, 46u8]
}

#[verifier::rlimit(100)]
fn b_fb_6_exec() -> (r: Vec<u8>)
    ensures
        r@ == b_fb_6(),
        !has_byte(b_fb_6(), NL),
{
    let mut v: Vec<u8> = Vec::new();
    v.push(32u8);
    v.push(32u8);
    v.push(32u8);
    v.push(32u8);
    v.push(35u8);
    v.push(32u8);
    v.push(119u8);
    v.push(105u8);
    v.push(108u8);
    v.push(108u8);
    v.push(32u8);
    v.push(116u8);
    v.push(114u8);
    v.push(121u8);
    v.push(32u8);
    v.push(116u8);
    v.push(111u8);
    v.push(32u8);
    v.push(114u8);
    v.push(117u8);
    v.push(110u8);
    v.push(32u8);
    v.push(39u8);
    v.push(46u8);
    v.push(47u8);
    v.push(101u8);
    v.push(99u8);
    v.push(104u8);
    v.push(111u8);
    v.push(39u8);
    v.push(44u8);
    v.push(32u8);
    v.push(112u8);
    v.push(114u8);
    v.push(111u8);
    v.push(98u8);
    v.push(97u8);
    v.push(98u8);
    v.push(108u8);
    v.push(121u8);
    v.push(32u8);
    v.push(110u8);
    v.push(111u8);
    v.push(116u8);
    v.push(32u8);
    v.push(119u8);
    v.push(104u8);
    v.push(97u8);
    v.push(116u8);
    v.push(32u8);
    v.push(121u8);
    v.push(111u8);
    v.push(117u8);
    v.push(32u8);
    v.push(119u8);
    v.push(97u8);
    v.push(110u8);
    v.push(116u8);
    v.push(46u8);
    proof {
        reveal(b_fb_6);
        assert(v@ =~= b_fb_6());
        assert forall|j: int| 0 <= j < b_fb_6().len() implies b_fb_6()[j] != NL by {}
        assert(!has_byte(b_fb_6(), NL));
    }
    v
}

/// A fixed banner line of the rendered document.
#[verifier::opaque]
pub open spec fn b_fb_7() -> Seq<u8> {
    seq![32u8, 32u8, 32u8, 32u8, 112u8, 114u8, 111u8, 103u8, 114u8, 97u8, 109u8, 58u8, 32u8, 34u8, 46u8, 47u8, 109u8, 121u8, 45u8, 101u8, 120u8, 101u8, 99u8, 117u8, 116u8, 97u8, 98u8, 108u8, 101u8, 34u8]
}

#[verifier::rlimit(100)]
fn b_fb_7_exec() -> (r: Vec<u8>)
    ensures
        r@ == b_fb_7(),
        !has_byte(b_fb_7(), NL),
{
    let mut v: Vec<u8> = Vec::new();
    v.push(32u8);
    v.push(32u8);
    v.push(32u8);
    v.push(32u8);
    v.push(112u8);
    v.push(114u8);
    v.push(111u8);
    v.push(103u8);
    v.push(114u8);
    v.push(97u8);
    v.push(109u8);
    v.push(58u8);
    v.push(32u8);
    v.push(34u8);
    v.push(46u8);
    v.push(47u8);
    v.push(109u8);
    v.push(121u8);
    v.push(45u8);
    v.push(101u8);
    v.push(120u8);
    v.push(101u8);
    v.push(99u8);
    v.push(117u8);
    v.push(116u8);
    v.push(97u8);
    v.push(98u8);
    v.push(108u8);
    v.push(101u8);
    v.push(34u8);
    proof {
        reveal(b_fb_7);
        assert(v@ =~= b_fb_7());
        assert forall|j: int| 0 <= j < b_fb_7().len() implies b_fb_7()[j] != NL by {}
        assert(!has_byte(b_fb_7(), NL));
    }
    v
}

/// A fixed banner line of the rendered document.
#[verifier::opaque]
pub open spec fn b_fb_8() -> Seq<u8> {
    seq![32u8, 32u8, 32u8, 32u8, 35u8, 32u8, 97u8, 114u8, 103u8, 115u8, 32u8, 97u8, 114u8, 101u8, 32u8, 111u8, 112u8, 116u8, 105u8, 111u8, 110u8, 97u8, 108u8]
}

#[verifier::rlimit(100)]
fn b_fb_8_exec() -> (r: Vec<u8>)
    ensures
        r@ == b_fb_8(),
        !has_byte(b_fb_8(), NL),
{
    let mut v: Vec<u8> = Vec::new();
    v.push(32u8);
    v.push(32u8);
    v.push(32u8);
    v.push(32u8);
    v.push(35u8);
    v.push(32u8);
    v.push(97u8);
    v.push(114u8);
    v.push(103u8);
    v.push(115u8);
    v.push(32u8);
    v.push(97u8);
    v.push(114u8);
    v.push(101u8);
    v.push(32u8);
    v.push(111u8);
    v.push(112u8);
    v.push(116u8);
    v.push(105u8);
    v.push(111u8);
    v.push(110u8);
    v.push(97u8);
    v.push(108u8);
    proof {
        reveal(b_fb_8);
        assert(v@ =~= b_fb_8());
        assert forall|j: int| 0 <= j < b_fb_8().len() implies b_fb_8()[j] != NL by {}
        assert(!has_byte(b_fb_8(), NL));
    }
    v
}

/// A fixed banner line of the rendered document.
#[verifier::opaque]
pub open spec fn b_fb_9() -> Seq<u8> {
    seq![32u8, 32u8, 32u8, 32u8, 97u8, 114u8, 103u8, 115u8, 58u8]
}

#[verifier::rlimit(100)]
fn b_fb_9_exec() -> (r: Vec<u8>)
    ensures
        r@ == b_fb_9(),
        !has_byte(b_fb_9(), NL),
{
    let mut v: Vec<u8> = Vec::new();
    v.push(32u8);
    v.push(32u8);
    v.push(32u8);
    v.push(32u8);
    v.push(97u8);
    v.push(114u8);
    v.push(103u8);
    v.push(115u8);
    v.push(58u8);
    proof {
        reveal(b_fb_9);
        assert(v@ =~= b_fb_9());
        assert forall|j: int| 0 <= j < b_fb_9().len() implies b_fb_9()[j] != NL by {}
        assert(!has_byte(b_fb_9(), NL));
    }
    v
}

/// A fixed banner line of the rendered document.
#[verifier::opaque]
pub open spec fn b_fb_10() -> Seq<u8> {
    seq![32u8, 32u8, 32u8, 32u8, 32u8, 32u8, 45u8, 32u8, 116u8, 101u8, 115u8, 116u8, 45u8, 97u8, 114u8, 103u8, 49u8]
}

#[verifier::rlimit(100)]
fn b_fb_10_exec() -> (r: Vec<u8>)
    ensures
        r@ == b_fb_10(),
        !has_byte(b_fb_10(), NL),
{
    let mut v: Vec<u8> = Vec::new();
    v.push(32u8);
    v.push(32u8);
    v.push(32u8);
    v.push(32u8);
    v.push(32u8);
    v.push(32u8);
    v.push(45u8);
    v.push(32u8);
    v.push(116u8);
    v.push(101u8);
    v.push(115u8);
    v.push(116u8);
    v.push(45u8);
    v.push(97u8);
    v.push(114u8);
    v.push(103u8);
    v.push(49u8);
    proof {
        reveal(b_fb_10);
        assert(v@ =~= b_fb_10());
        assert forall|j: int| 0 <= j < b_fb_10().len() implies b_fb_10()[j] != NL by {}
        assert(!has_byte(b_fb_10(), NL));
    }
    v
}

/// A fixed banner line of the rendered document.
#[verifier::opaque]
pub open spec fn b_fb_11() -> Seq<u8> {
    seq![32u8, 32u8, 32u8, 32u8, 32u8, 32u8, 45u8, 32u8, 116u8, 101u8, 115u8, 116u8, 45u8, 97u8, 114u8, 103u8, 50u8]
}

#[verifier::rlimit(100)]
fn b_fb_11_exec() -> (r: Vec<u8>)
    ensures
        r@ == b_fb_11(),
        !has_byte(b_fb_11(), NL),
{
    let mut v: Vec<u8> = Vec::new();
    v.push(32u8);
    v.push(32u8);
    v.push(32u8);
    v.push(32u8);
    v.push(32u8);
    v.push(32u8);
    v.push(45u8);
    v.push(32u8);
    v.push(116u8);
    v.push(101u8);
    v.push(115u8);
    v.push(116u8);
    v.push(45u8);
    v.push(97u8);
    v.push(114u8);
    v.push(103u8);
    v.push(50u8);
    proof {
        reveal(b_fb_11);
        assert(v@ =~= b_fb_11());
        assert forall|j: int| 0 <= j < b_fb_11().len() implies b_fb_11()[j] != NL by {}
        assert(!has_byte(b_fb_11(), NL));
    }
    v
}

/// A fixed banner line of the rendered document.
#[verifier::opaque]
pub open spec fn b_fb_12() -> Seq<u8> {
    seq![32u8, 32u8, 96u8, 96u8, 96u8]
}

#[verifier::rlimit(100)]
fn b_fb_12_exec() -> (r: Vec<u8>)
    ensures
        r@ == b_fb_12(),
        !has_byte(b_fb_12(), NL),
{
    let mut v: Vec<u8> = Vec::new();
    v.push(32u8);
    v.push(32u8);
    v.push(96u8);
    v.push(96u8);
    v.push(96u8);
    proof {
        reveal(b_fb_12);
        assert(v@ =~= b_fb_12());
        assert forall|j: int| 0 <= j < b_fb_12().len() implies b_fb_12()[j] != NL by {}
        assert(!has_byte(b_fb_12(), NL));
    }
    v
}

/// A fixed banner line of the rendered document.
#[verifier::opaque]
pub open spec fn b_sec_0() -> Seq<u8> {
    seq![45u8, 45u8, 32u8, 99u8, 114u8, 121u8, 112u8, 116u8, 111u8, 103u8, 114u8, 97u8, 112u8, 104u8, 105u8, 99u8, 32u8, 115u8, 101u8, 99u8, 114u8, 101u8, 116u8, 115u8, 32u8, 45u8, 45u8]
}

#[verifier::rlimit(100)]
fn b_sec_0_exec() -> (r: Vec<u8>)
    ensures
        r@ == b_sec_0(),
        !has_byte(b_sec_0(), NL),
{
    let mut v: Vec<u8> = Vec::new();
    v.push(45u8);
    v.push(45u8);
    v.push(32u8);
    v.push(99u8);
    v.push(114u8);
    v.push(121u8);
    v.push(112u8);
    v.push(116u8);
    v.push(111u8);
    v.push(103u8);
    v.push(114u8);
    v.push(97u8);
    v.push(112u8);
    v.push(104u8);
    v.push(105u8);
    v.push(99u8);
    v.push(32u8);
    v.push(115u8);
    v.push(101u8);
    v.push(99u8);
    v.push(114u8);
    v.push(101u8);
    v.push(116u8);
    v.push(115u8);
    v.push(32u8);
    v.push(45u8);
    v.push(45u8);
    proof {
        reveal(b_sec_0);
        assert(v@ =~= b_sec_0());
        assert forall|j: int| 0 <= j < b_sec_0().len() implies b_sec_0()[j] != NL by {}
        assert(!has_byte(b_sec_0(), NL));
    }
    v
}

/// A fixed banner line of the rendered document.
#[verifier::opaque]
pub open spec fn b_sec_1() -> Seq<u8> {
    seq![73u8, 102u8, 32u8, 121u8, 111u8, 117u8, 32u8, 109u8, 111u8, 100u8, 105u8, 102u8, 121u8, 32u8, 116u8, 104u8, 101u8, 32u8, 100u8, 97u8, 116u8, 97u8, 32u8, 98u8, 101u8, 108u8, 111u8, 119u8, 44u8, 32u8, 121u8, 111u8, 117u8, 32u8, 114u8, 105u8, 115u8, 107u8, 32u8, 108u8, 111u8, 115u8, 105u8, 110u8, 103u8, 32u8, 97u8, 99u8, 99u8, 101u8, 115u8, 115u8, 32u8, 116u8, 111u8, 32u8, 121u8, 111u8, 117u8, 114u8, 32u8, 107u8, 101u8, 121u8, 115u8, 46u8]
}

#[verifier::rlimit(100)]
fn b_sec_1_exec() -> (r: Vec<u8>)
    ensures
        r@ == b_sec_1(),
        !has_byte(b_sec_1(), NL),
{
    let mut v: Vec<u8> = Vec::new();
    v.push(73u8);
    v.push(102u8);
    v.push(32u8);
    v.push(121u8);
    v.push(111u8);
    v.push(117u8);
    v.push(32u8);
    v.push(109u8);
    v.push(111u8);
    v.push(100u8);
    v.push(105u8);
    v.push(102u8);
    v.push(121u8);
    v.push(32u8);
    v.push(116u8);
    v.push(104u8);
    v.push(101u8);
    v.push(32u8);
    v.push(100u8);
    v.push(97u8);
    v.push(116u8);
    v.push(97u8);
    v.push(32u8);
    v.push(98u8);
    v.push(101u8);
    v.push(108u8);
    v.push(111u8);
    v.push(119u8);
    v.push(44u8);
    v.push(32u8);
    v.push(121u8);
    v.push(111u8);
    v.push(117u8);
    v.push(32u8);
    v.push(114u8);
    v.push(105u8);
    v.push(115u8);
    v.push(107u8);
    v.push(32u8);
    v.push(108u8);
    v.push(111u8);
    v.push(115u8);
    v.push(105u8);
    v.push(110u8);
    v.push(103u8);
    v.push(32u8);
    v.push(97u8);
    v.push(99u8);
    v.push(99u8);
    v.push(101u8);
    v.push(115u8);
    v.push(115u8);
    v.push(32u8);
    v.push(116u8);
    v.push(111u8);
    v.push(32u8);
    v.push(121u8);
    v.push(111u8);
    v.push(117u8);
    v.push(114u8);
    v.push(32u8);
    v.push(107u8);
    v.push(101u8);
    v.push(121u8);
    v.push(115u8);
    v.push(46u8);
    proof {
        reveal(b_sec_1);
        assert(v@ =~= b_sec_1());
        assert forall|j: int| 0 <= j < b_sec_1().len() implies b_sec_1()[j] != NL by {}
        assert(!has_byte(b_sec_1(), NL));
    }
    v
}

/// `connectionUrl: `.
pub open spec fn k_url() -> Seq<u8> {
    seq![99u8, 111u8, 110u8, 110u8, 101u8, 99u8, 116u8, 105u8, 111u8, 110u8, 85u8, 114u8, 108u8, 58u8, 32u8]
}

fn k_url_exec() -> (r: Vec<u8>)
    ensures
        r@ == k_url(),
        key_shape(k_url()),
{
    let mut v: Vec<u8> = Vec::new();
    v.push(99u8);
    v.push(111u8);
    v.push(110u8);
    v.push(110u8);
    v.push(101u8);
    v.push(99u8);
    v.push(116u8);
    v.push(105u8);
    v.push(111u8);
    v.push(110u8);
    v.push(85u8);
    v.push(114u8);
    v.push(108u8);
    v.push(58u8);
    v.push(32u8);
    proof {
        assert(v@ =~= k_url());
        assert forall|j: int| 0 <= j < k_url().len() implies k_url()[j] != NL by {}
        assert(!has_byte(k_url(), NL));
        assert(k_url()[0] != HASH);
    }
    v
}

/// `pidFile: `.
pub open spec fn k_pid() -> Seq<u8> {
    seq![112u8, 105u8, 100u8, 70u8, 105u8, 108u8, 101u8, 58u8, 32u8]
}

fn k_pid_exec() -> (r: Vec<u8>)
    ensures
        r@ == k_pid(),
        key_shape(k_pid()),
{
    let mut v: Vec<u8> = Vec::new();
    v.push(112u8);
    v.push(105u8);
    v.push(100u8);
    v.push(70u8);
    v.push(105u8);
    v.push(108u8);
    v.push(101u8);
    v.push(58u8);
    v.push(32u8);
    proof {
        assert(v@ =~= k_pid());
        assert forall|j: int| 0 <= j < k_pid().len() implies k_pid()[j] != NL by {}
        assert(!has_byte(k_pid(), NL));
        assert(k_pid()[0] != HASH);
    }
    v
}

/// `storeFile: `.
pub open spec fn k_store() -> Seq<u8> {
    seq![115u8, 116u8, 111u8, 114u8, 101u8, 70u8, 105u8, 108u8, 101u8, 58u8, 32u8]
}

fn k_store_exec() -> (r: Vec<u8>)
    ensures
        r@ == k_store(),
        key_shape(k_store()),
{
    let mut v: Vec<u8> = Vec::new();
    v.push(115u8);
    v.push(116u8);
    v.push(111u8);
    v.push(114u8);
    v.push(101u8);
    v.push(70u8);
    v.push(105u8);
    v.push(108u8);
    v.push(101u8);
    v.push(58u8);
    v.push(32u8);
    proof {
        assert(v@ =~= k_store());
        assert forall|j: int| 0 <= j < k_store().len() implies k_store()[j] != NL by {}
        assert(!has_byte(k_store(), NL));
        assert(k_store()[0] != HASH);
    }
    v
}

/// `signatureFallback: none`.
pub open spec fn l_fb_none() -> Seq<u8> {
    seq![115u8, 105u8, 103u8, 110u8, 97u8, 116u8, 117u8, 114u8, 101u8, 70u8, 97u8, 108u8, 108u8, 98u8, 97u8, 99u8, 107u8, 58u8, 32u8, 110u8, 111u8, 110u8, 101u8]
}

fn l_fb_none_exec() -> (r: Vec<u8>)
    ensures
        r@ == l_fb_none(),
        key_shape(l_fb_none()),
{
    let mut v: Vec<u8> = Vec::new();
    v.push(115u8);
    v.push(105u8);
    v.push(103u8);
    v.push(110u8);
    v.push(97u8);
    v.push(116u8);
    v.push(117u8);
    v.push(114u8);
    v.push(101u8);
    v.push(70u8);
    v.push(97u8);
    v.push(108u8);
    v.push(108u8);
    v.push(98u8);
    v.push(97u8);
    v.push(99u8);
    v.push(107u8);
    v.push(58u8);
    v.push(32u8);
    v.push(110u8);
    v.push(111u8);
    v.push(110u8);
    v.push(101u8);
    proof {
        assert(v@ =~= l_fb_none());
        assert forall|j: int| 0 <= j < l_fb_none().len() implies l_fb_none()[j] != NL by {}
        assert(!has_byte(l_fb_none(), NL));
        assert(l_fb_none()[0] != HASH);
    }
    v
}

/// `signatureFallback: !command`.
pub open spec fn l_fb_cmd() -> Seq<u8> {
    seq![115u8, 105u8, 103u8, 110u8, 97u8, 116u8, 117u8, 114u8, 101u8, 70u8, 97u8, 108u8, 108u8, 98u8, 97u8, 99u8, 107u8, 58u8, 32u8, 33u8, 99u8, 111u8, 109u8, 109u8, 97u8, 110u8, 100u8]
}

fn l_fb_cmd_exec() -> (r: Vec<u8>)
    ensures
        r@ == l_fb_cmd(),
        key_shape(l_fb_cmd()),
{
    let mut v: Vec<u8> = Vec::new();
    v.push(115u8);
    v.push(105u8);
    v.push(103u8);
    v.push(110u8);
    v.push(97u8);
    v.push(116u8);
    v.push(117u8);
    v.push(114u8);
    v.push(101u8);
    v.push(70u8);
    v.push(97u8);
    v.push(108u8);
    v.push(108u8);
    v.push(98u8);
    v.push(97u8);
    v.push(99u8);
    v.push(107u8);
    v.push(58u8);
    v.push(32u8);
    v.push(33u8);
    v.push(99u8);
    v.push(111u8);
    v.push(109u8);
    v.push(109u8);
    v.push(97u8);
    v.push(110u8);
    v.push(100u8);
    proof {
        assert(v@ =~= l_fb_cmd());
        assert forall|j: int| 0 <= j < l_fb_cmd().len() implies l_fb_cmd()[j] != NL by {}
        assert(!has_byte(l_fb_cmd(), NL));
        assert(l_fb_cmd()[0] != HASH);
    }
    v
}

/// `  program: `.
pub open spec fn k_program() -> Seq<u8> {
    seq![32u8, 32u8, 112u8, 114u8, 111u8, 103u8, 114u8, 97u8, 109u8, 58u8, 32u8]
}

fn k_program_exec() -> (r: Vec<u8>)
    ensures
        r@ == k_program(),
        key_shape(k_program()),
{
    let mut v: Vec<u8> = Vec::new();
    v.push(32u8);
    v.push(32u8);
    v.push(112u8);
    v.push(114u8);
    v.push(111u8);
    v.push(103u8);
    v.push(114u8);
    v.push(97u8);
    v.push(109u8);
    v.push(58u8);
    v.push(32u8);
    proof {
        assert(v@ =~= k_program());
        assert forall|j: int| 0 <= j < k_program().len() implies k_program()[j] != NL by {}
        assert(!has_byte(k_program(), NL));
        assert(k_program()[0] != HASH);
    }
    v
}

/// `  args: null`.
pub open spec fn l_args_null() -> Seq<u8> {
    seq![32u8, 32u8, 97u8, 114u8, 103u8, 115u8, 58u8, 32u8, 110u8, 117u8, 108u8, 108u8]
}

fn l_args_null_exec() -> (r: Vec<u8>)
    ensures
        r@ == l_args_null(),
        key_shape(l_args_null()),
{
    let mut v: Vec<u8> = Vec::new();
    v.push(32u8);
    v.push(32u8);
    v.push(97u8);
    v.push(114u8);
    v.push(103u8);
    v.push(115u8);
    v.push(58u8);
    v.push(32u8);
    v.push(110u8);
    v.push(117u8);
    v.push(108u8);
    v.push(108u8);
    proof {
        assert(v@ =~= l_args_null());
        assert forall|j: int| 0 <= j < l_args_null().len() implies l_args_null()[j] != NL by {}
        assert(!has_byte(l_args_null(), NL));
        assert(l_args_null()[0] != HASH);
    }
    v
}

/// `  args:`.
pub open spec fn l_args() -> Seq<u8> {
    seq![32u8, 32u8, 97u8, 114u8, 103u8, 115u8, 58u8]
}

fn l_args_exec() -> (r: Vec<u8>)
    ensures
        r@ == l_args(),
        key_shape(l_args()),
{
    let mut v: Vec<u8> = Vec::new();
    v.push(32u8);
    v.push(32u8);
    v.push(97u8);
    v.push(114u8);
    v.push(103u8);
    v.push(115u8);
    v.push(58u8);
    proof {
        assert(v@ =~= l_args());
        assert forall|j: int| 0 <= j < l_args().len() implies l_args()[j] != NL by {}
        assert(!has_byte(l_args(), NL));
        assert(l_args()[0] != HASH);
    }
    v
}

/// `  - `.
pub open spec fn k_item() -> Seq<u8> {
    seq![32u8, 32u8, 45u8, 32u8]
}

fn k_item_exec() -> (r: Vec<u8>)
    ensures
        r@ == k_item(),
        key_shape(k_item()),
{
    let mut v: Vec<u8> = Vec::new();
    v.push(32u8);
    v.push(32u8);
    v.push(45u8);
    v.push(32u8);
    proof {
        assert(v@ =~= k_item());
        assert forall|j: int| 0 <= j < k_item().len() implies k_item()[j] != NL by {}
        assert(!has_byte(k_item(), NL));
        assert(k_item()[0] != HASH);
    }
    v
}

/// `databaseSalt: `.
pub open spec fn k_dbsalt() -> Seq<u8> {
    seq![100u8, 97u8, 116u8, 97u8, 98u8, 97u8, 115u8, 101u8, 83u8, 97u8, 108u8, 116u8, 58u8, 32u8]
}

fn k_dbsalt_exec() -> (r: Vec<u8>)
    ensures
        r@ == k_dbsalt(),
        key_shape(k_dbsalt()),
{
    let mut v: Vec<u8> = Vec::new();
    v.push(100u8);
    v.push(97u8);
    v.push(116u8);
    v.push(97u8);
    v.push(98u8);
    v.push(97u8);
    v.push(115u8);
    v.push(101u8);
    v.push(83u8);
    v.push(97u8);
    v.push(108u8);
    v.push(116u8);
    v.push(58u8);
    v.push(32u8);
    proof {
        assert(v@ =~= k_dbsalt());
        assert forall|j: int| 0 <= j < k_dbsalt().len() implies k_dbsalt()[j] != NL by {}
        assert(!has_byte(k_dbsalt(), NL));
        assert(k_dbsalt()[0] != HASH);
    }
    v
}

/// `runtimeSecretsSalt: `.
pub open spec fn k_rtsalt() -> Seq<u8> {
    seq![114u8, 117u8, 110u8, 116u8, 105u8, 109u8, 101u8, 83u8, 101u8, 99u8, 114u8, 101u8, 116u8, 115u8, 83u8, 97u8, 108u8, 116u8, 58u8, 32u8]
}

fn k_rtsalt_exec() -> (r: Vec<u8>)
    ensures
        r@ == k_rtsalt(),
        key_shape(k_rtsalt()),
{
    let mut v: Vec<u8> = Vec::new();
    v.push(114u8);
    v.push(117u8);
    v.push(110u8);
    v.push(116u8);
    v.push(105u8);
    v.push(109u8);
    v.push(101u8);
    v.push(83u8);
    v.push(101u8);
    v.push(99u8);
    v.push(114u8);
    v.push(101u8);
    v.push(116u8);
    v.push(115u8);
    v.push(83u8);
    v.push(97u8);
    v.push(108u8);
    v.push(116u8);
    v.push(58u8);
    v.push(32u8);
    proof {
        assert(v@ =~= k_rtsalt());
        assert forall|j: int| 0 <= j < k_rtsalt().len() implies k_rtsalt()[j] != NL by {}
        assert(!has_byte(k_rtsalt(), NL));
        assert(k_rtsalt()[0] != HASH);
    }
    v
}

/// `runtimeSecretsMemLimit: `.
pub open spec fn k_mem() -> Seq<u8> {
    seq![114u8, 117u8, 110u8, 116u8, 105u8, 109u8, 101u8, 83u8, 101u8, 99u8, 114u8, 101u8, 116u8, 115u8, 77u8, 101u8, 109u8, 76u8, 105u8, 109u8, 105u8, 116u8, 58u8, 32u8]
}

fn k_mem_exec() -> (r: Vec<u8>)
    ensures
        r@ == k_mem(),
        key_shape(k_mem()),
{
    let mut v: Vec<u8> = Vec::new();
    v.push(114u8);
    v.push(117u8);
    v.push(110u8);
    v.push(116u8);
    v.push(105u8);
    v.push(109u8);
    v.push(101u8);
    v.push(83u8);
    v.push(101u8);
    v.push(99u8);
    v.push(114u8);
    v.push(101u8);
    v.push(116u8);
    v.push(115u8);
    v.push(77u8);
    v.push(101u8);
    v.push(109u8);
    v.push(76u8);
    v.push(105u8);
    v.push(109u8);
    v.push(105u8);
    v.push(116u8);
    v.push(58u8);
    v.push(32u8);
    proof {
        assert(v@ =~= k_mem());
        assert forall|j: int| 0 <= j < k_mem().len() implies k_mem()[j] != NL by {}
        assert(!has_byte(k_mem(), NL));
        assert(k_mem()[0] != HASH);
    }
    v
}

/// `runtimeSecretsOpsLimit: `.
pub open spec fn k_ops() -> Seq<u8> {
    seq![114u8, 117u8, 110u8, 116u8, 105u8, 109u8, 101u8, 83u8, 101u8, 99u8, 114u8, 101u8, 116u8, 115u8, 79u8, 112u8, 115u8, 76u8, 105u8, 109u8, 105u8, 116u8, 58u8, 32u8]
}

fn k_ops_exec() -> (r: Vec<u8>)
    ensures
        r@ == k_ops(),
        key_shape(k_ops()),
{
    let mut v: Vec<u8> = Vec::new();
    v.push(114u8);
    v.push(117u8);
    v.push(110u8);
    v.push(116u8);
    v.push(105u8);
    v.push(109u8);
    v.push(101u8);
    v.push(83u8);
    v.push(101u8);
    v.push(99u8);
    v.push(114u8);
    v.push(101u8);
    v.push(116u8);
    v.push(115u8);
    v.push(79u8);
    v.push(112u8);
    v.push(115u8);
    v.push(76u8);
    v.push(105u8);
    v.push(109u8);
    v.push(105u8);
    v.push(116u8);
    v.push(58u8);
    v.push(32u8);
    proof {
        assert(v@ =~= k_ops());
        assert forall|j: int| 0 <= j < k_ops().len() implies k_ops()[j] != NL by {}
        assert(!has_byte(k_ops(), NL));
        assert(k_ops()[0] != HASH);
    }
    v
}

/// `runtimeSecretsContextKey: `.
pub open spec fn k_ctx() -> Seq<u8> {
    seq![114u8, 117u8, 110u8, 116u8, 105u8, 109u8, 101u8, 83u8, 101u8, 99u8, 114u8, 101u8, 116u8, 115u8, 67u8, 111u8, 110u8, 116u8, 101u8, 120u8, 116u8, 75u8, 101u8, 121u8, 58u8, 32u8]
}

fn k_ctx_exec() -> (r: Vec<u8>)
    ensures
        r@ == k_ctx(),
        key_shape(k_ctx()),
{
    let mut v: Vec<u8> = Vec::new();
    v.push(114u8);
    v.push(117u8);
    v.push(110u8);
    v.push(116u8);
    v.push(105u8);
    v.push(109u8);
    v.push(101u8);
    v.push(83u8);
    v.push(101u8);
    v.push(99u8);
    v.push(114u8);
    v.push(101u8);
    v.push(116u8);
    v.push(115u8);
    v.push(67u8);
    v.push(111u8);
    v.push(110u8);
    v.push(116u8);
    v.push(101u8);
    v.push(120u8);
    v.push(116u8);
    v.push(75u8);
    v.push(101u8);
    v.push(121u8);
    v.push(58u8);
    v.push(32u8);
    proof {
        assert(v@ =~= k_ctx());
        assert forall|j: int| 0 <= j < k_ctx().len() implies k_ctx()[j] != NL by {}
        assert(!has_byte(k_ctx(), NL));
        assert(k_ctx()[0] != HASH);
    }
    v
}

/// `runtimeSecretsIdSeed: `.
pub open spec fn k_seed() -> Seq<u8> {
    seq![114u8, 117u8, 110u8, 116u8, 105u8, 109u8, 101u8, 83u8, 101u8, 99u8, 114u8, 101u8, 116u8, 115u8, 73u8, 100u8, 83u8, 101u8, 101u8, 100u8, 58u8, 32u8]
}

fn k_seed_exec() -> (r: Vec<u8>)
    ensures
        r@ == k_seed(),
        key_shape(k_seed()),
{
    let mut v: Vec<u8> = Vec::new();
    v.push(114u8);
    v.push(117u8);
    v.push(110u8);
    v.push(116u8);
    v.push(105u8);
    v.push(109u8);
    v.push(101u8);
    v.push(83u8);
    v.push(101u8);
    v.push(99u8);
    v.push(114u8);
    v.push(101u8);
    v.push(116u8);
    v.push(115u8);
    v.push(73u8);
    v.push(100u8);
    v.push(83u8);
    v.push(101u8);
    v.push(101u8);
    v.push(100u8);
    v.push(58u8);
    v.push(32u8);
    proof {
        assert(v@ =~= k_seed());
        assert forall|j: int| 0 <= j < k_seed().len() implies k_seed()[j] != NL by {}
        assert(!has_byte(k_seed(), NL));
        assert(k_seed()[0] != HASH);
    }
    v
}
/// The logical lines of the signature-fallback field: the bare `none` form,
/// or the `!command` form with its program and optional argument list.
pub open spec fn fallback_lines(f: FallbackView) -> Seq<Seq<u8>> {
    match f {
        FallbackView::NoFallback => seq![l_fb_none()],
        FallbackView::Command { program, args } => seq![l_fb_cmd(), k_program() + program]
            + match args {
            Option::None => seq![l_args_null()],
            Option::Some(items) => seq![l_args()] + arg_item_lines(items),
        },
    }
}

/// One document line per argument.
pub open spec fn arg_item_lines(items: Seq<Seq<u8>>) -> Seq<Seq<u8>>
    decreases items.len(),
{
    if items.len() == 0 {
        Seq::empty()
    } else {
        seq![k_item() + items[0]] + arg_item_lines(items.skip(1))
    }
}

/// The logical lines of a whole record, in their fixed order.
pub open spec fn config_lines(c: ConfigView) -> Seq<Seq<u8>> {
    seq![
        k_url() + render_url_spec(c.connection_url),
        k_pid() + c.pid_file,
        k_store() + c.store_file,
    ] + fallback_lines(c.signature_fallback) + seq![
        k_dbsalt() + hex_of(c.database_salt),
        k_rtsalt() + hex_of(c.runtime_secrets_salt),
        k_mem() + dec_of(c.runtime_secrets_mem_limit as int),
        k_ops() + dec_of(c.runtime_secrets_ops_limit as int),
        k_ctx() + hex_of(c.runtime_secrets_context_key.0 + c.runtime_secrets_context_key.1),
        k_seed() + hex_of(c.runtime_secrets_id_seed.0 + c.runtime_secrets_id_seed.1),
    ]
}

/// One document line per argument, as raw bytes.
pub open spec fn arg_item_bytes(items: Seq<Seq<u8>>) -> Seq<u8>
    decreases items.len(),
{
    if items.len() == 0 {
        Seq::empty()
    } else {
        line_of(k_item() + items[0]) + arg_item_bytes(items.skip(1))
    }
}

/// Appending one item appends one item line, in raw bytes.
pub proof fn lemma_arg_item_bytes_snoc(items: Seq<Seq<u8>>, x: Seq<u8>)
    ensures
        arg_item_bytes(items.push(x)) == arg_item_bytes(items) + line_of(k_item() + x),
    decreases items.len(),
{
    if items.len() == 0 {
        assert(items.push(x)[0] == x);
        assert(items.push(x).skip(1) =~~= Seq::<Seq<u8>>::empty());
        assert(arg_item_bytes(Seq::<Seq<u8>>::empty()) =~= Seq::<u8>::empty());
        assert(arg_item_bytes(items.push(x)) =~= arg_item_bytes(items) + line_of(k_item() + x));
    } else {
        assert(items.push(x)[0] == items[0]);
        assert(items.push(x).skip(1) =~~= items.skip(1).push(x));
        lemma_arg_item_bytes_snoc(items.skip(1), x);
        assert(arg_item_bytes(items.push(x)) =~= arg_item_bytes(items) + line_of(k_item() + x));
    }
}

/// The raw bytes of the signature-fallback field.
pub open spec fn render_fallback_bytes(f: FallbackView) -> Seq<u8> {
    match f {
        FallbackView::NoFallback => line_of(l_fb_none()),
        FallbackView::Command { program, args } => line_of(l_fb_cmd()) + line_of(
            k_program() + program,
        ) + match args {
            Option::None => line_of(l_args_null()),
            Option::Some(items) => line_of(l_args()) + arg_item_bytes(items),
        },
    }
}

/// The locator section: its banner and the `connectionUrl` line.
pub open spec fn sec_url(c: ConfigView) -> Seq<u8> {
    blank_line() + comment_of(b_url_0()) + comment_of(b_url_1()) + comment_of(b_url_2())
        + comment_of(b_url_3()) + line_of(k_url() + render_url_spec(c.connection_url))
}

/// The pid file section.
pub open spec fn sec_pid(c: ConfigView) -> Seq<u8> {
    blank_line() + comment_of(b_pid_0()) + line_of(k_pid() + c.pid_file)
}

/// The store file section.
pub open spec fn sec_store(c: ConfigView) -> Seq<u8> {
    blank_line() + comment_of(b_store_0()) + line_of(k_store() + c.store_file)
}

/// The fixed banner of the signature-fallback section.
pub open spec fn fb_banner() -> Seq<u8> {
    blank_line() + comment_of(b_fb_0()) + comment_of(b_fb_1()) + comment_of(b_fb_2())
        + comment_of(b_fb_3()) + comment_of(b_fb_4()) + comment_of(b_fb_5()) + comment_of(b_fb_6())
        + comment_of(b_fb_7()) + comment_of(b_fb_8()) + comment_of(b_fb_9()) + comment_of(
        b_fb_10(),
    ) + comment_of(b_fb_11()) + comment_of(b_fb_12())
}

/// The signature-fallback section.
pub open spec fn sec_fallback(c: ConfigView) -> Seq<u8> {
    fb_banner() + render_fallback_bytes(c.signature_fallback)
}

/// The secrets section: its banner and the six closing value lines.
pub open spec fn sec_secrets(c: ConfigView) -> Seq<u8> {
    blank_line() + comment_of(b_sec_0()) + comment_of(b_sec_1()) + line_of(
        k_dbsalt() + hex_of(c.database_salt),
    ) + line_of(k_rtsalt() + hex_of(c.runtime_secrets_salt)) + line_of(
        k_mem() + dec_of(c.runtime_secrets_mem_limit as int),
    ) + line_of(k_ops() + dec_of(c.runtime_secrets_ops_limit as int)) + line_of(
        k_ctx() + hex_of(c.runtime_secrets_context_key.0 + c.runtime_secrets_context_key.1),
    ) + line_of(k_seed() + hex_of(c.runtime_secrets_id_seed.0 + c.runtime_secrets_id_seed.1))
}

/// The full rendered document text, fixed banner comments included: a
/// deterministic function of the record's field values.
pub open spec fn render_doc_spec(c: ConfigView) -> Seq<u8> {
    sec_url(c) + sec_pid(c) + sec_store(c) + sec_fallback(c) + sec_secrets(c)
}

/// A locator whose path and query stay on one line renders on one line.
pub proof fn lemma_render_url_no_nl(u: UrlView)
    requires
        !has_byte(u.path, NL),
        !has_byte(u.query, NL),
    ensures
        !has_byte(render_url_spec(u), NL),
{
    let t = render_url_spec(u);
    let p = scheme_prefix(u.scheme);
    assert forall|j: int| 0 <= j < t.len() implies t[j] != NL by {
        if j < p.len() {
            if u.scheme == crate::conn_url::ConnectionScheme::Unix {
                assert(t[j] == scheme_prefix(crate::conn_url::ConnectionScheme::Unix)[j]);
            } else if u.scheme == crate::conn_url::ConnectionScheme::NamedPipe {
                assert(t[j] == scheme_prefix(crate::conn_url::ConnectionScheme::NamedPipe)[j]);
            } else {
                assert(t[j] == scheme_prefix(crate::conn_url::ConnectionScheme::Tcp)[j]);
            }
        } else if j < p.len() + u.path.len() {
            assert(t[j] == u.path[j - p.len()]);
        } else {
            assert(u.query.len() > 0);
            if j == p.len() + u.path.len() {
                assert(t[j] == QMARK);
            } else {
                assert(t[j] == u.query[j - p.len() - u.path.len() - 1]);
            }
        }
    }
    if has_byte(t, NL) {
        let j = choose|j: int| 0 <= j < t.len() && t[j] == NL;
    }
}

/// A hex encoding stays on one line and is no comment.
proof fn lemma_hex_line(s: Seq<u8>)
    ensures
        !has_byte(hex_of(s), NL),
{
    lemma_hex_has_no_separators(s);
    if has_byte(hex_of(s), NL) {
        let j = choose|j: int| 0 <= j < hex_of(s).len() && hex_of(s)[j] == NL;
    }
}

/// A decimal rendering stays on one line.
proof fn lemma_dec_line(n: int)
    requires
        n >= 0,
    ensures
        !has_byte(dec_of(n), NL),
{
    lemma_dec_of_digits(n);
    if has_byte(dec_of(n), NL) {
        let j = choose|j: int| 0 <= j < dec_of(n).len() && dec_of(n)[j] == NL;
        assert(is_dec_digit(dec_of(n)[j]));
    }
}

/// Append one `key: value` line (the value may be empty, making a full
/// fixed line of the key alone).
fn push_field_line(out: &mut Vec<u8>, key: &[u8], value: &[u8])
    requires
        line_complete(old(out)@),
        key_shape(key@),
        !has_byte(value@, NL),
    ensures
        line_complete(final(out)@),
        final(out)@ == old(out)@ + line_of(key@ + value@),
        clean_lines(split_lines(final(out)@)) == clean_lines(split_lines(old(out)@)) + seq![
            key@ + value@,
        ],
{
    let ghost base = out@;
    out.extend_from_slice(key);
    out.extend_from_slice(value);
    out.push(NL);
    proof {
        let content = key@ + value@;
        assert(out@ =~= base + content + seq![NL]);
        assert(!has_byte(content, NL)) by {
            if has_byte(content, NL) {
                let j = choose|j: int| 0 <= j < content.len() && content[j] == NL;
                if j < key@.len() {
                    assert(has_byte(key@, NL));
                } else {
                    assert(value@[j - key@.len()] == NL);
                    assert(has_byte(value@, NL));
                }
            }
        }
        lemma_split_append(base, content);
        lemma_clean_append(split_lines(base), seq![content]);
        assert(content[0] == key@[0]);
        assert(!is_ignorable(content));
        assert(clean_lines(seq![content]) =~~= seq![content]) by {
            assert(seq![content].skip(1) =~~= Seq::<Seq<u8>>::empty());
            assert(clean_lines(Seq::<Seq<u8>>::empty()) =~~= Seq::<Seq<u8>>::empty());
        }
        assert(clean_lines(split_lines(out@)) =~~= clean_lines(split_lines(base)) + seq![content]);
        assert(out@ =~= base + line_of(content));
    }
}

/// Append an empty separator line; parsing ignores it.
fn push_blank_line(out: &mut Vec<u8>)
    requires
        line_complete(old(out)@),
    ensures
        line_complete(final(out)@),
        final(out)@ == old(out)@ + blank_line(),
        clean_lines(split_lines(final(out)@)) == clean_lines(split_lines(old(out)@)),
{
    let ghost base = out@;
    out.push(NL);
    proof {
        let content = Seq::<u8>::empty();
        assert(out@ =~= base + content + seq![NL]);
        lemma_split_append(base, content);
        lemma_clean_append(split_lines(base), seq![content]);
        assert(is_ignorable(content));
        assert(clean_lines(seq![content]) =~~= Seq::<Seq<u8>>::empty()) by {
            assert(seq![content].skip(1) =~~= Seq::<Seq<u8>>::empty());
            assert(clean_lines(Seq::<Seq<u8>>::empty()) =~~= Seq::<Seq<u8>>::empty());
        }
        assert(clean_lines(split_lines(out@)) =~~= clean_lines(split_lines(base)));
        assert(out@ =~= base + blank_line());
    }
}

/// Append one comment line; parsing ignores it. A line separator inside the
/// text is replaced by a space so the comment stays a comment.
fn push_comment_line(out: &mut Vec<u8>, text: &[u8])
    requires
        line_complete(old(out)@),
    ensures
        line_complete(final(out)@),
        final(out)@ == old(out)@ + comment_of(sanitize_comment(text@)),
        clean_lines(split_lines(final(out)@)) == clean_lines(split_lines(old(out)@)),
{
    let ghost base = out@;
    out.push(HASH);
    out.push(32);
    proof {
        assert(out@ =~= base + seq![HASH, 32u8] + sanitize_comment(text@.take(0)));
    }
    let mut i: usize = 0;
    while i < text.len()
        invariant
            0 <= i <= text@.len(),
            out@ == base + seq![HASH, 32u8] + sanitize_comment(text@.take(i as int)),
        decreases text@.len() - i,
    {
        let b = text[i];
        if b == NL {
            out.push(32);
        } else {
            out.push(b);
        }
        proof {
            assert(out@ =~= base + seq![HASH, 32u8] + sanitize_comment(text@.take(i + 1 as int)));
        }
        i += 1;
    }
    let ghost content = seq![HASH, 32u8] + sanitize_comment(text@);
    proof {
        assert(text@.take(text@.len() as int) =~= text@);
        assert(out@ =~= base + content);
    }
    out.push(NL);
    proof {
        assert forall|j: int| 0 <= j < content.len() implies content[j] != NL by {
            if j >= 2 {
                assert(content[j] == sanitize_comment(text@)[j - 2]);
            }
        }
        assert(!has_byte(content, NL)) by {
            if has_byte(content, NL) {
                let j = choose|j: int| 0 <= j < content.len() && content[j] == NL;
            }
        }
        assert(content[0] == HASH);
        assert(out@ =~= base + content + seq![NL]);
        lemma_split_append(base, content);
        lemma_clean_append(split_lines(base), seq![content]);
        assert(is_ignorable(content));
        assert(clean_lines(seq![content]) =~~= Seq::<Seq<u8>>::empty()) by {
            assert(seq![content].skip(1) =~~= Seq::<Seq<u8>>::empty());
            assert(clean_lines(Seq::<Seq<u8>>::empty()) =~~= Seq::<Seq<u8>>::empty());
        }
        assert(clean_lines(split_lines(out@)) =~~= clean_lines(split_lines(base)));
        assert(out@ =~= base + comment_of(sanitize_comment(text@)));
    }
}

/// Append one of the fixed banner comment lines; its text holds no line
/// separator, so the line carries the text exactly.
fn push_known_comment(out: &mut Vec<u8>, text: &[u8])
    requires
        line_complete(old(out)@),
        !has_byte(text@, NL),
    ensures
        line_complete(final(out)@),
        final(out)@ == old(out)@ + comment_of(text@),
        clean_lines(split_lines(final(out)@)) == clean_lines(split_lines(old(out)@)),
{
    push_comment_line(out, text);
    proof {
        lemma_sanitize_id(text@);
    }
}

/// Appending one item to an argument list appends one item line.
pub proof fn lemma_arg_items_snoc(items: Seq<Seq<u8>>, x: Seq<u8>)
    ensures
        arg_item_lines(items.push(x)) == arg_item_lines(items) + seq![k_item() + x],
    decreases items.len(),
{
    if items.len() == 0 {
        assert(items.push(x)[0] == x);
        assert(items.push(x).skip(1) =~~= Seq::<Seq<u8>>::empty());
        assert(arg_item_lines(Seq::<Seq<u8>>::empty()) =~~= Seq::<Seq<u8>>::empty());
        assert(arg_item_lines(items.push(x)) =~~= arg_item_lines(items) + seq![k_item() + x]);
    } else {
        assert(items.push(x)[0] == items[0]);
        assert(items.push(x).skip(1) =~~= items.skip(1).push(x));
        lemma_arg_items_snoc(items.skip(1), x);
        assert(arg_item_lines(items.push(x)) =~~= arg_item_lines(items) + seq![k_item() + x]);
    }
}

/// The rest of a line once a field key is stripped, if the line starts with
/// that key.
pub open spec fn strip_key(l: Seq<u8>, key: Seq<u8>) -> Option<Seq<u8>> {
    if l.len() >= key.len() && l.take(key.len() as int) == key {
        Some(l.skip(key.len() as int))
    } else {
        None
    }
}

/// Consume argument item lines: the items, and the lines after them.
pub open spec fn parse_items(ls: Seq<Seq<u8>>) -> (Seq<Seq<u8>>, Seq<Seq<u8>>)
    decreases ls.len(),
{
    if ls.len() == 0 {
        (Seq::empty(), ls)
    } else {
        match strip_key(ls[0], k_item()) {
            Some(item) => {
                let r = parse_items(ls.skip(1));
                (seq![item] + r.0, r.1)
            },
            None => (Seq::empty(), ls),
        }
    }
}

/// Parse the signature-fallback field: its value, and the lines after it.
pub open spec fn parse_fallback(ls: Seq<Seq<u8>>) -> Option<(FallbackView, Seq<Seq<u8>>)> {
    if ls.len() == 0 {
        None
    } else if ls[0] == l_fb_none() {
        Some((FallbackView::NoFallback, ls.skip(1)))
    } else if ls[0] == l_fb_cmd() {
        if ls.len() >= 2 {
            match strip_key(ls[1], k_program()) {
                Some(program) => {
                    let rest = ls.skip(2);
                    if rest.len() >= 1 && rest[0] == l_args_null() {
                        Some(
                            (
                                FallbackView::Command { program, args: Option::None },
                                rest.skip(1),
                            ),
                        )
                    } else if rest.len() >= 1 && rest[0] == l_args() {
                        let pr = parse_items(rest.skip(1));
                        Some(
                            (FallbackView::Command { program, args: Option::Some(pr.0) }, pr.1),
                        )
                    } else {
                        None
                    }
                },
                None => None,
            }
        } else {
            None
        }
    } else {
        None
    }
}

/// Parse the six fixed lines that close the document.
pub open spec fn parse_tail(
    url: UrlView,
    pid: Seq<u8>,
    store: Seq<u8>,
    fb: FallbackView,
    rest: Seq<Seq<u8>>,
) -> Option<ConfigView> {
    if rest.len() != 6 {
        None
    } else {
        match strip_key(rest[0], k_dbsalt()) {
            None => None,
            Some(db_text) => match strip_key(rest[1], k_rtsalt()) {
                None => None,
                Some(salt_text) => match strip_key(rest[2], k_mem()) {
                    None => None,
                    Some(mem_text) => match strip_key(rest[3], k_ops()) {
                        None => None,
                        Some(ops_text) => match strip_key(rest[4], k_ctx()) {
                            None => None,
                            Some(ctx_text) => match strip_key(rest[5], k_seed()) {
                                None => None,
                                Some(seed_text) => {
                                    if !(is_hex_seq(db_text) && db_text.len() == 32) {
                                        None
                                    } else if !(is_hex_seq(salt_text) && salt_text.len() == 32) {
                                        None
                                    } else if !(is_hex_seq(ctx_text) && ctx_text.len() == 146) {
                                        None
                                    } else if !(is_hex_seq(seed_text) && seed_text.len() == 146) {
                                        None
                                    } else {
                                        match dec_parse_spec(mem_text) {
                                            None => None,
                                            Some(mem) => match dec_parse_spec(ops_text) {
                                                None => None,
                                                Some(ops) => {
                                                    let ctx = unhex(ctx_text);
                                                    let sd = unhex(seed_text);
                                                    Some(
                                                        ConfigView {
                                                            connection_url: url,
                                                            pid_file: pid,
                                                            store_file: store,
                                                            signature_fallback: fb,
                                                            database_salt: unhex(db_text),
                                                            runtime_secrets_salt: unhex(salt_text),
                                                            runtime_secrets_mem_limit: mem,
                                                            runtime_secrets_ops_limit: ops,
                                                            runtime_secrets_context_key: (
                                                                ctx.take(24),
                                                                ctx.skip(24),
                                                            ),
                                                            runtime_secrets_id_seed: (
                                                                sd.take(24),
                                                                sd.skip(24),
                                                            ),
                                                        },
                                                    )
                                                },
                                            },
                                        }
                                    }
                                },
                            },
                        },
                    },
                },
            },
        }
    }
}

/// Parse the logical lines of a document, in their fixed order.
pub open spec fn parse_config_lines(ls: Seq<Seq<u8>>) -> Option<ConfigView> {
    if ls.len() < 3 {
        None
    } else {
        match strip_key(ls[0], k_url()) {
            None => None,
            Some(url_text) => match parse_url_spec(url_text) {
                None => None,
                Some(url) => match strip_key(ls[1], k_pid()) {
                    None => None,
                    Some(pid) => match strip_key(ls[2], k_store()) {
                        None => None,
                        Some(store) => match parse_fallback(ls.skip(3)) {
                            None => None,
                            Some(fb_rest) => parse_tail(url, pid, store, fb_rest.0, fb_rest.1),
                        },
                    },
                },
            },
        }
    }
}

/// What parsing a document text means: split into lines, drop comments and
/// blanks, read the fields in order.
pub open spec fn parse_config_spec(bytes: Seq<u8>) -> Option<ConfigView> {
    parse_config_lines(clean_lines(split_lines(bytes)))
}

/// Stripping a key from a line built of that key inverts the build.
pub proof fn lemma_strip_key_of(key: Seq<u8>, v: Seq<u8>)
    ensures
        strip_key(key + v, key) == Some(v),
{
    assert((key + v).take(key.len() as int) =~= key);
    assert((key + v).skip(key.len() as int) =~= v);
}

/// Consuming rendered item lines yields the items and leaves the rest,
/// whenever the first remaining line is no item line.
pub proof fn lemma_parse_items_of(items: Seq<Seq<u8>>, rest: Seq<Seq<u8>>)
    requires
        rest.len() == 0 || strip_key(rest[0], k_item()) is None,
    ensures
        parse_items(arg_item_lines(items) + rest) == (items, rest),
    decreases items.len(),
{
    let ls = arg_item_lines(items) + rest;
    if items.len() == 0 {
        assert(arg_item_lines(items) =~~= Seq::<Seq<u8>>::empty());
        assert(ls =~~= rest);
        assert(parse_items(ls).0 =~~= items);
        assert(parse_items(ls).1 =~~= rest);
    } else {
        assert(ls[0] == k_item() + items[0]);
        lemma_strip_key_of(k_item(), items[0]);
        assert(ls.skip(1) =~~= arg_item_lines(items.skip(1)) + rest);
        lemma_parse_items_of(items.skip(1), rest);
        assert(parse_items(ls).0 =~~= seq![items[0]] + items.skip(1));
        assert(seq![items[0]] + items.skip(1) =~~= items);
        assert(parse_items(ls).1 =~~= rest);
    }
}

/// Parsing the rendered fallback lines yields the fallback value and leaves
/// the rest, whenever the first remaining line opens no item list.
pub proof fn lemma_parse_fallback_of(f: FallbackView, rest: Seq<Seq<u8>>)
    requires
        rest.len() >= 1,
        strip_key(rest[0], k_item()) is None,
        rest[0] != l_args_null(),
        rest[0] != l_args(),
    ensures
        parse_fallback(fallback_lines(f) + rest) == Some((f, rest)),
{
    let ls = fallback_lines(f) + rest;
    match f {
        FallbackView::NoFallback => {
            assert(ls[0] == l_fb_none());
            assert(ls.skip(1) =~~= rest);
        },
        FallbackView::Command { program, args } => {
            assert(l_fb_cmd().len() != l_fb_none().len());
            assert(ls[0] == l_fb_cmd());
            assert(ls[0] != l_fb_none());
            assert(ls[1] == k_program() + program);
            lemma_strip_key_of(k_program(), program);
            let r2 = ls.skip(2);
            match args {
                Option::None => {
                    assert(r2 =~~= seq![l_args_null()] + rest);
                    assert(r2[0] == l_args_null());
                    assert(r2.skip(1) =~~= rest);
                },
                Option::Some(items) => {
                    assert(r2 =~~= seq![l_args()] + (arg_item_lines(items) + rest));
                    assert(r2[0] == l_args());
                    assert(l_args().len() != l_args_null().len());
                    assert(r2[0] != l_args_null());
                    assert(r2.skip(1) =~~= arg_item_lines(items) + rest);
                    lemma_parse_items_of(items, rest);
                },
            }
        },
    }
}

/// Serializing a record to the document text and parsing the text back
/// yields a record equal in every field, for every well-formed record:
/// in particular also after the fallback field is set to a command variant
/// with arguments.
pub proof fn lemma_config_round_trip(c: ConfigView)
    requires
        config_wf(c),
    ensures
        parse_config_lines(config_lines(c)) == Some(c),
{
    let ls = config_lines(c);
    let head = seq![
        k_url() + render_url_spec(c.connection_url),
        k_pid() + c.pid_file,
        k_store() + c.store_file,
    ];
    let fb = fallback_lines(c.signature_fallback);
    let tail = seq![
        k_dbsalt() + hex_of(c.database_salt),
        k_rtsalt() + hex_of(c.runtime_secrets_salt),
        k_mem() + dec_of(c.runtime_secrets_mem_limit as int),
        k_ops() + dec_of(c.runtime_secrets_ops_limit as int),
        k_ctx() + hex_of(c.runtime_secrets_context_key.0 + c.runtime_secrets_context_key.1),
        k_seed() + hex_of(c.runtime_secrets_id_seed.0 + c.runtime_secrets_id_seed.1),
    ];
    assert(fb.len() >= 1) by {
        match c.signature_fallback {
            FallbackView::NoFallback => {},
            FallbackView::Command { program, args } => {},
        }
    }
    assert(ls[0] == k_url() + render_url_spec(c.connection_url));
    assert(ls[1] == k_pid() + c.pid_file);
    assert(ls[2] == k_store() + c.store_file);
    lemma_strip_key_of(k_url(), render_url_spec(c.connection_url));
    lemma_url_round_trip(c.connection_url);
    lemma_strip_key_of(k_pid(), c.pid_file);
    lemma_strip_key_of(k_store(), c.store_file);
    assert(ls.skip(3) =~~= fb + tail);
    assert(strip_key(tail[0], k_item()) is None) by {
        if strip_key(tail[0], k_item()) is Some {
            assert(tail[0].take(k_item().len() as int)[0] == k_item()[0]);
            assert(tail[0][0] == k_dbsalt()[0]);
        }
    }
    assert(tail[0] != l_args_null()) by {
        if tail[0] == l_args_null() {
            assert(tail[0][0] == k_dbsalt()[0]);
            assert(l_args_null()[0] == 32u8);
        }
    }
    assert(tail[0] != l_args()) by {
        if tail[0] == l_args() {
            assert(tail[0][0] == k_dbsalt()[0]);
            assert(l_args()[0] == 32u8);
        }
    }
    lemma_parse_fallback_of(c.signature_fallback, tail);
    lemma_strip_key_of(k_dbsalt(), hex_of(c.database_salt));
    lemma_strip_key_of(k_rtsalt(), hex_of(c.runtime_secrets_salt));
    lemma_strip_key_of(k_mem(), dec_of(c.runtime_secrets_mem_limit as int));
    lemma_strip_key_of(k_ops(), dec_of(c.runtime_secrets_ops_limit as int));
    lemma_strip_key_of(
        k_ctx(),
        hex_of(c.runtime_secrets_context_key.0 + c.runtime_secrets_context_key.1),
    );
    lemma_strip_key_of(
        k_seed(),
        hex_of(c.runtime_secrets_id_seed.0 + c.runtime_secrets_id_seed.1),
    );
    lemma_hex_round_trip(c.database_salt);
    lemma_hex_round_trip(c.runtime_secrets_salt);
    lemma_hex_round_trip(c.runtime_secrets_context_key.0 + c.runtime_secrets_context_key.1);
    lemma_hex_round_trip(c.runtime_secrets_id_seed.0 + c.runtime_secrets_id_seed.1);
    lemma_dec_round_trip(c.runtime_secrets_mem_limit);
    lemma_dec_round_trip(c.runtime_secrets_ops_limit);
    let parsed = parse_tail(c.connection_url, c.pid_file, c.store_file, c.signature_fallback, tail);
    let ctx = unhex(hex_of(c.runtime_secrets_context_key.0 + c.runtime_secrets_context_key.1));
    let sd = unhex(hex_of(c.runtime_secrets_id_seed.0 + c.runtime_secrets_id_seed.1));
    assert(ctx.take(24) =~= c.runtime_secrets_context_key.0);
    assert(ctx.skip(24) =~= c.runtime_secrets_context_key.1);
    assert(sd.take(24) =~= c.runtime_secrets_id_seed.0);
    assert(sd.skip(24) =~= c.runtime_secrets_id_seed.1);
    assert(parsed is Some);
    assert(parsed->0 =~~= c);
    assert(parse_config_lines(ls) == Some(c));
}

impl LairServerConfigInner {
    /// Append the locator, pid file and store file sections, each with its
    /// fixed banner.
    #[verifier::loop_isolation(false)]
    fn push_head_sections(&self, out: &mut Vec<u8>)
        requires
            config_wf(self@),
            line_complete(old(out)@),
        ensures
            line_complete(final(out)@),
            final(out)@ == old(out)@ + sec_url(self@) + sec_pid(self@) + sec_store(self@),
            clean_lines(split_lines(final(out)@)) == clean_lines(split_lines(old(out)@)) + seq![
                k_url() + render_url_spec(self@.connection_url),
                k_pid() + self@.pid_file,
                k_store() + self@.store_file,
            ],
    {
        let ghost base = out@;
        let ghost base_clean = clean_lines(split_lines(out@));
        push_blank_line(out);
        let t = b_url_0_exec();
        push_known_comment(out, t.as_slice());
        let t = b_url_1_exec();
        push_known_comment(out, t.as_slice());
        let t = b_url_2_exec();
        push_known_comment(out, t.as_slice());
        let t = b_url_3_exec();
        push_known_comment(out, t.as_slice());
        let key = k_url_exec();
        let value = self.connection_url.to_bytes();
        proof {
            lemma_render_url_no_nl(self@.connection_url);
        }
        push_field_line(out, key.as_slice(), value.as_slice());
        proof {
            assert(out@ =~= base + sec_url(self@));
        }
        push_blank_line(out);
        let t = b_pid_0_exec();
        push_known_comment(out, t.as_slice());
        let key = k_pid_exec();
        push_field_line(out, key.as_slice(), self.pid_file.as_slice());
        proof {
            assert(out@ =~= base + sec_url(self@) + sec_pid(self@));
        }
        push_blank_line(out);
        let t = b_store_0_exec();
        push_known_comment(out, t.as_slice());
        let key = k_store_exec();
        push_field_line(out, key.as_slice(), self.store_file.as_slice());
        proof {
            assert(out@ =~= base + sec_url(self@) + sec_pid(self@) + sec_store(self@));
            assert(clean_lines(split_lines(out@)) =~~= base_clean + seq![
                k_url() + render_url_spec(self@.connection_url),
                k_pid() + self@.pid_file,
                k_store() + self@.store_file,
            ]);
        }
    }

    /// Append the signature-fallback section with its fixed banner.
    #[verifier::loop_isolation(false)]
    #[verifier::rlimit(100)]
    fn push_fallback_section(&self, out: &mut Vec<u8>)
        requires
            config_wf(self@),
            line_complete(old(out)@),
        ensures
            line_complete(final(out)@),
            final(out)@ == old(out)@ + sec_fallback(self@),
            clean_lines(split_lines(final(out)@)) == clean_lines(split_lines(old(out)@))
                + fallback_lines(self@.signature_fallback),
    {
        let ghost base = out@;
        push_blank_line(out);
        let t = b_fb_0_exec();
        push_known_comment(out, t.as_slice());
        let t = b_fb_1_exec();
        push_known_comment(out, t.as_slice());
        let t = b_fb_2_exec();
        push_known_comment(out, t.as_slice());
        let t = b_fb_3_exec();
        push_known_comment(out, t.as_slice());
        let t = b_fb_4_exec();
        push_known_comment(out, t.as_slice());
        let t = b_fb_5_exec();
        push_known_comment(out, t.as_slice());
        let t = b_fb_6_exec();
        push_known_comment(out, t.as_slice());
        let t = b_fb_7_exec();
        push_known_comment(out, t.as_slice());
        let t = b_fb_8_exec();
        push_known_comment(out, t.as_slice());
        let t = b_fb_9_exec();
        push_known_comment(out, t.as_slice());
        let t = b_fb_10_exec();
        push_known_comment(out, t.as_slice());
        let t = b_fb_11_exec();
        push_known_comment(out, t.as_slice());
        let t = b_fb_12_exec();
        push_known_comment(out, t.as_slice());
        let ghost acc_banner = out@;
        let ghost head = clean_lines(split_lines(out@));
        proof {
            assert(acc_banner =~= base + fb_banner());
        }
        match &self.signature_fallback {
            LairServerSignatureFallback::NoFallback => {
                let line = l_fb_none_exec();
                let empty_val: Vec<u8> = Vec::new();
                push_field_line(out, line.as_slice(), empty_val.as_slice());
                proof {
                    assert(l_fb_none() + empty_val@ =~= l_fb_none());
                    assert(out@ =~= base + sec_fallback(self@));
                    assert(clean_lines(split_lines(out@)) =~~= head + fallback_lines(
                        self@.signature_fallback,
                    ));
                }
            },
            LairServerSignatureFallback::Command { program, args } => {
                let line = l_fb_cmd_exec();
                let empty_val: Vec<u8> = Vec::new();
                push_field_line(out, line.as_slice(), empty_val.as_slice());
                proof {
                    assert(l_fb_cmd() + empty_val@ =~= l_fb_cmd());
                }
                let key = k_program_exec();
                push_field_line(out, key.as_slice(), program.as_slice());
                match args {
                    Option::None => {
                        let line = l_args_null_exec();
                        let empty_val2: Vec<u8> = Vec::new();
                        push_field_line(out, line.as_slice(), empty_val2.as_slice());
                        proof {
                            assert(l_args_null() + empty_val2@ =~= l_args_null());
                            assert(out@ =~= base + sec_fallback(self@));
                            assert(clean_lines(split_lines(out@)) =~~= head + fallback_lines(
                                self@.signature_fallback,
                            ));
                        }
                    },
                    Option::Some(items) => {
                        let line = l_args_exec();
                        let empty_val2: Vec<u8> = Vec::new();
                        push_field_line(out, line.as_slice(), empty_val2.as_slice());
                        proof {
                            assert(l_args() + empty_val2@ =~= l_args());
                        }
                        let ghost items_view = items.deep_view();
                        proof {
                            assert forall|m: int| 0 <= m < items@.len() implies items_view[m]
                                == items@[m]@ by {
                                assert(items@[m].deep_view() =~= items@[m]@);
                            }
                        }
                        let ghost base_items = clean_lines(split_lines(out@));
                        let ghost base_bytes = out@;
                        let key = k_item_exec();
                        let mut idx: usize = 0;
                        while idx < items.len()
                            invariant
                                0 <= idx <= items@.len(),
                                line_complete(out@),
                                out@ == base_bytes + arg_item_bytes(items_view.take(idx as int)),
                                clean_lines(split_lines(out@)) == base_items + arg_item_lines(
                                    items_view.take(idx as int),
                                ),
                            decreases items@.len() - idx,
                        {
                            proof {
                                assert(self@.signature_fallback == FallbackView::Command {
                                    program: program@,
                                    args: Option::Some(items_view),
                                });
                                assert(fallback_wf(self@.signature_fallback));
                                assert(!has_byte(items_view[idx as int], NL));
                                assert(items_view[idx as int] == items@[idx as int]@);
                            }
                            push_field_line(out, key.as_slice(), items[idx].as_slice());
                            proof {
                                assert(items_view.take(idx + 1 as int) =~~= items_view.take(
                                    idx as int,
                                ).push(items_view[idx as int]));
                                lemma_arg_items_snoc(
                                    items_view.take(idx as int),
                                    items_view[idx as int],
                                );
                                lemma_arg_item_bytes_snoc(
                                    items_view.take(idx as int),
                                    items_view[idx as int],
                                );
                            }
                            idx += 1;
                        }
                        proof {
                            assert(items_view.take(items@.len() as int) =~~= items_view);
                            assert(out@ =~= base + sec_fallback(self@));
                            assert(clean_lines(split_lines(out@)) =~~= head + fallback_lines(
                                self@.signature_fallback,
                            ));
                        }
                    },
                }
            },
        }
    }

    /// Append the secrets section: its banner and the six closing lines.
    #[verifier::loop_isolation(false)]
    #[verifier::rlimit(100)]
    fn push_secrets_section(&self, out: &mut Vec<u8>)
        requires
            config_wf(self@),
            line_complete(old(out)@),
        ensures
            line_complete(final(out)@),
            final(out)@ == old(out)@ + sec_secrets(self@),
            clean_lines(split_lines(final(out)@)) == clean_lines(split_lines(old(out)@)) + seq![
                k_dbsalt() + hex_of(self@.database_salt),
                k_rtsalt() + hex_of(self@.runtime_secrets_salt),
                k_mem() + dec_of(self@.runtime_secrets_mem_limit as int),
                k_ops() + dec_of(self@.runtime_secrets_ops_limit as int),
                k_ctx() + hex_of(
                    self@.runtime_secrets_context_key.0 + self@.runtime_secrets_context_key.1,
                ),
                k_seed() + hex_of(
                    self@.runtime_secrets_id_seed.0 + self@.runtime_secrets_id_seed.1,
                ),
            ],
    {
        let ghost base = out@;
        let ghost base_clean = clean_lines(split_lines(out@));
        push_blank_line(out);
        let t = b_sec_0_exec();
        push_known_comment(out, t.as_slice());
        let t = b_sec_1_exec();
        push_known_comment(out, t.as_slice());
        let key = k_dbsalt_exec();
        let value = self.database_salt.to_hex();
        proof {
            lemma_hex_line(self@.database_salt);
        }
        push_field_line(out, key.as_slice(), value.as_slice());
        let key = k_rtsalt_exec();
        let value = self.runtime_secrets_salt.to_hex();
        proof {
            lemma_hex_line(self@.runtime_secrets_salt);
        }
        push_field_line(out, key.as_slice(), value.as_slice());
        let key = k_mem_exec();
        let value = u32_to_dec(self.runtime_secrets_mem_limit);
        proof {
            lemma_dec_line(self@.runtime_secrets_mem_limit as int);
        }
        push_field_line(out, key.as_slice(), value.as_slice());
        let key = k_ops_exec();
        let value = u32_to_dec(self.runtime_secrets_ops_limit);
        proof {
            lemma_dec_line(self@.runtime_secrets_ops_limit as int);
        }
        push_field_line(out, key.as_slice(), value.as_slice());
        let key = k_ctx_exec();
        let value = self.runtime_secrets_context_key.to_hex();
        proof {
            lemma_hex_line(
                self@.runtime_secrets_context_key.0 + self@.runtime_secrets_context_key.1,
            );
        }
        push_field_line(out, key.as_slice(), value.as_slice());
        let key = k_seed_exec();
        let value = self.runtime_secrets_id_seed.to_hex();
        proof {
            lemma_hex_line(self@.runtime_secrets_id_seed.0 + self@.runtime_secrets_id_seed.1);
        }
        push_field_line(out, key.as_slice(), value.as_slice());
        proof {
            assert(out@ =~= base + sec_secrets(self@));
            assert(clean_lines(split_lines(out@)) =~~= base_clean + seq![
                k_dbsalt() + hex_of(self@.database_salt),
                k_rtsalt() + hex_of(self@.runtime_secrets_salt),
                k_mem() + dec_of(self@.runtime_secrets_mem_limit as int),
                k_ops() + dec_of(self@.runtime_secrets_ops_limit as int),
                k_ctx() + hex_of(
                    self@.runtime_secrets_context_key.0 + self@.runtime_secrets_context_key.1,
                ),
                k_seed() + hex_of(
                    self@.runtime_secrets_id_seed.0 + self@.runtime_secrets_id_seed.1,
                ),
            ]);
        }
    }

    /// Render the record as the persisted configuration document: the fixed
    /// fields in order, each value on its line, with the fixed explanatory
    /// comment banners before the locator, the two file paths, the fallback,
    /// and the secrets block. The output is exactly `render_doc_spec` of the
    /// record's values — so equal records render identical text — and its
    /// comment-stripped lines are exactly the record's logical lines.
    pub fn to_bytes(&self) -> (r: Vec<u8>)
        requires
            config_wf(self@),
        ensures
            r@ == render_doc_spec(self@),
            clean_lines(split_lines(r@)) == config_lines(self@),
    {
        let mut out: Vec<u8> = Vec::new();
        proof {
            assert(split_lines(out@) =~~= Seq::<Seq<u8>>::empty());
            assert(clean_lines(split_lines(out@)) =~~= Seq::<Seq<u8>>::empty());
        }
        self.push_head_sections(&mut out);
        self.push_fallback_section(&mut out);
        self.push_secrets_section(&mut out);
        proof {
            assert(out@ =~= render_doc_spec(self@));
            assert(clean_lines(split_lines(out@)) =~~= config_lines(self@));
        }
        out
    }
}

fn split_lines_exec(data: &[u8]) -> (r: Vec<Vec<u8>>)
    ensures
        views_of(r@) == split_lines(data@),
    decreases data@.len(),
{
    let mut out: Vec<Vec<u8>> = Vec::new();
    if data.len() == 0 {
        proof {
            assert(views_of(out@) =~~= split_lines(data@));
        }
        return out;
    }
    match find_byte(data, NL) {
        Some(i) => {
            proof {
                lemma_first_byte_at_is(data@, NL, i as int);
            }
            let first = sub_to_vec(data, 0, i);
            let rest = vstd::slice::slice_subrange(data, i + 1, data.len());
            proof {
                assert(rest@ =~= data@.skip(i + 1 as int));
                assert(first@ =~= data@.take(i as int));
            }
            let mut tail = split_lines_exec(rest);
            out.push(first);
            out.append(&mut tail);
            proof {
                assert(views_of(out@) =~~= seq![data@.take(i as int)] + split_lines(
                    data@.skip(i + 1 as int),
                ));
            }
            out
        },
        None => {
            proof {
                lemma_first_byte_at(data@, NL);
            }
            out.push(vstd::slice::slice_to_vec(data));
            proof {
                assert(views_of(out@) =~~= seq![data@]);
            }
            out
        },
    }
}

#[verifier::loop_isolation(false)]
fn clean_exec(lines: Vec<Vec<u8>>) -> (r: Vec<Vec<u8>>)
    ensures
        views_of(r@) == clean_lines(views_of(lines@)),
{
    let ghost all = views_of(lines@);
    let mut out: Vec<Vec<u8>> = Vec::new();
    let mut i: usize = 0;
    proof {
        assert(views_of(out@) =~~= clean_lines(all.take(0)));
    }
    while i < lines.len()
        invariant
            0 <= i <= lines@.len(),
            views_of(out@) == clean_lines(all.take(i as int)),
        decreases lines@.len() - i,
    {
        let keep = lines[i].len() > 0 && *vstd::slice::slice_index_get(lines[i].as_slice(), 0)
            != HASH;
        proof {
            assert(all.take(i + 1 as int) =~~= all.take(i as int) + seq![all[i as int]]);
            lemma_clean_append(all.take(i as int), seq![all[i as int]]);
            assert(seq![all[i as int]].skip(1) =~~= Seq::<Seq<u8>>::empty());
            assert(clean_lines(Seq::<Seq<u8>>::empty()) =~~= Seq::<Seq<u8>>::empty());
            assert(all[i as int] == lines@[i as int]@);
            if keep {
                assert(clean_lines(seq![all[i as int]]) =~~= seq![all[i as int]]);
            } else {
                assert(is_ignorable(all[i as int]));
                assert(clean_lines(seq![all[i as int]]) =~~= Seq::<Seq<u8>>::empty());
            }
        }
        if keep {
            let line = lines[i].clone();
            proof {
                assert(line@ == lines@[i as int]@) by {
                    assert(lines@[i as int]@ =~= line@);
                }
            }
            out.push(line);
            proof {
                assert(views_of(out@) =~~= clean_lines(all.take(i + 1 as int)));
            }
        } else {
            proof {
                assert(views_of(out@) =~~= clean_lines(all.take(i + 1 as int)));
            }
        }
        i += 1;
    }
    proof {
        assert(all.take(lines@.len() as int) =~~= all);
    }
    out
}

fn strip_key_exec(l: &[u8], key: &[u8]) -> (r: Option<Vec<u8>>)
    ensures
        r is Some <==> strip_key(l@, key@) is Some,
        r is Some ==> Some(r->0@) == strip_key(l@, key@),
{
    if starts_with(l, key) {
        let rest = sub_to_vec(l, key.len(), l.len());
        proof {
            assert(rest@ =~= l@.skip(key@.len() as int));
        }
        Some(rest)
    } else {
        None
    }
}

#[verifier::loop_isolation(false)]
fn parse_items_exec(cleaned: &Vec<Vec<u8>>, start: usize) -> (r: (Vec<Vec<u8>>, usize))
    requires
        start <= cleaned@.len(),
    ensures
        ({
            let pr = parse_items(views_of(cleaned@).skip(start as int));
            &&& views_of(r.0@) == pr.0
            &&& start <= r.1 <= cleaned@.len()
            &&& pr.1 == views_of(cleaned@).skip(r.1 as int)
        }),
    decreases cleaned@.len() - start,
{
    let ghost cls = views_of(cleaned@);
    if start == cleaned.len() {
        let items: Vec<Vec<u8>> = Vec::new();
        proof {
            assert(cls.skip(start as int) =~~= Seq::<Seq<u8>>::empty());
            assert(views_of(items@) =~~= parse_items(cls.skip(start as int)).0);
        }
        return (items, start);
    }
    let key = k_item_exec();
    proof {
        assert(cls.skip(start as int)[0] == cleaned@[start as int]@);
    }
    match strip_key_exec(cleaned[start].as_slice(), key.as_slice()) {
        Some(item) => {
            let r = parse_items_exec(cleaned, start + 1);
            let mut tail = r.0;
            let next = r.1;
            let mut items: Vec<Vec<u8>> = Vec::new();
            items.push(item);
            items.append(&mut tail);
            proof {
                assert(cls.skip(start as int).skip(1) =~~= cls.skip(start + 1 as int));
                let pr = parse_items(cls.skip(start as int));
                assert(views_of(items@) =~~= pr.0);
            }
            (items, next)
        },
        None => {
            let items: Vec<Vec<u8>> = Vec::new();
            proof {
                assert(views_of(items@) =~~= parse_items(cls.skip(start as int)).0);
            }
            (items, start)
        },
    }
}

#[verifier::loop_isolation(false)]
fn parse_fallback_exec(cleaned: &Vec<Vec<u8>>, start: usize) -> (r: Option<
    (LairServerSignatureFallback, usize),
>)
    requires
        start <= cleaned@.len(),
    ensures
        ({
            let pf = parse_fallback(views_of(cleaned@).skip(start as int));
            &&& r is Some <==> pf is Some
            &&& r is Some ==> {
                let rv = r->0;
                let pv = pf->0;
                pf is Some && pv.0 == rv.0@ && start <= rv.1 <= cleaned@.len() && pv.1
                    == views_of(cleaned@).skip(rv.1 as int)
            }
        }),
{
    let ghost cls = views_of(cleaned@);
    let ghost ls = cls.skip(start as int);
    if start == cleaned.len() {
        proof {
            assert(ls =~~= Seq::<Seq<u8>>::empty());
        }
        return None;
    }
    proof {
        assert(ls[0] == cleaned@[start as int]@);
    }
    let none_line = l_fb_none_exec();
    if bytes_eq(cleaned[start].as_slice(), none_line.as_slice()) {
        proof {
            assert(ls.skip(1) =~~= cls.skip(start + 1 as int));
        }
        return Some((LairServerSignatureFallback::NoFallback, start + 1));
    }
    let cmd_line = l_fb_cmd_exec();
    if !bytes_eq(cleaned[start].as_slice(), cmd_line.as_slice()) {
        return None;
    }
    if start + 1 >= cleaned.len() {
        proof {
            assert(ls.len() < 2);
        }
        return None;
    }
    proof {
        assert(ls[1] == cleaned@[start + 1 as int]@);
        assert(ls.len() >= 2);
    }
    let prog_key = k_program_exec();
    let program = match strip_key_exec(cleaned[start + 1].as_slice(), prog_key.as_slice()) {
        Some(p) => p,
        None => {
            return None;
        },
    };
    let ghost rest = ls.skip(2);
    proof {
        assert(rest =~~= cls.skip(start + 2 as int));
    }
    if start + 2 >= cleaned.len() {
        proof {
            assert(rest.len() == 0);
        }
        return None;
    }
    proof {
        assert(rest.len() >= 1);
        assert(rest[0] == cleaned@[start + 2 as int]@);
    }
    let null_line = l_args_null_exec();
    if bytes_eq(cleaned[start + 2].as_slice(), null_line.as_slice()) {
        proof {
            assert(rest.skip(1) =~~= cls.skip(start + 3 as int));
        }
        return Some(
            (
                LairServerSignatureFallback::Command { program, args: Option::None },
                start + 3,
            ),
        );
    }
    let args_line = l_args_exec();
    if bytes_eq(cleaned[start + 2].as_slice(), args_line.as_slice()) {
        let pr = parse_items_exec(cleaned, start + 3);
        let items = pr.0;
        let next = pr.1;
        proof {
            assert(rest.skip(1) =~~= cls.skip(start + 3 as int));
            assert forall|m: int| 0 <= m < items@.len() implies items.deep_view()[m]
                == items@[m]@ by {
                assert(items@[m].deep_view() =~= items@[m]@);
            }
            assert(items.deep_view() =~~= views_of(items@));
        }
        return Some(
            (
                LairServerSignatureFallback::Command { program, args: Option::Some(items) },
                next,
            ),
        );
    }
    None
}

impl LairServerConfigInner {
    /// Decode a configuration document back into a record: `Ok` exactly when
    /// the text parses as the fixed-field document, a serialization error
    /// otherwise. Output of `to_bytes` is always accepted.
    #[verifier::loop_isolation(false)]
    #[verifier::rlimit(100)]
    pub fn from_bytes(bytes: &[u8]) -> (r: LairResult<Self>)
        ensures
            r is Ok <==> parse_config_spec(bytes@) is Some,
            r is Ok ==> Some(r->Ok_0@) == parse_config_spec(bytes@),
            r is Err ==> r->Err_0 == LairError::Serialization,
    {
        let lines = split_lines_exec(bytes);
        let cleaned = clean_exec(lines);
        let ghost cls = views_of(cleaned@);
        if cleaned.len() < 3 {
            return Err(LairError::Serialization);
        }
        proof {
            assert(cls[0] == cleaned@[0]@);
            assert(cls[1] == cleaned@[1]@);
            assert(cls[2] == cleaned@[2]@);
        }
        let key = k_url_exec();
        let url_text = match strip_key_exec(cleaned[0].as_slice(), key.as_slice()) {
            Some(t) => t,
            None => {
                return Err(LairError::Serialization);
            },
        };
        let connection_url = match ConnectionUrl::parse(url_text.as_slice()) {
            Ok(u) => u,
            Err(_) => {
                return Err(LairError::Serialization);
            },
        };
        let key = k_pid_exec();
        let pid_file = match strip_key_exec(cleaned[1].as_slice(), key.as_slice()) {
            Some(t) => t,
            None => {
                return Err(LairError::Serialization);
            },
        };
        let key = k_store_exec();
        let store_file = match strip_key_exec(cleaned[2].as_slice(), key.as_slice()) {
            Some(t) => t,
            None => {
                return Err(LairError::Serialization);
            },
        };
        let fb_next = match parse_fallback_exec(&cleaned, 3) {
            Some(p) => p,
            None => {
                return Err(LairError::Serialization);
            },
        };
        let signature_fallback = fb_next.0;
        let next = fb_next.1;
        let ghost rest = cls.skip(next as int);
        if cleaned.len() - next != 6 {
            return Err(LairError::Serialization);
        }
        proof {
            assert(rest.len() == 6);
            assert(rest[0] == cleaned@[next as int]@);
            assert(rest[1] == cleaned@[next + 1 as int]@);
            assert(rest[2] == cleaned@[next + 2 as int]@);
            assert(rest[3] == cleaned@[next + 3 as int]@);
            assert(rest[4] == cleaned@[next + 4 as int]@);
            assert(rest[5] == cleaned@[next + 5 as int]@);
        }
        let key = k_dbsalt_exec();
        let db_text = match strip_key_exec(cleaned[next].as_slice(), key.as_slice()) {
            Some(t) => t,
            None => {
                return Err(LairError::Serialization);
            },
        };
        let key = k_rtsalt_exec();
        let salt_text = match strip_key_exec(cleaned[next + 1].as_slice(), key.as_slice()) {
            Some(t) => t,
            None => {
                return Err(LairError::Serialization);
            },
        };
        let key = k_mem_exec();
        let mem_text = match strip_key_exec(cleaned[next + 2].as_slice(), key.as_slice()) {
            Some(t) => t,
            None => {
                return Err(LairError::Serialization);
            },
        };
        let key = k_ops_exec();
        let ops_text = match strip_key_exec(cleaned[next + 3].as_slice(), key.as_slice()) {
            Some(t) => t,
            None => {
                return Err(LairError::Serialization);
            },
        };
        let key = k_ctx_exec();
        let ctx_text = match strip_key_exec(cleaned[next + 4].as_slice(), key.as_slice()) {
            Some(t) => t,
            None => {
                return Err(LairError::Serialization);
            },
        };
        let key = k_seed_exec();
        let seed_text = match strip_key_exec(cleaned[next + 5].as_slice(), key.as_slice()) {
            Some(t) => t,
            None => {
                return Err(LairError::Serialization);
            },
        };
        let database_salt = match BinDataSized::<16>::from_hex_text(db_text.as_slice()) {
            Some(s) => s,
            None => {
                return Err(LairError::Serialization);
            },
        };
        let runtime_secrets_salt = match BinDataSized::<16>::from_hex_text(salt_text.as_slice()) {
            Some(s) => s,
            None => {
                return Err(LairError::Serialization);
            },
        };
        let runtime_secrets_mem_limit = match dec_to_u32(mem_text.as_slice()) {
            Some(n) => n,
            None => {
                return Err(LairError::Serialization);
            },
        };
        let runtime_secrets_ops_limit = match dec_to_u32(ops_text.as_slice()) {
            Some(n) => n,
            None => {
                return Err(LairError::Serialization);
            },
        };
        let runtime_secrets_context_key = match Self::secret_from_hex(ctx_text.as_slice()) {
            Some(s) => s,
            None => {
                return Err(LairError::Serialization);
            },
        };
        let runtime_secrets_id_seed = match Self::secret_from_hex(seed_text.as_slice()) {
            Some(s) => s,
            None => {
                return Err(LairError::Serialization);
            },
        };
        let config = LairServerConfigInner {
            connection_url,
            pid_file,
            store_file,
            signature_fallback,
            database_salt,
            runtime_secrets_salt,
            runtime_secrets_mem_limit,
            runtime_secrets_ops_limit,
            runtime_secrets_context_key,
            runtime_secrets_id_seed,
        };
        proof {
            let parsed = parse_config_spec(bytes@);
            assert(parsed is Some && parsed->0 =~~= config@);
        }
        Ok(config)
    }

    /// Decode the persisted hex form of an encrypted secret: the 24-byte
    /// header followed by the 49-byte cipher.
    fn secret_from_hex(text: &[u8]) -> (r: Option<SecretDataSized<32, 49>>)
        ensures
            r is Some <==> is_hex_seq(text@) && text@.len() == 146,
            r is Some ==> r->0@ == (unhex(text@).take(24), unhex(text@).skip(24)) && r->0.wf(),
    {
        match hex_to_bytes(text) {
            Some(raw) => {
                if raw.len() != 73 {
                    return None;
                }
                let header = sub_to_vec(raw.as_slice(), 0, 24);
                let cipher = sub_to_vec(raw.as_slice(), 24, 73);
                proof {
                    assert(header@ =~= unhex(text@).take(24));
                    assert(cipher@ =~= unhex(text@).skip(24));
                }
                match SecretDataSized::<32, 49>::from_parts(header, cipher) {
                    Ok(s) => Some(s),
                    Err(_) => None,
                }
            },
            None => None,
        }
    }
}

} // verus!

