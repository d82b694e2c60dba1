//! The connection descriptor codec: builds and parses the locator string
//! clients use to reach the server, with the server's public identity key
//! carried in the `k` query parameter.

use vstd::prelude::*;

use crate::bytestr::first_byte_at;
use crate::bytestr::find_byte;
use crate::bytestr::has_byte;
use crate::bytestr::lemma_first_byte_at;
use crate::bytestr::lemma_first_byte_at_is;
use crate::bytestr::starts_with;
use crate::bytestr::sub_to_vec;
use crate::bin_types::BinDataSized;
use crate::err::LairError;
use crate::err::LairResult;
use crate::hex::hex_of;
use crate::hex::is_hex_seq;
use crate::hex::unhex;

verus! {

/// `?`, the byte that separates a locator's path from its query.
pub const QMARK: u8 = 63;

/// `&`, the byte that separates query pairs.
pub const AMP: u8 = 38;

/// `=`, the byte that separates a query key from its value.
pub const EQUALS: u8 = 61;

/// `k`, the query key that carries the server public identity key.
pub const KEY_K: u8 = 107;

/// The transport family a locator names: unix domain sockets, Windows named
/// pipes, or the reserved (accepted in encoding, not yet supported) TCP form.
#[derive(Clone, Copy, Debug, PartialEq, Eq, Structural)]
pub enum ConnectionScheme {
    Unix,
    NamedPipe,
    Tcp,
}

/// The mathematical value of a connection locator.
#[verifier::ext_equal]
pub struct UrlView {
    pub scheme: ConnectionScheme,
    pub path: Seq<u8>,
    pub query: Seq<u8>,
}

/// A parsed connection locator: scheme, path (socket path, pipe name, or
/// host:port), and the raw query string (without the leading `?`).
#[derive(Clone, Debug, PartialEq, Eq)]
pub struct ConnectionUrl {
    scheme: ConnectionScheme,
    path: Vec<u8>,
    query: Vec<u8>,
}

impl View for ConnectionUrl {
    type V = UrlView;

    closed spec fn view(&self) -> UrlView {
        UrlView { scheme: self.scheme, path: self.path@, query: self.query@ }
    }
}

/// The scheme token together with its separator, as it appears in the
/// rendered locator: `unix://`, `named-pipe:`, `tcp://`.
pub open spec fn scheme_prefix(s: ConnectionScheme) -> Seq<u8> {
    match s {
        ConnectionScheme::Unix => seq![117u8, 110u8, 105u8, 120u8, 58u8, 47u8, 47u8],
        ConnectionScheme::NamedPipe => seq![
            110u8,
            97u8,
            109u8,
            101u8,
            100u8,
            45u8,
            112u8,
            105u8,
            112u8,
            101u8,
            58u8,
        ],
        ConnectionScheme::Tcp => seq![116u8, 99u8, 112u8, 58u8, 47u8, 47u8],
    }
}

/// The rendered locator text.
pub open spec fn render_url_spec(u: UrlView) -> Seq<u8> {
    scheme_prefix(u.scheme) + u.path + if u.query.len() > 0 {
        seq![QMARK] + u.query
    } else {
        Seq::<u8>::empty()
    }
}

/// A locator value whose rendering parses back exactly: the path holds no
/// query separator.
pub open spec fn url_wf(u: UrlView) -> bool {
    !has_byte(u.path, QMARK)
}

/// The parse of a locator's remainder, after the scheme prefix.
pub open spec fn parse_rest_spec(s: ConnectionScheme, rest: Seq<u8>) -> UrlView {
    let i = first_byte_at(rest, QMARK);
    if 0 <= i < rest.len() {
        UrlView { scheme: s, path: rest.take(i), query: rest.skip(i + 1) }
    } else {
        UrlView { scheme: s, path: rest, query: Seq::<u8>::empty() }
    }
}

/// The parse of a locator text: the scheme token selects the transport
/// family, the rest splits into path and query at the first `?`.
pub open spec fn parse_url_spec(t: Seq<u8>) -> Option<UrlView> {
    let unix = scheme_prefix(ConnectionScheme::Unix);
    let pipe = scheme_prefix(ConnectionScheme::NamedPipe);
    let tcp = scheme_prefix(ConnectionScheme::Tcp);
    if t.len() >= unix.len() && t.take(unix.len() as int) == unix {
        Some(parse_rest_spec(ConnectionScheme::Unix, t.skip(unix.len() as int)))
    } else if t.len() >= pipe.len() && t.take(pipe.len() as int) == pipe {
        Some(parse_rest_spec(ConnectionScheme::NamedPipe, t.skip(pipe.len() as int)))
    } else if t.len() >= tcp.len() && t.take(tcp.len() as int) == tcp {
        Some(parse_rest_spec(ConnectionScheme::Tcp, t.skip(tcp.len() as int)))
    } else {
        None
    }
}

/// The value of the first `k` query parameter of a query string, if any:
/// pairs are separated by `&`, a pair's key ends at its first `=`.
pub open spec fn query_k_spec(q: Seq<u8>) -> Option<Seq<u8>>
    decreases q.len(),
{
    let amp = first_byte_at(q, AMP);
    let pair = if 0 <= amp < q.len() {
        q.take(amp)
    } else {
        q
    };
    let eq = first_byte_at(pair, EQUALS);
    let key = if 0 <= eq < pair.len() {
        pair.take(eq)
    } else {
        pair
    };
    let val = if 0 <= eq < pair.len() {
        pair.skip(eq + 1)
    } else {
        Seq::<u8>::empty()
    };
    if key == seq![KEY_K] {
        Some(val)
    } else if 0 <= amp < q.len() {
        query_k_spec(q.skip(amp + 1))
    } else {
        None
    }
}

fn unix_prefix() -> (r: Vec<u8>)
    ensures
        r@ == scheme_prefix(ConnectionScheme::Unix),
{
    let mut v: Vec<u8> = Vec::new();
    v.push(117u8);
    v.push(110u8);
    v.push(105u8);
    v.push(120u8);
    v.push(58u8);
    v.push(47u8);
    v.push(47u8);
    proof {
        assert(v@ =~= scheme_prefix(ConnectionScheme::Unix));
    }
    v
}

fn pipe_prefix() -> (r: Vec<u8>)
    ensures
        r@ == scheme_prefix(ConnectionScheme::NamedPipe),
{
    let mut v: Vec<u8> = Vec::new();
    v.push(110u8);
    v.push(97u8);
    v.push(109u8);
    v.push(101u8);
    v.push(100u8);
    v.push(45u8);
    v.push(112u8);
    v.push(105u8);
    v.push(112u8);
    v.push(101u8);
    v.push(58u8);
    proof {
        assert(v@ =~= scheme_prefix(ConnectionScheme::NamedPipe));
    }
    v
}

fn tcp_prefix() -> (r: Vec<u8>)
    ensures
        r@ == scheme_prefix(ConnectionScheme::Tcp),
{
    let mut v: Vec<u8> = Vec::new();
    v.push(116u8);
    v.push(99u8);
    v.push(112u8);
    v.push(58u8);
    v.push(47u8);
    v.push(47u8);
    proof {
        assert(v@ =~= scheme_prefix(ConnectionScheme::Tcp));
    }
    v
}

impl ConnectionUrl {
    /// Build a locator from its parts. The query is the raw query string
    /// (without the leading `?`).
    pub fn from_parts(scheme: ConnectionScheme, path: Vec<u8>, query: Vec<u8>) -> (r:
        ConnectionUrl)
        ensures
            r@.scheme == scheme,
            r@.path == path@,
            r@.query == query@,
    {
        ConnectionUrl { scheme, path, query }
    }

    /// Build the locator that embeds a server public identity key as the
    /// sole `k` query parameter.
    pub fn with_server_pub_key(
        scheme: ConnectionScheme,
        path: Vec<u8>,
        pub_key: &BinDataSized<32>,
    ) -> (r: ConnectionUrl)
        ensures
            r@.scheme == scheme,
            r@.path == path@,
            r@.query == seq![KEY_K, EQUALS] + hex_of(pub_key@),
    {
        let mut query: Vec<u8> = Vec::new();
        query.push(KEY_K);
        query.push(EQUALS);
        let hex = pub_key.to_hex();
        query.extend_from_slice(hex.as_slice());
        proof {
            assert(query@ =~= seq![KEY_K, EQUALS] + hex_of(pub_key@));
        }
        ConnectionUrl { scheme, path, query }
    }

    /// The scheme token, as the locator text spells it.
    pub fn get_scheme(&self) -> (r: &'static str)
        ensures
            self@.scheme == ConnectionScheme::Unix ==> r@ == "unix"@,
            self@.scheme == ConnectionScheme::NamedPipe ==> r@ == "named-pipe"@,
            self@.scheme == ConnectionScheme::Tcp ==> r@ == "tcp"@,
    {
        match self.scheme {
            ConnectionScheme::Unix => "unix",
            ConnectionScheme::NamedPipe => "named-pipe",
            ConnectionScheme::Tcp => "tcp",
        }
    }

    /// The scheme as a value.
    pub fn scheme_kind(&self) -> (r: ConnectionScheme)
        ensures
            r == self@.scheme,
    {
        self.scheme
    }

    /// The path component.
    pub fn path_bytes(&self) -> (r: &[u8])
        ensures
            r@ == self@.path,
    {
        self.path.as_slice()
    }

    /// The raw query string.
    pub fn query_bytes(&self) -> (r: &[u8])
        ensures
            r@ == self@.query,
    {
        self.query.as_slice()
    }

    /// Render the locator text.
    pub fn to_bytes(&self) -> (r: Vec<u8>)
        ensures
            r@ == render_url_spec(self@),
    {
        let mut out = match self.scheme {
            ConnectionScheme::Unix => unix_prefix(),
            ConnectionScheme::NamedPipe => pipe_prefix(),
            ConnectionScheme::Tcp => tcp_prefix(),
        };
        out.extend_from_slice(self.path.as_slice());
        if self.query.len() > 0 {
            out.push(QMARK);
            out.extend_from_slice(self.query.as_slice());
        }
        proof {
            assert(out@ =~= render_url_spec(self@));
        }
        out
    }

    /// Parse a locator text; a text whose scheme token is not a recognized
    /// transport family is rejected as malformed.
    pub fn parse(text: &[u8]) -> (r: LairResult<ConnectionUrl>)
        ensures
            r is Ok <==> parse_url_spec(text@) is Some,
            r is Ok ==> Some(r->Ok_0@) == parse_url_spec(text@),
            r is Err ==> r->Err_0 == LairError::MalformedLocator,
    {
        let unix = unix_prefix();
        let pipe = pipe_prefix();
        let tcp = tcp_prefix();
        if starts_with(text, unix.as_slice()) {
            Ok(Self::parse_rest(ConnectionScheme::Unix, text, unix.len()))
        } else if starts_with(text, pipe.as_slice()) {
            Ok(Self::parse_rest(ConnectionScheme::NamedPipe, text, pipe.len()))
        } else if starts_with(text, tcp.as_slice()) {
            Ok(Self::parse_rest(ConnectionScheme::Tcp, text, tcp.len()))
        } else {
            Err(LairError::MalformedLocator)
        }
    }

    fn parse_rest(scheme: ConnectionScheme, text: &[u8], at: usize) -> (r: ConnectionUrl)
        requires
            at <= text@.len(),
        ensures
            r@ == parse_rest_spec(scheme, text@.skip(at as int)),
    {
        let rest = vstd::slice::slice_subrange(text, at, text.len());
        let ghost rest_view = text@.skip(at as int);
        match find_byte(rest, QMARK) {
            Some(i) => {
                proof {
                    lemma_first_byte_at_is(rest_view, QMARK, i as int);
                }
                let path = sub_to_vec(rest, 0, i);
                let query = sub_to_vec(rest, i + 1, rest.len());
                proof {
                    assert(path@ =~= rest_view.take(i as int));
                    assert(query@ =~= rest_view.skip(i + 1 as int));
                }
                ConnectionUrl { scheme, path, query }
            },
            None => {
                proof {
                    lemma_first_byte_at(rest_view, QMARK);
                }
                let path = vstd::slice::slice_to_vec(rest);
                ConnectionUrl { scheme, path, query: Vec::new() }
            },
        }
    }
}

/// Encoding a locator and parsing the text back yields the original value,
/// for every transport family, whenever the path holds no query separator.
pub proof fn lemma_url_round_trip(u: UrlView)
    requires
        url_wf(u),
    ensures
        parse_url_spec(render_url_spec(u)) == Some(u),
{
    let t = render_url_spec(u);
    let p = scheme_prefix(u.scheme);
    let unix = scheme_prefix(ConnectionScheme::Unix);
    let pipe = scheme_prefix(ConnectionScheme::NamedPipe);
    let tcp = scheme_prefix(ConnectionScheme::Tcp);
    assert(t.take(p.len() as int) =~= p);
    match u.scheme {
        ConnectionScheme::Unix => {
            assert(t[0] == 117u8);
        },
        ConnectionScheme::NamedPipe => {
            assert(t[0] == 110u8);
            assert(t.len() >= unix.len() && t.take(unix.len() as int) == unix ==> false) by {
                if t.len() >= unix.len() && t.take(unix.len() as int) == unix {
                    assert(t.take(unix.len() as int)[0] == 117u8);
                }
            }
        },
        ConnectionScheme::Tcp => {
            assert(t[0] == 116u8);
            assert(t.len() >= unix.len() && t.take(unix.len() as int) == unix ==> false) by {
                if t.len() >= unix.len() && t.take(unix.len() as int) == unix {
                    assert(t.take(unix.len() as int)[0] == 117u8);
                }
            }
            assert(t.len() >= pipe.len() && t.take(pipe.len() as int) == pipe ==> false) by {
                if t.len() >= pipe.len() && t.take(pipe.len() as int) == pipe {
                    assert(t.take(pipe.len() as int)[0] == 110u8);
                }
            }
        },
    }
    let rest = t.skip(p.len() as int);
    if u.query.len() > 0 {
        assert(rest =~= u.path + seq![QMARK] + u.query);
        lemma_first_byte_at_is(rest, QMARK, u.path.len() as int);
        assert(rest.take(u.path.len() as int) =~= u.path);
        assert(rest.skip(u.path.len() as int + 1) =~= u.query);
        assert(parse_rest_spec(u.scheme, rest) =~= u);
    } else {
        assert(rest =~= u.path);
        lemma_first_byte_at(rest, QMARK);
        assert(first_byte_at(rest, QMARK) == rest.len());
        assert(parse_rest_spec(u.scheme, rest) =~= u);
    }
}

/// A query string of the single pair `k=<value>` yields that value, for any
/// value free of the pair separator.
pub proof fn lemma_query_k_single(v: Seq<u8>)
    requires
        forall|i: int| 0 <= i < v.len() ==> v[i] != AMP,
    ensures
        query_k_spec(seq![KEY_K, EQUALS] + v) == Some(v),
{
    let q = seq![KEY_K, EQUALS] + v;
    assert forall|j: int| 0 <= j < q.len() implies q[j] != AMP by {
        if j >= 2 {
            assert(q[j] == v[j - 2]);
        }
    }
    assert(!has_byte(q, AMP));
    lemma_first_byte_at(q, AMP);
    lemma_first_byte_at_is(q, EQUALS, 1);
    assert(q.take(1) =~= seq![KEY_K]);
    assert(q.skip(2) =~= v);
}

/// Extract the server public key from a locator: scans the query parameters
/// for the key `k`, distinguishing "no key present" from "key present but
/// invalid".
pub fn get_server_pub_key_from_connection_url(url: &ConnectionUrl) -> (r: LairResult<
    BinDataSized<32>,
>)
    ensures
        match query_k_spec(url@.query) {
            Option::None => r is Err && r->Err_0 == LairError::MissingServerPubKey,
            Option::Some(v) => {
                if is_hex_seq(v) && v.len() == 64 {
                    r is Ok && r->Ok_0@ == unhex(v)
                } else {
                    r is Err && r->Err_0 == LairError::InvalidServerPubKey
                }
            },
        },
{
    let q = url.query_bytes();
    match query_k_exec(q) {
        Some(v) => {
            match BinDataSized::<32>::from_hex_text(v.as_slice()) {
                Some(k) => Ok(k),
                None => Err(LairError::InvalidServerPubKey),
            }
        },
        None => Err(LairError::MissingServerPubKey),
    }
}

fn query_k_exec(q: &[u8]) -> (r: Option<Vec<u8>>)
    ensures
        r is Some <==> query_k_spec(q@) is Some,
        r is Some ==> Some(r->0@) == query_k_spec(q@),
    decreases q@.len(),
{
    let pair_end = match find_byte(q, AMP) {
        Some(i) => {
            proof {
                lemma_first_byte_at_is(q@, AMP, i as int);
            }
            i
        },
        None => {
            proof {
                lemma_first_byte_at(q@, AMP);
            }
            q.len()
        },
    };
    let pair = vstd::slice::slice_subrange(q, 0, pair_end);
    proof {
        assert(pair@ =~= if 0 <= first_byte_at(q@, AMP) < q@.len() {
            q@.take(first_byte_at(q@, AMP))
        } else {
            q@
        });
    }
    let eq_at = match find_byte(pair, EQUALS) {
        Some(i) => {
            proof {
                lemma_first_byte_at_is(pair@, EQUALS, i as int);
            }
            i
        },
        None => {
            proof {
                lemma_first_byte_at(pair@, EQUALS);
            }
            pair.len()
        },
    };
    let is_k = eq_at == 1 && pair[0] == KEY_K;
    proof {
        let key = if 0 <= first_byte_at(pair@, EQUALS) < pair@.len() {
            pair@.take(first_byte_at(pair@, EQUALS))
        } else {
            pair@
        };
        if is_k {
            assert(key =~= seq![KEY_K]);
        } else {
            assert(key != seq![KEY_K]) by {
                if key == seq![KEY_K] {
                    assert(key.len() == 1);
                    assert(key[0] == KEY_K);
                    if first_byte_at(pair@, EQUALS) == 1 {
                        assert(pair@[0] == KEY_K);
                    }
                }
            }
        }
    }
    if is_k {
        if eq_at < pair.len() {
            Some(sub_to_vec(pair, eq_at + 1, pair.len()))
        } else {
            Some(Vec::new())
        }
    } else if pair_end < q.len() {
        let rest = vstd::slice::slice_subrange(q, pair_end + 1, q.len());
        proof {
            assert(rest@ =~= q@.skip(first_byte_at(q@, AMP) + 1));
        }
        query_k_exec(rest)
    } else {
        None
    }
}

} // verus!
