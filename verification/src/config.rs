//! Server identity and secret assembly: the configuration record a keystore
//! server persists, and its construction from a root directory and a
//! passphrase.

use vstd::prelude::*;

use crate::bin_types::BinDataSized;
use crate::bin_types::SecretDataSized;
use crate::bytestr::contains_byte;
use crate::bytestr::has_byte;
use crate::conn_url::ConnectionScheme;
use crate::conn_url::ConnectionUrl;
use crate::conn_url::EQUALS;
use crate::conn_url::KEY_K;
use crate::conn_url::QMARK;
use crate::conn_url::UrlView;
use crate::conn_url::get_server_pub_key_from_connection_url;
use crate::conn_url::lemma_query_k_single;
use crate::conn_url::query_k_spec;
use crate::conn_url::url_wf;
use crate::err::LairError;
use crate::err::LairResult;
use crate::hex::hex_of;
use crate::hex::is_hex_seq;
use crate::hex::lemma_hex_has_no_separators;
use crate::hex::lemma_hex_round_trip;
use crate::hex::unhex;
use crate::sodium::SecureSecretCell;
use crate::sodium::argon2id32;
use crate::sodium::argon2id32_of;
use crate::sodium::blake2b64;
use crate::sodium::blake2b64_of;
use crate::sodium::kdf32_of;
use crate::sodium::kdf_derive32;
use crate::sodium::random_bytes;
use crate::sodium::secret_open;
use crate::sodium::xsalsa_pk_of;
use crate::sodium::xsalsa_seed_public_key;

verus! {

/// `\n`, the line separator of the configuration document.
pub const NL: u8 = 10;

/// The derivation index of the context-key-encryption sub-key.
pub const CTX_KEY_INDEX: u64 = 42;

/// The derivation index of the identity-seed-encryption sub-key.
pub const ID_KEY_INDEX: u64 = 142;

/// The domain-separation label of the context-key-encryption sub-key:
/// `CtxSecKy`.
pub open spec fn ctx_label() -> Seq<u8> {
    seq![67u8, 116u8, 120u8, 83u8, 101u8, 99u8, 75u8, 121u8]
}

/// The domain-separation label of the identity-seed-encryption sub-key:
/// `IdnSecKy`.
pub open spec fn id_label() -> Seq<u8> {
    seq![73u8, 100u8, 110u8, 83u8, 101u8, 99u8, 75u8, 121u8]
}

/// `/pid_file`, the default pid file leaf under the root directory.
pub open spec fn pid_leaf() -> Seq<u8> {
    seq![47u8, 112u8, 105u8, 100u8, 95u8, 102u8, 105u8, 108u8, 101u8]
}

/// `/store_file`, the default store file leaf under the root directory.
pub open spec fn store_leaf() -> Seq<u8> {
    seq![47u8, 115u8, 116u8, 111u8, 114u8, 101u8, 95u8, 102u8, 105u8, 108u8, 101u8]
}

/// `/socket`, the rendezvous socket leaf under the canonical root.
pub open spec fn socket_leaf() -> Seq<u8> {
    seq![47u8, 115u8, 111u8, 99u8, 107u8, 101u8, 116u8]
}

fn ctx_label_exec() -> (r: Vec<u8>)
    ensures
        r@ == ctx_label(),
{
    let mut v: Vec<u8> = Vec::new();
    v.push(67u8);
    v.push(116u8);
    v.push(120u8);
    v.push(83u8);
    v.push(101u8);
    v.push(99u8);
    v.push(75u8);
    v.push(121u8);
    proof {
        assert(v@ =~= ctx_label());
    }
    v
}

fn id_label_exec() -> (r: Vec<u8>)
    ensures
        r@ == id_label(),
{
    let mut v: Vec<u8> = Vec::new();
    v.push(73u8);
    v.push(100u8);
    v.push(110u8);
    v.push(83u8);
    v.push(101u8);
    v.push(99u8);
    v.push(75u8);
    v.push(121u8);
    proof {
        assert(v@ =~= id_label());
    }
    v
}

fn pid_leaf_exec() -> (r: Vec<u8>)
    ensures
        r@ == pid_leaf(),
{
    let mut v: Vec<u8> = Vec::new();
    v.push(47u8);
    v.push(112u8);
    v.push(105u8);
    v.push(100u8);
    v.push(95u8);
    v.push(102u8);
    v.push(105u8);
    v.push(108u8);
    v.push(101u8);
    proof {
        assert(v@ =~= pid_leaf());
    }
    v
}

fn store_leaf_exec() -> (r: Vec<u8>)
    ensures
        r@ == store_leaf(),
{
    let mut v: Vec<u8> = Vec::new();
    v.push(47u8);
    v.push(115u8);
    v.push(116u8);
    v.push(111u8);
    v.push(114u8);
    v.push(101u8);
    v.push(95u8);
    v.push(102u8);
    v.push(105u8);
    v.push(108u8);
    v.push(101u8);
    proof {
        assert(v@ =~= store_leaf());
    }
    v
}

fn socket_leaf_exec() -> (r: Vec<u8>)
    ensures
        r@ == socket_leaf(),
{
    let mut v: Vec<u8> = Vec::new();
    v.push(47u8);
    v.push(115u8);
    v.push(111u8);
    v.push(99u8);
    v.push(107u8);
    v.push(101u8);
    v.push(116u8);
    proof {
        assert(v@ =~= socket_leaf());
    }
    v
}

/// Resolve a directory to a canonical absolute path.
///
/// Relies on dunce::canonicalize: what comes back depends on the
/// filesystem, so nothing is assumed of the resulting bytes; callers check
/// what they need of them.
#[verifier::external_body]
fn canonicalize_dir(path: &[u8]) -> (r: LairResult<Vec<u8>>)
    ensures
        r is Err ==> r->Err_0 == LairError::Filesystem,
{
    let s = std::str::from_utf8(path).map_err(|_| LairError::Filesystem)?;
    let p = dunce::canonicalize(s).map_err(|_| LairError::Filesystem)?;
    match p.to_str() {
        Some(c) => Ok(c.as_bytes().to_vec()),
        None => Err(LairError::Filesystem),
    }
}

/// Configuration for signature fallback handling: when a public key is not
/// in the store, either fail the signature request, or hand it to a
/// configured subprocess.
#[derive(Clone, Debug, PartialEq, Eq)]
pub enum LairServerSignatureFallback {
    /// No fallback handling: a request for an unknown key errors.
    NoFallback,
    /// A command to execute on server start, fed length-framed signature
    /// requests on its standard input.
    Command {
        /// The program to execute.
        program: Vec<u8>,
        /// Optional arguments passed to the program.
        args: Option<Vec<Vec<u8>>>,
    },
}

/// The mathematical value of a signature fallback configuration.
#[verifier::ext_equal]
pub enum FallbackView {
    NoFallback,
    Command { program: Seq<u8>, args: Option<Seq<Seq<u8>>> },
}

impl View for LairServerSignatureFallback {
    type V = FallbackView;

    open spec fn view(&self) -> FallbackView {
        match self {
            LairServerSignatureFallback::NoFallback => FallbackView::NoFallback,
            LairServerSignatureFallback::Command { program, args } => FallbackView::Command {
                program: program@,
                args: match args {
                    Option::Some(a) => Option::Some(a.deep_view()),
                    Option::None => Option::None,
                },
            },
        }
    }
}

/// The mathematical value of a configuration record.
#[verifier::ext_equal]
pub struct ConfigView {
    pub connection_url: UrlView,
    pub pid_file: Seq<u8>,
    pub store_file: Seq<u8>,
    pub signature_fallback: FallbackView,
    pub database_salt: Seq<u8>,
    pub runtime_secrets_salt: Seq<u8>,
    pub runtime_secrets_mem_limit: u32,
    pub runtime_secrets_ops_limit: u32,
    pub runtime_secrets_context_key: (Seq<u8>, Seq<u8>),
    pub runtime_secrets_id_seed: (Seq<u8>, Seq<u8>),
}

/// The configuration record a keystore server persists: the connection
/// locator, the plain file paths, the signature fallback, and the encrypted
/// runtime secrets together with exactly the salt and cost parameters that
/// produced their encryption sub-keys.
#[derive(Clone, Debug, PartialEq, Eq)]
pub struct LairServerConfigInner {
    /// The connection locator for server / client communications.
    pub connection_url: ConnectionUrl,
    /// The pid file for managing a running keystore process.
    pub pid_file: Vec<u8>,
    /// The store file for persisting secrets.
    pub store_file: Vec<u8>,
    /// Signature fallback configuration; callers may reassign it after
    /// construction.
    pub signature_fallback: LairServerSignatureFallback,
    /// Salt for the store database connection.
    pub database_salt: BinDataSized<16>,
    /// Salt of the memory-hard stretch that protects the runtime secrets.
    pub runtime_secrets_salt: BinDataSized<16>,
    /// Memory cost parameter used for that stretch.
    pub runtime_secrets_mem_limit: u32,
    /// Operation cost parameter used for that stretch.
    pub runtime_secrets_ops_limit: u32,
    /// The encrypted runtime context key.
    pub runtime_secrets_context_key: SecretDataSized<32, 49>,
    /// The encrypted server identity keypair seed.
    pub runtime_secrets_id_seed: SecretDataSized<32, 49>,
}

impl View for LairServerConfigInner {
    type V = ConfigView;

    open spec fn view(&self) -> ConfigView {
        ConfigView {
            connection_url: self.connection_url@,
            pid_file: self.pid_file@,
            store_file: self.store_file@,
            signature_fallback: self.signature_fallback@,
            database_salt: self.database_salt@,
            runtime_secrets_salt: self.runtime_secrets_salt@,
            runtime_secrets_mem_limit: self.runtime_secrets_mem_limit,
            runtime_secrets_ops_limit: self.runtime_secrets_ops_limit,
            runtime_secrets_context_key: self.runtime_secrets_context_key@,
            runtime_secrets_id_seed: self.runtime_secrets_id_seed@,
        }
    }
}

/// Well-formedness of a fallback value for the persisted document: no value
/// crosses a line boundary.
pub open spec fn fallback_wf(f: FallbackView) -> bool {
    match f {
        FallbackView::NoFallback => true,
        FallbackView::Command { program, args } => !has_byte(program, NL) && match args {
            Option::Some(items) => forall|i: int|
                0 <= i < items.len() ==> !has_byte(#[trigger] items[i], NL),
            Option::None => true,
        },
    }
}

/// Well-formedness of a record: fixed lengths hold, and no field crosses a
/// line boundary of the persisted document.
pub open spec fn config_wf(c: ConfigView) -> bool {
    &&& url_wf(c.connection_url)
    &&& !has_byte(c.connection_url.path, NL)
    &&& !has_byte(c.connection_url.query, NL)
    &&& !has_byte(c.pid_file, NL)
    &&& !has_byte(c.store_file, NL)
    &&& fallback_wf(c.signature_fallback)
    &&& c.database_salt.len() == 16
    &&& c.runtime_secrets_salt.len() == 16
    &&& c.runtime_secrets_context_key.0.len() == 24
    &&& c.runtime_secrets_context_key.1.len() == 49
    &&& c.runtime_secrets_id_seed.0.len() == 24
    &&& c.runtime_secrets_id_seed.1.len() == 49
}

/// What construction guarantees of a fresh record: the default paths hang
/// off the root, the stored salt and cost parameters are exactly those that
/// produced the two encryption sub-keys, each encrypted secret opens under
/// its own sub-key, and the locator embeds the public key derived from the
/// encrypted identity seed.
pub open spec fn new_post(root: Seq<u8>, pw: Seq<u8>, ops: u32, mem: u32, c: ConfigView) -> bool {
    let pre = argon2id32_of(blake2b64_of(pw), c.runtime_secrets_salt, ops, mem);
    let ctx_key = kdf32_of(CTX_KEY_INDEX, ctx_label(), pre);
    let id_key = kdf32_of(ID_KEY_INDEX, id_label(), pre);
    let opened_ctx = secret_open(
        ctx_key,
        c.runtime_secrets_context_key.0,
        c.runtime_secrets_context_key.1,
    );
    let opened_seed = secret_open(id_key, c.runtime_secrets_id_seed.0, c.runtime_secrets_id_seed.1);
    &&& config_wf(c)
    &&& c.pid_file == root + pid_leaf()
    &&& c.store_file == root + store_leaf()
    &&& c.signature_fallback == FallbackView::NoFallback
    &&& c.runtime_secrets_mem_limit == mem
    &&& c.runtime_secrets_ops_limit == ops
    &&& opened_ctx is Some && opened_ctx->0.len() == 32
    &&& opened_seed is Some && opened_seed->0.len() == 32
    &&& c.connection_url.scheme == ConnectionScheme::Unix
    &&& (exists|dir: Seq<u8>| c.connection_url.path == dir + socket_leaf())
    &&& xsalsa_pk_of(opened_seed->0).len() == 32
    &&& c.connection_url.query == seq![KEY_K, EQUALS] + hex_of(xsalsa_pk_of(opened_seed->0))
}

impl LairServerConfigInner {
    /// Construct a new server configuration record: derive the two sub-keys
    /// from the passphrase (pre-hash, memory-hard stretch under a fresh
    /// random salt with the given cost parameters, then domain-separated
    /// fan-out), generate and encrypt the random context key and identity
    /// seed, and embed the derived public identity key in the locator. Any
    /// failure aborts the whole assembly: no partial record is returned. A
    /// root path holding a line separator could never be persisted and is
    /// rejected before any derivation; cost parameters below the argon2id
    /// minima are rejected by the stretch itself.
    pub fn new(root_path: &[u8], passphrase: SecureSecretCell, ops_limit: u32, mem_limit: u32)
        -> (r: LairResult<Self>)
        ensures
            r is Ok ==> new_post(root_path@, passphrase@, ops_limit, mem_limit, r->Ok_0@),
            has_byte(root_path@, NL) ==> r is Err && r->Err_0 == LairError::Filesystem,
            ops_limit < 1 || mem_limit < 8192 ==> r is Err,
    {
        // default pid and store file names hang off the root path
        let mut pid_file = vstd::slice::slice_to_vec(root_path);
        let leaf = pid_leaf_exec();
        pid_file.extend_from_slice(leaf.as_slice());
        let mut store_file = vstd::slice::slice_to_vec(root_path);
        let leaf = store_leaf_exec();
        store_file.extend_from_slice(leaf.as_slice());
        if contains_byte(pid_file.as_slice(), NL) || contains_byte(store_file.as_slice(), NL) {
            return Err(LairError::Filesystem);
        }
        proof {
            assert(!has_byte(root_path@, NL)) by {
                if has_byte(root_path@, NL) {
                    let j = choose|j: int| 0 <= j < root_path@.len() && root_path@[j] == NL;
                    assert(pid_file@[j] == NL);
                    assert(has_byte(pid_file@, NL));
                }
            }
        }

        // pre-hash the passphrase, then run the memory-hard stretch under a
        // fresh random salt
        let mut passphrase = passphrase;
        let mut pw_hash = blake2b64(&mut passphrase)?;
        let salt = random_bytes(16);
        let mut pre_secret = argon2id32(&mut pw_hash, salt.as_slice(), ops_limit, mem_limit)?;

        // fan the pre-secret out into two independent sub-keys
        let label = ctx_label_exec();
        let mut ctx_secret = kdf_derive32(CTX_KEY_INDEX, label.as_slice(), &mut pre_secret)?;
        let label = id_label_exec();
        let mut id_secret = kdf_derive32(ID_KEY_INDEX, label.as_slice(), &mut pre_secret)?;

        // the random context key protects the on-disk store; the random
        // identity seed derives the server identity keypair
        let mut context_key = SecureSecretCell::random(32)?;
        let mut id_seed = SecureSecretCell::random(32)?;
        let id_pk_bytes = xsalsa_seed_public_key(&mut id_seed)?;
        let id_pk = match BinDataSized::<32>::from_slice(id_pk_bytes.as_slice()) {
            Ok(k) => k,
            Err(e) => {
                return Err(e);
            },
        };

        // lock both secrets under their sub-keys
        let context_key_enc = SecretDataSized::<32, 49>::encrypt(&mut ctx_secret, &mut context_key)?;
        let id_seed_enc = SecretDataSized::<32, 49>::encrypt(&mut id_secret, &mut id_seed)?;

        // the rendezvous socket sits under the canonical root directory
        let canon = canonicalize_dir(root_path)?;
        if contains_byte(canon.as_slice(), NL) || contains_byte(canon.as_slice(), QMARK) {
            return Err(LairError::Filesystem);
        }
        let mut socket_path = canon;
        let leaf = socket_leaf_exec();
        socket_path.extend_from_slice(leaf.as_slice());
        let ghost socket_dir = socket_path@.subrange(0, socket_path@.len() - socket_leaf().len());
        let connection_url = ConnectionUrl::with_server_pub_key(
            ConnectionScheme::Unix,
            socket_path,
            &id_pk,
        );

        // a fresh random salt for the store database, independent of the
        // stretch salt
        let db_salt_bytes = random_bytes(16);
        let db_salt = match BinDataSized::<16>::from_slice(db_salt_bytes.as_slice()) {
            Ok(s) => s,
            Err(e) => {
                return Err(e);
            },
        };
        let rt_salt = match BinDataSized::<16>::from_slice(salt.as_slice()) {
            Ok(s) => s,
            Err(e) => {
                return Err(e);
            },
        };

        let config = LairServerConfigInner {
            connection_url,
            pid_file,
            store_file,
            signature_fallback: LairServerSignatureFallback::NoFallback,
            database_salt: db_salt,
            runtime_secrets_salt: rt_salt,
            runtime_secrets_mem_limit: mem_limit,
            runtime_secrets_ops_limit: ops_limit,
            runtime_secrets_context_key: context_key_enc,
            runtime_secrets_id_seed: id_seed_enc,
        };
        proof {
            lemma_hex_has_no_separators(xsalsa_pk_of(id_seed@));
            assert(config@.connection_url.path =~= socket_dir + socket_leaf());
            let path = config@.connection_url.path;
            let dir_len = path.len() - socket_leaf().len();
            assert forall|j: int| 0 <= j < path.len() implies path[j] != NL && path[j]
                != QMARK by {
                if j < dir_len {
                    assert(path[j] == socket_dir[j]);
                } else {
                    assert(path[j] == socket_leaf()[j - dir_len]);
                }
            }
            assert(!has_byte(path, NL));
            assert(!has_byte(path, QMARK));
            assert(!has_byte(config@.connection_url.query, NL));
            assert(url_wf(config@.connection_url));
            assert(config@.pid_file == root_path@ + pid_leaf());
            assert(config@.store_file == root_path@ + store_leaf());
        }
        Ok(config)
    }

    /// The connection scheme token: `unix`, `named-pipe`, or `tcp`.
    pub fn get_connection_scheme(&self) -> (r: &'static str)
        ensures
            self@.connection_url.scheme == ConnectionScheme::Unix ==> r@ == "unix"@,
            self@.connection_url.scheme == ConnectionScheme::NamedPipe ==> r@ == "named-pipe"@,
            self@.connection_url.scheme == ConnectionScheme::Tcp ==> r@ == "tcp"@,
    {
        self.connection_url.get_scheme()
    }

    /// The connection path: the socket path or pipe name of the locator.
    pub fn get_connection_path(&self) -> (r: LairResult<Vec<u8>>)
        ensures
            self@.connection_url.scheme == ConnectionScheme::NamedPipe ==> r is Ok && r->Ok_0@
                == self@.connection_url.path,
            self@.connection_url.scheme == ConnectionScheme::Unix && self@.connection_url.path.len()
                > 0 && self@.connection_url.path[0] == 47 ==> r is Ok && r->Ok_0@
                == self@.connection_url.path,
            self@.connection_url.scheme == ConnectionScheme::Unix && !(
            self@.connection_url.path.len() > 0 && self@.connection_url.path[0] == 47) ==> r is Err
                && r->Err_0 == LairError::MalformedLocator,
            self@.connection_url.scheme == ConnectionScheme::Tcp ==> r is Err && r->Err_0
                == LairError::MalformedLocator,
    {
        get_connection_path(&self.connection_url)
    }

    /// The server public key embedded in the connection locator.
    pub fn get_server_pub_key(&self) -> (r: LairResult<BinDataSized<32>>)
        ensures
            match query_k_spec(self@.connection_url.query) {
                Option::None => r is Err && r->Err_0 == LairError::MissingServerPubKey,
                Option::Some(v) => {
                    if is_hex_seq(v) && v.len() == 64 {
                        r is Ok && r->Ok_0@ == unhex(v)
                    } else {
                        r is Err && r->Err_0 == LairError::InvalidServerPubKey
                    }
                },
            },
    {
        get_server_pub_key_from_connection_url(&self.connection_url)
    }
}

/// The connection path of a locator: the filesystem path of a unix locator
/// (which must be absolute), the pipe name of a named-pipe locator. A
/// locator that does not resolve to a usable path is a descriptive error,
/// never a panic.
pub fn get_connection_path(url: &ConnectionUrl) -> (r: LairResult<Vec<u8>>)
    ensures
        url@.scheme == ConnectionScheme::NamedPipe ==> r is Ok && r->Ok_0@ == url@.path,
        url@.scheme == ConnectionScheme::Unix && url@.path.len() > 0 && url@.path[0] == 47 ==> r
            is Ok && r->Ok_0@ == url@.path,
        url@.scheme == ConnectionScheme::Unix && !(url@.path.len() > 0 && url@.path[0] == 47)
            ==> r is Err && r->Err_0 == LairError::MalformedLocator,
        url@.scheme == ConnectionScheme::Tcp ==> r is Err && r->Err_0
            == LairError::MalformedLocator,
{
    let path = url.path_bytes();
    match url.scheme_kind() {
        ConnectionScheme::NamedPipe => Ok(vstd::slice::slice_to_vec(path)),
        ConnectionScheme::Unix => {
            if path.len() > 0 && *vstd::slice::slice_index_get(path, 0) == 47 {
                Ok(vstd::slice::slice_to_vec(path))
            } else {
                Err(LairError::MalformedLocator)
            }
        },
        ConnectionScheme::Tcp => Err(LairError::MalformedLocator),
    }
}

/// Named cost tiers for the memory-hard stretch, the documented libsodium
/// argon2id limits. The tier is an explicit argument of construction, never
/// ambient state.
#[derive(Clone, Copy, Debug, PartialEq, Eq, Structural)]
pub enum PwHashLimits {
    /// Minimum limits, for tests only.
    Minimum,
    /// Low cpu / memory limits.
    Interactive,
    /// Middle cpu / memory limits.
    Moderate,
    /// High cpu / memory limits.
    Sensitive,
}

impl PwHashLimits {
    /// The operation-count limit of this tier.
    pub fn as_ops_limit(&self) -> (r: u32)
        ensures
            self is Minimum ==> r == 1,
            self is Interactive ==> r == 2,
            self is Moderate ==> r == 3,
            self is Sensitive ==> r == 4,
    {
        match self {
            PwHashLimits::Minimum => 1,
            PwHashLimits::Interactive => 2,
            PwHashLimits::Moderate => 3,
            PwHashLimits::Sensitive => 4,
        }
    }

    /// The memory limit of this tier, in bytes.
    pub fn as_mem_limit(&self) -> (r: u32)
        ensures
            self is Minimum ==> r == 8192,
            self is Interactive ==> r == 67108864,
            self is Moderate ==> r == 268435456,
            self is Sensitive ==> r == 1073741824,
    {
        match self {
            PwHashLimits::Minimum => 8192,
            PwHashLimits::Interactive => 67108864,
            PwHashLimits::Moderate => 268435456,
            PwHashLimits::Sensitive => 1073741824,
        }
    }
}

/// The passphrase derivation pipeline: pre-hash the passphrase, run the
/// memory-hard stretch over it under the given salt and cost parameters,
/// and fan the result out into the two independent sub-keys (context-key
/// encryption first, identity-seed encryption second).
pub fn derive_sub_keys(
    passphrase: SecureSecretCell,
    salt: &BinDataSized<16>,
    ops_limit: u32,
    mem_limit: u32,
) -> (r: LairResult<(SecureSecretCell, SecureSecretCell)>)
    requires
        salt@.len() == 16,
    ensures
        r is Ok ==> ({
            let keys = r->Ok_0;
            let pre = argon2id32_of(blake2b64_of(passphrase@), salt@, ops_limit, mem_limit);
            &&& keys.0@ == kdf32_of(CTX_KEY_INDEX, ctx_label(), pre)
            &&& keys.1@ == kdf32_of(ID_KEY_INDEX, id_label(), pre)
            &&& keys.0@.len() == 32
            &&& keys.1@.len() == 32
        }),
        ops_limit < 1 || mem_limit < 8192 ==> r is Err,
{
    let mut passphrase = passphrase;
    let mut pw_hash = blake2b64(&mut passphrase)?;
    let mut pre_secret = argon2id32(&mut pw_hash, salt.as_slice(), ops_limit, mem_limit)?;
    let label = ctx_label_exec();
    let ctx_secret = kdf_derive32(CTX_KEY_INDEX, label.as_slice(), &mut pre_secret)?;
    let label = id_label_exec();
    let id_secret = kdf_derive32(ID_KEY_INDEX, label.as_slice(), &mut pre_secret)?;
    Ok((ctx_secret, id_secret))
}

/// Re-derive the public identity key from a decrypted identity seed. The
/// derivation is deterministic: the same seed always yields the same key.
pub fn identity_pub_key_from_seed(seed: &mut SecureSecretCell) -> (r: LairResult<
    BinDataSized<32>,
>)
    requires
        old(seed)@.len() == 32,
    ensures
        final(seed)@ == old(seed)@,
        r is Ok ==> r->Ok_0@ == xsalsa_pk_of(old(seed)@),
{
    let pk = xsalsa_seed_public_key(seed)?;
    match BinDataSized::<32>::from_slice(pk.as_slice()) {
        Ok(k) => Ok(k),
        Err(e) => Err(e),
    }
}

/// Decrypting the identity seed of a freshly constructed record with the
/// sub-key its stored salt and cost parameters derive, then deriving the
/// identity keypair, reproduces exactly the public key embedded in the
/// connection locator.
pub proof fn lemma_pub_key_matches_id_seed(
    root: Seq<u8>,
    pw: Seq<u8>,
    ops: u32,
    mem: u32,
    c: ConfigView,
)
    requires
        new_post(root, pw, ops, mem, c),
    ensures
        ({
            let pre = argon2id32_of(blake2b64_of(pw), c.runtime_secrets_salt, ops, mem);
            let id_key = kdf32_of(ID_KEY_INDEX, id_label(), pre);
            let opened_seed = secret_open(
                id_key,
                c.runtime_secrets_id_seed.0,
                c.runtime_secrets_id_seed.1,
            );
            let embedded = hex_of(xsalsa_pk_of(opened_seed->0));
            opened_seed is Some && query_k_spec(c.connection_url.query) == Some(embedded)
                && is_hex_seq(embedded) && embedded.len() == 64 && unhex(embedded) == xsalsa_pk_of(
                opened_seed->0,
            )
        }),
{
    let pre = argon2id32_of(blake2b64_of(pw), c.runtime_secrets_salt, ops, mem);
    let id_key = kdf32_of(ID_KEY_INDEX, id_label(), pre);
    let opened_seed = secret_open(id_key, c.runtime_secrets_id_seed.0, c.runtime_secrets_id_seed.1);
    let pk = xsalsa_pk_of(opened_seed->0);
    lemma_hex_has_no_separators(pk);
    lemma_query_k_single(hex_of(pk));
    lemma_hex_round_trip(pk);
}

} // verus!

