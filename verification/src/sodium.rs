//! Secure memory and the trusted boundary to libsodium (via `sodoken`).
//!
//! Every cryptographic primitive the pipeline uses lives behind a small
//! wrapper here. Each wrapper's contract states what the `sodoken` source
//! shows of the call; results that are deterministic functions of the
//! arguments alone are given uninterpreted names so callers can relate
//! values without restating an algorithm.

use vstd::prelude::*;

use crate::err::LairError;
use crate::err::LairResult;

verus! {

#[verifier::external_type_specification]
#[verifier::external_body]
pub struct ExLockedArray(sodoken::LockedArray);

/// The bytes currently held in a locked buffer.
pub uninterp spec fn locked_bytes(a: sodoken::LockedArray) -> Seq<u8>;

/// The 64-byte unkeyed blake2b hash of a message.
pub uninterp spec fn blake2b64_of(message: Seq<u8>) -> Seq<u8>;

/// The 32-byte argon2id hash of a passphrase under a 16-byte salt and the
/// given cost parameters.
pub uninterp spec fn argon2id32_of(
    passphrase: Seq<u8>,
    salt: Seq<u8>,
    ops_limit: u32,
    mem_limit: u32,
) -> Seq<u8>;

/// The 32-byte sub-key derived from a parent key under a numeric index and
/// an 8-byte domain-separation label.
pub uninterp spec fn kdf32_of(index: u64, context: Seq<u8>, parent: Seq<u8>) -> Seq<u8>;

/// The public half of the curve25519xsalsa20poly1305 keypair derived
/// deterministically from a 32-byte seed.
pub uninterp spec fn xsalsa_pk_of(seed: Seq<u8>) -> Seq<u8>;

/// What authenticated secretstream decryption returns for a key, header and
/// cipher: the plaintext when the authentication tag verifies, nothing
/// otherwise.
pub uninterp spec fn secret_open(key: Seq<u8>, header: Seq<u8>, cipher: Seq<u8>) -> Option<
    Seq<u8>,
>;

/// A fixed-size, in-memory container for sensitive byte material. The
/// backing buffer is allocated by libsodium: excluded from swap and core
/// dumps where the platform allows, and overwritten with zeros on release.
/// The contents never leave the cell except through the cryptographic
/// operations below.
pub struct SecureSecretCell {
    inner: sodoken::LockedArray,
}

impl View for SecureSecretCell {
    type V = Seq<u8>;

    closed spec fn view(&self) -> Seq<u8> {
        locked_bytes(self.inner)
    }
}

/// Move plain bytes into locked memory.
///
/// Relies on sodoken::LockedArray::new (zero-filled locked allocation)
/// and the guard of sodoken::LockedArray::lock to copy the bytes in;
/// the unprotected source is overwritten with zeros before it is freed.
#[verifier::external_body]
fn locked_from_vec(data: Vec<u8>) -> (r: LairResult<sodoken::LockedArray>)
    ensures
        r is Ok ==> locked_bytes(r->Ok_0) == data@,
{
    let mut data = data;
    match sodoken::LockedArray::new(data.len()) {
        Ok(mut la) => {
            la.lock().copy_from_slice(&data);
            data.as_mut_slice().fill(0);
            Ok(la)
        },
        Err(_) => Err(LairError::Allocation),
    }
}

impl SecureSecretCell {
    /// Move plain bytes into protected memory; the unprotected source is
    /// zeroed before release. Allocation failure is surfaced, never ignored.
    pub fn from_vec(data: Vec<u8>) -> (r: LairResult<SecureSecretCell>)
        ensures
            r is Ok ==> r->Ok_0@ == data@,
    {
        match locked_from_vec(data) {
            Ok(la) => Ok(SecureSecretCell { inner: la }),
            Err(e) => Err(e),
        }
    }

    /// Fill a fresh cell with cryptographically secure randomness.
    ///
    /// Relies on sodoken::LockedArray::new and
    /// sodoken::random::randombytes_buf; nothing is assumed of the random
    /// bytes beyond their count.
    #[verifier::external_body]
    pub(crate) fn random(len: usize) -> (r: LairResult<SecureSecretCell>)
        ensures
            r is Ok ==> r->Ok_0@.len() == len,
    {
        match sodoken::LockedArray::new(len) {
            Ok(mut la) => {
                let filled = sodoken::random::randombytes_buf(&mut la.lock()).is_ok();
                if filled {
                    Ok(SecureSecretCell { inner: la })
                } else {
                    Err(LairError::Randomness)
                }
            },
            Err(_) => Err(LairError::Allocation),
        }
    }
}

/// Fill a plain buffer with cryptographically secure randomness.
///
/// Relies on sodoken::random::randombytes_buf, which per its source acts on
/// the already-allocated buffer and cannot fail.
#[verifier::external_body]
pub(crate) fn random_bytes(len: usize) -> (r: Vec<u8>)
    ensures
        r@.len() == len,
{
    let mut buf = vec![0u8; len];
    let _ = sodoken::random::randombytes_buf(&mut buf);
    buf
}

/// Pre-hash arbitrary-length secret material into a fixed 64-byte value.
///
/// Relies on sodoken::blake2b::blake2b_hash (unkeyed): the hash is a
/// function of the message bytes alone.
#[verifier::external_body]
pub(crate) fn blake2b64(message: &mut SecureSecretCell) -> (r: LairResult<SecureSecretCell>)
    ensures
        final(message)@ == old(message)@,
        r is Ok ==> r->Ok_0@ == blake2b64_of(old(message)@) && r->Ok_0@.len() == 64,
{
    let mut out = sodoken::LockedArray::new(64).map_err(|_| LairError::Allocation)?;
    sodoken::blake2b::blake2b_hash(&mut out.lock(), &message.inner.lock(), None).map_err(|_| LairError::Derivation)?;
    Ok(SecureSecretCell { inner: out })
}

/// Memory-hard, time-hard stretch of a pre-hashed passphrase.
///
/// Relies on sodoken::argon2::blocking_argon2id: the 32-byte result is a
/// function of the passphrase bytes, the 16-byte salt, and the two cost
/// parameters alone; its source rejects an operation count below one or a
/// memory limit below 8192 bytes before calling libsodium.
#[verifier::external_body]
pub(crate) fn argon2id32(
    passphrase: &mut SecureSecretCell,
    salt: &[u8],
    ops_limit: u32,
    mem_limit: u32,
) -> (r: LairResult<SecureSecretCell>)
    requires
        salt@.len() == 16,
    ensures
        final(passphrase)@ == old(passphrase)@,
        r is Ok ==> r->Ok_0@ == argon2id32_of(old(passphrase)@, salt@, ops_limit, mem_limit)
            && r->Ok_0@.len() == 32,
        ops_limit < 1 || mem_limit < 8192 ==> r is Err,
{
    let salt: &[u8; 16] = salt.try_into().map_err(|_| LairError::SizeMismatch)?;
    let mut out = sodoken::LockedArray::new(32).map_err(|_| LairError::Allocation)?;
    sodoken::argon2::blocking_argon2id(&mut out.lock(), &passphrase.inner.lock(), salt, ops_limit, mem_limit)
        .map_err(|_| LairError::Derivation)?;
    Ok(SecureSecretCell { inner: out })
}

/// Derive an independent 32-byte sub-key from a 32-byte parent key.
///
/// Relies on sodoken::kdf::derive_from_key: the sub-key is a function of the
/// index, the 8-byte domain-separation label, and the parent key alone.
#[verifier::external_body]
pub(crate) fn kdf_derive32(
    index: u64,
    context: &[u8],
    parent: &mut SecureSecretCell,
) -> (r: LairResult<SecureSecretCell>)
    requires
        context@.len() == 8,
        old(parent)@.len() == 32,
    ensures
        final(parent)@ == old(parent)@,
        r is Ok ==> r->Ok_0@ == kdf32_of(index, context@, old(parent)@) && r->Ok_0@.len() == 32,
{
    let context: &[u8; 8] = context.try_into().map_err(|_| LairError::SizeMismatch)?;
    let mut out = sodoken::LockedArray::new(32).map_err(|_| LairError::Allocation)?;
    {
        let parent_guard = parent.inner.lock();
        let parent_key: &[u8; 32] = (&*parent_guard).try_into().map_err(|_| LairError::SizeMismatch)?;
        sodoken::kdf::derive_from_key(&mut out.lock(), index, context, parent_key).map_err(|_| LairError::Derivation)?;
    }
    Ok(SecureSecretCell { inner: out })
}

/// Derive the public half of the identity keypair from a 32-byte seed.
///
/// Relies on sodoken::crypto_box::xsalsa_seed_keypair: the keypair is a
/// deterministic function of the seed. Only the public half leaves; the
/// secret half stays in a locked buffer that is zeroed when dropped here.
#[verifier::external_body]
pub(crate) fn xsalsa_seed_public_key(seed: &mut SecureSecretCell) -> (r: LairResult<Vec<u8>>)
    requires
        old(seed)@.len() == 32,
    ensures
        final(seed)@ == old(seed)@,
        r is Ok ==> r->Ok_0@ == xsalsa_pk_of(old(seed)@) && r->Ok_0@.len() == 32,
{
    let mut pub_key = [0u8; 32];
    let mut sec_key = sodoken::LockedArray::new(32).map_err(|_| LairError::Allocation)?;
    {
        let seed_guard = seed.inner.lock();
        let seed_arr: &[u8; 32] = (&*seed_guard).try_into().map_err(|_| LairError::SizeMismatch)?;
        let mut sec_guard = sec_key.lock();
        let sec_arr: &mut [u8; 32] = (&mut *sec_guard).try_into().map_err(|_| LairError::SizeMismatch)?;
        sodoken::crypto_box::xsalsa_seed_keypair(&mut pub_key, sec_arr, seed_arr).map_err(|_| LairError::Derivation)?;
    }
    Ok(pub_key.to_vec())
}

/// Encrypt one message under a 32-byte key as a single-message secretstream.
///
/// Relies on sodoken::secretstream::init_push and push: libsodium picks the
/// 24-byte header, the cipher is the message length plus a 17-byte
/// authentication overhead, and pulling the cipher back with the same key
/// and header yields the message again.
#[verifier::external_body]
pub(crate) fn secretstream_encrypt(
    key: &mut SecureSecretCell,
    message: &mut SecureSecretCell,
) -> (r: LairResult<(Vec<u8>, Vec<u8>)>)
    requires
        old(key)@.len() == 32,
    ensures
        final(key)@ == old(key)@,
        final(message)@ == old(message)@,
        r is Ok ==> r->Ok_0.0@.len() == 24 && r->Ok_0.1@.len() == old(message)@.len() + 17
            && secret_open(old(key)@, r->Ok_0.0@, r->Ok_0.1@) == Some(old(message)@),
{
    let mut state = sodoken::secretstream::State::default();
    let mut header = [0u8; 24];
    let message_guard = message.inner.lock();
    let mut cipher = vec![0u8; message_guard.len() + 17];
    {
        let key_guard = key.inner.lock();
        let key_arr: &[u8; 32] = (&*key_guard).try_into().map_err(|_| LairError::SizeMismatch)?;
        sodoken::secretstream::init_push(&mut state, &mut header, key_arr).map_err(|_| LairError::Encryption)?;
    }
    let tag = sodoken::secretstream::Tag::Final;
    sodoken::secretstream::push(&mut state, &mut cipher, &message_guard, None, tag).map_err(|_| LairError::Encryption)?;
    Ok((header.to_vec(), cipher))
}

/// Decrypt a single-message secretstream under a 32-byte key.
///
/// Relies on sodoken::secretstream::init_pull and pull: decryption is a
/// function of key, header and cipher alone, and the plaintext is released
/// only when the authentication tag verifies.
#[verifier::external_body]
pub(crate) fn secretstream_decrypt(
    key: &mut SecureSecretCell,
    header: &[u8],
    cipher: &[u8],
) -> (r: LairResult<SecureSecretCell>)
    requires
        old(key)@.len() == 32,
        header@.len() == 24,
        cipher@.len() >= 17,
    ensures
        final(key)@ == old(key)@,
        r is Ok ==> secret_open(old(key)@, header@, cipher@) == Some(r->Ok_0@) && r->Ok_0@.len()
            + 17 == cipher@.len(),
        secret_open(old(key)@, header@, cipher@) is None ==> r is Err,
{
    let mut state = sodoken::secretstream::State::default();
    let header: &[u8; 24] = header.try_into().map_err(|_| LairError::SizeMismatch)?;
    {
        let key_guard = key.inner.lock();
        let key_arr: &[u8; 32] = (&*key_guard).try_into().map_err(|_| LairError::SizeMismatch)?;
        sodoken::secretstream::init_pull(&mut state, header, key_arr).map_err(|_| LairError::Decryption)?;
    }
    let mut out = sodoken::LockedArray::new(cipher.len() - 17).map_err(|_| LairError::Allocation)?;
    sodoken::secretstream::pull(&mut state, &mut out.lock(), cipher, None).map_err(|_| LairError::Decryption)?;
    Ok(SecureSecretCell { inner: out })
}

} // verus!
