//! Typed fixed-length public byte buffers and fixed-length encrypted secret
//! buffers.

use vstd::prelude::*;

use crate::err::LairError;
use crate::err::LairResult;
use crate::hex::hex_of;
use crate::hex::is_hex_seq;
use crate::hex::unhex;
use crate::hex::bytes_to_hex;
use crate::hex::hex_to_bytes;
use crate::sodium::SecureSecretCell;
use crate::sodium::secret_open;
use crate::sodium::secretstream_encrypt;
use crate::sodium::secretstream_decrypt;

verus! {

/// An immutable, fixed-length (`N` bytes) public binary value: public keys,
/// salts. Printable as lowercase hex and parseable back, round-trip exact.
#[derive(Clone, Debug, PartialEq, Eq)]
pub struct BinDataSized<const N: usize> {
    data: Vec<u8>,
}

impl<const N: usize> View for BinDataSized<N> {
    type V = Seq<u8>;

    closed spec fn view(&self) -> Seq<u8> {
        self.data@
    }
}

impl<const N: usize> BinDataSized<N> {
    /// Construct from a byte slice; a slice of any other length is rejected
    /// with a size-mismatch error, never truncated or padded.
    pub fn from_slice(data: &[u8]) -> (r: LairResult<Self>)
        ensures
            r is Ok <==> data@.len() == N,
            r is Ok ==> r->Ok_0@ == data@,
            r is Err ==> r->Err_0 == LairError::SizeMismatch,
    {
        if data.len() == N {
            Ok(BinDataSized { data: vstd::slice::slice_to_vec(data) })
        } else {
            Err(LairError::SizeMismatch)
        }
    }

    /// The value's bytes.
    pub fn as_slice(&self) -> (r: &[u8])
        ensures
            r@ == self@,
    {
        self.data.as_slice()
    }

    /// The stable textual encoding of the value.
    pub fn to_hex(&self) -> (r: Vec<u8>)
        ensures
            r@ == hex_of(self@),
    {
        bytes_to_hex(self.data.as_slice())
    }

    /// Parse the textual encoding back; `None` exactly when the text is not
    /// the hex form of an `N`-byte value.
    pub fn from_hex_text(text: &[u8]) -> (r: Option<Self>)
        ensures
            r is Some <==> is_hex_seq(text@) && text@.len() == 2 * N,
            r is Some ==> r->0@ == unhex(text@),
    {
        match hex_to_bytes(text) {
            Some(bytes) => {
                if bytes.len() == N {
                    Some(BinDataSized { data: bytes })
                } else {
                    None
                }
            },
            None => None,
        }
    }
}

/// An immutable, fixed-length ciphertext of an encrypted `N`-byte secret:
/// a 24-byte stream header plus `C` cipher bytes, `C = N + 17` (the AEAD
/// overhead). Created only by `encrypt`; opened only by `decrypt`, so the
/// plaintext never leaves a [`SecureSecretCell`].
#[derive(Clone, Debug, PartialEq, Eq)]
pub struct SecretDataSized<const N: usize, const C: usize> {
    header: Vec<u8>,
    cipher: Vec<u8>,
}

impl<const N: usize, const C: usize> View for SecretDataSized<N, C> {
    type V = (Seq<u8>, Seq<u8>);

    closed spec fn view(&self) -> (Seq<u8>, Seq<u8>) {
        (self.header@, self.cipher@)
    }
}

impl<const N: usize, const C: usize> SecretDataSized<N, C> {
    /// Structural well-formedness: header and cipher have their fixed
    /// lengths, and the ciphertext length is bound to the plaintext length.
    pub open spec fn wf(&self) -> bool {
        self@.0.len() == 24 && self@.1.len() == C && C == N + 17
    }

    /// Encrypt an `N`-byte secret under a 32-byte key. On success the
    /// ciphertext opens back to exactly the plaintext under the same key.
    pub fn encrypt(key: &mut SecureSecretCell, plaintext: &mut SecureSecretCell) -> (r:
        LairResult<Self>)
        requires
            old(key)@.len() == 32,
            old(plaintext)@.len() == N,
            C == N + 17,
        ensures
            final(key)@ == old(key)@,
            final(plaintext)@ == old(plaintext)@,
            r is Ok ==> r->Ok_0.wf() && secret_open(old(key)@, r->Ok_0@.0, r->Ok_0@.1)
                == Some(old(plaintext)@),
    {
        let (header, cipher) = secretstream_encrypt(key, plaintext)?;
        Ok(SecretDataSized { header, cipher })
    }

    /// Decrypt under a 32-byte key; the plaintext is returned only inside a
    /// protected cell, and only when the authentication tag verifies.
    pub fn decrypt(&self, key: &mut SecureSecretCell) -> (r: LairResult<SecureSecretCell>)
        requires
            old(key)@.len() == 32,
            self.wf(),
        ensures
            final(key)@ == old(key)@,
            r is Ok ==> secret_open(old(key)@, self@.0, self@.1) == Some(r->Ok_0@)
                && r->Ok_0@.len() == N,
            secret_open(old(key)@, self@.0, self@.1) is None ==> r is Err,
    {
        secretstream_decrypt(key, self.header.as_slice(), self.cipher.as_slice())
    }

    /// Rebuild from a header and a cipher, for parsing the persisted form;
    /// wrong lengths are rejected with a size-mismatch error.
    pub fn from_parts(header: Vec<u8>, cipher: Vec<u8>) -> (r: LairResult<Self>)
        ensures
            r is Ok <==> header@.len() == 24 && cipher@.len() == C && C == N + 17,
            r is Ok ==> r->Ok_0@ == (header@, cipher@) && r->Ok_0.wf(),
            r is Err ==> r->Err_0 == LairError::SizeMismatch,
    {
        if header.len() == 24 && cipher.len() == C && C >= 17 && C - 17 == N {
            Ok(SecretDataSized { header, cipher })
        } else {
            Err(LairError::SizeMismatch)
        }
    }

    /// The stable textual encoding of the persisted form: the hex of the
    /// header followed by the hex of the cipher.
    pub fn to_hex(&self) -> (r: Vec<u8>)
        ensures
            r@ == hex_of(self@.0 + self@.1),
    {
        let mut joined = vstd::slice::slice_to_vec(self.header.as_slice());
        joined.extend_from_slice(self.cipher.as_slice());
        bytes_to_hex(joined.as_slice())
    }
}

} // verus!
