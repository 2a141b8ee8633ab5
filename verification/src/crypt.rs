//! Key exchange and symmetric payload encryption.
//!
//! Key pairs are Curve25519 Diffie-Hellman pairs; a key, public or private, is
//! held as its 32 bytes.  Payloads are encrypted with AES-256 in CBC mode
//! under PKCS#7 padding, with a fresh random 16-byte initialization vector
//! appended after the ciphertext.

use crate::codec::{clone_bytes, copy_range, copy_tail, push_bytes};
use crypto::buffer::{ReadBuffer, RefReadBuffer, RefWriteBuffer, WriteBuffer};
use crypto::symmetriccipher::{Decryptor, Encryptor};
use vstd::prelude::*;

verus! {

/// Error from the symmetric cipher.
#[derive(Debug, Clone, Copy, PartialEq, Eq, Structural)]
pub enum CryptoError {
    /// The key handed to decryption is not exactly 32 bytes.
    InvalidKeyLength,
    /// The blob handed to decryption is shorter than one initialization
    /// vector, so no ciphertext can be split off it.
    CiphertextTooShort,
    /// The ciphertext does not decrypt to validly padded data under this key.
    InvalidCiphertext,
}

/// The x25519 public key derived from the 32 private-key bytes.
pub uninterp spec fn public_of(secret: Seq<u8>) -> Seq<u8>;

/// The x25519 shared secret derived from one's own 32 private-key bytes and
/// the peer's 32 public-key bytes.
pub uninterp spec fn shared_of(secret: Seq<u8>, public: Seq<u8>) -> Seq<u8>;

/// The raw AES-256-CBC encryption (no padding handling) of a block-aligned
/// `plain` under `key` and `iv`: as many bytes as came in.
pub uninterp spec fn cbc_encrypt_raw_of(plain: Seq<u8>, key: Seq<u8>, iv: Seq<u8>) -> Seq<u8>;

/// The raw AES-256-CBC decryption (no padding handling) of a block-aligned
/// `data` under `key` and `iv`: as many bytes as came in.
pub uninterp spec fn cbc_decrypt_raw_of(data: Seq<u8>, key: Seq<u8>, iv: Seq<u8>) -> Seq<u8>;

/// The PKCS#7 padding appended to a plaintext of length `len`: `n` copies of
/// the byte `n`, where `n` fills the plaintext up to the next block boundary
/// (a whole block when the plaintext is already aligned).
pub open spec fn spec_pkcs7_pad(len: int) -> Seq<u8> {
    let n = 16 - (len % 16);
    Seq::new(n as nat, |i: int| n as u8)
}

/// Strict PKCS#7 validation and stripping: the last byte `n` must be in
/// 1..=16, the block must end in `n` copies of `n`, and exactly those are
/// removed; anything else (including a trailing zero) is invalid.
pub open spec fn spec_pkcs7_strip(b: Seq<u8>) -> Option<Seq<u8>> {
    if b.len() == 0 {
        None
    } else {
        let n = b.last();
        if 1 <= n <= 16 && n <= b.len() && (forall|i: int|
            b.len() - n <= i < b.len() ==> b[i] == n) {
            Some(b.subrange(0, b.len() - n))
        } else {
            None
        }
    }
}

/// The AES-256-CBC/PKCS#7 ciphertext of `plain` under `key` and `iv`: the
/// raw block encryption of the plaintext with its padding appended.
pub open spec fn cbc_encrypt_of(plain: Seq<u8>, key: Seq<u8>, iv: Seq<u8>) -> Seq<u8> {
    cbc_encrypt_raw_of(plain + spec_pkcs7_pad(plain.len() as int), key, iv)
}

/// The AES-256-CBC/PKCS#7 decryption of `data` under `key` and `iv`: the raw
/// block decryption with the padding validated and stripped, or `None` where
/// the data is not block-aligned or the padding comes out invalid.
pub open spec fn cbc_decrypt_of(data: Seq<u8>, key: Seq<u8>, iv: Seq<u8>) -> Option<Seq<u8>> {
    if data.len() % 16 == 0 {
        spec_pkcs7_strip(cbc_decrypt_raw_of(data, key, iv))
    } else {
        None
    }
}

/// Stripping the padding that `spec_pkcs7_pad` appended recovers the
/// plaintext exactly.
pub proof fn lemma_pkcs7_pad_strip(p: Seq<u8>)
    ensures
        spec_pkcs7_strip(p + spec_pkcs7_pad(p.len() as int)) == Some(p),
{
    let n = 16 - (p.len() % 16);
    let pad = spec_pkcs7_pad(p.len() as int);
    let b = p + pad;
    assert(pad.len() == n);
    assert(b.last() == n as u8);
    assert forall|i: int| b.len() - n <= i < b.len() implies b[i] == n as u8 by {
        assert(b[i] == pad[i - p.len()]);
    }
    assert(b.subrange(0, b.len() - n) =~= p);
}

/// An x25519 private key, held as its 32 bytes.
pub struct PrivateKey {
    pub bytes: Vec<u8>,
}

impl PrivateKey {
    /// A private key is exactly 32 bytes.
    pub open spec fn wf(&self) -> bool {
        self.bytes@.len() == 32
    }
}

/// An x25519 public key, held as its 32 bytes.
pub struct PublicKey {
    pub bytes: Vec<u8>,
}

impl PublicKey {
    /// A public key is exactly 32 bytes.
    pub open spec fn wf(&self) -> bool {
        self.bytes@.len() == 32
    }
}

/// Relies on `x25519_dalek::StaticSecret::random_from_rng` with the OS RNG:
/// a fresh 32-byte private key.
#[verifier::external_body]
fn x25519_fresh_secret() -> (r: Vec<u8>)
    ensures
        r@.len() == 32,
{
    x25519_dalek::StaticSecret::random_from_rng(rand_core::OsRng).to_bytes().to_vec()
}

/// Relies on `x25519_dalek::PublicKey::from(&StaticSecret)`: the 32-byte
/// public key is a function of the 32 private-key bytes alone.
#[verifier::external_body]
fn x25519_public(secret: &Vec<u8>) -> (r: Vec<u8>)
    requires
        secret@.len() == 32,
    ensures
        r@ == public_of(secret@),
        r@.len() == 32,
{
    let mut b = [0u8; 32];
    b.copy_from_slice(secret);
    x25519_dalek::PublicKey::from(&x25519_dalek::StaticSecret::from(b)).to_bytes().to_vec()
}

/// Relies on `x25519_dalek::StaticSecret::diffie_hellman`: the 32-byte shared
/// secret is a function of the private-key bytes and the peer's public-key
/// bytes alone, and the two sides of an exchange derive the same secret
/// (as the crate documents with its alice-and-bob example).
#[verifier::external_body]
fn x25519_shared(secret: &Vec<u8>, public: &Vec<u8>) -> (r: Vec<u8>)
    requires
        secret@.len() == 32,
        public@.len() == 32,
    ensures
        r@ == shared_of(secret@, public@),
        r@.len() == 32,
        forall|p: Seq<u8>|
            public@ == #[trigger] public_of(p) ==> r@ == shared_of(p, public_of(secret@)),
{
    let mut s = [0u8; 32];
    s.copy_from_slice(secret);
    let mut p = [0u8; 32];
    p.copy_from_slice(public);
    x25519_dalek::StaticSecret::from(s).diffie_hellman(
        &x25519_dalek::PublicKey::from(p),
    ).to_bytes().to_vec()
}

/// Relies on `rand_core::OsRng::fill_bytes`: 16 fresh random bytes for an
/// initialization vector.
#[verifier::external_body]
fn fresh_iv() -> (r: Vec<u8>)
    ensures
        r@.len() == 16,
{
    let mut iv = [0u8; 16];
    rand_core::RngCore::fill_bytes(&mut rand_core::OsRng, &mut iv);
    iv.to_vec()
}

/// Relies on rust-crypto's AES-256-CBC encryptor with `NoPadding`: on
/// block-aligned input it is total, length-preserving, and a pure function
/// of plaintext, key and IV alone.  The PKCS#7 padding is appended by
/// verified code before the call.
#[verifier::external_body]
fn aes_cbc_encrypt_raw(data: &Vec<u8>, key: &Vec<u8>, iv: &Vec<u8>) -> (r: Vec<u8>)
    requires
        key@.len() == 32,
        iv@.len() == 16,
        data@.len() % 16 == 0,
    ensures
        r@ == cbc_encrypt_raw_of(data@, key@, iv@),
        r@.len() == data@.len(),
{
    let mode = crypto::blockmodes::NoPadding;
    let mut enc = crypto::aes::cbc_encryptor(crypto::aes::KeySize::KeySize256, key, iv, mode);
    let mut out: Vec<u8> = Vec::new();
    let mut rb = RefReadBuffer::new(data);
    let mut buf = [0u8; 4096];
    loop {
        let mut wb = RefWriteBuffer::new(&mut buf);
        let res = enc.encrypt(&mut rb, &mut wb, true);
        out.extend_from_slice(wb.take_read_buffer().take_remaining());
        match res { Ok(crypto::buffer::BufferResult::BufferOverflow) => {}, _ => break }
    }
    out
}

/// Relies on rust-crypto's AES-256-CBC decryptor with `NoPadding`: it is
/// total (succeeds exactly on block-aligned input, a length error otherwise,
/// and never panics since no padding is inspected), its result is a function
/// of ciphertext, key and IV alone, and it inverts the matching raw
/// encryptor on every block-aligned input.  The PKCS#7 padding is validated
/// and stripped by verified code after the call.
#[verifier::external_body]
fn aes_cbc_decrypt_raw(data: &Vec<u8>, key: &Vec<u8>, iv: &Vec<u8>) -> (r: Result<Vec<u8>, CryptoError>)
    requires
        key@.len() == 32,
        iv@.len() == 16,
    ensures
        r is Ok <==> data@.len() % 16 == 0,
        r is Ok ==> (r->Ok_0)@ == cbc_decrypt_raw_of(data@, key@, iv@),
        r is Ok ==> (r->Ok_0)@.len() == data@.len(),
        r matches Err(e) ==> e == CryptoError::InvalidCiphertext,
        forall|q: Seq<u8>| q.len() % 16 == 0 && data@ == #[trigger] cbc_encrypt_raw_of(q, key@, iv@) ==> r is Ok && (r->Ok_0)@ == q,
{
    let mode = crypto::blockmodes::NoPadding;
    let mut dec = crypto::aes::cbc_decryptor(crypto::aes::KeySize::KeySize256, key, iv, mode);
    let mut out: Vec<u8> = Vec::new();
    let mut rb = RefReadBuffer::new(data);
    let mut buf = [0u8; 4096];
    loop {
        let mut wb = RefWriteBuffer::new(&mut buf);
        let res = dec.decrypt(&mut rb, &mut wb, true);
        out.extend_from_slice(wb.take_read_buffer().take_remaining());
        match res { Ok(crypto::buffer::BufferResult::BufferOverflow) => {}, Ok(_) => break, Err(_) => return Err(CryptoError::InvalidCiphertext) }
    }
    Ok(out)
}

/// Validates and strips strict PKCS#7 padding off a decrypted buffer.
fn strip_pkcs7(data: Vec<u8>) -> (r: Result<Vec<u8>, CryptoError>)
    ensures
        r is Ok <==> spec_pkcs7_strip(data@) is Some,
        r matches Ok(p) ==> Some(p@) == spec_pkcs7_strip(data@),
        r matches Err(e) ==> e == CryptoError::InvalidCiphertext,
{
    let len = data.len();
    if len == 0 {
        return Err(CryptoError::InvalidCiphertext);
    }
    let n = data[len - 1];
    if n == 0 || n > 16 || (n as usize) > len {
        return Err(CryptoError::InvalidCiphertext);
    }
    let pad = n as usize;
    let mut i: usize = len - pad;
    while i < len
        invariant
            len == data@.len(),
            1 <= pad <= len,
            n == data@.last(),
            pad == n,
            len - pad <= i <= len,
            forall|j: int| len - pad <= j < i ==> data@[j] == n,
        decreases len - i,
    {
        if data[i] != n {
            return Err(CryptoError::InvalidCiphertext);
        }
        i = i + 1;
    }
    let mut out = data;
    out.truncate(len - pad);
    Ok(out)
}

/// Generates a fresh private key.
pub fn create_private_key() -> (r: PrivateKey)
    ensures
        r.wf(),
{
    PrivateKey { bytes: x25519_fresh_secret() }
}

/// Hands out a private key's bytes.
pub fn serialize_private_key(secret: PrivateKey) -> (r: Vec<u8>)
    ensures
        r@ == secret.bytes@,
{
    secret.bytes
}

/// Rebuilds a private key from its 32 bytes.
pub fn deserialize_private_key(secret: Vec<u8>) -> (r: PrivateKey)
    requires
        secret@.len() == 32,
    ensures
        r.wf(),
        r.bytes@ == secret@,
{
    PrivateKey { bytes: secret }
}

/// Hands out a public key's bytes.
pub fn serialize_public_key(public_key: PublicKey) -> (r: Vec<u8>)
    ensures
        r@ == public_key.bytes@,
{
    public_key.bytes
}

/// Rebuilds a public key from its 32 bytes.
pub fn deserialize_public_key(public_key: Vec<u8>) -> (r: PublicKey)
    requires
        public_key@.len() == 32,
    ensures
        r.wf(),
        r.bytes@ == public_key@,
{
    PublicKey { bytes: public_key }
}

/// Derives the public key of a private key.
pub fn create_public_key(private_key: &PrivateKey) -> (r: PublicKey)
    requires
        private_key.wf(),
    ensures
        r.wf(),
        r.bytes@ == public_of(private_key.bytes@),
{
    PublicKey { bytes: x25519_public(&private_key.bytes) }
}

/// Derives the 32-byte shared secret of one's own private key and the peer's
/// public key.
pub fn create_shared_key(private_key: &PrivateKey, public_key: &PublicKey) -> (r: Vec<u8>)
    requires
        private_key.wf(),
        public_key.wf(),
    ensures
        r@ == shared_of(private_key.bytes@, public_key.bytes@),
        r@.len() == 32,
        forall|p: Seq<u8>|
            public_key.bytes@ == #[trigger] public_of(p) ==> r@ == shared_of(
                p,
                public_of(private_key.bytes@),
            ),
{
    x25519_shared(&private_key.bytes, &public_key.bytes)
}

/// Key-exchange commutativity: for any two key pairs, deriving with one's own
/// private key and the other's public key gives the same shared secret on
/// both sides.
pub fn derive_shared_pair(a: &PrivateKey, b: &PrivateKey) -> (r: (Vec<u8>, Vec<u8>))
    requires
        a.wf(),
        b.wf(),
    ensures
        r.0@ == shared_of(a.bytes@, public_of(b.bytes@)),
        r.1@ == shared_of(b.bytes@, public_of(a.bytes@)),
        r.0@ == r.1@,
{
    let pub_a = create_public_key(a);
    let pub_b = create_public_key(b);
    let s1 = create_shared_key(a, &pub_b);
    let s2 = create_shared_key(b, &pub_a);
    proof {
        assert(pub_b.bytes@ == public_of(b.bytes@));
    }
    (s1, s2)
}

/// Appends strict PKCS#7 padding: `n` copies of the byte `n`, filling the
/// data up to the next block boundary.
fn pad_pkcs7(data: &Vec<u8>) -> (r: Vec<u8>)
    ensures
        r@ == data@ + spec_pkcs7_pad(data@.len() as int),
        r@.len() % 16 == 0,
        r@.len() == (data@.len() / 16 + 1) * 16,
{
    let n = 16 - data.len() % 16;
    let mut out = clone_bytes(data);
    let mut i: usize = 0;
    while i < n
        invariant
            i <= n,
            n == 16 - data@.len() % 16,
            out@ == data@ + spec_pkcs7_pad(data@.len() as int).subrange(0, i as int),
        decreases n - i,
    {
        out.push(n as u8);
        i = i + 1;
        proof {
            assert(data@ + spec_pkcs7_pad(data@.len() as int).subrange(0, i - 1) + seq![
                n as u8,
            ] =~= data@ + spec_pkcs7_pad(data@.len() as int).subrange(0, i as int));
        }
    }
    proof {
        assert(spec_pkcs7_pad(data@.len() as int).subrange(0, n as int) =~= spec_pkcs7_pad(
            data@.len() as int,
        ));
        assert(data@.len() + (16 - data@.len() % 16) == (data@.len() / 16 + 1) * 16)
            by (nonlinear_arith);
        assert(((data@.len() / 16 + 1) * 16) % 16 == 0) by (nonlinear_arith);
    }
    out
}

/// Encrypts `data` under a 32-byte key with a caller-chosen initialization
/// vector, appending the vector after the ciphertext.
pub fn encrypt_data_with_iv(data: &Vec<u8>, key: &Vec<u8>, iv: &Vec<u8>) -> (r: Vec<u8>)
    requires
        key@.len() == 32,
        iv@.len() == 16,
    ensures
        r@ == cbc_encrypt_of(data@, key@, iv@) + iv@,
        r@.len() == (data@.len() / 16 + 1) * 16 + 16,
{
    let padded = pad_pkcs7(data);
    let mut out = aes_cbc_encrypt_raw(&padded, key, iv);
    push_bytes(&mut out, iv);
    out
}

/// Encrypts `data` under a 32-byte key with a fresh random initialization
/// vector, appending the vector after the ciphertext.
pub fn encrypt_data(data: &Vec<u8>, key: &Vec<u8>) -> (r: Vec<u8>)
    requires
        key@.len() == 32,
    ensures
        exists|iv: Seq<u8>|
            iv.len() == 16 && r@ == #[trigger] cbc_encrypt_of(data@, key@, iv) + iv,
        r@.len() == (data@.len() / 16 + 1) * 16 + 16,
{
    let iv = fresh_iv();
    let r = encrypt_data_with_iv(data, key, &iv);
    proof {
        assert(iv@.len() == 16 && r@ == cbc_encrypt_of(data@, key@, iv@) + iv@);
    }
    r
}

/// Splits the trailing 16 bytes off `data` as the initialization vector and
/// decrypts the remainder under `key`.  Decrypting what `encrypt_data`
/// produced under the same key yields the original plaintext; a bad key
/// length, a blob too short to hold a vector, or invalid padding are errors.
pub fn decrypt_data(data: &Vec<u8>, key: &Vec<u8>) -> (r: Result<Vec<u8>, CryptoError>)
    ensures
        key@.len() != 32 ==> r == Err::<Vec<u8>, CryptoError>(CryptoError::InvalidKeyLength),
        key@.len() == 32 && data@.len() < 16 ==> r == Err::<Vec<u8>, CryptoError>(
            CryptoError::CiphertextTooShort,
        ),
        key@.len() == 32 && data@.len() >= 16 ==> {
            let body = data@.subrange(0, data@.len() - 16);
            let iv = data@.subrange(data@.len() - 16, data@.len() as int);
            &&& (r matches Ok(p) ==> cbc_decrypt_of(body, key@, iv) == Some(p@))
            &&& (r is Err ==> r == Err::<Vec<u8>, CryptoError>(CryptoError::InvalidCiphertext)
                && cbc_decrypt_of(body, key@, iv) is None)
            &&& forall|plain: Seq<u8>|
                body == #[trigger] cbc_encrypt_of(plain, key@, iv) ==> (r matches Ok(p) && p@
                    == plain)
        },
{
    if key.len() != 32 {
        return Err(CryptoError::InvalidKeyLength);
    }
    let n = data.len();
    if n < 16 {
        return Err(CryptoError::CiphertextTooShort);
    }
    let body = copy_range(data, 0, n - 16);
    let iv = copy_tail(data, n - 16);
    let raw = aes_cbc_decrypt_raw(&body, key, &iv);
    match raw {
        Err(e) => Err(e),
        Ok(rawv) => {
            let stripped = strip_pkcs7(rawv);
            proof {
                assert forall|plain: Seq<u8>|
                    body@ == #[trigger] cbc_encrypt_of(plain, key@, iv@) implies stripped
                    is Ok && (stripped->Ok_0)@ == plain by {
                    let q = plain + spec_pkcs7_pad(plain.len() as int);
                    assert(q.len() == plain.len() + (16 - plain.len() % 16));
                    assert(plain.len() + (16 - plain.len() % 16) == (plain.len() / 16 + 1)
                        * 16) by (nonlinear_arith);
                    assert((((plain.len() / 16 + 1) * 16) % 16) == 0) by (nonlinear_arith);
                    assert(body@ == cbc_encrypt_raw_of(q, key@, iv@));
                    lemma_pkcs7_pad_strip(plain);
                }
            }
            match stripped {
                Ok(p) => Ok(p),
                Err(e) => Err(e),
            }
        },
    }
}

} // verus!
