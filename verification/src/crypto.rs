//! Hashing and signatures: SHA-256 digests and Ed25519 keys.
//!
//! The primitives themselves are computed by the `sha2` and `ed25519-dalek`
//! crates. Each is reached through one small function whose contract is
//! taken on trust; everything else in this module is verified against them.
use vstd::prelude::*;

verus! {

/// Number of bytes in a digest.
pub const HASH_LENGTH: usize = 32;

/// Number of bytes in a public key.
pub const PUBLIC_KEY_LENGTH: usize = 32;

/// Number of bytes in the seed a secret key is made of.
pub const SECRET_KEY_LENGTH: usize = 32;

/// Number of bytes in a detached signature.
pub const SIGNATURE_LENGTH: usize = 64;

/// The SHA-256 digest of a byte string.
pub uninterp spec fn sha256(data: Seq<u8>) -> Seq<u8>;

/// The Ed25519 public key that belongs to a 32-byte secret seed.
pub uninterp spec fn ed25519_public(seed: Seq<u8>) -> Seq<u8>;

/// The Ed25519 signature that a secret seed produces over a message.
pub uninterp spec fn ed25519_signature(seed: Seq<u8>, message: Seq<u8>) -> Seq<u8>;

/// Whether `signature` is accepted as an Ed25519 signature over `message`
/// under the public key `public`.
pub uninterp spec fn ed25519_valid(public: Seq<u8>, message: Seq<u8>, signature: Seq<u8>) -> bool;

/// Calls `sha2::Sha256::digest`. Trusted: the result is the SHA-256 digest
/// of `data`, a function of the input bytes alone.
#[verifier::external_body]
fn sha256_digest(data: &[u8]) -> (out: [u8; 32])
    ensures
        out@ == sha256(data@),
{
    <sha2::Sha256 as sha2::Digest>::digest(data).into()
}

/// Calls `ed25519_dalek::SigningKey::from_bytes` and `verifying_key`.
/// Trusted: the result is the public key derived from the seed, a function
/// of the seed alone.
#[verifier::external_body]
fn ed25519_derive_public(seed: &[u8; 32]) -> (out: [u8; 32])
    ensures
        out@ == ed25519_public(seed@),
{
    ed25519_dalek::SigningKey::from_bytes(seed).verifying_key().to_bytes()
}

/// Calls `ed25519_dalek::Signer::sign` on the key made from `seed`.
/// Trusted: signing is deterministic, and the signature it returns is one
/// that verification accepts under the public key of the same seed.
#[verifier::external_body]
fn ed25519_sign(seed: &[u8; 32], message: &[u8]) -> (out: [u8; 64])
    ensures
        out@ == ed25519_signature(seed@, message@),
        ed25519_valid(ed25519_public(seed@), message@, out@),
{
    let key = ed25519_dalek::SigningKey::from_bytes(seed);
    ed25519_dalek::Signer::sign(&key, message).to_bytes()
}

/// Calls `ed25519_dalek::VerifyingKey::from_bytes`,
/// `ed25519_dalek::Signature::from_slice` and `ed25519_dalek::Verifier::verify`.
/// Trusted: the verdict is a function of the three byte strings alone, and
/// nothing but a 64-byte signature is ever accepted.
#[verifier::external_body]
fn ed25519_verify(public: &[u8; 32], message: &[u8], signature: &[u8]) -> (ok: bool)
    ensures
        ok == ed25519_valid(public@, message@, signature@),
        ok ==> signature@.len() == 64,
{
    match (
        ed25519_dalek::VerifyingKey::from_bytes(public),
        ed25519_dalek::Signature::from_slice(signature),
    ) {
        (Ok(key), Ok(sig)) => ed25519_dalek::Verifier::verify(&key, message, &sig).is_ok(),
        _ => false,
    }
}

/// Copies a 32-byte array into a vector.
fn bytes32_to_vec(bytes: &[u8; 32]) -> (out: Vec<u8>)
    ensures
        out@ == bytes@,
{
    let mut out: Vec<u8> = Vec::new();
    let mut i: usize = 0;
    while i < 32
        invariant
            i <= 32,
            out@ == bytes@.subrange(0, i as int),
        decreases 32 - i,
    {
        out.push(bytes[i]);
        i = i + 1;
    }
    out
}

/// Whether two 32-byte arrays hold the same bytes.
fn bytes32_eq(a: &[u8; 32], b: &[u8; 32]) -> (same: bool)
    ensures
        same == (a@ == b@),
{
    let mut i: usize = 0;
    while i < 32
        invariant
            i <= 32,
            a@.subrange(0, i as int) == b@.subrange(0, i as int),
        decreases 32 - i,
    {
        if a[i] != b[i] {
            assert(a@[i as int] != b@[i as int]);
            return false;
        }
        assert(a@.subrange(0, i + 1) == a@.subrange(0, i as int).push(a@[i as int]));
        assert(b@.subrange(0, i + 1) == b@.subrange(0, i as int).push(b@[i as int]));
        i = i + 1;
    }
    assert(a@ == a@.subrange(0, 32));
    assert(b@ == b@.subrange(0, 32));
    true
}

/// Reads 32 bytes of a slice into an array.
fn bytes32_from_slice(bytes: &[u8]) -> (out: [u8; 32])
    requires
        bytes@.len() == 32,
    ensures
        out@ == bytes@,
{
    let mut out: [u8; 32] = [0u8; 32];
    let mut i: usize = 0;
    while i < 32
        invariant
            i <= 32,
            bytes@.len() == 32,
            forall|j: int| 0 <= j < i ==> out@[j] == bytes@[j],
        decreases 32 - i,
    {
        out[i] = bytes[i];
        i = i + 1;
    }
    assert(out@ =~= bytes@);
    out
}

/// A 32-byte SHA-256 digest. It names a transaction for signing and a key
/// in the store.
#[derive(Clone, Copy, Debug)]
pub struct Digest {
    bytes: [u8; 32],
}

impl View for Digest {
    type V = Seq<u8>;

    closed spec fn view(&self) -> Seq<u8> {
        self.bytes@
    }
}

impl Digest {
    /// Wrap 32 bytes as a digest.
    pub fn new(bytes: [u8; 32]) -> (h: Digest)
        ensures
            h@ == bytes@,
    {
        Digest { bytes }
    }

    /// Read a digest from a slice; nothing unless it holds exactly 32 bytes.
    pub fn from_slice(bytes: &[u8]) -> (r: Option<Digest>)
        ensures
            r.is_some() == (bytes@.len() == 32),
            r.is_some() ==> r.unwrap()@ == bytes@,
    {
        if bytes.len() == 32 {
            Some(Digest { bytes: bytes32_from_slice(bytes) })
        } else {
            None
        }
    }

    /// The digest's bytes.
    pub fn to_vec(&self) -> (out: Vec<u8>)
        ensures
            out@ == self@,
            out@.len() == 32,
    {
        bytes32_to_vec(&self.bytes)
    }

    /// Whether two digests hold the same bytes.
    pub fn same(&self, other: &Digest) -> (r: bool)
        ensures
            r == (self@ == other@),
    {
        bytes32_eq(&self.bytes, &other.bytes)
    }

    /// The same 32 bytes as an account address.
    pub fn to_address(&self) -> (a: crate::account_address::AccountAddress)
        ensures
            a@ == self@,
    {
        crate::account_address::AccountAddress::new(self.bytes)
    }

    /// Every digest is 32 bytes long.
    pub proof fn lemma_len(self)
        ensures
            self@.len() == 32,
    {
    }
}

/// An Ed25519 public key.
#[derive(Clone, Copy, Debug, PartialEq, Eq)]
pub struct PublicKey {
    bytes: [u8; 32],
}

impl View for PublicKey {
    type V = Seq<u8>;

    closed spec fn view(&self) -> Seq<u8> {
        self.bytes@
    }
}

impl PublicKey {
    /// Wrap 32 bytes as a public key.
    pub fn new(bytes: [u8; 32]) -> (k: PublicKey)
        ensures
            k@ == bytes@,
    {
        PublicKey { bytes }
    }

    /// Read a public key from a slice; nothing unless it holds exactly 32
    /// bytes.
    pub fn from_slice(bytes: &[u8]) -> (r: Option<PublicKey>)
        ensures
            r.is_some() == (bytes@.len() == 32),
            r.is_some() ==> r.unwrap()@ == bytes@,
    {
        if bytes.len() == 32 {
            Some(PublicKey { bytes: bytes32_from_slice(bytes) })
        } else {
            None
        }
    }

    /// The key's 32 bytes.
    pub fn as_bytes(&self) -> (out: [u8; 32])
        ensures
            out@ == self@,
    {
        self.bytes
    }

    /// The key's bytes as a vector.
    pub fn to_vec(&self) -> (out: Vec<u8>)
        ensures
            out@ == self@,
            out@.len() == 32,
    {
        bytes32_to_vec(&self.bytes)
    }
}

/// An Ed25519 secret key, held as the 32-byte seed it is made of.
#[derive(Clone, Debug, PartialEq, Eq)]
pub struct SecretKey {
    seed: [u8; 32],
}

impl View for SecretKey {
    type V = Seq<u8>;

    closed spec fn view(&self) -> Seq<u8> {
        self.seed@
    }
}

impl SecretKey {
    /// The secret key made of a seed.
    pub fn from_seed(seed: [u8; 32]) -> (k: SecretKey)
        ensures
            k@ == seed@,
    {
        SecretKey { seed }
    }

    /// The public key that belongs to this secret key.
    pub fn public_key(&self) -> (k: PublicKey)
        ensures
            k@ == ed25519_public(self@),
    {
        PublicKey { bytes: ed25519_derive_public(&self.seed) }
    }
}

/// The key pair made of a 32-byte seed.
pub fn gen_keypair_from_seed(seed: &Digest) -> (pair: (PublicKey, SecretKey))
    ensures
        pair.1@ == seed@,
        pair.0@ == ed25519_public(seed@),
{
    let secret = SecretKey { seed: seed.bytes };
    (secret.public_key(), secret)
}

/// Sign a message. The signature is 64 bytes long and is accepted by
/// `verify` under the public key of `secret`.
pub fn sign(data: &[u8], secret: &SecretKey) -> (signature: Vec<u8>)
    ensures
        signature@ == ed25519_signature(secret@, data@),
        signature@.len() == 64,
        ed25519_valid(ed25519_public(secret@), data@, signature@),
{
    let raw: [u8; 64] = ed25519_sign(&secret.seed, data);
    let mut out: Vec<u8> = Vec::new();
    let mut i: usize = 0;
    while i < 64
        invariant
            i <= 64,
            out@ == raw@.subrange(0, i as int),
        decreases 64 - i,
    {
        out.push(raw[i]);
        i = i + 1;
    }
    assert(out@ == raw@);
    out
}

/// Whether `signature` is a valid signature over `data` under `public`.
/// Bytes that are not 64 long are never valid.
pub fn verify(signature: &[u8], data: &[u8], public: &PublicKey) -> (ok: bool)
    ensures
        ok == (signature@.len() == 64 && ed25519_valid(public@, data@, signature@)),
{
    if signature.len() != 64 {
        return false;
    }
    ed25519_verify(&public.bytes, data, signature)
}

/// Digest a byte string with SHA-256.
pub fn hash(data: &[u8]) -> (h: Digest)
    ensures
        h@ == sha256(data@),
{
    Digest { bytes: sha256_digest(data) }
}

} // verus!
