//! Keys, signatures and digests.

use sha2::Digest;
use vstd::prelude::*;

verus! {

/// What SHA-256 yields on the given bytes.
pub uninterp spec fn sha256_of(data: Seq<u8>) -> Seq<u8>;

/// Whether `sig` is a valid Ed25519 signature of `msg` under the public key `pk`.
pub uninterp spec fn signature_valid(pk: Seq<u8>, msg: Seq<u8>, sig: Seq<u8>) -> bool;

/// The Ed25519 signature of `msg` made with the secret key `sk`.
pub uninterp spec fn signature_of(sk: Seq<u8>, msg: Seq<u8>) -> Seq<u8>;

/// The Ed25519 public key that belongs to the secret key `sk`.
pub uninterp spec fn public_key_of(sk: Seq<u8>) -> Seq<u8>;

/// Relies on sha2::Sha256::digest: a 32-byte digest that depends on the input
/// bytes alone.
#[verifier::external_body]
pub(crate) fn sha256(data: &[u8]) -> (r: Vec<u8>)
    ensures
        r@ == sha256_of(data@),
        r@.len() == 32,
{
    sha2::Sha256::digest(data).to_vec()
}

/// Relies on ed25519_consensus::VerificationKey::verify, after reading the key
/// and the signature from bytes (a malformed key or signature fails).
#[verifier::external_body]
fn ed25519_verify(pk: &[u8], msg: &[u8], sig: &[u8]) -> (r: bool)
    ensures
        r == signature_valid(pk@, msg@, sig@),
{
    let vk = ed25519_consensus::VerificationKey::try_from(pk);
    let s = ed25519_consensus::Signature::try_from(sig);
    match (vk, s) {
        (Ok(vk), Ok(s)) => vk.verify(&s, msg).is_ok(),
        _ => false,
    }
}

/// Relies on ed25519_consensus::SigningKey::sign: a deterministic 64-byte
/// signature of the message under a 32-byte secret key, which
/// VerificationKey::verify accepts under the key's own public key.
#[verifier::external_body]
fn ed25519_sign(sk: &[u8], msg: &[u8]) -> (r: Vec<u8>)
    requires
        sk@.len() == 32,
    ensures
        r@ == signature_of(sk@, msg@),
        r@.len() == 64,
        signature_valid(public_key_of(sk@), msg@, r@),
{
    match ed25519_consensus::SigningKey::try_from(sk) {
        Ok(key) => key.sign(msg).to_bytes().to_vec(),
        Err(_) => Vec::new(),
    }
}

/// Relies on ed25519_consensus::SigningKey::verification_key: the 32-byte
/// public key of a 32-byte secret key.
#[verifier::external_body]
fn ed25519_public_key(sk: &[u8]) -> (r: Vec<u8>)
    requires
        sk@.len() == 32,
    ensures
        r@ == public_key_of(sk@),
        r@.len() == 32,
{
    match ed25519_consensus::SigningKey::try_from(sk) {
        Ok(key) => key.verification_key().to_bytes().to_vec(),
        Err(_) => Vec::new(),
    }
}

/// An Ed25519 public key, as its bytes.
#[derive(Debug, PartialEq, Eq)]
pub struct PublicKey {
    pub bytes: Vec<u8>,
}

/// An Ed25519 secret key, as its 32 bytes.
#[derive(Debug, PartialEq, Eq)]
pub struct SecretKey {
    pub bytes: Vec<u8>,
}

/// An Ed25519 signature, as its bytes.
#[derive(Debug, PartialEq, Eq)]
pub struct Signature {
    pub bytes: Vec<u8>,
}

impl View for PublicKey {
    type V = Seq<u8>;

    open spec fn view(&self) -> Seq<u8> {
        self.bytes@
    }
}

impl View for SecretKey {
    type V = Seq<u8>;

    open spec fn view(&self) -> Seq<u8> {
        self.bytes@
    }
}

impl View for Signature {
    type V = Seq<u8>;

    open spec fn view(&self) -> Seq<u8> {
        self.bytes@
    }
}

impl Clone for PublicKey {
    fn clone(&self) -> (r: Self)
        ensures
            r@ == self@,
    {
        PublicKey { bytes: self.bytes.clone() }
    }
}

impl Clone for SecretKey {
    fn clone(&self) -> (r: Self)
        ensures
            r@ == self@,
    {
        SecretKey { bytes: self.bytes.clone() }
    }
}

impl Clone for Signature {
    fn clone(&self) -> (r: Self)
        ensures
            r@ == self@,
    {
        Signature { bytes: self.bytes.clone() }
    }
}

/// Whether two byte strings are equal.
pub fn bytes_eq(a: &[u8], b: &[u8]) -> (r: bool)
    ensures
        r == (a@ == b@),
{
    if a.len() != b.len() {
        return false;
    }
    let mut i: usize = 0;
    while i < a.len()
        invariant
            a@.len() == b@.len(),
            i <= a@.len(),
            forall|j: int| 0 <= j < i ==> a@[j] == b@[j],
        decreases a@.len() - i,
    {
        if a[i] != b[i] {
            return false;
        }
        i = i + 1;
    }
    assert(a@ =~= b@);
    true
}

impl PublicKey {
    /// Whether this key has the same bytes as `other`.
    pub fn same_as(&self, other: &PublicKey) -> (r: bool)
        ensures
            r == (self@ == other@),
    {
        bytes_eq(self.bytes.as_slice(), other.bytes.as_slice())
    }
}

impl SecretKey {
    /// A usable secret key is 32 bytes long.
    pub open spec fn wf(&self) -> bool {
        self@.len() == 32
    }

    /// The public key that belongs to this secret key.
    pub fn ref_to(&self) -> (r: PublicKey)
        requires
            self.wf(),
        ensures
            r@ == public_key_of(self@),
    {
        PublicKey { bytes: ed25519_public_key(self.bytes.as_slice()) }
    }

    /// Sign `msg` with this key.
    pub fn sign(&self, msg: &[u8]) -> (r: Signature)
        requires
            self.wf(),
        ensures
            r@ == signature_of(self@, msg@),
            signature_valid(public_key_of(self@), msg@, r@),
    {
        Signature { bytes: ed25519_sign(self.bytes.as_slice(), msg) }
    }
}

/// Whether `sig` is a valid signature of `msg` under `pk`.
pub fn verify_signature(pk: &PublicKey, msg: &[u8], sig: &Signature) -> (r: bool)
    ensures
        r == signature_valid(pk@, msg@, sig@),
{
    ed25519_verify(pk.bytes.as_slice(), msg, sig.bytes.as_slice())
}

} // verus!
