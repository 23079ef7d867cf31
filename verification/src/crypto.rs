//! Digests, keypairs and signatures. The cryptographic primitives
//! themselves (SHA-256 and Ed25519) are supplied by outside crates behind
//! the trusted wrappers at the bottom of this file; everything above them
//! is verified against the names those wrappers give to the primitives'
//! results.

use vstd::prelude::*;

use ed25519_dalek::Signer;
use ed25519_dalek::Verifier;
use sha2::Digest;

verus! {

use crate::SigningError;
use crate::VerificationError;

/// The width, in bytes, of every digest in the system.
pub const DIGEST_WIDTH: usize = 32;

/// The digest that SHA-256 computes for the given bytes. The result
/// depends on the bytes alone; its statement is the primitive itself, so
/// it is only named here.
pub uninterp spec fn digest_of(bytes: Seq<u8>) -> Seq<u8>;

/// The Ed25519 public key derived from a 32-byte secret key.
pub uninterp spec fn pubkey_of(secret: Seq<u8>) -> Seq<u8>;

/// Whether Ed25519 accepts `sig` as a signature on `msg` under `pubkey`.
pub uninterp spec fn ed25519_verifies(msg: Seq<u8>, sig: Seq<u8>, pubkey: Seq<u8>) -> bool;

/// The all-zero digest: the defined sentinel root of an empty Merkle tree.
pub open spec fn zero_digest() -> Seq<u8> {
    Seq::new(DIGEST_WIDTH as nat, |i: int| 0u8)
}

/// A fixed-width cryptographic digest, comparable for equality.
#[derive(Debug)]
pub struct Hash {
    bytes: Vec<u8>,
}

impl View for Hash {
    type V = Seq<u8>;

    closed spec fn view(&self) -> Seq<u8> {
        self.bytes@
    }
}

impl Clone for Hash {
    fn clone(&self) -> (r: Self)
        ensures
            r@ == self@,
    {
        proof {
            use_type_invariant(self);
        }
        Hash { bytes: clone_bytes(&self.bytes) }
    }
}

impl Hash {
    /// Every digest in the system has the fixed width; the constructors
    /// enforce it, so it holds of every digest value.
    #[verifier::type_invariant]
    pub open spec fn wf(&self) -> bool {
        self@.len() == DIGEST_WIDTH
    }


    /// Wraps raw digest bytes; the only constructor, so all hashes keep
    /// the fixed width.
    pub fn from_bytes(bytes: Vec<u8>) -> (r: Self)
        requires
            bytes@.len() == DIGEST_WIDTH,
        ensures
            r@ == bytes@,
            r.wf(),
    {
        Hash { bytes }
    }

    /// The all-zero digest.
    pub fn zero() -> (r: Self)
        ensures
            r@ == zero_digest(),
            r.wf(),
    {
        let mut bytes: Vec<u8> = Vec::new();
        let mut i: usize = 0;
        while i < DIGEST_WIDTH
            invariant
                i <= DIGEST_WIDTH,
                bytes@.len() == i,
                forall|j: int| 0 <= j < i ==> bytes@[j] == 0u8,
            decreases DIGEST_WIDTH - i,
        {
            bytes.push(0u8);
            i = i + 1;
        }
        assert(bytes@ =~= zero_digest());
        Hash { bytes }
    }

    /// The digest's raw bytes.
    pub fn as_bytes(&self) -> (r: &Vec<u8>)
        ensures
            r@ == self@,
    {
        &self.bytes
    }

    /// Byte-for-byte equality of two digests.
    pub fn equals(&self, other: &Hash) -> (r: bool)
        ensures
            r == (self@ == other@),
    {
        bytes_eq(&self.bytes, &other.bytes)
    }
}

/// Computes the SHA-256 digest of the given bytes.
pub fn hash_bytes(bytes: &Vec<u8>) -> (r: Hash)
    ensures
        r@ == digest_of(bytes@),
        r.wf(),
{
    let digest = sha256(bytes);
    Hash::from_bytes(digest)
}

/// The algorithm a keypair or signature belongs to, carried on every key
/// so that further algorithms can be added without changing stored data.
#[derive(Debug, Clone, Copy, PartialEq, Eq, Structural)]
pub enum KeyPairAlgorithm {
    Ed25519,
}

/// An opaque, algorithm-specific signature over a message.
#[derive(Debug)]
pub struct DigitalSignature {
    bytes: Vec<u8>,
}

impl View for DigitalSignature {
    type V = Seq<u8>;

    closed spec fn view(&self) -> Seq<u8> {
        self.bytes@
    }
}

impl Clone for DigitalSignature {
    fn clone(&self) -> (r: Self)
        ensures
            r@ == self@,
    {
        DigitalSignature { bytes: clone_bytes(&self.bytes) }
    }
}

impl DigitalSignature {
    /// Wraps raw signature bytes.
    pub fn from_bytes(bytes: Vec<u8>) -> (r: Self)
        ensures
            r@ == bytes@,
    {
        DigitalSignature { bytes }
    }

    /// The signature's raw bytes.
    pub fn as_bytes(&self) -> (r: &Vec<u8>)
        ensures
            r@ == self@,
    {
        &self.bytes
    }

    /// Byte-for-byte equality of two signatures.
    pub fn equals(&self, other: &DigitalSignature) -> (r: bool)
        ensures
            r == (self@ == other@),
    {
        bytes_eq(&self.bytes, &other.bytes)
    }
}

/// The verifier half of a keypair; knows its algorithm.
#[derive(Debug)]
pub struct PublicKey {
    bytes: Vec<u8>,
    algorithm: KeyPairAlgorithm,
}

impl View for PublicKey {
    type V = Seq<u8>;

    closed spec fn view(&self) -> Seq<u8> {
        self.bytes@
    }
}

impl Clone for PublicKey {
    fn clone(&self) -> (r: Self)
        ensures
            r@ == self@,
            r.algorithm() == self.algorithm(),
    {
        PublicKey { bytes: clone_bytes(&self.bytes), algorithm: self.algorithm }
    }
}

impl PublicKey {
    /// Wraps raw public-key bytes tagged with their algorithm.
    pub fn from_bytes(bytes: Vec<u8>, algorithm: KeyPairAlgorithm) -> (r: Self)
        ensures
            r@ == bytes@,
            r.algorithm() == algorithm,
    {
        PublicKey { bytes, algorithm }
    }

    /// The key's algorithm tag.
    #[verifier::when_used_as_spec(spec_algorithm)]
    pub fn algorithm(&self) -> (r: KeyPairAlgorithm)
        ensures
            r == self.spec_algorithm(),
    {
        self.algorithm
    }

    pub closed spec fn spec_algorithm(&self) -> KeyPairAlgorithm {
        self.algorithm
    }

    /// The key's raw bytes.
    pub fn as_bytes(&self) -> (r: &Vec<u8>)
        ensures
            r@ == self@,
    {
        &self.bytes
    }

    /// Byte-for-byte equality of two public keys.
    pub fn equals(&self, other: &PublicKey) -> (r: bool)
        ensures
            r == (self@ == other@ && self.algorithm() == other.algorithm()),
    {
        let same_alg = match (self.algorithm, other.algorithm) {
            (KeyPairAlgorithm::Ed25519, KeyPairAlgorithm::Ed25519) => true,
        };
        same_alg && bytes_eq(&self.bytes, &other.bytes)
    }

    /// Checks `sig` against `msg` under this key: `Ok` exactly when the
    /// signature verifies.
    pub fn verify(&self, msg: &Vec<u8>, sig: &DigitalSignature) -> (r: Result<
        (),
        VerificationError,
    >)
        ensures
            r is Ok <==> ed25519_verifies(msg@, sig@, self@),
    {
        if ed25519_verify_bytes(&self.bytes, msg, sig.as_bytes()) {
            Ok(())
        } else {
            Err(VerificationError::SignatureMismatch)
        }
    }
}

/// A private/public keypair tagged with its algorithm.
#[derive(Debug)]
pub struct AuthKeyPair {
    secret: Vec<u8>,
    public: Vec<u8>,
    algorithm: KeyPairAlgorithm,
}

impl Clone for AuthKeyPair {
    fn clone(&self) -> (r: Self)
        ensures
            r.secret_view() == self.secret_view(),
            r.public_view() == self.public_view(),
            r.algorithm() == self.algorithm(),
    {
        AuthKeyPair {
            secret: clone_bytes(&self.secret),
            public: clone_bytes(&self.public),
            algorithm: self.algorithm,
        }
    }
}

impl AuthKeyPair {
    pub closed spec fn secret_view(&self) -> Seq<u8> {
        self.secret@
    }

    pub closed spec fn public_view(&self) -> Seq<u8> {
        self.public@
    }

    /// A keypair is usable when its secret has the Ed25519 width and its
    /// public half is the one derived from the secret.
    pub closed spec fn wf(&self) -> bool {
        self.secret_view().len() == 32 && self.public_view() == pubkey_of(self.secret_view())
    }

    /// The keypair's algorithm tag.
    #[verifier::when_used_as_spec(spec_algorithm)]
    pub fn algorithm(&self) -> (r: KeyPairAlgorithm)
        ensures
            r == self.spec_algorithm(),
    {
        self.algorithm
    }

    pub closed spec fn spec_algorithm(&self) -> KeyPairAlgorithm {
        self.algorithm
    }

    /// Extracts the public half of the keypair.
    pub fn into_public_key(self) -> (r: PublicKey)
        ensures
            r@ == self.public_view(),
            r.algorithm() == self.algorithm(),
    {
        PublicKey { bytes: self.public, algorithm: self.algorithm }
    }

    /// The public half of the keypair, by clone.
    pub fn public_key(&self) -> (r: PublicKey)
        ensures
            r@ == self.public_view(),
            r.algorithm() == self.algorithm(),
    {
        PublicKey { bytes: clone_bytes(&self.public), algorithm: self.algorithm }
    }

    /// Signs `msg` with the keypair's secret key. Succeeds exactly when
    /// the keypair is usable; the signature then verifies under the
    /// keypair's public key.
    pub fn sign(&self, msg: &Vec<u8>) -> (r: Result<DigitalSignature, SigningError>)
        ensures
            r is Ok <==> self.wf(),
            r matches Ok(sig) ==> ed25519_verifies(msg@, sig@, self.public_view()),
    {
        if self.secret.len() != 32 {
            return Err(SigningError::KeyUnusable);
        }
        if !is_derived_pubkey(&self.secret, &self.public) {
            return Err(SigningError::KeyUnusable);
        }
        let sig = ed25519_sign_bytes(&self.secret, msg);
        Ok(DigitalSignature::from_bytes(sig))
    }
}

/// Generates a fresh Ed25519 keypair from the system's secure randomness.
pub fn generate_ed25519_key_pair() -> (r: AuthKeyPair)
    ensures
        r.wf(),
        r.algorithm() == KeyPairAlgorithm::Ed25519,
{
    ed25519_generate()
}

/// Byte-for-byte equality of two byte vectors.
pub fn bytes_eq(a: &Vec<u8>, b: &Vec<u8>) -> (r: bool)
    ensures
        r == (a@ == b@),
{
    if a.len() != b.len() {
        return false;
    }
    let mut i: usize = 0;
    while i < a.len()
        invariant
            i <= a@.len(),
            a@.len() == b@.len(),
            forall|j: int| 0 <= j < i ==> a@[j] == b@[j],
        decreases a@.len() - i,
    {
        if a[i] != b[i] {
            return false;
        }
        i = i + 1;
    }
    assert(a@ =~= b@);
    true
}

/// A copy of a byte vector.
pub fn clone_bytes(a: &Vec<u8>) -> (r: Vec<u8>)
    ensures
        r@ == a@,
{
    let mut out: Vec<u8> = Vec::new();
    let mut i: usize = 0;
    while i < a.len()
        invariant
            i <= a@.len(),
            out@ == a@.subrange(0, i as int),
        decreases a@.len() - i,
    {
        out.push(a[i]);
        i = i + 1;
        assert(out@ =~= a@.subrange(0, i as int));
    }
    assert(out@ =~= a@);
    out
}

/// The lower-case hexadecimal digit for a value below 16.
pub open spec fn hex_char(n: u8) -> char
    recommends
        n < 16,
{
    if n < 10 {
        (48 + n) as char
    } else {
        (87 + n) as char
    }
}

/// The lower-case hexadecimal rendering of a byte sequence: two digits
/// per byte, high nibble first.
pub open spec fn hex_of(b: Seq<u8>) -> Seq<char> {
    Seq::new(
        2 * b.len(),
        |i: int|
            if i % 2 == 0 {
                hex_char((b[i / 2] >> 4) as u8)
            } else {
                hex_char((b[i / 2] & 0xf) as u8)
            },
    )
}

/// Relies on sha2's `Sha256::digest`: the 32-byte digest of the input,
/// a function of the input bytes alone.
#[verifier::external_body]
fn sha256(bytes: &Vec<u8>) -> (r: Vec<u8>)
    ensures
        r@ == digest_of(bytes@),
        r@.len() == 32,
{
    sha2::Sha256::digest(bytes.as_slice()).to_vec()
}

/// Relies on ed25519-dalek's `SigningKey::generate` and `verifying_key`:
/// a fresh 32-byte secret key drawn from the operating system's secure
/// randomness, paired with the public key derived from it.
#[verifier::external_body]
fn ed25519_generate() -> (r: AuthKeyPair)
    ensures
        r.secret_view().len() == 32,
        r.public_view() == pubkey_of(r.secret_view()),
        r.algorithm() == KeyPairAlgorithm::Ed25519,
{
    let mut csprng = rand::rngs::OsRng;
    let sk = ed25519_dalek::SigningKey::generate(&mut csprng);
    AuthKeyPair {
        secret: sk.to_bytes().to_vec(),
        public: sk.verifying_key().to_bytes().to_vec(),
        algorithm: KeyPairAlgorithm::Ed25519,
    }
}

/// Relies on ed25519-dalek's `SigningKey::verifying_key`: whether
/// `public` is the public key derived from the 32-byte secret key.
#[verifier::external_body]
fn is_derived_pubkey(secret: &Vec<u8>, public: &Vec<u8>) -> (r: bool)
    requires
        secret@.len() == 32,
    ensures
        r == (public@ == pubkey_of(secret@)),
{
    let arr: [u8; 32] = match secret.as_slice().try_into() {
        Ok(a) => a,
        Err(_) => return false,
    };
    let sk = ed25519_dalek::SigningKey::from_bytes(&arr);
    sk.verifying_key().to_bytes().as_slice() == public.as_slice()
}

/// Relies on ed25519-dalek's `SigningKey::sign`: a 64-byte signature,
/// deterministic in the secret key and message, that `Verifier::verify`
/// accepts for the message under the derived public key.
#[verifier::external_body]
fn ed25519_sign_bytes(secret: &Vec<u8>, msg: &Vec<u8>) -> (r: Vec<u8>)
    requires
        secret@.len() == 32,
    ensures
        r@.len() == 64,
        ed25519_verifies(msg@, r@, pubkey_of(secret@)),
{
    let arr: [u8; 32] = secret.as_slice().try_into().unwrap();
    let sk = ed25519_dalek::SigningKey::from_bytes(&arr);
    sk.sign(msg.as_slice()).to_bytes().to_vec()
}

/// Relies on ed25519-dalek's `Verifier::verify` for `VerifyingKey`:
/// whether the signature verifies for the message under the key, a
/// deterministic function of the three byte strings (malformed key or
/// signature bytes never verify).
#[verifier::external_body]
fn ed25519_verify_bytes(pubkey: &Vec<u8>, msg: &Vec<u8>, sig: &Vec<u8>) -> (r: bool)
    ensures
        r == ed25519_verifies(msg@, sig@, pubkey@),
{
    let pk_arr: [u8; 32] = match pubkey.as_slice().try_into() {
        Ok(a) => a,
        Err(_) => return false,
    };
    let vk = match ed25519_dalek::VerifyingKey::from_bytes(&pk_arr) {
        Ok(k) => k,
        Err(_) => return false,
    };
    let sig_arr: [u8; 64] = match sig.as_slice().try_into() {
        Ok(a) => a,
        Err(_) => return false,
    };
    let signature = ed25519_dalek::Signature::from_bytes(&sig_arr);
    vk.verify(msg.as_slice(), &signature).is_ok()
}

/// Relies on hex's `encode`: two lower-case hexadecimal digits per input
/// byte, high nibble first.
#[verifier::external_body]
pub(crate) fn hex_encode_bytes(b: &Vec<u8>) -> (r: String)
    ensures
        r@ == hex_of(b@),
{
    hex::encode(b.as_slice())
}

/// Relies on rand's `random`: 16 bytes from the thread-local generator;
/// nothing is promised of their values.
#[verifier::external_body]
pub(crate) fn random_bytes() -> (r: [u8; 16]) {
    rand::random::<[u8; 16]>()
}

} // verus!
