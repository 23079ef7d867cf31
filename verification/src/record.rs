//! The record layer: canonical serialization of user values, signing,
//! hashing and verification, and the signed-record bundle stored on the
//! chain.

use vstd::prelude::*;

verus! {

use vstd::string::StrSliceExecFns;
use vstd::utf8::encode_utf8;
use vstd::utf8::valid_utf8;
use vstd::utf8::encode_utf8_valid_utf8;
use crate::SigningError;
use crate::VerificationError;
use crate::crypto::AuthKeyPair;
use crate::crypto::DigitalSignature;
use crate::crypto::KeyPairAlgorithm;
use crate::crypto::PublicKey;
use crate::crypto::digest_of;
use crate::crypto::ed25519_verifies;
use crate::crypto::hash_bytes;
use crate::crypto::clone_bytes;
use crate::data::DetailView;
use crate::data::Metadata;
use crate::codec::i64_canon;
use crate::codec::i64_canon_bytes;
use crate::codec::i64_from_canon;

/// A value that the ledger can store: it has a fixed, deterministic
/// canonical byte encoding, the encoding can be decoded back, and the
/// value can be duplicated without changing its encoding. Signing,
/// verification and hashing are provided on top of the encoding.
pub trait Record: Sized {
    /// The canonical byte encoding of the value. Deterministic: the same
    /// logical value always has the same bytes, on every machine and run.
    spec fn canon(&self) -> Seq<u8>;

    /// Computes the canonical byte encoding.
    fn canonical_bytes(&self) -> (r: Vec<u8>)
        ensures
            r@ == self.canon(),
    ;

    /// Decodes a canonical encoding back into a value. Returns `Some`
    /// for every byte sequence that is the canonical encoding of some
    /// value, and the returned value's encoding is exactly the input.
    fn from_canonical(bytes: &Vec<u8>) -> (r: Option<Self>)
        ensures
            (r matches Some(v) ==> v.canon() == bytes@),
            (exists|v: Self| v.canon() == bytes@) ==> r is Some,
    ;

    /// A copy of the value with the same canonical encoding.
    fn duplicate(&self) -> (r: Self)
        ensures
            r.canon() == self.canon(),
    ;

    /// Signs the record's canonical encoding with the given keypair.
    /// Succeeds exactly when the keypair is usable; the signature then
    /// verifies under the keypair's public key.
    fn sign(&self, keypair: &AuthKeyPair) -> (r: Result<DigitalSignature, SigningError>)
        ensures
            r is Ok <==> keypair.wf(),
            r matches Ok(sig) ==> ed25519_verifies(self.canon(), sig@, keypair.public_view()),
    {
        let bytes = self.canonical_bytes();
        keypair.sign(&bytes)
    }

    /// Checks a signature on the record's canonical encoding: `Ok`
    /// exactly when it verifies under the given public key.
    fn verify(&self, signature: &DigitalSignature, pubkey: &PublicKey) -> (r: Result<
        (),
        VerificationError,
    >)
        ensures
            r is Ok <==> ed25519_verifies(self.canon(), signature@, pubkey@),
    {
        let bytes = self.canonical_bytes();
        pubkey.verify(&bytes, signature)
    }

    /// The digest of the record's canonical encoding. Infallible, and a
    /// function of the value alone: two calls yield identical digests.
    fn hash(&self) -> (r: crate::crypto::Hash)
        ensures
            r@ == digest_of(self.canon()),
            r.wf(),
    {
        let bytes = self.canonical_bytes();
        hash_bytes(&bytes)
    }
}

/// The mathematical reading of a [`SignedRecord`]: the canonical bytes
/// of the record value together with the views of the bundled fields.
#[verifier::ext_equal]
pub ghost struct SignedRecordView {
    pub record_canon: Seq<u8>,
    pub signature: Seq<u8>,
    pub signer: Seq<u8>,
    pub algorithm: KeyPairAlgorithm,
    pub hash: Seq<u8>,
    pub metadata: Seq<DetailView>,
}

/// A record value bound to its digital signature, the signer's public
/// key, its digest and its metadata. Immutable after construction.
#[derive(Debug)]
pub struct SignedRecord<R: Record> {
    signer: PublicKey,
    signature: DigitalSignature,
    hash: crate::crypto::Hash,
    record: R,
    metadata: Metadata,
}

impl<R: Record> View for SignedRecord<R> {
    type V = SignedRecordView;

    closed spec fn view(&self) -> SignedRecordView {
        SignedRecordView {
            record_canon: self.record.canon(),
            signature: self.signature@,
            signer: self.signer@,
            algorithm: self.signer.spec_algorithm(),
            hash: self.hash@,
            metadata: self.metadata@,
        }
    }
}

impl<R: Record> SignedRecord<R> {
    /// The signature on the record.
    pub fn signature(&self) -> (r: &DigitalSignature)
        ensures
            r@ == self@.signature,
    {
        &self.signature
    }

    /// The record value itself.
    #[inline]
    pub fn record(&self) -> (r: &R)
        ensures
            r.canon() == self@.record_canon,
    {
        &self.record
    }

    /// The public key that signed the record.
    pub fn signer(&self) -> (r: &PublicKey)
        ensures
            r@ == self@.signer,
            r.algorithm() == self@.algorithm,
    {
        &self.signer
    }

    /// The algorithm of the keypair that signed the record.
    pub fn keypair_algorithm(&self) -> (r: KeyPairAlgorithm)
        ensures
            r == self@.algorithm,
    {
        self.signer.algorithm()
    }

    /// The digest of the record captured at construction.
    pub fn hash(&self) -> (r: &crate::crypto::Hash)
        ensures
            r@ == self@.hash,
    {
        &self.hash
    }

    /// The metadata bundled with the record.
    pub fn metadata(&self) -> (r: &Metadata)
        ensures
            r@ == self@.metadata,
    {
        &self.metadata
    }

    /// Whether the bundled signature verifies for the bundled record
    /// under the bundled signer.
    pub open spec fn verify_ok(&self) -> bool {
        ed25519_verifies(self@.record_canon, self@.signature, self@.signer)
    }

    /// Re-checks the bundled signature against the bundled record and
    /// signer: `Ok` exactly when it verifies. Does not mutate.
    pub fn verify(&self) -> (r: Result<(), VerificationError>)
        ensures
            r is Ok <==> self.verify_ok(),
    {
        self.record.verify(&self.signature, &self.signer)
    }

    /// Bundles the given parts into a signed record.
    pub fn new(
        record: R,
        signature: DigitalSignature,
        signer: PublicKey,
        hash: crate::crypto::Hash,
        metadata: Metadata,
    ) -> (r: Self)
        ensures
            r@ == (SignedRecordView {
                record_canon: record.canon(),
                signature: signature@,
                signer: signer@,
                algorithm: signer.algorithm(),
                hash: hash@,
                metadata: metadata@,
            }),
    {
        Self { record, signature, hash, signer, metadata }
    }

    /// A copy of the signed record with an identical view.
    pub fn duplicate(&self) -> (r: Self)
        ensures
            r@ == self@,
    {
        Self {
            record: self.record.duplicate(),
            signature: self.signature.clone(),
            signer: self.signer.clone(),
            hash: self.hash.clone(),
            metadata: self.metadata.clone(),
        }
    }
}

/// The one sanctioned path from a bare value to a [`SignedRecord`],
/// provided for every record type.
pub trait RecordExt: Record {
    /// Signs the record and bundles it with its signature, its digest,
    /// the signer's public key and the given metadata: the one sanctioned
    /// path to a [`SignedRecord`]. Succeeds exactly when the keypair is
    /// usable.
    fn record(self, keypair: AuthKeyPair, metadata: Metadata) -> (r: Result<
        SignedRecord<Self>,
        SigningError,
    >)
        ensures
            r is Ok <==> keypair.wf(),
            r matches Ok(sr) ==> sr@ == (SignedRecordView {
                record_canon: self.canon(),
                signature: sr@.signature,
                signer: keypair.public_view(),
                algorithm: keypair.algorithm(),
                hash: digest_of(self.canon()),
                metadata: metadata@,
            }) && sr.verify_ok(),
    {
        let canon = self.canonical_bytes();
        let signature = match keypair.sign(&canon) {
            Ok(s) => s,
            Err(e) => { return Err(e) },
        };
        let hash = hash_bytes(&canon);
        Ok(
            SignedRecord {
                record: self,
                signature,
                hash,
                signer: keypair.into_public_key(),
                metadata,
            },
        )
    }
}

impl<T: Record> RecordExt for T {
}

/// The views of a sequence of signed records, in order.
pub open spec fn records_view<R: Record>(s: Seq<SignedRecord<R>>) -> Seq<SignedRecordView> {
    Seq::new(s.len(), |i: int| s[i]@)
}

/// A batch of signed records, either owned or borrowed from a longer
/// lived owner.
pub enum Records<'a, R: Record> {
    Owned(Vec<SignedRecord<R>>),
    Borrowed(&'a Vec<SignedRecord<R>>),
}

impl<'a, R: Record> View for Records<'a, R> {
    type V = Seq<SignedRecordView>;

    open spec fn view(&self) -> Seq<SignedRecordView> {
        match self {
            Records::Owned(v) => records_view(v@),
            Records::Borrowed(v) => records_view(v@),
        }
    }
}

impl<'a, R: Record> Records<'a, R> {
    /// Wraps an owned batch.
    pub fn new_owned(data: Vec<SignedRecord<R>>) -> (r: Self)
        ensures
            r@ == records_view(data@),
            r is Owned,
    {
        Self::Owned(data)
    }

    /// Wraps a borrowed batch.
    pub fn new_borrowed(data: &'a Vec<SignedRecord<R>>) -> (r: Self)
        ensures
            r@ == records_view(data@),
    {
        Self::Borrowed(data)
    }

    /// The records as a slice, in order.
    pub fn as_slice(&self) -> (r: &[SignedRecord<R>])
        ensures
            r@.len() == self@.len(),
            forall|i: int| 0 <= i < r@.len() ==> r@[i]@ == self@[i],
    {
        let s: &[SignedRecord<R>] = match self {
            Records::Owned(v) => v.as_slice(),
            Records::Borrowed(u) => u.as_slice(),
        };
        s
    }

    /// An iterator over the records, in order.
    pub fn iter(&self) -> std::slice::Iter<'_, SignedRecord<R>> {
        self.as_slice().iter()
    }

    /// The records as a vector reference, in order.
    pub fn unwrap(&self) -> (r: &Vec<SignedRecord<R>>)
        ensures
            records_view(r@) == self@,
    {
        match self {
            Records::Owned(v) => v,
            Records::Borrowed(u) => *u,
        }
    }

    /// Takes the owned vector out of an owned batch.
    pub fn unwrap_owned(self) -> (r: Vec<SignedRecord<R>>)
        requires
            self is Owned,
        ensures
            records_view(r@) == self@,
    {
        match self {
            Records::Owned(v) => v,
            Records::Borrowed(_) => unreached(),
        }
    }

}

impl<'a, R: Record> Records<'a, R> {
    /// The owned vector, duplicating a borrowed batch.
    pub fn into_inner(self) -> (r: Vec<SignedRecord<R>>)
        ensures
            records_view(r@) == self@,
    {
        match self {
            Records::Owned(u) => u,
            Records::Borrowed(v) => duplicate_records(v),
        }
    }
}

/// A copy of a vector of signed records, view for view.
pub fn duplicate_records<R: Record>(v: &Vec<SignedRecord<R>>) -> (r: Vec<SignedRecord<R>>)
    ensures
        records_view(r@) == records_view(v@),
        r@.len() == v@.len(),
        forall|i: int| 0 <= i < v@.len() ==> r@[i]@ == v@[i]@,
{
    let mut out: Vec<SignedRecord<R>> = Vec::new();
    let mut i: usize = 0;
    while i < v.len()
        invariant
            i <= v@.len(),
            out@.len() == i,
            forall|j: int| 0 <= j < i ==> out@[j]@ == v@[j]@,
        decreases v@.len() - i,
    {
        out.push(v[i].duplicate());
        i = i + 1;
    }
    assert(records_view(out@) =~= records_view(v@));
    out
}

impl Record for String {
    /// A string's canonical encoding is its UTF-8 bytes.
    open spec fn canon(&self) -> Seq<u8> {
        encode_utf8(self@)
    }

    fn canonical_bytes(&self) -> (r: Vec<u8>)
        ensures
            r@ == self.canon(),
    {
        self.as_str().as_bytes_vec()
    }

    fn from_canonical(bytes: &Vec<u8>) -> (r: Option<Self>)
        ensures
            (r matches Some(v) ==> v.canon() == bytes@),
            (exists|v: Self| v.canon() == bytes@) ==> r is Some,
    {
        let r = string_from_utf8(bytes);
        proof {
            if exists|v: String| v.canon() == bytes@ {
                let v = choose|v: String| v.canon() == bytes@;
                encode_utf8_valid_utf8(v@);
                assert(valid_utf8(bytes@));
            }
        }
        r
    }

    fn duplicate(&self) -> (r: Self)
        ensures
            r.canon() == self.canon(),
    {
        self.clone()
    }
}

impl Record for bool {
    /// A boolean's canonical encoding is a single byte, 1 or 0.
    open spec fn canon(&self) -> Seq<u8> {
        if *self {
            seq![1u8]
        } else {
            seq![0u8]
        }
    }

    fn canonical_bytes(&self) -> (r: Vec<u8>)
        ensures
            r@ == self.canon(),
    {
        let mut out: Vec<u8> = Vec::new();
        if *self {
            out.push(1u8);
        } else {
            out.push(0u8);
        }
        assert(out@ =~= self.canon());
        out
    }

    fn from_canonical(bytes: &Vec<u8>) -> (r: Option<Self>)
        ensures
            (r matches Some(v) ==> v.canon() == bytes@),
            (exists|v: bool| v.canon() == bytes@) ==> r is Some,
    {
        if bytes.len() == 1 {
            let b = bytes[0];
            if b == 1 {
                assert(true.canon() =~= bytes@);
                Some(true)
            } else if b == 0 {
                assert(false.canon() =~= bytes@);
                Some(false)
            } else {
                None
            }
        } else {
            None
        }
    }

    fn duplicate(&self) -> (r: Self)
        ensures
            r.canon() == self.canon(),
    {
        *self
    }
}

impl Record for i64 {
    /// A signed integer's canonical encoding is its sign/magnitude form.
    open spec fn canon(&self) -> Seq<u8> {
        i64_canon(*self)
    }

    fn canonical_bytes(&self) -> (r: Vec<u8>)
        ensures
            r@ == self.canon(),
    {
        i64_canon_bytes(*self)
    }

    fn from_canonical(bytes: &Vec<u8>) -> (r: Option<Self>)
        ensures
            (r matches Some(v) ==> v.canon() == bytes@),
            (exists|v: i64| v.canon() == bytes@) ==> r is Some,
    {
        i64_from_canon(bytes)
    }

    fn duplicate(&self) -> (r: Self)
        ensures
            r.canon() == self.canon(),
    {
        *self
    }
}

impl Record for Vec<u8> {
    /// A byte blob's canonical encoding is the blob itself.
    open spec fn canon(&self) -> Seq<u8> {
        self@
    }

    fn canonical_bytes(&self) -> (r: Vec<u8>)
        ensures
            r@ == self.canon(),
    {
        clone_bytes(self)
    }

    fn from_canonical(bytes: &Vec<u8>) -> (r: Option<Self>)
        ensures
            (r matches Some(v) ==> v.canon() == bytes@),
            (exists|v: Vec<u8>| v.canon() == bytes@) ==> r is Some,
    {
        Some(clone_bytes(bytes))
    }

    fn duplicate(&self) -> (r: Self)
        ensures
            r.canon() == self.canon(),
    {
        clone_bytes(self)
    }
}

/// Hash determinism: a record's digest is a function of its canonical
/// bytes alone, so any two digests computed for the same value are
/// byte-identical.
pub proof fn lemma_hash_deterministic(canon: Seq<u8>, h1: Seq<u8>, h2: Seq<u8>)
    requires
        h1 == digest_of(canon),
        h2 == digest_of(canon),
    ensures
        h1 == h2,
{
}

/// Relies on `String::from_utf8`: succeeds exactly on valid UTF-8 input
/// and returns the string whose UTF-8 encoding is the input bytes.
#[verifier::external_body]
fn string_from_utf8(bytes: &Vec<u8>) -> (r: Option<String>)
    ensures
        (r matches Some(s) ==> encode_utf8(s@) == bytes@),
        valid_utf8(bytes@) ==> r is Some,
{
    String::from_utf8(bytes.clone()).ok()
}

} // verus!
