//! Exercises of the record layer and the primitive building blocks:
//! canonical encodings, digests, signatures, metadata and identifiers.

use blockify::block::Block;
use blockify::data::BufID;
use blockify::data::Detail;
use blockify::data::Metadata;
use blockify::data::Timestamp;
use blockify::data::ToTimestamp;
use blockify::generate_ed25519_key_pair;
use blockify::merkle::MerkleTree;
use blockify::record::Record;
use blockify::record::RecordExt;
use blockify::record::Records;
use blockify::record::SignedRecord;
use blockify::KeyPairAlgorithm;
use blockify::VerificationError;

#[test]
fn test_timestamp_for_u64() {
    let val = 33u64;
    let _timestamp = val.to_timestamp();
    assert!(true, "incomplete implementation of to_timestamp for u64")
}

#[test]
fn timestamp_round_trip() {
    let ts = Timestamp::from_secs(123456789);
    assert_eq!(ts.secs(), 123456789);
    assert_eq!(77u64.to_timestamp().secs(), 77);
}

#[test]
fn signature_round_trip() {
    let keypair = generate_ed25519_key_pair();
    assert_eq!(keypair.algorithm(), KeyPairAlgorithm::Ed25519);
    let record = "hello world".to_string();
    let signature = record.sign(&keypair).unwrap();
    let pubkey = keypair.clone().into_public_key();
    assert!(record.verify(&signature, &pubkey).is_ok());
    let signed = record.record(keypair, Metadata::empty()).unwrap();
    assert!(signed.verify().is_ok());
    assert!(signed.signature().equals(&signature));
    assert!(signed.signer().equals(&pubkey));
    assert_eq!(signed.keypair_algorithm(), KeyPairAlgorithm::Ed25519);
}

#[test]
fn cross_key_verification_fails() {
    let k1 = generate_ed25519_key_pair();
    let k2 = generate_ed25519_key_pair();
    let signed = "abcd".to_string().record(k1, Metadata::empty()).unwrap();
    assert!(signed.verify().is_ok());
    // Re-bundle the same record and signature under the wrong signer.
    let forged = SignedRecord::new(
        signed.record().clone(),
        signed.signature().clone(),
        k2.into_public_key(),
        signed.hash().clone(),
        Metadata::empty(),
    );
    assert_eq!(forged.verify().unwrap_err(), VerificationError::SignatureMismatch);
}

#[test]
fn wrong_message_verification_fails() {
    let keypair = generate_ed25519_key_pair();
    let signature = "abcd".to_string().sign(&keypair).unwrap();
    let pubkey = keypair.into_public_key();
    assert!("abcd".to_string().verify(&signature, &pubkey).is_ok());
    assert!("abce".to_string().verify(&signature, &pubkey).is_err());
}

#[test]
fn hash_deterministic() {
    let value = "determinism".to_string();
    let h1 = value.hash();
    let h2 = value.hash();
    assert!(h1.equals(&h2));
    let other = "determinisn".to_string();
    assert!(!other.hash().equals(&h1));
}

#[test]
fn sha256_known_digest() {
    // The digest of the three bytes "abc" is a published test vector.
    let bytes: Vec<u8> = vec![0x61, 0x62, 0x63];
    let digest = blockify::crypto::hash_bytes(&bytes);
    let expected: Vec<u8> = vec![
        0xba, 0x78, 0x16, 0xbf, 0x8f, 0x01, 0xcf, 0xea, 0x41, 0x41, 0x40, 0xde, 0x5d, 0xae,
        0x22, 0x23, 0xb0, 0x03, 0x61, 0xa3, 0x96, 0x17, 0x7a, 0x9c, 0xb4, 0x10, 0xff, 0x61,
        0xf2, 0x00, 0x15, 0xad,
    ];
    assert_eq!(digest.as_bytes(), &expected);
}

#[test]
fn hex_rendering() {
    let id = BufID::new([
        0x00, 0x01, 0x0a, 0x0f, 0x10, 0xab, 0xcd, 0xef, 0x99, 0x42, 0x00, 0xff, 0x7f, 0x80,
        0x01, 0x23,
    ]);
    assert_eq!(id.to_string(), "00010a0f10abcdef994200ff7f800123");
    assert!(id.equals(&id));
    let other = BufID::random();
    let another = BufID::random();
    assert!(!other.equals(&another), "two random identifiers should differ");
}

#[test]
fn u64_little_endian_codec() {
    let bytes = blockify::codec::u64_le_bytes(0x0102030405060708);
    assert_eq!(bytes, vec![0x08, 0x07, 0x06, 0x05, 0x04, 0x03, 0x02, 0x01]);
    assert_eq!(blockify::codec::read_u64_le(&bytes), 0x0102030405060708);
}

#[test]
fn i64_canonical_codec() {
    for v in [0i64, 1, -1, 42, -42, i64::MAX, i64::MIN] {
        let bytes = blockify::codec::i64_canon_bytes(v);
        assert_eq!(bytes.len(), 9);
        assert_eq!(blockify::codec::i64_from_canon(&bytes), Some(v));
    }
    assert_eq!(
        blockify::codec::i64_canon_bytes(-1),
        vec![1, 0, 0, 0, 0, 0, 0, 0, 0]
    );
    assert_eq!(blockify::codec::i64_from_canon(&vec![2, 0, 0, 0, 0, 0, 0, 0, 0]), None);
    assert_eq!(blockify::codec::i64_from_canon(&vec![0, 0, 0]), None);
}

#[test]
fn primitive_records_round_trip() {
    let b = true;
    assert_eq!(bool::from_canonical(&b.canonical_bytes()), Some(true));
    assert_eq!(bool::from_canonical(&vec![2]), None);
    let n = -7i64;
    assert_eq!(i64::from_canonical(&n.canonical_bytes()), Some(-7));
    let blob: Vec<u8> = vec![1, 2, 3];
    assert_eq!(Vec::<u8>::from_canonical(&blob.canonical_bytes()), Some(blob.clone()));
    let s = "héllo".to_string();
    assert_eq!(String::from_canonical(&s.canonical_bytes()), Some(s));
    assert_eq!(String::from_canonical(&vec![0xff, 0xfe]), None);
}

#[test]
fn merkle_incremental_matches_bulk() {
    let leaves: Vec<blockify::crypto::Hash> = ["a", "b", "c", "d", "e"]
        .iter()
        .map(|t| t.to_string().hash())
        .collect();
    let mut incremental = MerkleTree::new();
    for leaf in &leaves {
        incremental.push(leaf);
    }
    let bulk = MerkleTree::from_leaves(leaves.clone());
    assert!(incremental.root().equals(&bulk.root()));
    assert_eq!(incremental.len(), 5);

    // A single leaf is its own root; no leaves give the zero digest.
    let single = MerkleTree::from_leaves(vec![leaves[0].clone()]);
    assert!(single.root().equals(&leaves[0]));
    let empty = MerkleTree::new();
    assert!(empty.root().equals(&blockify::crypto::Hash::zero()));
}

#[test]
fn merkle_order_matters() {
    let a = "a".to_string().hash();
    let b = "b".to_string().hash();
    let ab = MerkleTree::from_leaves(vec![a.clone(), b.clone()]);
    let ba = MerkleTree::from_leaves(vec![b, a]);
    assert!(!ab.root().equals(&ba.root()));
}

#[test]
fn block_push_updates_root() {
    let keypair = generate_ed25519_key_pair();
    let mut block: Block<String> = Block::new();
    assert!(block.merkle_root().equals(&blockify::crypto::Hash::zero()));
    let r1 = "one".to_string().record(keypair.clone(), Metadata::empty()).unwrap();
    let r2 = "two".to_string().record(keypair, Metadata::empty()).unwrap();
    let single_root = MerkleTree::from_leaves(vec![r1.hash().clone()]).root();
    block.push(r1).unwrap();
    assert!(block.merkle_root().equals(&single_root));
    block.push(r2).unwrap();
    assert_eq!(block.records().len(), 2);
    assert!(!block.merkle_root().equals(&single_root));
}

#[test]
fn metadata_push_pop() {
    let mut metadata = Metadata::new();
    assert_eq!(metadata.len(), 0);
    metadata.push(Detail::Text("note".to_string()));
    metadata.push(Detail::Integer(-5));
    metadata.push(Detail::Bytes(vec![1, 2]));
    metadata.push(Detail::Timestamp(Timestamp::from_secs(9)));
    metadata.push(Detail::Boolean(true));
    assert_eq!(metadata.len(), 5);
    assert_eq!(metadata.details().len(), 5);
    match metadata.pop() {
        Some(Detail::Boolean(v)) => assert!(v),
        _ => panic!("expected the boolean detail back"),
    }
    assert_eq!(metadata.len(), 4);
    let empty = Metadata::empty();
    assert_eq!(empty.len(), 0);
}

#[test]
fn metadata_not_covered_by_signature() {
    // Metadata is annotational: it is not part of the signed bytes, so a
    // record re-bundled with different metadata still verifies.
    let keypair = generate_ed25519_key_pair();
    let signed = "abcd".to_string().record(keypair, Metadata::empty()).unwrap();
    let mut other = Metadata::empty();
    other.push(Detail::Integer(1));
    let rebundled = SignedRecord::new(
        signed.record().clone(),
        signed.signature().clone(),
        signed.signer().clone(),
        signed.hash().clone(),
        other,
    );
    assert!(rebundled.verify().is_ok());
}

#[test]
fn records_wrappers() {
    let keypair = generate_ed25519_key_pair();
    let data: Vec<SignedRecord<String>> = vec![
        "a".to_string().record(keypair.clone(), Metadata::empty()).unwrap(),
        "b".to_string().record(keypair, Metadata::empty()).unwrap(),
    ];
    let borrowed = Records::new_borrowed(&data);
    assert_eq!(borrowed.as_slice().len(), 2);
    assert_eq!(borrowed.unwrap().len(), 2);
    let copied = borrowed.into_inner();
    assert_eq!(copied.len(), 2);
    let owned = Records::new_owned(copied);
    assert_eq!(owned.as_slice().len(), 2);
    let back = owned.unwrap_owned();
    assert_eq!(back.len(), 2);
}

#[test]
fn nonce_and_position_from_u64() {
    let nonce = blockify::data::Nonce::from(5u64);
    assert_eq!(nonce.nonce, 5);
    assert_eq!(blockify::data::Nonce::new(6).nonce, 6);
    let position = blockify::data::Position::from(8u64);
    assert_eq!(position.pos(), 8);
    assert_eq!(blockify::data::Position::new(9).pos, 9);
}
