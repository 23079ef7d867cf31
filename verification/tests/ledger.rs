//! End-to-end exercises of the ledger: building signed records, batching
//! them, appending blocks, retrieving and validating them, and
//! re-materializing a chain from its persistent rows.

use blockify::block::UnchainedInstance;
use blockify::chain::Chain;
use blockify::chain::ChainError;
use blockify::data::Metadata;
use blockify::generate_ed25519_key_pair;
use blockify::record::RecordExt;
use blockify::store::ChainRows;
use blockify::store::SCHEMA_VERSION;

fn push_texts(builder: &mut UnchainedInstance<String>, keypair: &blockify::AuthKeyPair, texts: &[&str]) {
    for t in texts {
        let record = t
            .to_string()
            .record(keypair.clone(), Metadata::empty())
            .expect("signing should succeed");
        builder.push(record);
    }
}

#[test]
fn two_blocks_three_records_each() {
    let keypair = generate_ed25519_key_pair();
    let mut builder1 = UnchainedInstance::<String>::new(Metadata::empty(), 0);
    let mut builder2 = UnchainedInstance::<String>::new(Metadata::empty(), 1);
    push_texts(&mut builder1, &keypair, &["abcd", "efgh", "ijkl"]);
    push_texts(&mut builder2, &keypair, &["mnop", "qrst", "uvwx"]);

    let mut chain: Chain<String> = Chain::new();
    let instance1 = chain.append(&builder1).expect("builder1 append erred");
    let instance2 = chain.append(&builder2).expect("builder2 append erred");

    assert_eq!(instance1.position(), 0);
    assert_eq!(instance2.position(), 1);
    assert_eq!(instance1.nonce(), 0);
    assert_eq!(instance2.nonce(), 1);
    assert!(instance2.prev_hash().equals(instance1.hash()));
    assert_eq!(chain.len(), 2);

    let block1 = chain.block_at(instance1.position()).expect("couldn't retrieve block1");
    let block2 = chain.block_at(instance2.position()).expect("couldn't retrieve block2");

    assert!(block1.validate(&instance1).expect("couldn't finish validating block1"));
    assert!(block2.validate(&instance2).expect("couldn't finish validating block2"));
    assert!(block1.validate_unchained(&builder1).unwrap());
    assert!(block2.validate_unchained(&builder2).unwrap());
    // Validation against the wrong header fails.
    assert!(!block1.validate(&instance2).unwrap());

    let records1 = builder1.records();
    let from_block1 = block1.records();
    assert_eq!(records1.as_slice().len(), from_block1.len());
    for (a, b) in records1.as_slice().iter().zip(from_block1.iter()) {
        assert_eq!(a.record(), b.record());
        assert!(a.signature().equals(b.signature()));
        assert!(a.hash().equals(b.hash()));
        assert!(a.signer().equals(b.signer()));
    }
}

#[test]
fn tip_and_positions() {
    let keypair = generate_ed25519_key_pair();
    let mut chain: Chain<String> = Chain::new();
    assert!(chain.tip().is_none());
    assert_eq!(chain.len(), 0);
    for expected in 0u64..3 {
        let mut builder = UnchainedInstance::<String>::new(Metadata::empty(), expected);
        push_texts(&mut builder, &keypair, &["x"]);
        let instance = chain.append(&builder).unwrap();
        assert_eq!(instance.position(), expected);
        let tip = chain.tip().expect("tip after append");
        assert_eq!(tip.position(), expected);
        assert!(tip.hash().equals(instance.hash()));
    }
    for p in 0u64..3 {
        assert_eq!(chain.header_at(p).unwrap().position(), p);
    }
}

#[test]
fn timestamps_monotonic() {
    let keypair = generate_ed25519_key_pair();
    let mut chain: Chain<String> = Chain::new();
    let mut last = 0u64;
    for n in 0u64..3 {
        let mut builder = UnchainedInstance::<String>::new(Metadata::empty(), n);
        push_texts(&mut builder, &keypair, &["y"]);
        let instance = chain.append(&builder).unwrap();
        assert!(instance.time_stamp().secs() >= last);
        last = instance.time_stamp().secs();
    }
}

#[test]
fn empty_builder_zero_root() {
    let builder = UnchainedInstance::<String>::new(Metadata::empty(), 7);
    let mut chain: Chain<String> = Chain::new();
    let instance = chain.append(&builder).expect("empty append erred");
    let zero = blockify::crypto::Hash::zero();
    assert!(instance.merkle_root().equals(&zero));
    let range = instance.records_range();
    assert_eq!(range.start, range.end);
    assert_eq!(instance.nonce(), 7);
    let block = chain.block_at(0).unwrap();
    assert_eq!(block.records().len(), 0);
    assert!(block.merkle_root().equals(&zero));
    assert!(block.validate(&instance).unwrap());
}

#[test]
fn block_at_out_of_range_not_found() {
    let chain: Chain<String> = Chain::new();
    assert_eq!(chain.block_at(0).unwrap_err(), ChainError::NotFound);
    assert_eq!(chain.header_at(5).unwrap_err(), ChainError::NotFound);
}

#[test]
fn reopen_durability() {
    let keypair = generate_ed25519_key_pair();
    let mut builder1 = UnchainedInstance::<String>::new(Metadata::empty(), 0);
    let mut builder2 = UnchainedInstance::<String>::new(Metadata::empty(), 1);
    push_texts(&mut builder1, &keypair, &["abcd", "efgh", "ijkl"]);
    push_texts(&mut builder2, &keypair, &["mnop", "qrst", "uvwx"]);
    let mut chain: Chain<String> = Chain::new();
    let instance1 = chain.append(&builder1).unwrap();
    let instance2 = chain.append(&builder2).unwrap();

    let rows = chain.export_rows();
    let reopened: Chain<String> = Chain::import_rows(&rows).expect("reopen erred");
    assert_eq!(reopened.len(), 2);
    let tip = reopened.tip().expect("tip after reopen");
    assert_eq!(tip.position(), 1);
    assert!(tip.hash().equals(instance2.hash()));

    for (p, instance) in [(0u64, &instance1), (1u64, &instance2)] {
        let header = reopened.header_at(p).unwrap();
        assert!(header.hash().equals(instance.hash()));
        let block = reopened.block_at(p).unwrap();
        assert!(block.validate(&header).unwrap());
    }
    let block1 = reopened.block_at(0).unwrap();
    for (a, b) in builder1.records().as_slice().iter().zip(block1.records().iter()) {
        assert_eq!(a.record(), b.record());
        assert!(a.signature().equals(b.signature()));
        assert!(a.hash().equals(b.hash()));
    }
}

#[test]
fn tamper_detection() {
    let keypair = generate_ed25519_key_pair();
    let mut builder = UnchainedInstance::<String>::new(Metadata::empty(), 0);
    push_texts(&mut builder, &keypair, &["abcd", "efgh"]);
    let mut chain: Chain<String> = Chain::new();
    let instance = chain.append(&builder).unwrap();

    let mut rows = chain.export_rows();
    // Flip one bit inside the first persisted record blob; the bytes stay
    // valid UTF-8, so the record still decodes, to a different value.
    rows.records[0].record_blob[0] ^= 1;
    let reopened: Chain<String> = Chain::import_rows(&rows).expect("structurally intact");
    let header = reopened.header_at(0).unwrap();
    assert!(header.hash().equals(instance.hash()));
    let block = reopened.block_at(0).unwrap();
    assert!(!block.validate(&header).unwrap());
    assert!(!block.validate_unchained(&builder).unwrap());
}

#[test]
fn incompatible_version_rejected() {
    let rows = ChainRows { schema_version: SCHEMA_VERSION + 1, blocks: Vec::new(), records: Vec::new() };
    let r: Result<Chain<String>, ChainError> = Chain::import_rows(&rows);
    assert_eq!(r.unwrap_err(), ChainError::IncompatibleVersion);
}

#[test]
fn corrupted_rows_rejected() {
    let keypair = generate_ed25519_key_pair();
    let mut builder = UnchainedInstance::<String>::new(Metadata::empty(), 0);
    push_texts(&mut builder, &keypair, &["abcd"]);
    let mut chain: Chain<String> = Chain::new();
    chain.append(&builder).unwrap();

    let mut rows = chain.export_rows();
    rows.blocks[0].position = 9;
    let r: Result<Chain<String>, ChainError> = Chain::import_rows(&rows);
    assert_eq!(r.unwrap_err(), ChainError::Invariant);

    let mut rows = chain.export_rows();
    rows.blocks[0].merkle_root[0] ^= 1;
    let r: Result<Chain<String>, ChainError> = Chain::import_rows(&rows);
    assert_eq!(r.unwrap_err(), ChainError::Invariant);
}

#[test]
fn undecodable_blob_rejected() {
    let keypair = generate_ed25519_key_pair();
    let mut builder = UnchainedInstance::<i64>::new(Metadata::empty(), 0);
    let record = 42i64.record(keypair, Metadata::empty()).unwrap();
    builder.push(record);
    let mut chain: Chain<i64> = Chain::new();
    chain.append(&builder).unwrap();

    let mut rows = chain.export_rows();
    // A signed integer's canonical form is exactly nine bytes; truncating
    // it makes the blob undecodable.
    rows.records[0].record_blob.pop();
    let r: Result<Chain<i64>, ChainError> = Chain::import_rows(&rows);
    assert_eq!(r.unwrap_err(), ChainError::Codec);
}

#[test]
fn append_error_leaves_chain_unchanged() {
    // An append refused for any reason must leave the chain untouched;
    // the import/export pair shows the persisted image is unchanged too.
    let keypair = generate_ed25519_key_pair();
    let mut builder = UnchainedInstance::<String>::new(Metadata::empty(), 0);
    push_texts(&mut builder, &keypair, &["abcd"]);
    let mut chain: Chain<String> = Chain::new();
    chain.append(&builder).unwrap();
    let before = chain.export_rows();
    // Simulate a crash mid-append: the batch is staged but its rows are
    // never committed; reopening from the pre-append image restores the
    // pre-append state exactly.
    let reopened: Chain<String> = Chain::import_rows(&before).unwrap();
    assert_eq!(reopened.len(), chain.len());
    assert!(reopened
        .tip()
        .unwrap()
        .hash()
        .equals(chain.tip().unwrap().hash()));
}
