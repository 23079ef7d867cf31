//! The persistent layout of a chain: two plain-value tables, one row per
//! block header and one row per stored record, plus a schema version.
//! A host persists these rows however it likes; the chain can be
//! re-materialized from them, and [`rows_wf`] says exactly which row sets
//! are accepted.

use vstd::prelude::*;

verus! {

use crate::block::record_hashes;
use crate::chain::ChainEntryView;
use crate::chain::header_canon;
use crate::chain::total_records_of;
use crate::crypto::DIGEST_WIDTH;
use crate::crypto::KeyPairAlgorithm;
use crate::crypto::digest_of;
use crate::crypto::zero_digest;
use crate::data::DetailView;
use crate::data::Metadata;
use crate::merkle::merkle_root_of;
use crate::record::Record;
use crate::record::SignedRecordView;

/// The on-disk schema version this library writes and accepts.
pub const SCHEMA_VERSION: u64 = 1;

/// The mathematical reading of a [`BlockRow`].
#[verifier::ext_equal]
pub ghost struct BlockRowView {
    pub position: u64,
    pub nonce: u64,
    pub time_stamp: u64,
    pub hash: Seq<u8>,
    pub prev_hash: Seq<u8>,
    pub merkle_root: Seq<u8>,
    pub records_start: u64,
    pub records_end: u64,
    pub metadata: Seq<DetailView>,
}

/// One row of the block table: a block header and its block-level
/// metadata, keyed by position.
#[derive(Debug)]
pub struct BlockRow {
    pub position: u64,
    pub nonce: u64,
    pub time_stamp: u64,
    pub hash: Vec<u8>,
    pub prev_hash: Vec<u8>,
    pub merkle_root: Vec<u8>,
    pub records_start: u64,
    pub records_end: u64,
    pub metadata: Metadata,
}

impl View for BlockRow {
    type V = BlockRowView;

    open spec fn view(&self) -> BlockRowView {
        BlockRowView {
            position: self.position,
            nonce: self.nonce,
            time_stamp: self.time_stamp,
            hash: self.hash@,
            prev_hash: self.prev_hash@,
            merkle_root: self.merkle_root@,
            records_start: self.records_start,
            records_end: self.records_end,
            metadata: self.metadata@,
        }
    }
}

/// The mathematical reading of a [`RecordRow`].
#[verifier::ext_equal]
pub ghost struct RecordRowView {
    pub offset: u64,
    pub block_position: u64,
    pub record_blob: Seq<u8>,
    pub signature: Seq<u8>,
    pub signer: Seq<u8>,
    pub algorithm: KeyPairAlgorithm,
    pub hash: Seq<u8>,
    pub metadata: Seq<DetailView>,
}

/// One row of the record table: a signed record in its canonical form,
/// keyed by a globally increasing offset.
#[derive(Debug)]
pub struct RecordRow {
    pub offset: u64,
    pub block_position: u64,
    pub record_blob: Vec<u8>,
    pub signature: Vec<u8>,
    pub signer: Vec<u8>,
    pub signer_algorithm: KeyPairAlgorithm,
    pub hash: Vec<u8>,
    pub metadata: Metadata,
}

impl View for RecordRow {
    type V = RecordRowView;

    open spec fn view(&self) -> RecordRowView {
        RecordRowView {
            offset: self.offset,
            block_position: self.block_position,
            record_blob: self.record_blob@,
            signature: self.signature@,
            signer: self.signer@,
            algorithm: self.signer_algorithm,
            hash: self.hash@,
            metadata: self.metadata@,
        }
    }
}

/// The mathematical reading of a [`ChainRows`].
#[verifier::ext_equal]
pub ghost struct ChainRowsView {
    pub schema_version: u64,
    pub blocks: Seq<BlockRowView>,
    pub records: Seq<RecordRowView>,
}

/// The full persistent content of a chain: schema version, block table
/// and record table.
#[derive(Debug)]
pub struct ChainRows {
    pub schema_version: u64,
    pub blocks: Vec<BlockRow>,
    pub records: Vec<RecordRow>,
}

impl View for ChainRows {
    type V = ChainRowsView;

    open spec fn view(&self) -> ChainRowsView {
        ChainRowsView {
            schema_version: self.schema_version,
            blocks: Seq::new(self.blocks@.len(), |i: int| self.blocks@[i]@),
            records: Seq::new(self.records@.len(), |i: int| self.records@[i]@),
        }
    }
}

/// The block row a committed block writes.
pub open spec fn block_row_of(e: ChainEntryView) -> BlockRowView {
    BlockRowView {
        position: e.header.position,
        nonce: e.header.nonce,
        time_stamp: e.header.time_stamp,
        hash: e.header.hash,
        prev_hash: e.header.prev_hash,
        merkle_root: e.header.merkle_root,
        records_start: e.header.records_start,
        records_end: e.header.records_end,
        metadata: e.metadata,
    }
}

/// The record row a stored record writes at the given offset.
pub open spec fn record_row_of(sr: SignedRecordView, offset: u64, block_position: u64) -> RecordRowView {
    RecordRowView {
        offset,
        block_position,
        record_blob: sr.record_canon,
        signature: sr.signature,
        signer: sr.signer,
        algorithm: sr.algorithm,
        hash: sr.hash,
        metadata: sr.metadata,
    }
}

/// The rows are exactly the persistent image of the given chain: one
/// block row per block in order, and every record of block `i` at the
/// record-table slot its block's interval assigns to it.
pub open spec fn rows_represent(b: Seq<ChainEntryView>, rv: ChainRowsView) -> bool {
    &&& rv.schema_version == SCHEMA_VERSION
    &&& rv.blocks.len() == b.len()
    &&& forall|i: int| 0 <= i < b.len() ==> #[trigger] rv.blocks[i] == block_row_of(b[i])
    &&& rv.records.len() == total_records_of(b)
    &&& forall|i: int, j: int|
        0 <= i < b.len() && 0 <= j < b[i].records.len() ==> #[trigger] rv.records[b[i].header.records_start
            + j] == record_row_of(
            b[i].records[j],
            (b[i].header.records_start + j) as u64,
            i as u64,
        )
}

/// The digests stored by the record rows in `[start, end)`, in order.
pub open spec fn row_hashes(records: Seq<RecordRowView>, start: int, end: int) -> Seq<Seq<u8>> {
    Seq::new((end - start) as nat, |j: int| records[start + j].hash)
}

/// The conditions a well-formed row set imposes on block row `i`; they
/// mirror the chain invariants, read off the rows alone.
pub open spec fn block_row_wf(rv: ChainRowsView, i: int) -> bool {
    let r = rv.blocks[i];
    &&& r.position == i
    &&& r.hash.len() == DIGEST_WIDTH
    &&& r.prev_hash.len() == DIGEST_WIDTH
    &&& r.merkle_root.len() == DIGEST_WIDTH
    &&& r.prev_hash == if i == 0 {
        zero_digest()
    } else {
        rv.blocks[i - 1].hash
    }
    &&& r.records_start == if i == 0 {
        0u64
    } else {
        rv.blocks[i - 1].records_end
    }
    &&& r.records_start <= r.records_end
    &&& r.records_end <= rv.records.len()
    &&& r.merkle_root == merkle_root_of(
        row_hashes(rv.records, r.records_start as int, r.records_end as int),
    )
    &&& r.hash == digest_of(
        header_canon(r.prev_hash, r.merkle_root, r.nonce, r.position, r.time_stamp),
    )
    &&& (i > 0 ==> r.time_stamp >= rv.blocks[i - 1].time_stamp)
    &&& forall|k: int|
        r.records_start <= k < r.records_end ==> (#[trigger] rv.records[k]).block_position == i
}

/// The conditions a well-formed row set imposes on record row `k`: its
/// offset is its slot, its digest has the fixed width, and its blob is
/// the canonical encoding of some record value.
pub open spec fn record_row_wf<R: Record>(r: RecordRowView, k: int) -> bool {
    &&& r.offset == k
    &&& r.hash.len() == DIGEST_WIDTH
    &&& exists|v: R| v.canon() == r.record_blob
}

/// A well-formed row set for record type `R`: the schema version
/// matches, every block row satisfies its invariants, every record row
/// decodes, and the block intervals cover the record table exactly.
pub open spec fn rows_wf<R: Record>(rv: ChainRowsView) -> bool {
    &&& rv.schema_version == SCHEMA_VERSION
    &&& forall|i: int| 0 <= i < rv.blocks.len() ==> #[trigger] block_row_wf(rv, i)
    &&& rv.records.len() == if rv.blocks.len() == 0 {
        0int
    } else {
        rv.blocks.last().records_end as int
    }
    &&& forall|k: int| 0 <= k < rv.records.len() ==> record_row_wf::<R>(#[trigger] rv.records[k], k)
}

} // verus!
