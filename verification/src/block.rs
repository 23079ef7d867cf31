//! Blocks and builders: the mutable batch of signed records destined for
//! one block, the committed block's header descriptor, and the
//! materialized block view with its rebuilt Merkle tree.

use vstd::prelude::*;

verus! {

use crate::data::DetailView;
use crate::data::Metadata;
use crate::data::Timestamp;
use crate::merkle::MerkleTree;
use crate::merkle::merkle_root_of;
use crate::record::Record;
use crate::record::Records;
use crate::record::SignedRecord;
use crate::record::SignedRecordView;
use crate::record::records_view;
use crate::record::duplicate_records;

/// An error inside block assembly or validation.
#[derive(Debug, Clone, Copy, PartialEq, Eq, Structural)]
pub struct BlockError {}

/// A half-open interval `[start, end)` into the chain's record table.
#[derive(Debug, Clone, Copy, PartialEq, Eq, Hash, Structural)]
pub struct BlockRange {
    pub start: u64,
    pub end: u64,
}

impl BlockRange {
    /// The interval `[start, end)`.
    pub fn new(start: u64, end: u64) -> (r: Self)
        requires
            start <= end,
        ensures
            r.start == start,
            r.end == end,
    {
        BlockRange { start, end }
    }

    /// The number of records the interval addresses.
    pub fn len(&self) -> (r: u64)
        requires
            self.start <= self.end,
        ensures
            r == self.end - self.start,
    {
        self.end - self.start
    }
}

/// The mathematical reading of a [`ChainedInstance`].
#[verifier::ext_equal]
pub ghost struct ChainedInstanceView {
    pub nonce: u64,
    pub position: u64,
    pub time_stamp: u64,
    pub hash: Seq<u8>,
    pub prev_hash: Seq<u8>,
    pub merkle_root: Seq<u8>,
    pub records_start: u64,
    pub records_end: u64,
}

/// The header descriptor of a committed block: its nonce, 0-based
/// position, timestamp, hash, the previous block's hash, the Merkle root
/// of its records, and the records' interval in the record table.
/// Immutable.
#[derive(Debug)]
pub struct ChainedInstance {
    nonce: u64,
    position: u64,
    time_stamp: Timestamp,
    hash: crate::crypto::Hash,
    prev_hash: crate::crypto::Hash,
    merkle_root: crate::crypto::Hash,
    records_range: BlockRange,
}

impl View for ChainedInstance {
    type V = ChainedInstanceView;

    closed spec fn view(&self) -> ChainedInstanceView {
        ChainedInstanceView {
            nonce: self.nonce,
            position: self.position,
            time_stamp: self.time_stamp.spec_secs(),
            hash: self.hash@,
            prev_hash: self.prev_hash@,
            merkle_root: self.merkle_root@,
            records_start: self.records_range.start,
            records_end: self.records_range.end,
        }
    }
}

impl Clone for ChainedInstance {
    fn clone(&self) -> (r: Self)
        ensures
            r@ == self@,
    {
        ChainedInstance {
            nonce: self.nonce,
            position: self.position,
            time_stamp: self.time_stamp,
            hash: self.hash.clone(),
            prev_hash: self.prev_hash.clone(),
            merkle_root: self.merkle_root.clone(),
            records_range: self.records_range,
        }
    }
}

impl ChainedInstance {
    /// Assembles a header descriptor from its parts.
    pub fn new(
        nonce: u64,
        position: u64,
        time_stamp: Timestamp,
        hash: crate::crypto::Hash,
        prev_hash: crate::crypto::Hash,
        merkle_root: crate::crypto::Hash,
        range: BlockRange,
    ) -> (r: Self)
        ensures
            r@ == (ChainedInstanceView {
                nonce,
                position,
                time_stamp: time_stamp.spec_secs(),
                hash: hash@,
                prev_hash: prev_hash@,
                merkle_root: merkle_root@,
                records_start: range.start,
                records_end: range.end,
            }),
    {
        Self { nonce, position, time_stamp, hash, prev_hash, merkle_root, records_range: range }
    }

    /// The block's own hash.
    pub fn hash(&self) -> (r: &crate::crypto::Hash)
        ensures
            r@ == self@.hash,
    {
        &self.hash
    }

    /// The previous block's hash (all zeroes for the first block).
    pub fn prev_hash(&self) -> (r: &crate::crypto::Hash)
        ensures
            r@ == self@.prev_hash,
    {
        &self.prev_hash
    }

    /// The Merkle root of the block's records.
    pub fn merkle_root(&self) -> (r: &crate::crypto::Hash)
        ensures
            r@ == self@.merkle_root,
    {
        &self.merkle_root
    }

    /// The block's timestamp.
    pub fn time_stamp(&self) -> (r: Timestamp)
        ensures
            r.spec_secs() == self@.time_stamp,
    {
        self.time_stamp
    }

    /// The nonce carried from the builder.
    pub fn nonce(&self) -> (r: u64)
        ensures
            r == self@.nonce,
    {
        self.nonce
    }

    /// The block's 0-based position in the chain.
    pub fn position(&self) -> (r: u64)
        ensures
            r == self@.position,
    {
        self.position
    }

    /// The block's interval in the record table.
    pub fn records_range(&self) -> (r: BlockRange)
        ensures
            r.start == self@.records_start,
            r.end == self@.records_end,
    {
        self.records_range
    }
}

/// The mathematical reading of an [`UnchainedInstance`].
#[verifier::ext_equal]
pub ghost struct UnchainedInstanceView {
    pub records: Seq<SignedRecordView>,
    pub metadata: Seq<DetailView>,
    pub nonce: u64,
}

/// A mutable ordered batch of signed records staged for the next block,
/// with block-level metadata and a caller-supplied nonce. Grows only by
/// push; never re-ordered, never deduplicated.
#[derive(Debug)]
pub struct UnchainedInstance<R: Record> {
    records: Vec<SignedRecord<R>>,
    metadata: Metadata,
    nonce: u64,
}

impl<R: Record> View for UnchainedInstance<R> {
    type V = UnchainedInstanceView;

    closed spec fn view(&self) -> UnchainedInstanceView {
        UnchainedInstanceView {
            records: records_view(self.records@),
            metadata: self.metadata@,
            nonce: self.nonce,
        }
    }
}

impl<R: Record> UnchainedInstance<R> {
    /// An empty builder with the given block metadata and nonce.
    pub fn new(metadata: Metadata, nonce: u64) -> (r: Self)
        ensures
            r@.records == Seq::<SignedRecordView>::empty(),
            r@.metadata == metadata@,
            r@.nonce == nonce,
    {
        let r = UnchainedInstance { records: Vec::new(), metadata, nonce };
        assert(r@.records =~= Seq::<SignedRecordView>::empty());
        r
    }

    /// Appends one signed record at the end of the batch. Never rejects:
    /// signature validity is the caller's concern at record construction.
    pub fn push(&mut self, record: SignedRecord<R>)
        ensures
            final(self)@.records == old(self)@.records.push(record@),
            final(self)@.metadata == old(self)@.metadata,
            final(self)@.nonce == old(self)@.nonce,
    {
        self.records.push(record);
        assert(self@.records =~= old(self)@.records.push(record@));
    }

    /// The staged records, in insertion order.
    pub fn records(&self) -> (r: Records<'_, R>)
        ensures
            r@ == self@.records,
    {
        Records::new_borrowed(&self.records)
    }

    /// The number of staged records.
    pub fn len(&self) -> (r: usize)
        ensures
            r == self@.records.len(),
    {
        self.records.len()
    }

    /// The builder's block-level metadata.
    pub fn metadata(&self) -> (r: &Metadata)
        ensures
            r@ == self@.metadata,
    {
        &self.metadata
    }

    /// The builder's nonce.
    pub fn nonce(&self) -> (r: u64)
        ensures
            r == self@.nonce,
    {
        self.nonce
    }
}

/// The digests stored in a sequence of signed records, in order: the
/// Merkle leaves the records commit to.
pub open spec fn record_hashes(records: Seq<SignedRecordView>) -> Seq<Seq<u8>> {
    Seq::new(records.len(), |i: int| records[i].hash)
}

/// The mathematical reading of a [`Block`].
#[verifier::ext_equal]
pub ghost struct BlockView {
    pub records: Seq<SignedRecordView>,
    pub merkle_root: Seq<u8>,
}

/// A materialized view of a committed block: its signed records, the
/// Merkle tree rebuilt over their digests, and that tree's root.
#[derive(Debug)]
pub struct Block<R: Record> {
    records: Vec<SignedRecord<R>>,
    merkle: MerkleTree,
    merkle_root: crate::crypto::Hash,
}

impl<R: Record> View for Block<R> {
    type V = BlockView;

    closed spec fn view(&self) -> BlockView {
        BlockView { records: records_view(self.records@), merkle_root: self.merkle_root@ }
    }
}

impl<R: Record> Block<R> {
    /// The block is well formed: the tree mirrors the records' digests
    /// in order, and the stored root is the tree's root over them.
    /// Constructors establish it and every method preserves it.
    pub closed spec fn wf(self) -> bool {
        self.merkle@ == record_hashes(records_view(self.records@)) && self.merkle_root@
            == merkle_root_of(self.merkle@)
    }

    /// An empty block under assembly.
    pub fn new() -> (r: Self)
        ensures
            r.wf(),
            r@.records == Seq::<SignedRecordView>::empty(),
            r@.merkle_root == merkle_root_of(Seq::<Seq<u8>>::empty()),
    {
        let merkle = MerkleTree::new();
        let merkle_root = merkle.root();
        let r = Block { records: Vec::new(), merkle, merkle_root };
        proof {
            assert(records_view(r.records@) =~= Seq::<SignedRecordView>::empty());
            assert(r.merkle@ =~= record_hashes(records_view(r.records@)));
        }
        r
    }

    /// The Merkle root over the block's records.
    pub fn merkle_root(&self) -> (r: &crate::crypto::Hash)
        requires
            self.wf(),
        ensures
            r@ == self@.merkle_root,
            r@ == merkle_root_of(record_hashes(self@.records)),
    {
        &self.merkle_root
    }

    /// Appends one record: its digest becomes the next Merkle leaf and
    /// the stored root is recomputed over the extended sequence.
    pub fn push(&mut self, item: SignedRecord<R>) -> (r: Result<(), BlockError>)
        requires
            old(self).wf(),
        ensures
            r is Ok,
            final(self).wf(),
            final(self)@.records == old(self)@.records.push(item@),
            final(self)@.merkle_root == merkle_root_of(
                record_hashes(old(self)@.records.push(item@)),
            ),
    {
        let hash = item.hash().clone();
        self.merkle.push(&hash);
        self.records.push(item);
        self.merkle_root = self.merkle.root();
        proof {
            assert(records_view(self.records@) =~= records_view(old(self).records@).push(item@));
            assert(self.merkle@ =~= record_hashes(records_view(self.records@)));
        }
        Ok(())
    }

    /// The block's records, in order.
    pub fn records(&self) -> (r: &Vec<SignedRecord<R>>)
        ensures
            records_view(r@) == self@.records,
    {
        &self.records
    }

    /// The number of records in the block.
    pub fn len(&self) -> (r: usize)
        ensures
            r == self@.records.len(),
    {
        self.records.len()
    }
}

impl<R: Record> Block<R> {
    /// A block materialized from the given records: the Merkle tree is
    /// rebuilt over their digests in order.
    pub fn from_records(records: Vec<SignedRecord<R>>) -> (r: Self)
        ensures
            r.wf(),
            r@.records == records_view(records@),
            r@.merkle_root == merkle_root_of(record_hashes(records_view(records@))),
    {
        let mut leaves: Vec<crate::crypto::Hash> = Vec::new();
        let mut i: usize = 0;
        while i < records.len()
            invariant
                i <= records@.len(),
                leaves@.len() == i,
                forall|j: int| 0 <= j < i ==> leaves@[j]@ == records@[j]@.hash,
            decreases records@.len() - i,
        {
            leaves.push(records[i].hash().clone());
            i = i + 1;
        }
        let merkle = MerkleTree::from_leaves(leaves);
        let merkle_root = merkle.root();
        let r = Block { records, merkle, merkle_root };
        proof {
            assert(r.merkle@ =~= record_hashes(records_view(r.records@)));
        }
        r
    }

    /// Whether every record's signature re-verifies and the rebuilt root
    /// matches the given expected root.
    pub open spec fn valid_against(self, expected_root: Seq<u8>) -> bool {
        (forall|i: int|
            0 <= i < self@.records.len() ==> crate::crypto::ed25519_verifies(
                self@.records[i].record_canon,
                self@.records[i].signature,
                self@.records[i].signer,
            )) && self@.merkle_root == expected_root
    }

    /// Re-verifies each record's signature and compares the rebuilt
    /// Merkle root with the header's: `Ok(true)` exactly when every
    /// check passes.
    pub fn validate(&self, expected: &ChainedInstance) -> (r: Result<bool, BlockError>)
        requires
            self.wf(),
        ensures
            r matches Ok(b) && b == self.valid_against(expected@.merkle_root),
    {
        self.validate_root(expected.merkle_root())
    }

    /// Re-verifies each record's signature and compares the rebuilt
    /// Merkle root with the root of the builder's staged record digests:
    /// `Ok(true)` exactly when every check passes.
    pub fn validate_unchained(&self, expected: &UnchainedInstance<R>) -> (r: Result<
        bool,
        BlockError,
    >)
        requires
            self.wf(),
        ensures
            r matches Ok(b) && b == self.valid_against(
                merkle_root_of(record_hashes(expected@.records)),
            ),
    {
        let mut merkle = MerkleTree::new();
        let records = expected.records();
        let slice = records.as_slice();
        let mut i: usize = 0;
        while i < slice.len()
            invariant
                i <= slice@.len(),
                slice@.len() == expected@.records.len(),
                forall|j: int| 0 <= j < slice@.len() ==> slice@[j]@ == expected@.records[j],
                merkle@ == record_hashes(expected@.records).subrange(0, i as int),
            decreases slice@.len() - i,
        {
            merkle.push(slice[i].hash());
            i = i + 1;
            assert(merkle@ =~= record_hashes(expected@.records).subrange(0, i as int));
        }
        assert(merkle@ =~= record_hashes(expected@.records));
        let root = merkle.root();
        self.validate_root(&root)
    }

    /// The shared validation core: all signatures, then the root.
    fn validate_root(&self, expected_root: &crate::crypto::Hash) -> (r: Result<bool, BlockError>)
        ensures
            r matches Ok(b) && b == self.valid_against(expected_root@),
    {
        let ghost rv = self@.records;
        let mut i: usize = 0;
        while i < self.records.len()
            invariant
                i <= self.records@.len(),
                rv == self@.records,
                rv == records_view(self.records@),
                forall|j: int|
                    0 <= j < i ==> crate::crypto::ed25519_verifies(
                        #[trigger] rv[j].record_canon,
                        rv[j].signature,
                        rv[j].signer,
                    ),
            decreases self.records@.len() - i,
        {
            if self.records[i].verify().is_err() {
                proof {
                    assert(self.records@[i as int]@ == rv[i as int]);
                    assert(!crate::crypto::ed25519_verifies(
                        rv[i as int].record_canon,
                        rv[i as int].signature,
                        rv[i as int].signer,
                    ));
                }
                return Ok(false);
            }
            proof {
                assert(self.records@[i as int]@ == rv[i as int]);
            }
            i = i + 1;
        }
        Ok(self.merkle_root.equals(expected_root))
    }

    /// A copy of the block with an identical view.
    pub fn duplicate(&self) -> (r: Self)
        requires
            self.wf(),
        ensures
            r.wf(),
            r@ == self@,
    {
        let r = Block {
            records: duplicate_records(&self.records),
            merkle: self.merkle.clone(),
            merkle_root: self.merkle_root.clone(),
        };
        proof {
            assert(record_hashes(records_view(r.records@)) =~= record_hashes(
                records_view(self.records@),
            ));
        }
        r
    }
}

/// Validation agrees with the builder: a materialized block whose
/// Merkle root is the expected one is valid exactly when every one of
/// its records' signatures verifies. Together with the append and
/// retrieval contracts this says a freshly appended block of sanctioned
/// records validates against its own header.
pub proof fn lemma_validate_equals_builder<R: Record>(b: Block<R>, expected_root: Seq<u8>)
    requires
        b@.merkle_root == expected_root,
    ensures
        b.valid_against(expected_root) <==> (forall|i: int|
            0 <= i < b@.records.len() ==> crate::crypto::ed25519_verifies(
                (#[trigger] b@.records[i]).record_canon,
                b@.records[i].signature,
                b@.records[i].signer,
            )),
{
}

/// An empty batch commits to the all-zero digest: the Merkle root over
/// no record digests is the zero digest.
pub proof fn lemma_empty_batch_root()
    ensures
        merkle_root_of(record_hashes(Seq::<SignedRecordView>::empty())) == crate::crypto::zero_digest(),
{
    assert(record_hashes(Seq::<SignedRecordView>::empty()) =~= Seq::<Seq<u8>>::empty());
}

} // verus!
