//! The chain: an ordered, single-writer log of blocks. Every committed
//! block carries its 0-based position, the hash of its predecessor, the
//! Merkle root of its records, and a contiguous interval in the record
//! table; the whole chain satisfies the linkage invariants stated by
//! [`chain_wf`].

use vstd::prelude::*;

verus! {

use crate::block::Block;
use crate::block::BlockRange;
use crate::block::ChainedInstance;
use crate::block::ChainedInstanceView;
use crate::block::UnchainedInstance;
use crate::block::record_hashes;
use crate::codec::u64_le;
use crate::codec::push_u64_le;
use crate::crypto::digest_of;
use crate::crypto::hash_bytes;
use crate::crypto::zero_digest;
use crate::data::DetailView;
use crate::data::Metadata;
use crate::data::Timestamp;
use crate::merkle::MerkleTree;
use crate::merkle::merkle_root_of;
use crate::record::Record;
use crate::record::SignedRecord;
use crate::record::SignedRecordView;
use crate::record::records_view;
use crate::record::duplicate_records;
use crate::crypto::DigitalSignature;
use crate::crypto::PublicKey;
use crate::store::BlockRow;
use crate::store::ChainRows;
use crate::store::RecordRow;
use crate::store::SCHEMA_VERSION;
use crate::store::block_row_of;
use crate::store::block_row_wf;
use crate::store::record_row_of;
use crate::store::record_row_wf;
use crate::store::row_hashes;
use crate::store::rows_represent;
use crate::store::rows_wf;
use crate::crypto::DIGEST_WIDTH;
use crate::crypto::bytes_eq;
use crate::crypto::clone_bytes;

/// An error from the chain store.
#[derive(Debug, Clone, Copy, PartialEq, Eq, Structural)]
pub enum ChainError {
    /// The requested position is outside `[0, len())`.
    NotFound,
    /// The underlying storage failed.
    Storage,
    /// The stored schema version does not match the library's.
    IncompatibleVersion,
    /// An internal invariant check failed.
    Invariant,
    /// A stored record could not be decoded.
    Codec,
}

/// The canonical bytes a block header is hashed over: the previous
/// block's hash, the Merkle root, then nonce, position and timestamp in
/// little-endian form.
pub open spec fn header_canon(
    prev_hash: Seq<u8>,
    merkle_root: Seq<u8>,
    nonce: u64,
    position: u64,
    time_stamp: u64,
) -> Seq<u8> {
    prev_hash + merkle_root + u64_le(nonce) + u64_le(position) + u64_le(time_stamp)
}

/// The hash a well-formed header carries, as a function of its view.
pub open spec fn header_hash_of(h: ChainedInstanceView) -> Seq<u8> {
    digest_of(header_canon(h.prev_hash, h.merkle_root, h.nonce, h.position, h.time_stamp))
}

/// The mathematical reading of one committed block: its header, its
/// records and the block-level metadata it was built with.
#[verifier::ext_equal]
pub ghost struct ChainEntryView {
    pub header: ChainedInstanceView,
    pub records: Seq<SignedRecordView>,
    pub metadata: Seq<DetailView>,
}

/// One committed block held by the chain.
#[derive(Debug)]
pub struct ChainEntry<R: Record> {
    header: ChainedInstance,
    records: Vec<SignedRecord<R>>,
    metadata: Metadata,
}

impl<R: Record> View for ChainEntry<R> {
    type V = ChainEntryView;

    closed spec fn view(&self) -> ChainEntryView {
        ChainEntryView {
            header: self.header@,
            records: records_view(self.records@),
            metadata: self.metadata@,
        }
    }
}

/// The conditions a well-formed chain imposes on its block at index `i`:
/// the position matches the index; the previous hash is the predecessor's
/// hash (all zeroes for the first block); the Merkle root commits to the
/// block's record digests in order; the header hash is the digest of the
/// header's canonical bytes; the record interval continues the
/// predecessor's and has exactly as many slots as the block has records;
/// and timestamps never decrease.
pub open spec fn entry_wf(b: Seq<ChainEntryView>, i: int) -> bool {
    let e = b[i];
    &&& e.header.position == i
    &&& e.header.prev_hash == if i == 0 {
        zero_digest()
    } else {
        b[i - 1].header.hash
    }
    &&& e.header.merkle_root == merkle_root_of(record_hashes(e.records))
    &&& e.header.hash == header_hash_of(e.header)
    &&& e.header.records_start == if i == 0 {
        0u64
    } else {
        b[i - 1].header.records_end
    }
    &&& e.header.records_start <= e.header.records_end
    &&& e.header.records_end - e.header.records_start == e.records.len()
    &&& i > 0 ==> e.header.time_stamp >= b[i - 1].header.time_stamp
}

/// A well-formed chain: every block satisfies [`entry_wf`].
pub open spec fn chain_wf(b: Seq<ChainEntryView>) -> bool {
    forall|i: int| 0 <= i < b.len() ==> #[trigger] entry_wf(b, i)
}

/// The total number of record slots a chain has handed out: the end of
/// the last block's interval.
pub open spec fn total_records_of(b: Seq<ChainEntryView>) -> u64 {
    if b.len() == 0 {
        0u64
    } else {
        b.last().header.records_end
    }
}

/// Chain linkage: in every well-formed chain, each block past the first
/// records the hash of the block before it.
pub proof fn lemma_chain_linkage(b: Seq<ChainEntryView>, p: int)
    requires
        chain_wf(b),
        0 < p < b.len(),
    ensures
        b[p].header.prev_hash == b[p - 1].header.hash,
{
    assert(entry_wf(b, p));
}

/// Positions are dense: in a well-formed chain of length `n` the
/// positions are exactly `0, 1, …, n - 1`.
pub proof fn lemma_positions_dense(b: Seq<ChainEntryView>, p: int)
    requires
        chain_wf(b),
        0 <= p < b.len(),
    ensures
        b[p].header.position == p,
{
    assert(entry_wf(b, p));
}

/// Record intervals of consecutive blocks are adjacent and
/// non-overlapping, and their union starts at zero: together they cover
/// `[0, total_records)`.
pub proof fn lemma_ranges_contiguous(b: Seq<ChainEntryView>, p: int)
    requires
        chain_wf(b),
        0 <= p < b.len(),
    ensures
        b[p].header.records_start == if p == 0 {
            0u64
        } else {
            b[p - 1].header.records_end
        },
        b[p].header.records_start <= b[p].header.records_end,
{
    assert(entry_wf(b, p));
}

/// Every block's record interval ends at or before the chain's total
/// record count.
pub proof fn lemma_range_end_bounded(b: Seq<ChainEntryView>, i: int)
    requires
        chain_wf(b),
        0 <= i < b.len(),
    ensures
        b[i].header.records_end <= total_records_of(b),
    decreases b.len() - i,
{
    assert(entry_wf(b, i));
    if i < b.len() - 1 {
        assert(entry_wf(b, i + 1));
        lemma_range_end_bounded(b, i + 1);
    }
}

/// Record intervals are ordered as their blocks are: an earlier block's
/// interval ends at or before a later block's begins.
pub proof fn lemma_range_ordered(b: Seq<ChainEntryView>, j: int, i: int)
    requires
        chain_wf(b),
        0 <= j < i < b.len(),
    ensures
        b[j].header.records_end <= b[i].header.records_start,
    decreases i - j,
{
    assert(entry_wf(b, i));
    if j < i - 1 {
        lemma_range_ordered(b, j, i - 1);
        assert(entry_wf(b, i - 1));
    }
}

/// The persistent ordered log of blocks: a single writer appends whole
/// batches; readers retrieve any committed block. All the invariants of
/// [`chain_wf`] hold at every step.
#[derive(Debug)]
pub struct Chain<R: Record> {
    entries: Vec<ChainEntry<R>>,
    total_records: u64,
}

/// The views of a sequence of chain entries, in order.
pub open spec fn entries_view<R: Record>(s: Seq<ChainEntry<R>>) -> Seq<ChainEntryView> {
    Seq::new(s.len(), |i: int| s[i]@)
}

impl<R: Record> View for Chain<R> {
    type V = Seq<ChainEntryView>;

    closed spec fn view(&self) -> Seq<ChainEntryView> {
        entries_view(self.entries@)
    }
}

impl<R: Record> Chain<R> {
    /// The chain is well formed and its record counter matches the
    /// handed-out intervals. Constructors establish this and every
    /// method preserves it.
    pub closed spec fn wf(&self) -> bool {
        chain_wf(self@) && self.total_records == total_records_of(self@)
    }

    /// An empty chain.
    pub fn new() -> (r: Self)
        ensures
            r.wf(),
            r@ == Seq::<ChainEntryView>::empty(),
    {
        let r = Chain { entries: Vec::new(), total_records: 0 };
        assert(r@ =~= Seq::<ChainEntryView>::empty());
        r
    }

    /// The number of committed blocks.
    pub fn len(&self) -> (r: u64)
        ensures
            r == self@.len(),
    {
        self.entries.len() as u64
    }

    /// The committed header at the given position. `NotFound` exactly
    /// when the position is outside `[0, len())`.
    pub fn header_at(&self, position: u64) -> (r: Result<ChainedInstance, ChainError>)
        ensures
            r is Ok <==> position < self@.len(),
            r matches Err(e) ==> e == ChainError::NotFound,
            r matches Ok(h) ==> h@ == self@[position as int].header,
    {
        if position >= self.entries.len() as u64 {
            return Err(ChainError::NotFound);
        }
        Ok(self.entries[position as usize].header.clone())
    }

    /// The latest committed header, or `None` for an empty chain.
    pub fn tip(&self) -> (r: Option<ChainedInstance>)
        ensures
            self@.len() == 0 ==> r is None,
            self@.len() > 0 ==> (r matches Some(h) && h@ == self@.last().header),
    {
        if self.entries.len() == 0 {
            None
        } else {
            Some(self.entries[self.entries.len() - 1].header.clone())
        }
    }
}

impl<R: Record> Chain<R> {
    /// Atomically appends the builder's records as a new block: the new
    /// block continues the hash chain at the next position, commits to
    /// the batch with its Merkle root, and takes the record slots right
    /// after those already handed out. On error the chain is unchanged.
    /// Fails only when the record table would overflow its index space.
    pub fn append(&mut self, builder: &UnchainedInstance<R>) -> (r: Result<
        ChainedInstance,
        ChainError,
    >)
        requires
            old(self).wf(),
        ensures
            final(self).wf(),
            r is Err ==> final(self)@ == old(self)@,
            r matches Err(e) ==> e == ChainError::Invariant,
            r is Ok <==> total_records_of(old(self)@) + builder@.records.len() <= u64::MAX,
            r matches Ok(h) ==> {
                &&& final(self)@.len() == old(self)@.len() + 1
                &&& final(self)@.subrange(0, old(self)@.len() as int) == old(self)@
                &&& final(self)@.last().records == builder@.records
                &&& final(self)@.last().metadata == builder@.metadata
                &&& h@ == final(self)@.last().header
                &&& h@.position == old(self)@.len()
                &&& h@.nonce == builder@.nonce
                &&& h@.merkle_root == merkle_root_of(record_hashes(builder@.records))
                &&& h@.prev_hash == if old(self)@.len() == 0 {
                    zero_digest()
                } else {
                    old(self)@.last().header.hash
                }
                &&& h@.records_start == total_records_of(old(self)@)
                &&& h@.records_end == total_records_of(old(self)@) + builder@.records.len()
            },
    {
        let ghost old_view = self@;
        let batch_len = builder.len() as u64;
        if batch_len > u64::MAX - self.total_records {
            return Err(ChainError::Invariant);
        }
        let start = self.total_records;
        let end = start + batch_len;
        let position = self.entries.len() as u64;
        let n = self.entries.len();
        let prev_hash = if n == 0 {
            crate::crypto::Hash::zero()
        } else {
            self.entries[n - 1].header.hash().clone()
        };
        let recs = duplicate_records(builder.records().unwrap());
        proof {
            assert(records_view(recs@) =~= builder@.records);
        }
        let root = merkle_root_of_records(&recs);
        let now = now_secs();
        let ts = if n > 0 {
            let last_ts = self.entries[n - 1].header.time_stamp().secs();
            if last_ts > now {
                last_ts
            } else {
                now
            }
        } else {
            now
        };
        let nonce = builder.nonce();
        let hash = compute_header_hash(&prev_hash, &root, nonce, position, ts);
        let header = ChainedInstance::new(
            nonce,
            position,
            Timestamp::from_secs(ts),
            hash,
            prev_hash,
            root,
            BlockRange::new(start, end),
        );
        let entry = ChainEntry {
            header: header.clone(),
            records: recs,
            metadata: builder.metadata().clone(),
        };
        self.entries.push(entry);
        self.total_records = end;
        proof {
            let new_view = self@;
            assert(new_view =~= old_view.push(
                ChainEntryView {
                    header: header@,
                    records: builder@.records,
                    metadata: builder@.metadata,
                },
            ));
            let m = old_view.len() as int;
            assert forall|i: int| 0 <= i < new_view.len() implies entry_wf(new_view, i) by {
                if i < m {
                    assert(entry_wf(old_view, i));
                    assert(new_view[i] == old_view[i]);
                    if i > 0 {
                        assert(new_view[i - 1] == old_view[i - 1]);
                    }
                } else {
                    if m > 0 {
                        assert(entry_wf(old_view, m - 1));
                        assert(new_view[m - 1] == old_view[m - 1]);
                    }
                }
            }
            assert(new_view.subrange(0, m) =~= old_view);
        }
        Ok(header)
    }

    /// Materializes the block at the given position: its records in
    /// order and the Merkle tree rebuilt over their digests. `NotFound`
    /// exactly when the position is outside `[0, len())`.
    pub fn block_at(&self, position: u64) -> (r: Result<Block<R>, ChainError>)
        requires
            self.wf(),
        ensures
            r is Ok <==> position < self@.len(),
            r matches Err(e) ==> e == ChainError::NotFound,
            r matches Ok(b) ==> {
                &&& b.wf()
                &&& b@.records == self@[position as int].records
                &&& b@.merkle_root == self@[position as int].header.merkle_root
            },
    {
        if position >= self.entries.len() as u64 {
            return Err(ChainError::NotFound);
        }
        let idx = position as usize;
        let recs = duplicate_records(&self.entries[idx].records);
        proof {
            assert(records_view(recs@) =~= self@[position as int].records);
            assert(entry_wf(self@, position as int));
        }
        let b = Block::from_records(recs);
        Ok(b)
    }
}


impl<R: Record> Chain<R> {
    /// The chain's full persistent image: one block row per block in
    /// order and one record row per stored record, every interval filled
    /// exactly. The rows are well formed and re-materialize this chain.
    pub fn export_rows(&self) -> (r: ChainRows)
        requires
            self.wf(),
        ensures
            rows_represent(self@, r@),
            rows_wf::<R>(r@),
    {
        let mut blocks: Vec<BlockRow> = Vec::new();
        let mut records: Vec<RecordRow> = Vec::new();
        let n = self.entries.len();
        let mut i: usize = 0;
        while i < n
            invariant
                self.wf(),
                n == self.entries@.len(),
                i <= n,
                blocks@.len() == i,
                forall|j: int| 0 <= j < i ==> (#[trigger] blocks@[j])@ == block_row_of(self@[j]),
                forall|j: int|
                    0 <= j < i ==> (#[trigger] blocks@[j])@.hash.len() == DIGEST_WIDTH
                        && blocks@[j]@.prev_hash.len() == DIGEST_WIDTH && blocks@[j]@.merkle_root.len()
                        == DIGEST_WIDTH,
                records@.len() == if i == 0 {
                    0int
                } else {
                    self@[i - 1].header.records_end as int
                },
                forall|j: int, l: int|
                    0 <= j < i && 0 <= l < self@[j].records.len() ==> (#[trigger] records@[
                    self@[j].header.records_start + l])@ == record_row_of(
                        self@[j].records[l],
                        (self@[j].header.records_start + l) as u64,
                        j as u64,
                    ),
                forall|k: int|
                    0 <= k < records@.len() ==> record_row_wf::<R>((#[trigger] records@[k])@, k),
            decreases n - i,
        {
            proof {
                assert(entry_wf(self@, i as int));
                if i > 0 {
                    assert(entry_wf(self@, i as int - 1));
                }
                assert(self.entries@[i as int]@ == self@[i as int]);
            }
            let entry = &self.entries[i];
            let header = &entry.header;
            let range = header.records_range();
            let hash_ref = header.hash();
            let prev_ref = header.prev_hash();
            let root_ref = header.merkle_root();
            proof {
                use_type_invariant(hash_ref);
                use_type_invariant(prev_ref);
                use_type_invariant(root_ref);
            }
            blocks.push(
                BlockRow {
                    position: header.position(),
                    nonce: header.nonce(),
                    time_stamp: header.time_stamp().secs(),
                    hash: clone_bytes(hash_ref.as_bytes()),
                    prev_hash: clone_bytes(prev_ref.as_bytes()),
                    merkle_root: clone_bytes(root_ref.as_bytes()),
                    records_start: range.start,
                    records_end: range.end,
                    metadata: entry.metadata.clone(),
                },
            );
            let ghost start = self@[i as int].header.records_start as int;
            let m = entry.records.len();
            let mut l: usize = 0;
            while l < m
                invariant
                    self.wf(),
                    n == self.entries@.len(),
                    i < n,
                    *entry == self.entries@[i as int],
                    *header == entry.header,
                    self.entries@[i as int]@ == self@[i as int],
                    m == entry.records@.len(),
                    m == self@[i as int].records.len(),
                    l <= m,
                    start == self@[i as int].header.records_start as int,
                    records@.len() == start + l,
                    forall|j: int, l2: int|
                        0 <= j < i && 0 <= l2 < self@[j].records.len() ==> (#[trigger] records@[
                        self@[j].header.records_start + l2])@ == record_row_of(
                            self@[j].records[l2],
                            (self@[j].header.records_start + l2) as u64,
                            j as u64,
                        ),
                    forall|l2: int|
                        0 <= l2 < l ==> (#[trigger] records@[start + l2])@ == record_row_of(
                            self@[i as int].records[l2],
                            (start + l2) as u64,
                            i as u64,
                        ),
                    forall|k: int|
                        0 <= k < records@.len() ==> record_row_wf::<R>((#[trigger] records@[k])@, k),
                decreases m - l,
            {
                proof {
                    assert(entry_wf(self@, i as int));
                }
                let sr = &entry.records[l];
                let off = records.len() as u64;
                let rec_ref = sr.record();
                let blob = rec_ref.canonical_bytes();
                let sr_hash = sr.hash();
                proof {
                    use_type_invariant(sr_hash);
                    assert(sr@ == self@[i as int].records[l as int]);
                    assert(exists|v: R| v.canon() == blob@);
                }
                let row = RecordRow {
                    offset: off,
                    block_position: header.position(),
                    record_blob: blob,
                    signature: clone_bytes(sr.signature().as_bytes()),
                    signer: clone_bytes(sr.signer().as_bytes()),
                    signer_algorithm: sr.keypair_algorithm(),
                    hash: clone_bytes(sr_hash.as_bytes()),
                    metadata: sr.metadata().clone(),
                };
                proof {
                    assert(row@.block_position == i as u64);
                    assert(row@ == record_row_of(
                        self@[i as int].records[l as int],
                        (start + l) as u64,
                        i as u64,
                    ));
                }
                records.push(row);
                proof {
                    assert(records@.last()@ == record_row_of(
                        self@[i as int].records[l as int],
                        (start + l) as u64,
                        i as u64,
                    ));
                    assert forall|j: int, l2: int|
                        0 <= j < i && 0 <= l2 < self@[j].records.len() implies (#[trigger] records@[
                    self@[j].header.records_start + l2])@ == record_row_of(
                        self@[j].records[l2],
                        (self@[j].header.records_start + l2) as u64,
                        j as u64,
                    ) by {
                        lemma_range_ordered(self@, j, i as int);
                        assert(entry_wf(self@, j));
                        assert(self@[j].header.records_start + l2 < records@.len() - 1);
                    }
                }
                l = l + 1;
            }
            i = i + 1;
        }
        let rows = ChainRows { schema_version: SCHEMA_VERSION, blocks, records };
        proof {
            let rv = rows@;
            let b = self@;
            assert forall|j: int| 0 <= j < b.len() implies rv.blocks[j] == block_row_of(b[j]) by {
                assert(blocks@[j]@ == block_row_of(b[j]));
            }
            assert(rv.records.len() == total_records_of(b));
            assert forall|j: int, l: int|
                0 <= j < b.len() && 0 <= l < b[j].records.len() implies rv.records[b[j].header.records_start
                + l] == record_row_of(
                b[j].records[l],
                (b[j].header.records_start + l) as u64,
                j as u64,
            ) by {
                assert(entry_wf(b, j));
                lemma_range_end_bounded(b, j);
                let t = b[j].header.records_start + l;
                assert(records@[t]@ == record_row_of(
                    b[j].records[l],
                    t as u64,
                    j as u64,
                ));
                assert(rv.records[t] == records@[t]@);
            }
            assert(rows_represent(b, rv));
            assert forall|j: int| 0 <= j < rv.blocks.len() implies block_row_wf(rv, j) by {
                assert(entry_wf(b, j));
                if j > 0 {
                    assert(entry_wf(b, j - 1));
                }
                lemma_range_end_bounded(b, j);
                let e = b[j];
                let st = e.header.records_start as int;
                let en = e.header.records_end as int;
                assert forall|l: int| 0 <= l < en - st implies row_hashes(rv.records, st, en)[l]
                    == record_hashes(e.records)[l] by {
                    assert(rv.records[st + l] == record_row_of(
                        e.records[l],
                        (st + l) as u64,
                        j as u64,
                    ));
                }
                assert(row_hashes(rv.records, st, en) =~= record_hashes(e.records));
                assert forall|k: int| st <= k < en implies (#[trigger] rv.records[k]).block_position
                    == j by {
                    let l = k - st;
                    assert(rv.records[st + l] == record_row_of(
                        e.records[l],
                        (st + l) as u64,
                        j as u64,
                    ));
                }
            }
            assert forall|k: int| 0 <= k < rv.records.len() implies record_row_wf::<R>(
                #[trigger] rv.records[k],
                k,
            ) by {
                assert(record_row_wf::<R>(records@[k]@, k));
            }
            assert(rows_wf::<R>(rv));
        }
        rows
    }
}


impl<R: Record> Chain<R> {
    /// Re-materializes a chain from its persistent rows, validating the
    /// schema version and every chain invariant on the way. Succeeds on
    /// exactly the well-formed row sets; the resulting chain is well
    /// formed and the rows are its image. A version mismatch is reported
    /// as such; tampered record blobs that still decode are accepted
    /// here and left for `validate` to reject.
    pub fn import_rows(rows: &ChainRows) -> (r: Result<Chain<R>, ChainError>)
        ensures
            r is Ok <==> rows_wf::<R>(rows@),
            r matches Ok(c) ==> c.wf() && rows_represent(c@, rows@),
    {
        let ghost rv = rows@;
        if rows.schema_version != SCHEMA_VERSION {
            return Err(ChainError::IncompatibleVersion);
        }
        let nblocks = rows.blocks.len();
        let nrecords = rows.records.len();
        let mut entries: Vec<ChainEntry<R>> = Vec::new();
        let mut rec_idx: usize = 0;
        let mut i: usize = 0;
        while i < nblocks
            invariant
                rv == rows@,
                rv.schema_version == SCHEMA_VERSION,
                nblocks == rv.blocks.len(),
                nrecords == rv.records.len(),
                i <= nblocks,
                entries@.len() == i,
                chain_wf(entries_view(entries@)),
                forall|j: int|
                    0 <= j < i ==> #[trigger] rv.blocks[j] == block_row_of(
                        entries_view(entries@)[j],
                    ),
                forall|j: int, l: int|
                    0 <= j < i && 0 <= l < entries_view(entries@)[j].records.len()
                        ==> #[trigger] rv.records[entries_view(entries@)[j].header.records_start
                        + l] == record_row_of(
                        entries_view(entries@)[j].records[l],
                        (entries_view(entries@)[j].header.records_start + l) as u64,
                        j as u64,
                    ),
                rec_idx == if i == 0 {
                    0int
                } else {
                    rv.blocks[i - 1].records_end as int
                },
                rec_idx <= nrecords,
                forall|j: int| 0 <= j < i ==> #[trigger] block_row_wf(rv, j),
                forall|t: int| 0 <= t < rec_idx ==> record_row_wf::<R>(#[trigger] rv.records[t], t),
            decreases nblocks - i,
        {
            let ghost old_entries = entries_view(entries@);
            let br = &rows.blocks[i];
            proof {
                assert(br@ == rv.blocks[i as int]);
            }
            if br.position != i as u64 {
                proof {
                    assert(!block_row_wf(rv, i as int));
                }
                return Err(ChainError::Invariant);
            }
            if br.hash.len() != DIGEST_WIDTH || br.prev_hash.len() != DIGEST_WIDTH
                || br.merkle_root.len() != DIGEST_WIDTH {
                proof {
                    assert(!block_row_wf(rv, i as int));
                }
                return Err(ChainError::Invariant);
            }
            if i == 0 {
                let zero = crate::crypto::Hash::zero();
                if !bytes_eq(&br.prev_hash, zero.as_bytes()) {
                    proof {
                        assert(!block_row_wf(rv, i as int));
                    }
                    return Err(ChainError::Invariant);
                }
            } else {
                if !bytes_eq(&br.prev_hash, &rows.blocks[i - 1].hash) {
                    proof {
                        assert(rows.blocks@[i as int - 1]@ == rv.blocks[i as int - 1]);
                        assert(!block_row_wf(rv, i as int));
                    }
                    return Err(ChainError::Invariant);
                }
            }
            let expected_start: u64 = if i == 0 {
                0
            } else {
                rows.blocks[i - 1].records_end
            };
            proof {
                if i > 0 {
                    assert(rows.blocks@[i as int - 1]@ == rv.blocks[i as int - 1]);
                }
            }
            if br.records_start != expected_start || br.records_end < br.records_start
                || br.records_end > nrecords as u64 {
                proof {
                    assert(!block_row_wf(rv, i as int));
                }
                return Err(ChainError::Invariant);
            }
            if i > 0 && br.time_stamp < rows.blocks[i - 1].time_stamp {
                proof {
                    assert(rows.blocks@[i as int - 1]@ == rv.blocks[i as int - 1]);
                    assert(!block_row_wf(rv, i as int));
                }
                return Err(ChainError::Invariant);
            }
            let start_usize = rec_idx;
            let end_usize = br.records_end as usize;
            proof {
                assert(start_usize == br.records_start as int);
            }
            let mut recs: Vec<SignedRecord<R>> = Vec::new();
            let mut k: usize = start_usize;
            while k < end_usize
                invariant
                    rv == rows@,
                    nrecords == rv.records.len(),
                    i < nblocks,
                    nblocks == rv.blocks.len(),
                    *br == rows.blocks@[i as int],
                    br@ == rv.blocks[i as int],
                    start_usize == br.records_start as int,
                    end_usize == br.records_end as int,
                    end_usize <= nrecords,
                    start_usize <= k <= end_usize,
                    recs@.len() == k - start_usize,
                    forall|l: int|
                        0 <= l < recs@.len() ==> #[trigger] rv.records[start_usize + l]
                            == record_row_of(
                            records_view(recs@)[l],
                            (start_usize + l) as u64,
                            i as u64,
                        ),
                    forall|t: int|
                        start_usize <= t < k ==> record_row_wf::<R>(#[trigger] rv.records[t], t),
                decreases end_usize - k,
            {
                let rr = &rows.records[k];
                proof {
                    assert(rr@ == rv.records[k as int]);
                }
                if rr.offset != k as u64 || rr.hash.len() != DIGEST_WIDTH {
                    proof {
                        assert(!record_row_wf::<R>(rv.records[k as int], k as int));
                    }
                    return Err(ChainError::Invariant);
                }
                if rr.block_position != i as u64 {
                    proof {
                        assert(!block_row_wf(rv, i as int));
                    }
                    return Err(ChainError::Invariant);
                }
                let value = match R::from_canonical(&rr.record_blob) {
                    Some(v) => v,
                    None => {
                        proof {
                            assert(!record_row_wf::<R>(rv.records[k as int], k as int));
                        }
                        return Err(ChainError::Codec);
                    },
                };
                let sr = SignedRecord::new(
                    value,
                    DigitalSignature::from_bytes(clone_bytes(&rr.signature)),
                    PublicKey::from_bytes(clone_bytes(&rr.signer), rr.signer_algorithm),
                    crate::crypto::Hash::from_bytes(clone_bytes(&rr.hash)),
                    rr.metadata.clone(),
                );
                recs.push(sr);
                proof {
                    assert(records_view(recs@)[k - start_usize] == sr@);
                    assert(rv.records[k as int] == record_row_of(sr@, k as u64, i as u64));
                    assert(record_row_wf::<R>(rv.records[k as int], k as int));
                }
                k = k + 1;
            }
            let ghost recsv = records_view(recs@);
            let root = merkle_root_of_records(&recs);
            proof {
                assert(record_hashes(recsv) =~= row_hashes(
                    rv.records,
                    start_usize as int,
                    end_usize as int,
                ));
            }
            if !bytes_eq(root.as_bytes(), &br.merkle_root) {
                proof {
                    assert(!block_row_wf(rv, i as int));
                }
                return Err(ChainError::Invariant);
            }
            let prev_h = crate::crypto::Hash::from_bytes(clone_bytes(&br.prev_hash));
            let computed = compute_header_hash(&prev_h, &root, br.nonce, br.position, br.time_stamp);
            if !bytes_eq(computed.as_bytes(), &br.hash) {
                proof {
                    assert(!block_row_wf(rv, i as int));
                }
                return Err(ChainError::Invariant);
            }
            let hash_h = crate::crypto::Hash::from_bytes(clone_bytes(&br.hash));
            let header = ChainedInstance::new(
                br.nonce,
                br.position,
                Timestamp::from_secs(br.time_stamp),
                hash_h,
                prev_h,
                root,
                BlockRange::new(br.records_start, br.records_end),
            );
            let entry = ChainEntry { header, records: recs, metadata: br.metadata.clone() };
            let ghost ev_entry = entry@;
            entries.push(entry);
            rec_idx = end_usize;
            proof {
                let new_entries = entries_view(entries@);
                assert(new_entries =~= old_entries.push(ev_entry));
                assert(rv.blocks[i as int] == block_row_of(ev_entry));
                assert(ev_entry.records == recsv);
                assert forall|t: int|
                    rv.blocks[i as int].records_start <= t < rv.blocks[i as int].records_end implies (
                #[trigger] rv.records[t]).block_position == i by {
                    let l = t - start_usize;
                    assert(rv.records[start_usize + l] == record_row_of(
                        recsv[l],
                        (start_usize + l) as u64,
                        i as u64,
                    ));
                }
                assert forall|idx: int| 0 <= idx < new_entries.len() implies entry_wf(
                    new_entries,
                    idx,
                ) by {
                    if idx < i {
                        assert(entry_wf(old_entries, idx));
                        assert(new_entries[idx] == old_entries[idx]);
                        if idx > 0 {
                            assert(new_entries[idx - 1] == old_entries[idx - 1]);
                        }
                    } else {
                        if i > 0 {
                            assert(rv.blocks[i as int - 1] == block_row_of(old_entries[i - 1]));
                            assert(new_entries[i as int - 1] == old_entries[i - 1]);
                        }
                        assert(ev_entry.records == recsv);
                    }
                }
                assert(block_row_wf(rv, i as int));
                assert forall|j: int, l: int|
                    0 <= j < i + 1 && 0 <= l < new_entries[j].records.len() implies #[trigger] rv.records[
                new_entries[j].header.records_start + l] == record_row_of(
                    new_entries[j].records[l],
                    (new_entries[j].header.records_start + l) as u64,
                    j as u64,
                ) by {
                    if j < i {
                        assert(new_entries[j] == old_entries[j]);
                        assert(rv.records[old_entries[j].header.records_start + l]
                            == record_row_of(
                            old_entries[j].records[l],
                            (old_entries[j].header.records_start + l) as u64,
                            j as u64,
                        ));
                    } else {
                        assert(rv.records[start_usize + l] == record_row_of(
                            recsv[l],
                            (start_usize + l) as u64,
                            i as u64,
                        ));
                    }
                }
            }
            i = i + 1;
        }
        if rec_idx != nrecords {
            proof {
                if i > 0 {
                    assert(rows.blocks@[i as int - 1]@ == rv.blocks[i as int - 1]);
                }
                assert(!rows_wf::<R>(rv));
            }
            return Err(ChainError::Invariant);
        }
        let chain = Chain { entries, total_records: rec_idx as u64 };
        proof {
            let b = chain@;
            assert(b == entries_view(chain.entries@));
            assert(total_records_of(b) == rec_idx as u64);
            assert(rows_represent(b, rv));
            assert(rows_wf::<R>(rv));
        }
        Ok(chain)
    }
}

/// Reopen determinism: a well-formed row set is the image of at most
/// one well-formed chain, so re-materializing a chain from the rows it
/// exported restores it exactly.
pub proof fn lemma_rows_determine_chain(
    b1: Seq<ChainEntryView>,
    b2: Seq<ChainEntryView>,
    rv: crate::store::ChainRowsView,
)
    requires
        chain_wf(b1),
        chain_wf(b2),
        rows_represent(b1, rv),
        rows_represent(b2, rv),
    ensures
        b1 == b2,
{
    assert(b1.len() == rv.blocks.len() && b2.len() == rv.blocks.len());
    assert forall|i: int| 0 <= i < b1.len() implies b1[i] =~= b2[i] by {
        assert(rv.blocks[i] == block_row_of(b1[i]));
        assert(rv.blocks[i] == block_row_of(b2[i]));
        assert(entry_wf(b1, i));
        assert(entry_wf(b2, i));
        assert(b1[i].header =~= b2[i].header);
        assert(b1[i].records.len() == b2[i].records.len());
        assert forall|l: int| 0 <= l < b1[i].records.len() implies b1[i].records[l]
            =~= b2[i].records[l] by {
            let t = b1[i].header.records_start + l;
            assert(rv.records[t] == record_row_of(b1[i].records[l], t as u64, i as u64));
            assert(rv.records[t] == record_row_of(b2[i].records[l], t as u64, i as u64));
        }
        assert(b1[i].records =~= b2[i].records);
    }
    assert(b1 =~= b2);
}

/// The Merkle root committing to the digests stored in the given
/// records, in order.
pub fn merkle_root_of_records<R: Record>(records: &Vec<SignedRecord<R>>) -> (r: crate::crypto::Hash)
    ensures
        r@ == merkle_root_of(record_hashes(records_view(records@))),
        r.wf(),
{
    let mut merkle = MerkleTree::new();
    let mut i: usize = 0;
    while i < records.len()
        invariant
            i <= records@.len(),
            merkle@ == record_hashes(records_view(records@)).subrange(0, i as int),
        decreases records@.len() - i,
    {
        merkle.push(records[i].hash());
        i = i + 1;
        assert(merkle@ =~= record_hashes(records_view(records@)).subrange(0, i as int));
    }
    assert(merkle@ =~= record_hashes(records_view(records@)));
    merkle.root()
}

/// The digest of a header's canonical bytes.
pub fn compute_header_hash(
    prev_hash: &crate::crypto::Hash,
    merkle_root: &crate::crypto::Hash,
    nonce: u64,
    position: u64,
    time_stamp: u64,
) -> (r: crate::crypto::Hash)
    ensures
        r@ == digest_of(header_canon(prev_hash@, merkle_root@, nonce, position, time_stamp)),
        r.wf(),
{
    let mut bytes = crate::merkle::concat_bytes(prev_hash.as_bytes(), merkle_root.as_bytes());
    push_u64_le(&mut bytes, nonce);
    push_u64_le(&mut bytes, position);
    push_u64_le(&mut bytes, time_stamp);
    assert(bytes@ =~= header_canon(prev_hash@, merkle_root@, nonce, position, time_stamp));
    hash_bytes(&bytes)
}

/// Relies on std's `SystemTime::now`: the clock reading in whole seconds
/// since the epoch; nothing is promised of its value.
#[verifier::external_body]
fn now_secs() -> (r: u64) {
    match std::time::SystemTime::now().duration_since(std::time::UNIX_EPOCH) {
        Ok(d) => d.as_secs(),
        Err(_) => 0,
    }
}

} // verus!
