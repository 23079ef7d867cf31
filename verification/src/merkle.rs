//! The Merkle accumulator: an incremental commitment to an ordered
//! sequence of leaf digests. Internal nodes hash the concatenation of
//! their children; a level with an odd number of nodes duplicates its
//! last node and pairs it with itself; the root of an empty sequence is
//! the all-zero digest, and a single leaf is its own root.

use vstd::prelude::*;

verus! {

use crate::crypto::digest_of;
use crate::crypto::hash_bytes;
use crate::crypto::zero_digest;

/// The digest sequences read from a sequence of hashes, in order.
pub open spec fn hashes_view(s: Seq<crate::crypto::Hash>) -> Seq<Seq<u8>> {
    Seq::new(s.len(), |i: int| s[i]@)
}

/// One reduction step: adjacent leaves are paired and hashed; an odd
/// trailing leaf is paired with itself.
pub open spec fn next_level(level: Seq<Seq<u8>>) -> Seq<Seq<u8>> {
    Seq::new(
        (level.len() + 1) / 2,
        |i: int|
            if 2 * i + 1 < level.len() {
                digest_of(level[2 * i] + level[2 * i + 1])
            } else {
                digest_of(level[2 * i] + level[2 * i])
            },
    )
}

/// The Merkle root of an ordered sequence of leaf digests: the all-zero
/// digest for no leaves, the leaf itself for one, and otherwise the root
/// of the reduced level.
pub open spec fn merkle_root_of(leaves: Seq<Seq<u8>>) -> Seq<u8>
    decreases leaves.len(),
{
    if leaves.len() == 0 {
        zero_digest()
    } else if leaves.len() == 1 {
        leaves[0]
    } else {
        merkle_root_of(next_level(leaves))
    }
}

/// The root of an empty leaf sequence is the all-zero digest.
pub proof fn lemma_merkle_root_empty()
    ensures
        merkle_root_of(Seq::<Seq<u8>>::empty()) == zero_digest(),
{
}

/// The root of a single leaf is that leaf itself.
pub proof fn lemma_merkle_root_singleton(leaf: Seq<u8>)
    ensures
        merkle_root_of(seq![leaf]) == leaf,
{
}

/// The root is a function of the ordered leaf sequence alone: any two
/// ways of accumulating the same leaves, incremental or bulk, commit to
/// the same root.
pub proof fn lemma_merkle_root_deterministic(l1: Seq<Seq<u8>>, l2: Seq<Seq<u8>>)
    requires
        l1 == l2,
    ensures
        merkle_root_of(l1) == merkle_root_of(l2),
{
}

/// An ordered Merkle commitment under incremental construction.
#[derive(Debug)]
pub struct MerkleTree {
    leaves: Vec<crate::crypto::Hash>,
}

impl View for MerkleTree {
    type V = Seq<Seq<u8>>;

    closed spec fn view(&self) -> Seq<Seq<u8>> {
        hashes_view(self.leaves@)
    }
}

impl Clone for MerkleTree {
    fn clone(&self) -> (r: Self)
        ensures
            r@ == self@,
    {
        MerkleTree { leaves: clone_hashes(&self.leaves) }
    }
}

impl MerkleTree {
    /// An empty accumulator.
    pub fn new() -> (r: Self)
        ensures
            r@ == Seq::<Seq<u8>>::empty(),
    {
        let r = MerkleTree { leaves: Vec::new() };
        assert(r@ =~= Seq::<Seq<u8>>::empty());
        r
    }

    /// The accumulator already holding the given ordered leaves: the
    /// bulk form of construction.
    pub fn from_leaves(leaves: Vec<crate::crypto::Hash>) -> (r: Self)
        ensures
            r@ == hashes_view(leaves@),
    {
        MerkleTree { leaves }
    }

    /// Appends one leaf digest at the end.
    pub fn push(&mut self, hash: &crate::crypto::Hash)
        ensures
            final(self)@ == old(self)@.push(hash@),
    {
        self.leaves.push(hash.clone());
        assert(self@ =~= old(self)@.push(hash@));
    }

    /// The number of leaves pushed so far.
    pub fn len(&self) -> (r: usize)
        ensures
            r == self@.len(),
    {
        self.leaves.len()
    }

    /// The Merkle root of the leaves pushed so far, as if computed over
    /// the current ordered sequence.
    pub fn root(&self) -> (r: crate::crypto::Hash)
        ensures
            r@ == merkle_root_of(self@),
            r.wf(),
    {
        if self.leaves.len() == 0 {
            let r = crate::crypto::Hash::zero();
            proof {
                use_type_invariant(&r);
            }
            return r;
        }
        let mut level: Vec<crate::crypto::Hash> = clone_hashes(&self.leaves);
        while level.len() > 1
            invariant
                level@.len() >= 1,
                merkle_root_of(hashes_view(level@)) == merkle_root_of(self@),
            decreases level@.len(),
        {
            let ghost prev = hashes_view(level@);
            let m = level.len();
            let mut next: Vec<crate::crypto::Hash> = Vec::new();
            let mut i: usize = 0;
            while i < m
                invariant
                    m == level@.len(),
                    m >= 2,
                    i % 2 == 0 || i == m,
                    i <= m,
                    prev == hashes_view(level@),
                    next@.len() == (i + 1) / 2,
                    forall|j: int| 0 <= j < next@.len() ==> next@[j]@ == next_level(prev)[j],
                decreases m - i,
            {
                if i + 1 < m {
                    let joined = concat_bytes(level[i].as_bytes(), level[i + 1].as_bytes());
                    let h = hash_bytes(&joined);
                    next.push(h);
                    i = i + 2;
                } else {
                    let joined = concat_bytes(level[i].as_bytes(), level[i].as_bytes());
                    let h = hash_bytes(&joined);
                    next.push(h);
                    i = m;
                }
            }
            assert(hashes_view(next@) =~= next_level(prev));
            level = next;
        }
        let r = level[0].clone();
        proof {
            use_type_invariant(&r);
            assert(hashes_view(level@) =~= seq![level@[0]@]);
        }
        r
    }
}

/// A copy of a vector of hashes, digest for digest.
pub fn clone_hashes(v: &Vec<crate::crypto::Hash>) -> (r: Vec<crate::crypto::Hash>)
    ensures
        hashes_view(r@) == hashes_view(v@),
        r@.len() == v@.len(),
{
    let mut out: Vec<crate::crypto::Hash> = Vec::new();
    let mut i: usize = 0;
    while i < v.len()
        invariant
            i <= v@.len(),
            out@.len() == i,
            forall|j: int| 0 <= j < i ==> out@[j]@ == v@[j]@,
        decreases v@.len() - i,
    {
        out.push(v[i].clone());
        i = i + 1;
    }
    assert(hashes_view(out@) =~= hashes_view(v@));
    out
}

/// The concatenation of two byte vectors.
pub fn concat_bytes(a: &Vec<u8>, b: &Vec<u8>) -> (r: Vec<u8>)
    ensures
        r@ == a@ + b@,
{
    let mut out = crate::crypto::clone_bytes(a);
    let mut i: usize = 0;
    while i < b.len()
        invariant
            i <= b@.len(),
            out@ == a@ + b@.subrange(0, i as int),
        decreases b@.len() - i,
    {
        out.push(b[i]);
        i = i + 1;
        assert(out@ =~= a@ + b@.subrange(0, i as int));
    }
    assert(out@ =~= a@ + b@);
    out
}

} // verus!
