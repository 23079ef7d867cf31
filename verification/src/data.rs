//! Plain data carried alongside records and blocks: typed metadata
//! details, timestamps, identifiers, nonces and positions.

use vstd::prelude::*;

verus! {

use crate::crypto::hex_of;
use crate::crypto::hex_encode_bytes;
use crate::crypto::random_bytes;

/// A second-resolution point in time, counted from the epoch.
#[derive(Debug, Clone, Copy, PartialEq, Eq, Hash, Structural)]
pub struct Timestamp {
    secs: u64,
}

impl Timestamp {
    pub closed spec fn spec_secs(&self) -> u64 {
        self.secs
    }

    /// The timestamp for the given count of seconds since the epoch.
    pub fn from_secs(secs: u64) -> (r: Self)
        ensures
            r.spec_secs() == secs,
    {
        Timestamp { secs }
    }

    /// The count of seconds since the epoch.
    pub fn secs(&self) -> (r: u64)
        ensures
            r == self.spec_secs(),
    {
        self.secs
    }
}

/// A value that can be read as a [`Timestamp`].
pub trait ToTimestamp {
    /// The seconds-since-epoch reading of the value.
    spec fn timestamp_spec(&self) -> u64;

    /// Converts the value into a timestamp.
    fn to_timestamp(&self) -> (r: Timestamp)
        ensures
            r.spec_secs() == self.timestamp_spec(),
    ;
}

impl ToTimestamp for u64 {
    open spec fn timestamp_spec(&self) -> u64 {
        *self
    }

    fn to_timestamp(&self) -> (r: Timestamp)
        ensures
            r.spec_secs() == self.timestamp_spec(),
    {
        Timestamp::from_secs(*self)
    }
}

/// One typed metadata value.
#[derive(Debug)]
pub enum Detail {
    Text(String),
    Integer(i64),
    Bytes(Vec<u8>),
    Timestamp(Timestamp),
    Boolean(bool),
}

/// The mathematical reading of a [`Detail`].
pub ghost enum DetailView {
    Text(Seq<char>),
    Integer(i64),
    Bytes(Seq<u8>),
    Timestamp(u64),
    Boolean(bool),
}

impl View for Detail {
    type V = DetailView;

    open spec fn view(&self) -> DetailView {
        match self {
            Detail::Text(s) => DetailView::Text(s@),
            Detail::Integer(i) => DetailView::Integer(*i),
            Detail::Bytes(b) => DetailView::Bytes(b@),
            Detail::Timestamp(t) => DetailView::Timestamp(t.spec_secs()),
            Detail::Boolean(b) => DetailView::Boolean(*b),
        }
    }
}

impl Clone for Detail {
    fn clone(&self) -> (r: Self)
        ensures
            r@ == self@,
    {
        match self {
            Detail::Text(s) => Detail::Text(s.clone()),
            Detail::Integer(i) => Detail::Integer(*i),
            Detail::Bytes(b) => Detail::Bytes(crate::crypto::clone_bytes(b)),
            Detail::Timestamp(t) => Detail::Timestamp(*t),
            Detail::Boolean(b) => Detail::Boolean(*b),
        }
    }
}

/// An ordered sequence of typed details, attached to records and blocks.
/// Not covered by a record's signature: details are annotational.
#[derive(Debug)]
pub struct Metadata {
    details: Vec<Detail>,
}

impl View for Metadata {
    type V = Seq<DetailView>;

    closed spec fn view(&self) -> Seq<DetailView> {
        Seq::new(self.details@.len(), |i: int| self.details@[i]@)
    }
}

impl Clone for Metadata {
    fn clone(&self) -> (r: Self)
        ensures
            r@ == self@,
    {
        let mut details: Vec<Detail> = Vec::new();
        let mut i: usize = 0;
        while i < self.details.len()
            invariant
                i <= self.details@.len(),
                details@.len() == i,
                forall|j: int| 0 <= j < i ==> details@[j]@ == self.details@[j]@,
            decreases self.details@.len() - i,
        {
            details.push(self.details[i].clone());
            i = i + 1;
        }
        let r = Metadata { details };
        assert(r@ =~= self@);
        r
    }
}

impl Metadata {
    /// An empty detail sequence.
    pub fn new() -> (r: Self)
        ensures
            r@ == Seq::<DetailView>::empty(),
    {
        let r = Metadata { details: Vec::new() };
        assert(r@ =~= Seq::<DetailView>::empty());
        r
    }

    /// An empty detail sequence.
    #[inline(always)]
    pub fn empty() -> (r: Self)
        ensures
            r@ == Seq::<DetailView>::empty(),
    {
        Self::new()
    }

    /// Appends one detail at the end.
    pub fn push(&mut self, value: Detail)
        ensures
            final(self)@ == old(self)@.push(value@),
    {
        self.details.push(value);
        assert(self@ =~= old(self)@.push(value@));
    }

    /// Removes and returns the last detail, or `None` when empty.
    pub fn pop(&mut self) -> (r: Option<Detail>)
        ensures
            old(self)@.len() == 0 ==> r is None && final(self)@ == old(self)@,
            old(self)@.len() > 0 ==> (r matches Some(d) && d@ == old(self)@.last() && final(self)@
                == old(self)@.drop_last()),
    {
        let r = self.details.pop();
        proof {
            if old(self)@.len() > 0 {
                assert(self@ =~= old(self)@.drop_last());
            } else {
                assert(self@ =~= old(self)@);
            }
        }
        r
    }

    /// The details, in order.
    pub fn details(&self) -> (r: &[Detail])
        ensures
            r@.len() == self@.len(),
            forall|i: int| 0 <= i < r@.len() ==> r@[i]@ == self@[i],
    {
        self.details.as_slice()
    }

    /// The number of details.
    pub fn len(&self) -> (r: usize)
        ensures
            r == self@.len(),
    {
        self.details.len()
    }
}

/// A calendar month, as a timestamp decomposes into one.
#[derive(Debug, Clone, Copy, PartialEq, Eq, Structural)]
pub enum Month {
    January,
    February,
    March,
    April,
    May,
    June,
    July,
    August,
    September,
    October,
    November,
    December,
}

/// A 16-byte random identifier.
#[derive(Debug, Clone, Copy, Hash)]
pub struct BufID {
    value: [u8; 16],
}

impl View for BufID {
    type V = Seq<u8>;

    closed spec fn view(&self) -> Seq<u8> {
        self.value@
    }
}

impl BufID {
    /// A fresh identifier drawn from the process's randomness.
    pub fn random() -> (r: Self)
        ensures
            r@.len() == 16,
    {
        Self::new(random_bytes())
    }

    /// The identifier with exactly the given bytes.
    pub fn new(value: [u8; 16]) -> (r: Self)
        ensures
            r@ == value@,
            r@.len() == 16,
    {
        BufID { value }
    }

    /// The identifier rendered as lower-case hexadecimal text.
    pub fn to_string(&self) -> (r: String)
        ensures
            r@ == hex_of(self@),
    {
        let mut bytes: Vec<u8> = Vec::new();
        let mut i: usize = 0;
        while i < 16
            invariant
                i <= 16,
                self@.len() == 16,
                bytes@ == self@.subrange(0, i as int),
            decreases 16 - i,
        {
            bytes.push(self.value[i]);
            i = i + 1;
            assert(bytes@ =~= self@.subrange(0, i as int));
        }
        assert(bytes@ =~= self@);
        hex_encode_bytes(&bytes)
    }

    /// Byte-for-byte equality of two identifiers.
    pub fn equals(&self, other: &BufID) -> (r: bool)
        ensures
            r == (self@ == other@),
    {
        let mut i: usize = 0;
        while i < 16
            invariant
                i <= 16,
                self@.len() == 16,
                other@.len() == 16,
                forall|j: int| 0 <= j < i ==> self@[j] == other@[j],
            decreases 16 - i,
        {
            if self.value[i] != other.value[i] {
                return false;
            }
            i = i + 1;
        }
        assert(self@ =~= other@);
        true
    }
}

/// A caller-supplied 64-bit value carried in a block header; opaque to
/// the chain.
#[derive(Debug, Clone, Copy, PartialEq, Eq, Hash, Structural)]
pub struct Nonce {
    pub nonce: u64,
}

impl Nonce {
    /// The nonce with the given value.
    pub fn new(nonce: u64) -> (r: Self)
        ensures
            r.nonce == nonce,
    {
        Nonce { nonce }
    }
}

impl From<u64> for Nonce {
    fn from(value: u64) -> (r: Self) {
        Nonce::new(value)
    }
}

impl vstd::std_specs::convert::FromSpecImpl<u64> for Nonce {
    open spec fn obeys_from_spec() -> bool {
        true
    }

    open spec fn from_spec(value: u64) -> Self {
        Nonce { nonce: value }
    }
}

/// A 0-based block index in the chain.
#[derive(Debug, Clone, Copy, PartialEq, Eq, Hash, Structural)]
pub struct Position {
    pub pos: u64,
}

impl Position {
    /// The position with the given index.
    pub fn new(pos: u64) -> (r: Self)
        ensures
            r.pos == pos,
    {
        Position { pos }
    }

    /// The index.
    pub fn pos(&self) -> (r: u64)
        ensures
            r == self.pos,
    {
        self.pos
    }
}

impl From<u64> for Position {
    fn from(value: u64) -> (r: Self) {
        Position::new(value)
    }
}

impl vstd::std_specs::convert::FromSpecImpl<u64> for Position {
    open spec fn obeys_from_spec() -> bool {
        true
    }

    open spec fn from_spec(value: u64) -> Self {
        Position { pos: value }
    }
}

} // verus!
