//! Log entries: the typed payload contract and the reusable write batch
//! handed to the log manager.

use vstd::prelude::*;

use crate::ids::{RegionId, SequenceNumber};

verus! {

/// Errors of payload encoding and decoding.
#[derive(Clone, Copy, PartialEq, Eq, Structural, Debug)]
pub enum PayloadError {
    /// The buffer ended before the value was complete.
    InsufficientBytes,
    /// The leading tag byte named no known variant.
    InvalidTag,
    /// A string field held bytes that are not valid UTF-8.
    InvalidUtf8,
    /// Decoding succeeded but bytes were left over.
    TrailingBytes,
}

/// A typed log record that can report its encoded size and serialize
/// itself into a growable buffer. Failure surfaces as an error value,
/// never a panic, and is a property of the value alone: whether a
/// payload serializes is pinned by [`Payload::encodes`].
pub trait Payload: Sized {
    /// The bytes this value serializes to.
    spec fn encoding(&self) -> Seq<u8>;

    /// Whether this value serializes successfully; [`Payload::encode_to`]
    /// returns `Ok` exactly on values for which this holds.
    spec fn encodes(&self) -> bool;

    /// Size in bytes of the encoded payload.
    fn encode_size(&self) -> (n: usize)
        requires
            self.encoding().len() <= usize::MAX,
        ensures
            n == self.encoding().len(),
    ;

    /// Append the encoded payload to `buf`.
    fn encode_to(&self, buf: &mut Vec<u8>) -> (r: Result<(), PayloadError>)
        ensures
            r is Ok <==> self.encodes(),
            r is Ok ==> final(buf)@ == old(buf)@ + self.encoding(),
            r is Err ==> final(buf)@ == old(buf)@,
    ;
}

/// Decodes a buffer back into a target type; independent of the encoder,
/// so the read path may decode into a different type than was written.
pub trait PayloadDecoder: Sized {
    type Target: View;

    /// What a buffer decodes to, if anything: the abstract value.
    spec fn decode_spec(&self, bytes: Seq<u8>) -> Option<<Self::Target as View>::V>;

    /// Decode one `Target` from the whole of `buf`.
    fn decode(&self, buf: &[u8]) -> (r: Result<Self::Target, PayloadError>)
        ensures
            r matches Ok(v) ==> self.decode_spec(buf@) == Some(v@),
            r is Err ==> self.decode_spec(buf@) is None,
    ;
}

/// The unit returned when reading the log: a payload with the sequence
/// number the log manager assigned to it.
pub struct LogEntry<P> {
    pub sequence: SequenceNumber,
    pub payload: P,
}

/// An entry to be written into the log; its sequence number is assigned
/// at append time by the log manager.
pub struct LogWriteEntry<P> {
    pub payload: P,
}

/// A batch of [`LogWriteEntry`]s bound to one region, reusable across
/// append calls without reallocating the backing storage.
pub struct LogWriteBatch<P> {
    pub(crate) region_id: RegionId,
    pub(crate) entries: Vec<LogWriteEntry<P>>,
}

impl<P: Payload> LogWriteBatch<P> {
    /// The payloads currently in the batch, in push order.
    pub closed spec fn entries_view(&self) -> Seq<LogWriteEntry<P>> {
        self.entries@
    }

    /// The region every entry of this batch is destined for.
    pub closed spec fn spec_region_id(&self) -> RegionId {
        self.region_id
    }

    /// An empty batch for `region_id`.
    pub fn new(region_id: RegionId) -> (r: Self)
        ensures
            r.spec_region_id() == region_id,
            r.entries_view() == Seq::<LogWriteEntry<P>>::empty(),
    {
        Self::with_capacity(region_id, 0)
    }

    /// An empty batch for `region_id` with room for `cap` entries.
    pub fn with_capacity(region_id: RegionId, cap: usize) -> (r: Self)
        ensures
            r.spec_region_id() == region_id,
            r.entries_view() == Seq::<LogWriteEntry<P>>::empty(),
    {
        Self { region_id, entries: Vec::with_capacity(cap) }
    }

    /// Append one entry; a pure in-memory push that never fails.
    pub fn push(&mut self, entry: LogWriteEntry<P>)
        ensures
            final(self).entries_view() == old(self).entries_view().push(entry),
            final(self).spec_region_id() == old(self).spec_region_id(),
    {
        self.entries.push(entry)
    }

    /// Number of entries in the batch.
    pub fn len(&self) -> (n: usize)
        ensures
            n == self.entries_view().len(),
    {
        self.entries.len()
    }

    /// Whether the batch holds no entry.
    pub fn is_empty(&self) -> (r: bool)
        ensures
            r == (self.entries_view().len() == 0),
    {
        self.entries.is_empty()
    }

    /// Remove every entry, keeping the backing storage for reuse.
    pub fn clear(&mut self)
        ensures
            final(self).entries_view() == Seq::<LogWriteEntry<P>>::empty(),
            final(self).spec_region_id() == old(self).spec_region_id(),
    {
        self.entries.clear()
    }

    /// The `i`-th entry of the batch, in push order.
    pub fn get(&self, i: usize) -> (r: &LogWriteEntry<P>)
        requires
            i < self.entries_view().len(),
        ensures
            *r == self.entries_view()[i as int],
    {
        &self.entries[i]
    }

    /// The region this batch is bound to.
    pub fn region_id(&self) -> (r: RegionId)
        ensures
            r == self.spec_region_id(),
    {
        self.region_id
    }
}

impl<P: Payload> Default for LogWriteBatch<P> {
    /// An empty batch for the unused region 0.
    fn default() -> (r: Self)
        ensures
            r.spec_region_id() == 0,
            r.entries_view() == Seq::<LogWriteEntry<P>>::empty(),
    {
        Self::new(0)
    }
}

} // verus!
