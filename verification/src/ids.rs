//! Identifier types shared by the engine, the manifest and the log.

use vstd::prelude::*;

verus! {

/// Identifier of a keyspace ("space") grouping tables.
pub type SpaceId = u32;

/// Unique key of a table within a space.
pub type TableId = u64;

/// Sequence number assigned by the log manager to an appended entry.
pub type SequenceNumber = u64;

/// Logical partition key of the write-ahead log; 0 when unused.
pub type RegionId = u64;

/// Globally unique identifier of a schema; spaces are derived from it.
#[derive(Clone, Copy, PartialEq, Eq, Structural, Debug)]
pub struct SchemaId(pub u32);

impl SchemaId {
    /// The raw numeric value of the schema id.
    pub fn as_u32(&self) -> (r: u32)
        ensures
            r == self.0,
    {
        self.0
    }
}

} // verus!
