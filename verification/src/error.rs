//! Failures of the table-lifecycle operations. Every failure is returned
//! as an explicit result value carrying the identifiers of the table it
//! concerns; none is silently swallowed.

use vstd::prelude::*;

use crate::ids::{SpaceId, TableId};

verus! {

/// Failure of a table-lifecycle operation.
#[derive(Debug)]
pub enum Error {
    /// The request options failed validation or merging; nothing was
    /// applied.
    InvalidOptions { space_id: SpaceId, table: String, table_id: TableId },
    /// Building the in-memory table record failed (invalid schema);
    /// nothing was written to the manifest.
    CreateTableData { space_id: SpaceId, table: String, table_id: TableId },
    /// The durable manifest append failed; the table was not registered,
    /// so retrying the create is safe.
    WriteManifest { space_id: SpaceId, table: String, table_id: TableId },
    /// The write-worker lane could not be reached or did not complete.
    OperateByWriteWorker { space_id: SpaceId, table: String, table_id: TableId },
    /// Engine shutdown failed while closing the instance.
    Close,
}

/// `e` is the invalid-options failure for this table.
pub open spec fn is_invalid_options_err(
    e: Error,
    space_id: SpaceId,
    table: Seq<char>,
    table_id: TableId,
) -> bool {
    &&& e matches Error::InvalidOptions { space_id: s, table: t, table_id: i }
    &&& s == space_id
    &&& t@ == table
    &&& i == table_id
}

/// `e` is the table-record construction failure for this table.
pub open spec fn is_create_table_data_err(
    e: Error,
    space_id: SpaceId,
    table: Seq<char>,
    table_id: TableId,
) -> bool {
    &&& e matches Error::CreateTableData { space_id: s, table: t, table_id: i }
    &&& s == space_id
    &&& t@ == table
    &&& i == table_id
}

impl Error {
    /// A short name of the failure kind, for reporting.
    pub fn kind_name(&self) -> &'static str {
        match self {
            Error::InvalidOptions { .. } => "invalid options",
            Error::CreateTableData { .. } => "create table data",
            Error::WriteManifest { .. } => "write manifest",
            Error::OperateByWriteWorker { .. } => "operate by write worker",
            Error::Close => "close",
        }
    }
}

} // verus!
