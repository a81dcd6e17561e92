//! Requests accepted by the engine facade, and the schema summary a
//! create-table request carries.

use vstd::prelude::*;

use crate::ids::{SchemaId, TableId};
use crate::table_options::TableRequestOptions;

verus! {

/// Summary of a table schema: enough for the lifecycle core to validate
/// and persist; column definitions live with the schema's own collaborator.
#[derive(Clone, Copy, PartialEq, Eq, Structural, Debug)]
pub struct Schema {
    /// Version of the schema, bumped on alteration.
    pub version: u32,
    /// Number of leading key columns.
    pub num_key_columns: u32,
    /// Total number of columns.
    pub num_columns: u32,
}

/// A schema is valid when it has at least one column and its key columns
/// are a prefix of all columns.
pub open spec fn schema_wf(s: Schema) -> bool {
    &&& s.num_columns > 0
    &&& s.num_key_columns <= s.num_columns
}

/// Request to create a table in the space derived from `schema_id`.
pub struct CreateTableRequest {
    pub schema_id: SchemaId,
    pub table_id: TableId,
    pub table_name: String,
    pub schema: Schema,
    pub options: TableRequestOptions,
}

/// Request to drop a table; dropping an absent table is a no-op.
pub struct DropTableRequest {
    pub schema_id: SchemaId,
    pub table_id: TableId,
    pub table_name: String,
}

/// Request to open a table; opening an absent table is not an error.
pub struct OpenTableRequest {
    pub schema_id: SchemaId,
    pub table_id: TableId,
    pub table_name: String,
}

/// Request to close an open table.
pub struct CloseTableRequest {
    pub schema_id: SchemaId,
    pub table_id: TableId,
    pub table_name: String,
}

} // verus!
