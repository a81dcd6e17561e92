//! Table options: request-supplied values, engine defaults, and the
//! merge/sanitize step that runs before a table is created.

use vstd::prelude::*;

verus! {

/// Effective options of a table, after merging and sanitizing.
#[derive(Clone, Copy, PartialEq, Eq, Structural, Debug)]
pub struct TableOptions {
    /// Duration of one data segment in milliseconds; always positive.
    pub segment_duration_ms: u64,
    /// Time-to-live of rows in milliseconds; 0 means no expiry. When
    /// positive it is at least one segment duration (sanitize enforces it).
    pub ttl_ms: u64,
    /// Size in bytes of the table's in-memory write buffer.
    pub write_buffer_size: u32,
}

/// Options as they arrive in a create-table request: every field is
/// optional and falls back to the engine default when absent.
#[derive(Clone, Copy, PartialEq, Eq, Structural, Debug)]
pub struct TableRequestOptions {
    pub segment_duration_ms: Option<u64>,
    pub ttl_ms: Option<u64>,
    pub write_buffer_size: Option<u32>,
}

/// Context shared by the table-lifecycle operations: the write-buffer
/// budgets of the whole database and of one space. A positive budget
/// overrides the per-table buffer size.
#[derive(Clone, Copy, PartialEq, Eq, Structural, Debug)]
pub struct CommonContext {
    pub db_write_buffer_size: u32,
    pub space_write_buffer_size: u32,
}

/// Well-formedness of effective options: a positive segment duration, and
/// a time-to-live that is zero or spans at least one segment.
pub open spec fn options_wf(o: TableOptions) -> bool {
    &&& o.segment_duration_ms > 0
    &&& (o.ttl_ms == 0 || o.ttl_ms >= o.segment_duration_ms)
}

/// A request's options merge successfully exactly when they do not ask
/// for a zero segment duration, the one combination that is rejected.
pub open spec fn merge_ok(req: TableRequestOptions) -> bool {
    req.segment_duration_ms != Some(0u64)
}

/// The effective write-buffer size: the space budget when one is set,
/// else the database budget, else the request value, else the default.
pub open spec fn spec_effective_write_buffer(
    req: TableRequestOptions,
    defaults: TableOptions,
    ctx: CommonContext,
) -> u32 {
    if ctx.space_write_buffer_size > 0 {
        ctx.space_write_buffer_size
    } else if ctx.db_write_buffer_size > 0 {
        ctx.db_write_buffer_size
    } else {
        match req.write_buffer_size {
            Some(v) => v,
            None => defaults.write_buffer_size,
        }
    }
}

/// The merged options, before sanitizing: request values where present,
/// engine defaults otherwise, and the write-buffer override chain.
pub open spec fn spec_merged_options(
    req: TableRequestOptions,
    defaults: TableOptions,
    ctx: CommonContext,
) -> TableOptions {
    TableOptions {
        segment_duration_ms: match req.segment_duration_ms {
            Some(v) => v,
            None => defaults.segment_duration_ms,
        },
        ttl_ms: match req.ttl_ms {
            Some(v) => v,
            None => defaults.ttl_ms,
        },
        write_buffer_size: spec_effective_write_buffer(req, defaults, ctx),
    }
}

/// Sanitizing normalizes a positive time-to-live that is shorter than one
/// segment up to the segment duration, and changes nothing else.
pub open spec fn spec_sanitized(o: TableOptions) -> TableOptions {
    if o.ttl_ms > 0 && o.ttl_ms < o.segment_duration_ms {
        TableOptions { ttl_ms: o.segment_duration_ms, ..o }
    } else {
        o
    }
}

/// The options a create-table request ends up with: merged, then sanitized.
pub open spec fn spec_effective_options(
    req: TableRequestOptions,
    defaults: TableOptions,
    ctx: CommonContext,
) -> TableOptions {
    spec_sanitized(spec_merged_options(req, defaults, ctx))
}

/// Sanitized well-formed defaults yield well-formed effective options.
pub proof fn lemma_effective_options_wf(
    req: TableRequestOptions,
    defaults: TableOptions,
    ctx: CommonContext,
)
    requires
        options_wf(defaults),
        merge_ok(req),
    ensures
        options_wf(spec_effective_options(req, defaults, ctx)),
{
}

impl TableOptions {
    /// Normalize the options in place; see [`spec_sanitized`].
    pub fn sanitize(&mut self)
        ensures
            *final(self) == spec_sanitized(*old(self)),
    {
        if self.ttl_ms > 0 && self.ttl_ms < self.segment_duration_ms {
            self.ttl_ms = self.segment_duration_ms;
        }
    }
}

/// Merge request options with the engine defaults under the given budgets.
/// Returns `None` exactly when the request asks for a zero segment
/// duration, the invalid combination that create-table rejects.
pub fn merge_table_options_for_create(
    req: &TableRequestOptions,
    defaults: &TableOptions,
    ctx: &CommonContext,
) -> (r: Option<TableOptions>)
    ensures
        r is Some <==> merge_ok(*req),
        r matches Some(o) ==> o == spec_merged_options(*req, *defaults, *ctx),
{
    if req.segment_duration_ms == Some(0u64) {
        return None;
    }
    let segment_duration_ms: u64 = match req.segment_duration_ms {
        Some(v) => v,
        None => defaults.segment_duration_ms,
    };
    let ttl_ms: u64 = match req.ttl_ms {
        Some(v) => v,
        None => defaults.ttl_ms,
    };
    let write_buffer_size: u32 = if ctx.space_write_buffer_size > 0 {
        ctx.space_write_buffer_size
    } else if ctx.db_write_buffer_size > 0 {
        ctx.db_write_buffer_size
    } else {
        match req.write_buffer_size {
            Some(v) => v,
            None => defaults.write_buffer_size,
        }
    };
    Some(TableOptions { segment_duration_ms, ttl_ms, write_buffer_size })
}

} // verus!
