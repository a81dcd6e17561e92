//! The externally-facing table engine: translates requests into space and
//! table identifiers and delegates to the instance.

use vstd::prelude::*;

use crate::error::Error;
use crate::ids::{SchemaId, SpaceId};
use crate::instance::{
    close_table_post, create_table_post, drop_table_post, open_table_post, Instance,
};
use crate::requests::{CloseTableRequest, CreateTableRequest, DropTableRequest, OpenTableRequest};
use crate::space::TableData;
use crate::table_options::CommonContext;

verus! {

/// The engine-type constant this engine reports.
pub fn analytic_engine_type() -> (r: &'static str)
    ensures
        r@ =~= seq!['a', 'n', 'a', 'l', 'y', 't', 'i', 'c'],
{
    proof {
        reveal_strlit("analytic");
    }
    "analytic"
}

/// The space a schema's tables live in: a direct numeric projection of
/// the globally unique schema id, so it is deterministic and stable for
/// the schema's lifetime.
pub open spec fn spec_build_space_id(schema_id: SchemaId) -> SpaceId {
    schema_id.0
}

/// Derive the space id from a schema id; see [`spec_build_space_id`].
pub fn build_space_id(schema_id: SchemaId) -> (r: SpaceId)
    ensures
        r == spec_build_space_id(schema_id),
{
    schema_id.0
}

/// Distinct schemas map to distinct spaces: the projection is injective.
pub proof fn lemma_build_space_id_injective(s1: SchemaId, s2: SchemaId)
    requires
        s1 != s2,
    ensures
        spec_build_space_id(s1) != spec_build_space_id(s2),
{
}

/// A handle on one open table, as the engine hands it to callers.
pub struct TableImpl {
    /// The record of the table this handle refers to.
    pub data: TableData,
}

impl TableImpl {
    /// Wrap a table record in a caller-facing handle.
    pub fn new(data: TableData) -> (r: TableImpl)
        ensures
            r.data == data,
    {
        TableImpl { data }
    }
}

/// The table-engine facade over one instance.
pub struct TableEngineImpl {
    instance: Instance,
}

impl TableEngineImpl {
    /// The instance this engine drives.
    pub closed spec fn spec_instance(&self) -> Instance {
        self.instance
    }

    /// The engine is valid when its instance is.
    pub open spec fn wf(&self) -> bool {
        self.spec_instance().wf()
    }

    /// The context every lifecycle operation runs under: the instance's
    /// write-buffer budgets.
    pub open spec fn spec_ctx(&self) -> CommonContext {
        CommonContext {
            db_write_buffer_size: self.spec_instance().spec_db_write_buffer_size(),
            space_write_buffer_size: self.spec_instance().spec_space_write_buffer_size(),
        }
    }

    /// An engine over the given instance.
    pub fn new(instance: Instance) -> (r: Self)
        ensures
            r.spec_instance() == instance,
    {
        Self { instance }
    }

    /// The engine-type string of this engine.
    pub fn engine_type(&self) -> (r: &'static str)
        ensures
            r@ =~= seq!['a', 'n', 'a', 'l', 'y', 't', 'i', 'c'],
    {
        analytic_engine_type()
    }

    /// Close the engine by closing its instance: every table is
    /// unregistered; the manifest keeps its updates for replay.
    pub fn close(&mut self) -> (r: Result<(), Error>)
        requires
            old(self).wf(),
        ensures
            r is Ok,
            final(self).wf(),
            final(self).spec_instance().tables_view() == Seq::<TableData>::empty(),
            final(self).spec_instance().manifest_view() == old(
                self,
            ).spec_instance().manifest_view(),
    {
        self.instance.close()
    }

    /// Create the requested table in the space derived from the
    /// request's schema id. Behaviour is exactly
    /// [`create_table_post`] of the instance, with the handle wrapping
    /// the created (or already-registered) record.
    pub fn create_table(&mut self, request: CreateTableRequest) -> (r: Result<TableImpl, Error>)
        requires
            old(self).wf(),
        ensures
            match r {
                Ok(t) => create_table_post(
                    old(self).spec_instance(),
                    final(self).spec_instance(),
                    old(self).spec_ctx(),
                    spec_build_space_id(request.schema_id),
                    request,
                    Ok(t.data),
                ),
                Err(e) => create_table_post(
                    old(self).spec_instance(),
                    final(self).spec_instance(),
                    old(self).spec_ctx(),
                    spec_build_space_id(request.schema_id),
                    request,
                    Err(e),
                ),
            },
    {
        let space_id = build_space_id(request.schema_id);
        let ctx = CommonContext {
            db_write_buffer_size: self.instance.db_write_buffer_size(),
            space_write_buffer_size: self.instance.space_write_buffer_size(),
        };
        match self.instance.create_table(&ctx, space_id, request) {
            Ok(data) => Ok(TableImpl::new(data)),
            Err(e) => Err(e),
        }
    }

    /// Drop the requested table; `Ok(true)` exactly when a registered
    /// table was removed. Behaviour is [`drop_table_post`] of the
    /// instance.
    pub fn drop_table(&mut self, request: DropTableRequest) -> (r: Result<bool, Error>)
        requires
            old(self).wf(),
        ensures
            drop_table_post(
                old(self).spec_instance(),
                final(self).spec_instance(),
                spec_build_space_id(request.schema_id),
                request.table_id,
                r,
            ),
    {
        let space_id = build_space_id(request.schema_id);
        let ctx = CommonContext {
            db_write_buffer_size: self.instance.db_write_buffer_size(),
            space_write_buffer_size: self.instance.space_write_buffer_size(),
        };
        self.instance.drop_table(&ctx, space_id, request)
    }

    /// Open the requested table; `Ok(None)` exactly when it is neither
    /// registered nor reconstructable from the manifest. Behaviour is
    /// [`open_table_post`] of the instance, with the handle wrapping the
    /// opened record.
    pub fn open_table(&mut self, request: &OpenTableRequest) -> (r: Result<Option<TableImpl>, Error>)
        requires
            old(self).wf(),
        ensures
            match r {
                Ok(Some(t)) => open_table_post(
                    old(self).spec_instance(),
                    final(self).spec_instance(),
                    spec_build_space_id(request.schema_id),
                    request.table_id,
                    Ok(Some(t.data)),
                ),
                Ok(None) => open_table_post(
                    old(self).spec_instance(),
                    final(self).spec_instance(),
                    spec_build_space_id(request.schema_id),
                    request.table_id,
                    Ok(None),
                ),
                Err(e) => open_table_post(
                    old(self).spec_instance(),
                    final(self).spec_instance(),
                    spec_build_space_id(request.schema_id),
                    request.table_id,
                    Err(e),
                ),
            },
    {
        let space_id = build_space_id(request.schema_id);
        let ctx = CommonContext {
            db_write_buffer_size: self.instance.db_write_buffer_size(),
            space_write_buffer_size: self.instance.space_write_buffer_size(),
        };
        match self.instance.open_table(&ctx, space_id, request) {
            Ok(Some(data)) => Ok(Some(TableImpl::new(data))),
            Ok(None) => Ok(None),
            Err(e) => Err(e),
        }
    }

    /// Close the requested table; a no-op when it is not open.
    /// Behaviour is [`close_table_post`] of the instance.
    pub fn close_table(&mut self, request: CloseTableRequest) -> (r: Result<(), Error>)
        requires
            old(self).wf(),
        ensures
            close_table_post(
                old(self).spec_instance(),
                final(self).spec_instance(),
                spec_build_space_id(request.schema_id),
                request.table_id,
                r,
            ),
    {
        let space_id = build_space_id(request.schema_id);
        let ctx = CommonContext {
            db_write_buffer_size: self.instance.db_write_buffer_size(),
            space_write_buffer_size: self.instance.space_write_buffer_size(),
        };
        self.instance.close_table(&ctx, space_id, request)
    }

    /// Number of updates the instance's manifest holds.
    pub fn manifest_len(&self) -> (n: usize)
        ensures
            n == self.spec_instance().manifest_view().len(),
    {
        self.instance.manifest_len()
    }

    /// The `i`-th manifest update, oldest first.
    pub fn manifest_get(&self, i: usize) -> (u: &crate::meta::MetaUpdate)
        requires
            i < self.spec_instance().manifest_view().len(),
        ensures
            *u == self.spec_instance().manifest_view()[i as int],
    {
        self.instance.manifest_get(i)
    }

    /// Number of tables the instance has open.
    pub fn table_count(&self) -> (n: usize)
        ensures
            n == self.spec_instance().tables_view().len(),
    {
        self.instance.table_count()
    }
}

} // verus!
