//! The instance: the orchestrator owning the manifest, the spaces with
//! their write groups, and the registry of open tables. The lifecycle
//! operations here are the commands that the write-worker lanes execute;
//! because every command of one table runs on that table's single lane,
//! they execute sequentially, which is the order modelled here.

use vstd::prelude::*;

use crate::error::{is_create_table_data_err, is_invalid_options_err, Error};
use crate::ids::{SpaceId, TableId};
use crate::meta::{
    add_table_count, lemma_add_count_push, lemma_replay_entry_in_manifest, lemma_replay_push_add,
    lemma_replay_push_drop, lemma_replay_push_other, replay_table, update_wf, AddTableMeta,
    DropTableMeta, Manifest, MetaUpdate,
};
use crate::requests::{
    schema_wf, CloseTableRequest, CreateTableRequest, DropTableRequest, OpenTableRequest,
};
use crate::space::{
    contains_table, lemma_lookup_contains, lemma_lookup_push, lemma_lookup_remove, lookup_table,
    spec_choose_worker, tables_unique, Space, TableData, WriteGroup,
};
use crate::table_options::{
    merge_ok, merge_table_options_for_create, options_wf, spec_effective_options, CommonContext,
    TableOptions,
};

verus! {

/// Whether some space in `s` carries `space_id`.
pub open spec fn contains_space(s: Seq<Space>, space_id: SpaceId) -> bool {
    exists|i: int| 0 <= i < s.len() && s[i].id == space_id
}

/// No two spaces share an id.
pub open spec fn spaces_unique(s: Seq<Space>) -> bool {
    forall|i: int, j: int| 0 <= i < j < s.len() ==> s[i].id != s[j].id
}

/// The manifest metadata recorded for a table record.
pub open spec fn meta_of(t: TableData) -> AddTableMeta {
    AddTableMeta {
        space_id: t.space_id,
        table_id: t.id,
        table_name: t.name,
        schema: t.schema,
        opts: t.opts,
    }
}

/// The top-level orchestrator of the engine core.
pub struct Instance {
    spaces: Vec<Space>,
    tables: Vec<TableData>,
    manifest: Manifest,
    table_opts: TableOptions,
    worker_count: usize,
    db_write_buffer_size: u32,
    space_write_buffer_size: u32,
}

impl Instance {
    /// The spaces known to the instance.
    pub closed spec fn spaces_view(&self) -> Seq<Space> {
        self.spaces@
    }

    /// The registry of open tables, across all spaces.
    pub closed spec fn tables_view(&self) -> Seq<TableData> {
        self.tables@
    }

    /// The updates stored in the manifest, oldest first.
    pub closed spec fn manifest_view(&self) -> Seq<MetaUpdate> {
        self.manifest@
    }

    /// The engine-default table options.
    pub closed spec fn spec_table_opts(&self) -> TableOptions {
        self.table_opts
    }

    /// The number of write-worker lanes of each space's write group.
    pub closed spec fn spec_worker_count(&self) -> usize {
        self.worker_count
    }

    /// Write-buffer budget of the whole database; 0 when unset.
    pub closed spec fn spec_db_write_buffer_size(&self) -> u32 {
        self.db_write_buffer_size
    }

    /// Write-buffer budget of one space; 0 when unset.
    pub closed spec fn spec_space_write_buffer_size(&self) -> u32 {
        self.space_write_buffer_size
    }

    /// Write-buffer budget of the whole database; 0 when unset.
    pub fn db_write_buffer_size(&self) -> (r: u32)
        ensures
            r == self.spec_db_write_buffer_size(),
    {
        self.db_write_buffer_size
    }

    /// Write-buffer budget of one space; 0 when unset.
    pub fn space_write_buffer_size(&self) -> (r: u32)
        ensures
            r == self.spec_space_write_buffer_size(),
    {
        self.space_write_buffer_size
    }

    /// Well-formedness of the whole instance:
    /// - configuration is valid (a lane exists, defaults are sane);
    /// - space ids are unique and every write group has the configured
    ///   number of lanes;
    /// - table keys are unique, every record is valid and pinned to the
    ///   lane its id routes to;
    /// - every manifest addition carries a valid schema and options;
    /// - the registry is a cache of manifest state: every registered
    ///   table replays from the manifest to exactly its own metadata.
    pub open spec fn wf(&self) -> bool {
        &&& self.spec_worker_count() > 0
        &&& options_wf(self.spec_table_opts())
        &&& spaces_unique(self.spaces_view())
        &&& forall|i: int|
            0 <= i < self.spaces_view().len()
                ==> (#[trigger] self.spaces_view()[i]).write_group.spec_worker_count()
                == self.spec_worker_count()
        &&& tables_unique(self.tables_view())
        &&& forall|i: int|
            0 <= i < self.tables_view().len() ==> (#[trigger] self.tables_view()[i]).wf()
        &&& forall|i: int|
            0 <= i < self.tables_view().len()
                ==> (#[trigger] self.tables_view()[i]).worker_index == spec_choose_worker(
                self.spec_worker_count(),
                self.tables_view()[i].id,
            )
        &&& forall|i: int|
            0 <= i < self.manifest_view().len() ==> update_wf(#[trigger] self.manifest_view()[i])
        &&& forall|i: int|
            0 <= i < self.tables_view().len() ==> {
                let t = #[trigger] self.tables_view()[i];
                &&& replay_table(self.manifest_view(), t.space_id, t.id) is Some
                &&& t.matches_meta(replay_table(self.manifest_view(), t.space_id, t.id)->Some_0)
            }
    }

    /// A fresh instance: no space, no table, an empty manifest.
    pub fn new(
        table_opts: TableOptions,
        worker_count: usize,
        db_write_buffer_size: u32,
        space_write_buffer_size: u32,
    ) -> (r: Instance)
        requires
            worker_count > 0,
            options_wf(table_opts),
        ensures
            r.wf(),
            r.spaces_view() == Seq::<Space>::empty(),
            r.tables_view() == Seq::<TableData>::empty(),
            r.manifest_view() == Seq::<MetaUpdate>::empty(),
            r.spec_table_opts() == table_opts,
            r.spec_worker_count() == worker_count,
            r.spec_db_write_buffer_size() == db_write_buffer_size,
            r.spec_space_write_buffer_size() == space_write_buffer_size,
    {
        Instance {
            spaces: Vec::new(),
            tables: Vec::new(),
            manifest: Manifest::new(),
            table_opts,
            worker_count,
            db_write_buffer_size,
            space_write_buffer_size,
        }
    }

    /// Find the registry index of (`space_id`, `table_id`), if present.
    fn find_table_index(&self, space_id: SpaceId, table_id: TableId) -> (r: Option<usize>)
        ensures
            r is Some <==> contains_table(self.tables_view(), space_id, table_id),
            r matches Some(i) ==> i < self.tables_view().len()
                && self.tables_view()[i as int].space_id == space_id
                && self.tables_view()[i as int].id == table_id && lookup_table(
                self.tables_view(),
                space_id,
                table_id,
            ) == Some(self.tables_view()[i as int]),
    {
        let n = self.tables.len();
        let mut i: usize = 0;
        while i < n
            invariant
                i <= n,
                n == self.tables_view().len(),
                forall|k: int|
                    0 <= k < i ==> !((#[trigger] self.tables_view()[k]).space_id == space_id
                        && self.tables_view()[k].id == table_id),
            decreases n - i,
        {
            if self.tables[i].space_id == space_id && self.tables[i].id == table_id {
                proof {
                    lemma_lookup_first(self.tables_view(), i as int, space_id, table_id);
                }
                return Some(i);
            }
            i += 1;
        }
        None
    }

    /// Return a copy of the registered table under (`space_id`,
    /// `table_id`), if one is registered.
    pub fn find_table_by_id(&self, space_id: SpaceId, table_id: TableId) -> (r: Option<TableData>)
        ensures
            r == lookup_table(self.tables_view(), space_id, table_id),
    {
        proof {
            lemma_lookup_contains(self.tables_view(), space_id, table_id);
        }
        match self.find_table_index(space_id, table_id) {
            Some(i) => Some(self.tables[i].clone()),
            None => None,
        }
    }

    /// Ensure a space with this id exists, creating it with a write group
    /// of the configured lane count when absent. Returns its index.
    fn find_or_create_space(&mut self, space_id: SpaceId) -> (idx: usize)
        requires
            old(self).wf(),
        ensures
            final(self).wf(),
            same_config(*old(self), *final(self)),
            final(self).tables_view() == old(self).tables_view(),
            final(self).manifest_view() == old(self).manifest_view(),
            contains_space(final(self).spaces_view(), space_id),
            contains_space(old(self).spaces_view(), space_id) ==> final(self).spaces_view() == old(
                self,
            ).spaces_view(),
            !contains_space(old(self).spaces_view(), space_id) ==> final(self).spaces_view() == old(
                self,
            ).spaces_view().push(final(self).spaces_view().last()),
            idx < final(self).spaces_view().len(),
            final(self).spaces_view()[idx as int].id == space_id,
    {
        let n = self.spaces.len();
        let mut i: usize = 0;
        while i < n
            invariant
                i <= n,
                n == self.spaces_view().len(),
                self == old(self),
                old(self).wf(),
                forall|k: int| 0 <= k < i ==> (#[trigger] self.spaces_view()[k]).id != space_id,
            decreases n - i,
        {
            if self.spaces[i].id == space_id {
                return i;
            }
            i += 1;
        }
        let space = Space { id: space_id, write_group: WriteGroup::new(self.worker_count) };
        self.spaces.push(space);
        proof {
            assert(self.spaces_view().last().id == space_id);
            assert(self.spaces_view().drop_last() =~= old(self).spaces_view());
            assert(self.spaces_view() =~= old(self).spaces_view().push(self.spaces_view().last()));
            assert forall|a: int, b: int|
                0 <= a < b < self.spaces_view().len() implies self.spaces_view()[a].id
                != self.spaces_view()[b].id by {
                if b == self.spaces_view().len() - 1 {
                    assert(self.spaces_view()[a] == old(self).spaces_view()[a]);
                }
            }
        }
        self.spaces.len() - 1
    }

    /// Create a table in the space `space_id`: the caller-facing entry
    /// that resolves the space and then runs the create flow.
    pub fn create_table(
        &mut self,
        ctx: &CommonContext,
        space_id: SpaceId,
        request: CreateTableRequest,
    ) -> (r: Result<TableData, Error>)
        requires
            old(self).wf(),
        ensures
            create_table_post(*old(self), *final(self), *ctx, space_id, request, r),
    {
        let _idx = self.find_or_create_space(space_id);
        self.do_create_table(ctx, space_id, request)
    }

    /// The create flow proper; the space must already exist. Merges and
    /// sanitizes the options, checks idempotency, builds the table
    /// record, routes it to its lane, and hands it to the worker command.
    pub fn do_create_table(
        &mut self,
        ctx: &CommonContext,
        space_id: SpaceId,
        request: CreateTableRequest,
    ) -> (r: Result<TableData, Error>)
        requires
            old(self).wf(),
            contains_space(old(self).spaces_view(), space_id),
        ensures
            create_table_post(*old(self), *final(self), *ctx, space_id, request, r),
            final(self).spaces_view() == old(self).spaces_view(),
    {
        let merged = merge_table_options_for_create(&request.options, &self.table_opts, ctx);
        let mut table_opts = match merged {
            Some(o) => o,
            None => {
                return Err(
                    Error::InvalidOptions {
                        space_id,
                        table: request.table_name.clone(),
                        table_id: request.table_id,
                    },
                );
            },
        };
        table_opts.sanitize();

        if let Some(table_data) = self.find_table_by_id(space_id, request.table_id) {
            proof {
                lemma_lookup_contains(self.tables_view(), space_id, request.table_id);
            }
            return Ok(table_data);
        }
        proof {
            lemma_lookup_contains(self.tables_view(), space_id, request.table_id);
        }

        let sidx = self.find_or_create_space(space_id);
        let write_handle = self.spaces[sidx].write_group.choose_worker(request.table_id);

        let table_data = match TableData::new(space_id, &request, write_handle, table_opts) {
            Some(t) => t,
            None => {
                return Err(
                    Error::CreateTableData {
                        space_id,
                        table: request.table_name.clone(),
                        table_id: request.table_id,
                    },
                );
            },
        };
        proof {
            crate::table_options::lemma_effective_options_wf(
                request.options,
                self.spec_table_opts(),
                *ctx,
            );
        }
        self.process_create_table_command(table_data)
    }

    /// The worker-side create command: runs on the table's lane, so
    /// creations of one table execute sequentially. Re-checks
    /// idempotency, durably appends the addition to the manifest, and
    /// only then registers the table, making it visible.
    pub fn process_create_table_command(&mut self, table_data: TableData) -> (r: Result<
        TableData,
        Error,
    >)
        requires
            old(self).wf(),
            table_data.wf(),
            table_data.worker_index == spec_choose_worker(
                old(self).spec_worker_count(),
                table_data.id,
            ),
        ensures
            process_create_post(*old(self), *final(self), table_data, r),
    {
        if let Some(existing) = self.find_table_by_id(table_data.space_id, table_data.id) {
            proof {
                lemma_lookup_contains(self.tables_view(), table_data.space_id, table_data.id);
            }
            return Ok(existing);
        }

        let update = MetaUpdate::AddTable(
            AddTableMeta {
                space_id: table_data.space_id,
                table_id: table_data.id,
                table_name: table_data.name.clone(),
                schema: table_data.schema,
                opts: table_data.opts,
            },
        );
        match self.manifest.store_update(update) {
            Ok(()) => {},
            Err(_) => {
                return Err(
                    Error::WriteManifest {
                        space_id: table_data.space_id,
                        table: table_data.name.clone(),
                        table_id: table_data.id,
                    },
                );
            },
        }

        proof {
            lemma_lookup_contains(old(self).tables_view(), table_data.space_id, table_data.id);
            lemma_lookup_push(old(self).tables_view(), table_data);
            lemma_replay_push_add(
                old(self).manifest_view(),
                meta_of(table_data),
                table_data.space_id,
                table_data.id,
            );
            lemma_add_count_push(
                old(self).manifest_view(),
                MetaUpdate::AddTable(meta_of(table_data)),
                table_data.space_id,
                table_data.id,
            );
            assert forall|i: int| 0 <= i < old(self).tables_view().len() implies {
                let t = #[trigger] old(self).tables_view()[i];
                replay_table(self.manifest_view(), t.space_id, t.id) == replay_table(
                    old(self).manifest_view(),
                    t.space_id,
                    t.id,
                )
            } by {
                let t = old(self).tables_view()[i];
                lemma_replay_push_other(
                    old(self).manifest_view(),
                    MetaUpdate::AddTable(meta_of(table_data)),
                    t.space_id,
                    t.id,
                );
            }
        }
        let result = table_data.clone();
        self.tables.push(table_data);
        proof {
            assert forall|a: int, b: int|
                0 <= a < b < self.tables_view().len() implies !(self.tables_view()[a].space_id
                == self.tables_view()[b].space_id && self.tables_view()[a].id
                == self.tables_view()[b].id) by {
                if b < self.tables_view().len() - 1 {
                    assert(self.tables_view()[a] == old(self).tables_view()[a]);
                    assert(self.tables_view()[b] == old(self).tables_view()[b]);
                } else {
                    assert(self.tables_view()[a] == old(self).tables_view()[a]);
                }
            }
        }
        Ok(result)
    }

    /// Drop a table: append the drop to the manifest, then unregister.
    /// Dropping an absent table is a no-op that reports "nothing
    /// dropped" rather than failing.
    pub fn drop_table(
        &mut self,
        ctx: &CommonContext,
        space_id: SpaceId,
        request: DropTableRequest,
    ) -> (r: Result<bool, Error>)
        requires
            old(self).wf(),
        ensures
            drop_table_post(*old(self), *final(self), space_id, request.table_id, r),
    {
        let table_id = request.table_id;
        match self.find_table_index(space_id, table_id) {
            None => Ok(false),
            Some(idx) => {
                let update = MetaUpdate::DropTable(DropTableMeta { space_id, table_id });
                match self.manifest.store_update(update) {
                    Ok(()) => {},
                    Err(_) => {
                        return Err(
                            Error::WriteManifest {
                                space_id,
                                table: self.tables[idx].name.clone(),
                                table_id,
                            },
                        );
                    },
                }
                proof {
                    lemma_lookup_remove(old(self).tables_view(), idx as int);
                    lemma_replay_push_drop(old(self).manifest_view(), space_id, table_id);
                    assert forall|i: int| 0 <= i < old(self).tables_view().len() implies {
                        let t = #[trigger] old(self).tables_view()[i];
                        i != idx ==> replay_table(self.manifest_view(), t.space_id, t.id)
                            == replay_table(old(self).manifest_view(), t.space_id, t.id)
                    } by {
                        let t = old(self).tables_view()[i];
                        if i != idx {
                            lemma_replay_push_other(
                                old(self).manifest_view(),
                                MetaUpdate::DropTable(DropTableMeta { space_id, table_id }),
                                t.space_id,
                                t.id,
                            );
                        }
                    }
                }
                let _removed = self.tables.remove(idx);
                proof {
                    assert forall|j: int| 0 <= j < self.tables_view().len() implies {
                        let t = #[trigger] self.tables_view()[j];
                        exists|i: int|
                            0 <= i < old(self).tables_view().len() && i != idx as int && old(
                                self,
                            ).tables_view()[i] == t
                    } by {
                        if j < idx {
                            assert(old(self).tables_view()[j] == self.tables_view()[j]);
                        } else {
                            assert(old(self).tables_view()[j + 1] == self.tables_view()[j]);
                        }
                    }
                }
                Ok(true)
            },
        }
    }

    /// Open a table: if it is registered, return it; if it is absent in
    /// memory but present in the manifest, rebuild it by replay and
    /// register it; if it was never created (or was dropped), return
    /// `None` rather than an error.
    pub fn open_table(
        &mut self,
        ctx: &CommonContext,
        space_id: SpaceId,
        request: &OpenTableRequest,
    ) -> (r: Result<Option<TableData>, Error>)
        requires
            old(self).wf(),
        ensures
            open_table_post(*old(self), *final(self), space_id, request.table_id, r),
    {
        let table_id = request.table_id;
        if let Some(table_data) = self.find_table_by_id(space_id, table_id) {
            proof {
                lemma_lookup_contains(self.tables_view(), space_id, table_id);
            }
            return Ok(Some(table_data));
        }
        proof {
            lemma_lookup_contains(self.tables_view(), space_id, table_id);
        }

        let ghost m_view = self.manifest_view();
        let n = self.manifest.len();
        let mut acc: Option<AddTableMeta> = None;
        let mut i: usize = 0;
        while i < n
            invariant
                i <= n,
                n == m_view.len(),
                m_view == self.manifest_view(),
                self == old(self),
                acc == replay_table(m_view.take(i as int), space_id, table_id),
            decreases n - i,
        {
            let u = self.manifest.get(i);
            proof {
                assert(m_view.take(i + 1).drop_last() =~= m_view.take(i as int));
                assert(m_view.take(i + 1).last() == m_view[i as int]);
            }
            match u {
                MetaUpdate::AddTable(m) => {
                    if m.space_id == space_id && m.table_id == table_id {
                        acc = Some(m.clone());
                    }
                },
                MetaUpdate::DropTable(d) => {
                    if d.space_id == space_id && d.table_id == table_id {
                        acc = None;
                    }
                },
            }
            i += 1;
        }
        proof {
            assert(m_view.take(n as int) =~= m_view);
        }

        let meta = match acc {
            Some(m) => m,
            None => {
                return Ok(None);
            },
        };
        proof {
            lemma_replay_entry_in_manifest(m_view, space_id, table_id);
        }

        let sidx = self.find_or_create_space(space_id);
        let write_handle = self.spaces[sidx].write_group.choose_worker(table_id);
        let table_data = TableData {
            space_id,
            id: table_id,
            name: meta.table_name.clone(),
            schema: meta.schema,
            opts: meta.opts,
            worker_index: write_handle,
        };
        proof {
            lemma_lookup_push(old(self).tables_view(), table_data);
            assert forall|a: int, b: int|
                0 <= a < b < self.tables_view().push(table_data).len() implies !(
            self.tables_view().push(table_data)[a].space_id == self.tables_view().push(
                table_data,
            )[b].space_id && self.tables_view().push(table_data)[a].id == self.tables_view().push(
                table_data,
            )[b].id) by {
                if b < self.tables_view().len() {
                    assert(self.tables_view().push(table_data)[a] == self.tables_view()[a]);
                    assert(self.tables_view().push(table_data)[b] == self.tables_view()[b]);
                } else {
                    assert(self.tables_view().push(table_data)[a] == self.tables_view()[a]);
                }
            }
        }
        let result = table_data.clone();
        self.tables.push(table_data);
        Ok(Some(result))
    }

    /// Close a table: unregister it without touching the manifest, so a
    /// later open can rebuild it by replay. Closing an absent table is a
    /// no-op.
    pub fn close_table(
        &mut self,
        ctx: &CommonContext,
        space_id: SpaceId,
        request: CloseTableRequest,
    ) -> (r: Result<(), Error>)
        requires
            old(self).wf(),
        ensures
            close_table_post(*old(self), *final(self), space_id, request.table_id, r),
    {
        let table_id = request.table_id;
        match self.find_table_index(space_id, table_id) {
            None => Ok(()),
            Some(idx) => {
                proof {
                    lemma_lookup_remove(old(self).tables_view(), idx as int);
                }
                let _removed = self.tables.remove(idx);
                proof {
                    assert forall|j: int| 0 <= j < self.tables_view().len() implies {
                        let t = #[trigger] self.tables_view()[j];
                        exists|i: int|
                            0 <= i < old(self).tables_view().len() && old(self).tables_view()[i]
                                == t
                    } by {
                        if j < idx {
                            assert(old(self).tables_view()[j] == self.tables_view()[j]);
                        } else {
                            assert(old(self).tables_view()[j + 1] == self.tables_view()[j]);
                        }
                    }
                }
                Ok(())
            },
        }
    }

    /// Close the instance: every table is unregistered. The manifest
    /// keeps its updates, so a restart can replay them.
    pub fn close(&mut self) -> (r: Result<(), Error>)
        requires
            old(self).wf(),
        ensures
            r is Ok,
            final(self).wf(),
            same_config(*old(self), *final(self)),
            final(self).spaces_view() == old(self).spaces_view(),
            final(self).manifest_view() == old(self).manifest_view(),
            final(self).tables_view() == Seq::<TableData>::empty(),
    {
        self.tables.clear();
        Ok(())
    }

    /// Number of updates the manifest holds.
    pub fn manifest_len(&self) -> (n: usize)
        ensures
            n == self.manifest_view().len(),
    {
        self.manifest.len()
    }

    /// The `i`-th manifest update, oldest first.
    pub fn manifest_get(&self, i: usize) -> (u: &MetaUpdate)
        requires
            i < self.manifest_view().len(),
        ensures
            *u == self.manifest_view()[i as int],
    {
        self.manifest.get(i)
    }

    /// Number of registered (open) tables.
    pub fn table_count(&self) -> (n: usize)
        ensures
            n == self.tables_view().len(),
    {
        self.tables.len()
    }
}

/// The configuration of the instance did not change.
pub open spec fn same_config(pre: Instance, post: Instance) -> bool {
    &&& post.spec_table_opts() == pre.spec_table_opts()
    &&& post.spec_worker_count() == pre.spec_worker_count()
    &&& post.spec_db_write_buffer_size() == pre.spec_db_write_buffer_size()
    &&& post.spec_space_write_buffer_size() == pre.spec_space_write_buffer_size()
}

/// What the worker-side create command guarantees. It cannot fail here:
/// the in-memory manifest always persists, and the command is already on
/// its lane.
pub open spec fn process_create_post(
    pre: Instance,
    post: Instance,
    table_data: TableData,
    r: Result<TableData, Error>,
) -> bool {
    &&& post.wf()
    &&& same_config(pre, post)
    &&& post.spaces_view() == pre.spaces_view()
    &&& match r {
        Ok(t) => {
            if contains_table(pre.tables_view(), table_data.space_id, table_data.id) {
                &&& Some(t) == lookup_table(
                    pre.tables_view(),
                    table_data.space_id,
                    table_data.id,
                )
                &&& post.tables_view() == pre.tables_view()
                &&& post.manifest_view() == pre.manifest_view()
            } else {
                &&& t == table_data
                &&& post.tables_view() == pre.tables_view().push(table_data)
                &&& post.manifest_view() == pre.manifest_view().push(
                    MetaUpdate::AddTable(meta_of(table_data)),
                )
                &&& add_table_count(post.manifest_view(), table_data.space_id, table_data.id)
                    == add_table_count(pre.manifest_view(), table_data.space_id, table_data.id) + 1
            }
        },
        Err(_) => false,
    }
}

/// What creating a table guarantees, for every allowed input.
///
/// Success is owed whenever the options merge and the schema is valid;
/// creating an already-registered table is idempotent: it returns the
/// registered record and appends nothing to the manifest, so any number
/// of create calls for one table yield exactly one manifest addition.
pub open spec fn create_table_post(
    pre: Instance,
    post: Instance,
    ctx: CommonContext,
    space_id: SpaceId,
    request: CreateTableRequest,
    r: Result<TableData, Error>,
) -> bool {
    &&& post.wf()
    &&& same_config(pre, post)
    &&& contains_space(post.spaces_view(), space_id)
    &&& (contains_space(pre.spaces_view(), space_id) ==> post.spaces_view() == pre.spaces_view())
    &&& match r {
        Err(e) => {
            &&& post.tables_view() == pre.tables_view()
            &&& post.manifest_view() == pre.manifest_view()
            &&& (e is InvalidOptions <==> !merge_ok(request.options))
            &&& (e is InvalidOptions ==> is_invalid_options_err(
                e,
                space_id,
                request.table_name@,
                request.table_id,
            ))
            &&& (e is CreateTableData ==> is_create_table_data_err(
                e,
                space_id,
                request.table_name@,
                request.table_id,
            ) && !schema_wf(request.schema) && !contains_table(
                pre.tables_view(),
                space_id,
                request.table_id,
            ))
            &&& (e is InvalidOptions || e is CreateTableData)
        },
        Ok(t) => {
            &&& merge_ok(request.options)
            &&& if contains_table(pre.tables_view(), space_id, request.table_id) {
                &&& Some(t) == lookup_table(pre.tables_view(), space_id, request.table_id)
                &&& post.tables_view() == pre.tables_view()
                &&& post.manifest_view() == pre.manifest_view()
            } else {
                &&& schema_wf(request.schema)
                &&& t == (TableData {
                    space_id,
                    id: request.table_id,
                    name: request.table_name,
                    schema: request.schema,
                    opts: spec_effective_options(request.options, pre.spec_table_opts(), ctx),
                    worker_index: spec_choose_worker(pre.spec_worker_count(), request.table_id) as usize,
                })
                &&& post.tables_view() == pre.tables_view().push(t)
                &&& post.manifest_view() == pre.manifest_view().push(
                    MetaUpdate::AddTable(meta_of(t)),
                )
                &&& add_table_count(post.manifest_view(), space_id, request.table_id)
                    == add_table_count(pre.manifest_view(), space_id, request.table_id) + 1
            }
        },
    }
}

/// What dropping a table guarantees: `Ok(true)` with the registration
/// removed and a drop recorded exactly when the table was registered;
/// `Ok(false)` and no change at all otherwise. Never an error.
pub open spec fn drop_table_post(
    pre: Instance,
    post: Instance,
    space_id: SpaceId,
    table_id: TableId,
    r: Result<bool, Error>,
) -> bool {
    &&& post.wf()
    &&& same_config(pre, post)
    &&& post.spaces_view() == pre.spaces_view()
    &&& match r {
        Ok(b) => {
            if contains_table(pre.tables_view(), space_id, table_id) {
                &&& b == true
                &&& exists|i: int|
                    0 <= i < pre.tables_view().len() && pre.tables_view()[i].space_id == space_id
                        && pre.tables_view()[i].id == table_id && post.tables_view()
                        == pre.tables_view().remove(i)
                &&& !contains_table(post.tables_view(), space_id, table_id)
                &&& post.manifest_view() == pre.manifest_view().push(
                    MetaUpdate::DropTable(DropTableMeta { space_id, table_id }),
                )
            } else {
                &&& b == false
                &&& post.tables_view() == pre.tables_view()
                &&& post.manifest_view() == pre.manifest_view()
            }
        },
        Err(_) => false,
    }
}

/// What opening a table guarantees: the registered record if there is
/// one; else a rebuild-by-replay from the manifest when the table is
/// present there; else `None` — opening a table never created (or
/// dropped since) is not an error.
pub open spec fn open_table_post(
    pre: Instance,
    post: Instance,
    space_id: SpaceId,
    table_id: TableId,
    r: Result<Option<TableData>, Error>,
) -> bool {
    &&& post.wf()
    &&& same_config(pre, post)
    &&& post.manifest_view() == pre.manifest_view()
    &&& match r {
        Ok(opt) => {
            if contains_table(pre.tables_view(), space_id, table_id) {
                &&& opt == lookup_table(pre.tables_view(), space_id, table_id)
                &&& post.tables_view() == pre.tables_view()
                &&& post.spaces_view() == pre.spaces_view()
            } else {
                match replay_table(pre.manifest_view(), space_id, table_id) {
                    Some(m) => {
                        &&& opt matches Some(t)
                        &&& t == (TableData {
                            space_id,
                            id: table_id,
                            name: m.table_name,
                            schema: m.schema,
                            opts: m.opts,
                            worker_index: spec_choose_worker(pre.spec_worker_count(), table_id) as usize,
                        })
                        &&& post.tables_view() == pre.tables_view().push(t)
                        &&& contains_space(post.spaces_view(), space_id)
                    },
                    None => {
                        &&& opt is None
                        &&& post.tables_view() == pre.tables_view()
                        &&& post.spaces_view() == pre.spaces_view()
                    },
                }
            }
        },
        Err(_) => false,
    }
}

/// What closing a table guarantees: the registration is removed, the
/// manifest untouched; closing an absent table is a no-op. Never an
/// error.
pub open spec fn close_table_post(
    pre: Instance,
    post: Instance,
    space_id: SpaceId,
    table_id: TableId,
    r: Result<(), Error>,
) -> bool {
    &&& post.wf()
    &&& same_config(pre, post)
    &&& post.spaces_view() == pre.spaces_view()
    &&& post.manifest_view() == pre.manifest_view()
    &&& r is Ok
    &&& if contains_table(pre.tables_view(), space_id, table_id) {
        &&& exists|i: int|
            0 <= i < pre.tables_view().len() && pre.tables_view()[i].space_id == space_id
                && pre.tables_view()[i].id == table_id && post.tables_view()
                == pre.tables_view().remove(i)
        &&& !contains_table(post.tables_view(), space_id, table_id)
    } else {
        post.tables_view() == pre.tables_view()
    }
}

/// The first match in a registry with no earlier match is what lookup
/// finds.
pub proof fn lemma_lookup_first(s: Seq<TableData>, i: int, space_id: SpaceId, table_id: TableId)
    requires
        0 <= i < s.len(),
        s[i].space_id == space_id,
        s[i].id == table_id,
        forall|k: int|
            0 <= k < i ==> !((#[trigger] s[k]).space_id == space_id && s[k].id == table_id),
    ensures
        lookup_table(s, space_id, table_id) == Some(s[i]),
    decreases s.len(),
{
    if i == 0 {
    } else {
        assert(s[0].space_id != space_id || s[0].id != table_id);
        assert forall|k: int|
            0 <= k < i - 1 implies !((#[trigger] s.drop_first()[k]).space_id == space_id
            && s.drop_first()[k].id == table_id) by {
            assert(s.drop_first()[k] == s[k + 1]);
        }
        assert(s.drop_first()[i - 1] == s[i]);
        lemma_lookup_first(s.drop_first(), i - 1, space_id, table_id);
    }
}

/// Creating the same table twice registers it once: after a successful
/// fresh creation, a second create call for the same key succeeds,
/// returns the very record the first call registered, and leaves both
/// the registry and the manifest unchanged — so the manifest holds
/// exactly one addition for the table, however many creates were
/// submitted to its lane.
pub proof fn lemma_create_table_idempotent(
    pre: Instance,
    mid: Instance,
    post: Instance,
    ctx1: CommonContext,
    ctx2: CommonContext,
    space_id: SpaceId,
    req1: CreateTableRequest,
    req2: CreateTableRequest,
    t1: TableData,
    r2: Result<TableData, Error>,
)
    requires
        !contains_table(pre.tables_view(), space_id, req1.table_id),
        create_table_post(pre, mid, ctx1, space_id, req1, Ok(t1)),
        req2.table_id == req1.table_id,
        merge_ok(req2.options),
        create_table_post(mid, post, ctx2, space_id, req2, r2),
    ensures
        r2 matches Ok(t2) && t2 == t1,
        post.tables_view() == mid.tables_view(),
        post.manifest_view() == mid.manifest_view(),
        add_table_count(post.manifest_view(), space_id, req1.table_id) == add_table_count(
            pre.manifest_view(),
            space_id,
            req1.table_id,
        ) + 1,
{
    lemma_lookup_push(pre.tables_view(), t1);
    assert(mid.tables_view().last() == t1);
    assert(contains_table(mid.tables_view(), space_id, req1.table_id)) by {
        assert(mid.tables_view()[mid.tables_view().len() - 1] == t1);
    }
    match r2 {
        Ok(t2) => {
            assert(Some(t2) == lookup_table(mid.tables_view(), space_id, req2.table_id));
            assert(lookup_table(pre.tables_view().push(t1), t1.space_id, t1.id) == Some(t1));
        },
        Err(_) => {
            assert(false);
        },
    }
}

/// A run of create calls against a table that is already registered
/// changes nothing: every call returns the registered record, and the
/// registry and manifest stay as they were.
pub proof fn lemma_create_table_idempotent_run(
    states: Seq<Instance>,
    ctxs: Seq<CommonContext>,
    requests: Seq<CreateTableRequest>,
    results: Seq<TableData>,
    space_id: SpaceId,
    table_id: TableId,
    registered: TableData,
)
    requires
        states.len() >= 1,
        ctxs.len() == states.len() - 1,
        requests.len() == states.len() - 1,
        results.len() == states.len() - 1,
        contains_table(states[0].tables_view(), space_id, table_id),
        lookup_table(states[0].tables_view(), space_id, table_id) == Some(registered),
        forall|i: int| 0 <= i < requests.len() ==> (#[trigger] requests[i]).table_id == table_id,
        forall|i: int|
            0 <= i < requests.len() ==> create_table_post(
                states[i],
                states[i + 1],
                ctxs[i],
                space_id,
                #[trigger] requests[i],
                Ok(results[i]),
            ),
    ensures
        forall|i: int| 0 <= i < results.len() ==> #[trigger] results[i] == registered,
        forall|i: int|
            0 <= i < states.len() ==> (#[trigger] states[i]).tables_view()
                == states[0].tables_view() && states[i].manifest_view()
                == states[0].manifest_view(),
    decreases states.len(),
{
    if states.len() > 1 {
        assert(create_table_post(states[0], states[1], ctxs[0], space_id, requests[0], Ok(
            results[0],
        )));
        assert(results[0] == registered);
        assert(states[1].tables_view() == states[0].tables_view());
        assert(states[1].manifest_view() == states[0].manifest_view());
        let s2 = states.drop_first();
        let c2 = ctxs.drop_first();
        let q2 = requests.drop_first();
        let r2 = results.drop_first();
        assert forall|i: int| 0 <= i < q2.len() implies (#[trigger] q2[i]).table_id
            == table_id by {
            assert(q2[i] == requests[i + 1]);
        }
        assert forall|i: int|
            0 <= i < q2.len() implies create_table_post(
            s2[i],
            s2[i + 1],
            c2[i],
            space_id,
            #[trigger] q2[i],
            Ok(r2[i]),
        ) by {
            assert(s2[i] == states[i + 1]);
            assert(s2[i + 1] == states[i + 2]);
            assert(c2[i] == ctxs[i + 1]);
            assert(q2[i] == requests[i + 1]);
            assert(r2[i] == results[i + 1]);
            assert(create_table_post(states[i + 1], states[i + 2], ctxs[i + 1], space_id, requests[i
                + 1], Ok(results[i + 1])));
        }
        assert(s2[0] == states[1]);
        lemma_create_table_idempotent_run(s2, c2, q2, r2, space_id, table_id, registered);
        assert forall|i: int| 0 <= i < results.len() implies #[trigger] results[i]
            == registered by {
            if i > 0 {
                assert(r2[i - 1] == results[i]);
            }
        }
        assert forall|i: int|
            0 <= i < states.len() implies (#[trigger] states[i]).tables_view()
            == states[0].tables_view() && states[i].manifest_view()
            == states[0].manifest_view() by {
            if i > 0 {
                assert(s2[i - 1] == states[i]);
            }
        }
    }
}

/// However many create calls for one table are submitted, its lane runs
/// them one after the other, and together they register the table
/// exactly once: every call returns the record the first call
/// registered, the final registry holds that one record beyond the
/// initial state, and the manifest gains exactly one addition for the
/// table.
pub proof fn lemma_create_table_serialized_creates(
    states: Seq<Instance>,
    ctxs: Seq<CommonContext>,
    requests: Seq<CreateTableRequest>,
    results: Seq<TableData>,
    space_id: SpaceId,
    table_id: TableId,
)
    requires
        states.len() >= 2,
        ctxs.len() == states.len() - 1,
        requests.len() == states.len() - 1,
        results.len() == states.len() - 1,
        !contains_table(states[0].tables_view(), space_id, table_id),
        forall|i: int| 0 <= i < requests.len() ==> (#[trigger] requests[i]).table_id == table_id,
        forall|i: int|
            0 <= i < requests.len() ==> create_table_post(
                states[i],
                states[i + 1],
                ctxs[i],
                space_id,
                #[trigger] requests[i],
                Ok(results[i]),
            ),
    ensures
        forall|i: int| 0 <= i < results.len() ==> #[trigger] results[i] == results[0],
        states.last().tables_view() == states[0].tables_view().push(results[0]),
        lookup_table(states.last().tables_view(), space_id, table_id) == Some(results[0]),
        add_table_count(states.last().manifest_view(), space_id, table_id) == add_table_count(
            states[0].manifest_view(),
            space_id,
            table_id,
        ) + 1,
{
    assert(create_table_post(states[0], states[1], ctxs[0], space_id, requests[0], Ok(results[0])));
    assert(states[1].tables_view() == states[0].tables_view().push(results[0]));
    assert(results[0].space_id == space_id && results[0].id == table_id);
    lemma_lookup_push(states[0].tables_view(), results[0]);
    assert(lookup_table(states[1].tables_view(), space_id, table_id) == Some(results[0]));
    assert(contains_table(states[1].tables_view(), space_id, table_id)) by {
        assert(states[1].tables_view()[states[1].tables_view().len() - 1] == results[0]);
    }
    let s2 = states.drop_first();
    let c2 = ctxs.drop_first();
    let q2 = requests.drop_first();
    let r2 = results.drop_first();
    assert forall|i: int| 0 <= i < q2.len() implies (#[trigger] q2[i]).table_id == table_id by {
        assert(q2[i] == requests[i + 1]);
    }
    assert forall|i: int|
        0 <= i < q2.len() implies create_table_post(
        s2[i],
        s2[i + 1],
        c2[i],
        space_id,
        #[trigger] q2[i],
        Ok(r2[i]),
    ) by {
        assert(s2[i] == states[i + 1]);
        assert(s2[i + 1] == states[i + 2]);
        assert(c2[i] == ctxs[i + 1]);
        assert(q2[i] == requests[i + 1]);
        assert(r2[i] == results[i + 1]);
        assert(create_table_post(states[i + 1], states[i + 2], ctxs[i + 1], space_id, requests[i
            + 1], Ok(results[i + 1])));
    }
    assert(s2[0] == states[1]);
    lemma_create_table_idempotent_run(s2, c2, q2, r2, space_id, table_id, results[0]);
    assert forall|i: int| 0 <= i < results.len() implies #[trigger] results[i] == results[0] by {
        if i > 0 {
            assert(r2[i - 1] == results[i]);
        }
    }
    assert(states.last() == s2[s2.len() - 1]);
    assert(states.last().tables_view() == states[1].tables_view());
    assert(states.last().manifest_view() == states[1].manifest_view());
    assert(add_table_count(states[1].manifest_view(), space_id, table_id) == add_table_count(
        states[0].manifest_view(),
        space_id,
        table_id,
    ) + 1);
}

/// Dropping a table reports `true` exactly once: after a drop that
/// removed the table, a second drop of the same key reports `false` and
/// changes nothing.
pub proof fn lemma_drop_table_idempotent(
    pre: Instance,
    mid: Instance,
    post: Instance,
    space_id: SpaceId,
    table_id: TableId,
    r2: Result<bool, Error>,
)
    requires
        drop_table_post(pre, mid, space_id, table_id, Ok(true)),
        contains_table(pre.tables_view(), space_id, table_id),
        drop_table_post(mid, post, space_id, table_id, r2),
    ensures
        r2 matches Ok(b) && b == false,
        post.tables_view() == mid.tables_view(),
        post.manifest_view() == mid.manifest_view(),
{
}

} // verus!
