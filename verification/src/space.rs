//! Spaces, write-worker routing, and the in-memory record of one open
//! table.

use vstd::prelude::*;

use crate::ids::{SpaceId, TableId};
use crate::meta::AddTableMeta;
use crate::requests::{schema_wf, CreateTableRequest, Schema};
use crate::table_options::{options_wf, TableOptions};

verus! {

/// The lane a table's commands are routed to: a deterministic projection
/// of the table id onto the pool, so all commands of one table serialize
/// through the same lane for the table's lifetime.
pub open spec fn spec_choose_worker(worker_count: usize, table_id: TableId) -> int {
    table_id as int % worker_count as int
}

/// A fixed pool of single-threaded write lanes. The pool itself lives
/// with the scheduler; the core only routes commands to lane indices.
pub struct WriteGroup {
    worker_count: usize,
}

impl WriteGroup {
    /// Number of lanes in the pool.
    pub closed spec fn spec_worker_count(&self) -> usize {
        self.worker_count
    }

    /// A pool always has at least one lane.
    pub open spec fn wf(&self) -> bool {
        self.spec_worker_count() > 0
    }

    /// A pool of `worker_count` lanes.
    pub fn new(worker_count: usize) -> (r: Self)
        requires
            worker_count > 0,
        ensures
            r.spec_worker_count() == worker_count,
    {
        WriteGroup { worker_count }
    }

    /// The lane serving `table_id`: deterministic and stable, so repeated
    /// calls for one table always name the same lane.
    pub fn choose_worker(&self, table_id: TableId) -> (idx: usize)
        requires
            self.wf(),
        ensures
            idx == spec_choose_worker(self.spec_worker_count(), table_id),
            idx < self.spec_worker_count(),
    {
        (table_id % (self.worker_count as u64)) as usize
    }
}

/// A named keyspace grouping tables; it owns one write group. The table
/// registry itself lives with the instance, keyed by this space's id.
pub struct Space {
    pub id: SpaceId,
    pub write_group: WriteGroup,
}

/// The record of one open table: where it lives, what it looks like, and
/// the write lane it is pinned to.
pub struct TableData {
    pub space_id: SpaceId,
    pub id: TableId,
    pub name: String,
    pub schema: Schema,
    pub opts: TableOptions,
    pub worker_index: usize,
}

impl Clone for TableData {
    fn clone(&self) -> (r: Self)
        ensures
            r == *self,
    {
        TableData {
            space_id: self.space_id,
            id: self.id,
            name: self.name.clone(),
            schema: self.schema,
            opts: self.opts,
            worker_index: self.worker_index,
        }
    }
}

impl TableData {
    /// A table record is valid when its schema and options are.
    pub open spec fn wf(&self) -> bool {
        &&& schema_wf(self.schema)
        &&& options_wf(self.opts)
    }

    /// Build the record of a new table from its create request, the
    /// effective options, and the lane it was routed to. Fails exactly
    /// when the request's schema is invalid; nothing is built then.
    pub fn new(
        space_id: SpaceId,
        request: &CreateTableRequest,
        worker_index: usize,
        opts: TableOptions,
    ) -> (r: Option<TableData>)
        ensures
            r is Some <==> schema_wf(request.schema),
            r matches Some(t) ==> t == (TableData {
                space_id,
                id: request.table_id,
                name: request.table_name,
                schema: request.schema,
                opts,
                worker_index,
            }),
    {
        if request.schema.num_columns == 0 || request.schema.num_key_columns
            > request.schema.num_columns {
            return None;
        }
        Some(
            TableData {
                space_id,
                id: request.table_id,
                name: request.table_name.clone(),
                schema: request.schema,
                opts,
                worker_index,
            },
        )
    }

    /// Whether this record matches the manifest metadata `m`: same key,
    /// same name, same schema and options.
    pub open spec fn matches_meta(&self, m: AddTableMeta) -> bool {
        &&& self.space_id == m.space_id
        &&& self.id == m.table_id
        &&& self.name@ == m.table_name@
        &&& self.schema == m.schema
        &&& self.opts == m.opts
    }
}

/// The first registered table under (`space_id`, `table_id`), if any.
pub open spec fn lookup_table(s: Seq<TableData>, space_id: SpaceId, table_id: TableId) -> Option<
    TableData,
>
    decreases s.len(),
{
    if s.len() == 0 {
        None
    } else if s[0].space_id == space_id && s[0].id == table_id {
        Some(s[0])
    } else {
        lookup_table(s.drop_first(), space_id, table_id)
    }
}

/// Whether some registered table carries (`space_id`, `table_id`).
pub open spec fn contains_table(s: Seq<TableData>, space_id: SpaceId, table_id: TableId) -> bool {
    exists|i: int| 0 <= i < s.len() && s[i].space_id == space_id && s[i].id == table_id
}

/// No two registered tables share a key.
pub open spec fn tables_unique(s: Seq<TableData>) -> bool {
    forall|i: int, j: int|
        0 <= i < j < s.len() ==> !(s[i].space_id == s[j].space_id && s[i].id == s[j].id)
}

/// A lookup succeeds exactly on a contained key, and what it finds stands
/// in the registry.
pub proof fn lemma_lookup_contains(s: Seq<TableData>, space_id: SpaceId, table_id: TableId)
    ensures
        lookup_table(s, space_id, table_id) is Some <==> contains_table(s, space_id, table_id),
        lookup_table(s, space_id, table_id) matches Some(t) ==> t.space_id == space_id
            && t.id == table_id && exists|i: int| 0 <= i < s.len() && s[i] == t,
    decreases s.len(),
{
    if s.len() > 0 {
        if s[0].space_id == space_id && s[0].id == table_id {
        } else {
            lemma_lookup_contains(s.drop_first(), space_id, table_id);
            if contains_table(s.drop_first(), space_id, table_id) {
                let i = choose|i: int|
                    0 <= i < s.drop_first().len() && s.drop_first()[i].space_id == space_id
                        && s.drop_first()[i].id == table_id;
                assert(s[i + 1] == s.drop_first()[i]);
            } else if contains_table(s, space_id, table_id) {
                let i = choose|i: int|
                    0 <= i < s.len() && s[i].space_id == space_id && s[i].id == table_id;
                assert(s.drop_first()[i - 1] == s[i]);
            }
            if lookup_table(s.drop_first(), space_id, table_id) is Some {
                let t = lookup_table(s.drop_first(), space_id, table_id)->Some_0;
                let i = choose|i: int| 0 <= i < s.drop_first().len() && s.drop_first()[i] == t;
                assert(s[i + 1] == s.drop_first()[i]);
            }
        }
    }
}

/// Appending a table with a fresh key leaves every other lookup as it
/// was and makes its own lookup find it.
pub proof fn lemma_lookup_push(s: Seq<TableData>, t: TableData)
    requires
        !contains_table(s, t.space_id, t.id),
    ensures
        lookup_table(s.push(t), t.space_id, t.id) == Some(t),
        forall|sid: SpaceId, tid: TableId|
            !(sid == t.space_id && tid == t.id) ==> lookup_table(s.push(t), sid, tid)
                == lookup_table(s, sid, tid),
    decreases s.len(),
{
    if s.len() == 0 {
        assert(s.push(t)[0] == t);
        assert(s.push(t).drop_first() =~= Seq::<TableData>::empty());
        assert forall|sid: SpaceId, tid: TableId|
            !(sid == t.space_id && tid == t.id) implies lookup_table(s.push(t), sid, tid)
            == lookup_table(s, sid, tid) by {
            assert(lookup_table(s.push(t).drop_first(), sid, tid) is None);
        }
    } else {
        assert(!contains_table(s.drop_first(), t.space_id, t.id)) by {
            if contains_table(s.drop_first(), t.space_id, t.id) {
                let i = choose|i: int|
                    0 <= i < s.drop_first().len() && s.drop_first()[i].space_id == t.space_id
                        && s.drop_first()[i].id == t.id;
                assert(s[i + 1] == s.drop_first()[i]);
            }
        }
        lemma_lookup_push(s.drop_first(), t);
        assert(s.push(t).drop_first() =~= s.drop_first().push(t));
        assert(s[0].space_id == t.space_id && s[0].id == t.id ==> contains_table(
            s,
            t.space_id,
            t.id,
        ));
        assert(s.push(t)[0] == s[0]);
        assert forall|sid: SpaceId, tid: TableId|
            !(sid == t.space_id && tid == t.id) implies lookup_table(s.push(t), sid, tid)
            == lookup_table(s, sid, tid) by {
            if s[0].space_id == sid && s[0].id == tid {
            } else {
                assert(lookup_table(s.push(t), sid, tid) == lookup_table(
                    s.drop_first().push(t),
                    sid,
                    tid,
                ));
                assert(lookup_table(s.drop_first().push(t), sid, tid) == lookup_table(
                    s.drop_first(),
                    sid,
                    tid,
                ));
            }
        }
    }
}

/// Removing the table at index `i` makes its key absent and leaves every
/// other lookup as it was.
pub proof fn lemma_lookup_remove(s: Seq<TableData>, i: int)
    requires
        0 <= i < s.len(),
        tables_unique(s),
    ensures
        !contains_table(s.remove(i), s[i].space_id, s[i].id),
        tables_unique(s.remove(i)),
        forall|sid: SpaceId, tid: TableId|
            !(sid == s[i].space_id && tid == s[i].id) ==> lookup_table(s.remove(i), sid, tid)
                == lookup_table(s, sid, tid),
    decreases s.len(),
{
    let r = s.remove(i);
    assert forall|j: int| 0 <= j < r.len() implies r[j] == if j < i {
        s[j]
    } else {
        s[j + 1]
    } by {}
    assert(!contains_table(r, s[i].space_id, s[i].id)) by {
        if contains_table(r, s[i].space_id, s[i].id) {
            let j = choose|j: int|
                0 <= j < r.len() && r[j].space_id == s[i].space_id && r[j].id == s[i].id;
            if j < i {
                assert(s[j].space_id == s[i].space_id && s[j].id == s[i].id);
            } else {
                assert(s[j + 1].space_id == s[i].space_id && s[j + 1].id == s[i].id);
            }
        }
    }
    if i == 0 {
        assert(s.remove(0) =~= s.drop_first());
        assert forall|sid: SpaceId, tid: TableId|
            !(sid == s[0].space_id && tid == s[0].id) implies lookup_table(s.remove(0), sid, tid)
            == lookup_table(s, sid, tid) by {}
    } else {
        assert(s.remove(i).drop_first() =~= s.drop_first().remove(i - 1));
        assert(tables_unique(s.drop_first())) by {
            assert forall|a: int, b: int| 0 <= a < b < s.drop_first().len() implies !(
            s.drop_first()[a].space_id == s.drop_first()[b].space_id && s.drop_first()[a].id
                == s.drop_first()[b].id) by {
                assert(s.drop_first()[a] == s[a + 1]);
                assert(s.drop_first()[b] == s[b + 1]);
            }
        }
        lemma_lookup_remove(s.drop_first(), i - 1);
        assert forall|sid: SpaceId, tid: TableId|
            !(sid == s[i].space_id && tid == s[i].id) implies lookup_table(s.remove(i), sid, tid)
            == lookup_table(s, sid, tid) by {
            assert(s.remove(i)[0] == s[0]);
            assert(s.drop_first()[i - 1] == s[i]);
            if s[0].space_id == sid && s[0].id == tid {
            } else {
                assert(lookup_table(s.remove(i), sid, tid) == lookup_table(
                    s.remove(i).drop_first(),
                    sid,
                    tid,
                ));
                assert(lookup_table(s.drop_first().remove(i - 1), sid, tid) == lookup_table(
                    s.drop_first(),
                    sid,
                    tid,
                ));
            }
        }
    }
}

} // verus!
