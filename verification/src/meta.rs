//! The manifest: a durable, append-only log of table-metadata mutations,
//! replayable to reconstruct table state. This module holds the update
//! variants, an in-memory manifest, and the replay semantics.

use vstd::prelude::*;

use crate::ids::{SpaceId, TableId};
use crate::requests::{schema_wf, Schema};
use crate::table_options::{options_wf, TableOptions};

verus! {

/// A table was added: everything needed to rebuild it on replay.
#[derive(Debug)]
pub struct AddTableMeta {
    pub space_id: SpaceId,
    pub table_id: TableId,
    pub table_name: String,
    pub schema: Schema,
    pub opts: TableOptions,
}

impl Clone for AddTableMeta {
    fn clone(&self) -> (r: Self)
        ensures
            r == *self,
    {
        AddTableMeta {
            space_id: self.space_id,
            table_id: self.table_id,
            table_name: self.table_name.clone(),
            schema: self.schema,
            opts: self.opts,
        }
    }
}

/// A table was dropped.
#[derive(Clone, Copy, PartialEq, Eq, Structural, Debug)]
pub struct DropTableMeta {
    pub space_id: SpaceId,
    pub table_id: TableId,
}

/// One durable metadata mutation; the manifest is an append-only log of
/// these, and replaying them in order rebuilds the table state.
#[derive(Debug)]
pub enum MetaUpdate {
    AddTable(AddTableMeta),
    DropTable(DropTableMeta),
}

impl Clone for MetaUpdate {
    fn clone(&self) -> (r: Self)
        ensures
            r == *self,
    {
        match self {
            MetaUpdate::AddTable(m) => MetaUpdate::AddTable(m.clone()),
            MetaUpdate::DropTable(m) => MetaUpdate::DropTable(*m),
        }
    }
}

/// The (space, table) key an update speaks of.
pub open spec fn update_key(u: MetaUpdate) -> (SpaceId, TableId) {
    match u {
        MetaUpdate::AddTable(m) => (m.space_id, m.table_id),
        MetaUpdate::DropTable(m) => (m.space_id, m.table_id),
    }
}

/// Whether `u` adds the table keyed by (`space_id`, `table_id`).
pub open spec fn is_add_table_for(u: MetaUpdate, space_id: SpaceId, table_id: TableId) -> bool {
    match u {
        MetaUpdate::AddTable(m) => m.space_id == space_id && m.table_id == table_id,
        MetaUpdate::DropTable(_) => false,
    }
}

/// An update's added schema and options are valid; drops carry none.
pub open spec fn update_wf(u: MetaUpdate) -> bool {
    match u {
        MetaUpdate::AddTable(m) => schema_wf(m.schema) && options_wf(m.opts),
        MetaUpdate::DropTable(_) => true,
    }
}

/// How many entries of `s` add the table keyed by (`space_id`, `table_id`).
pub open spec fn add_table_count(s: Seq<MetaUpdate>, space_id: SpaceId, table_id: TableId) -> nat
    decreases s.len(),
{
    if s.len() == 0 {
        0
    } else {
        add_table_count(s.drop_last(), space_id, table_id) + if is_add_table_for(
            s.last(),
            space_id,
            table_id,
        ) {
            1nat
        } else {
            0nat
        }
    }
}

/// Replaying `s` for one table: the metadata of the table if its most
/// recent mutation added it, `None` if it was never added or was dropped
/// since its last addition.
pub open spec fn replay_table(s: Seq<MetaUpdate>, space_id: SpaceId, table_id: TableId) -> Option<
    AddTableMeta,
>
    decreases s.len(),
{
    if s.len() == 0 {
        None
    } else if update_key(s.last()) == (space_id, table_id) {
        match s.last() {
            MetaUpdate::AddTable(m) => Some(m),
            MetaUpdate::DropTable(_) => None,
        }
    } else {
        replay_table(s.drop_last(), space_id, table_id)
    }
}

/// Appending an update about another table changes nothing of this one's
/// replay.
pub proof fn lemma_replay_push_other(
    s: Seq<MetaUpdate>,
    u: MetaUpdate,
    space_id: SpaceId,
    table_id: TableId,
)
    requires
        update_key(u) != (space_id, table_id),
    ensures
        replay_table(s.push(u), space_id, table_id) == replay_table(s, space_id, table_id),
{
    assert(s.push(u).drop_last() =~= s);
}

/// Appending an addition of this table makes its replay that addition.
pub proof fn lemma_replay_push_add(
    s: Seq<MetaUpdate>,
    m: AddTableMeta,
    space_id: SpaceId,
    table_id: TableId,
)
    requires
        m.space_id == space_id,
        m.table_id == table_id,
    ensures
        replay_table(s.push(MetaUpdate::AddTable(m)), space_id, table_id) == Some(m),
{
}

/// Appending a drop of this table makes its replay empty.
pub proof fn lemma_replay_push_drop(s: Seq<MetaUpdate>, space_id: SpaceId, table_id: TableId)
    ensures
        replay_table(
            s.push(MetaUpdate::DropTable(DropTableMeta { space_id, table_id })),
            space_id,
            table_id,
        ) is None,
{
}

/// Appending an update changes the addition count of a table by one
/// exactly when the update adds that table.
pub proof fn lemma_add_count_push(
    s: Seq<MetaUpdate>,
    u: MetaUpdate,
    space_id: SpaceId,
    table_id: TableId,
)
    ensures
        add_table_count(s.push(u), space_id, table_id) == add_table_count(s, space_id, table_id)
            + if is_add_table_for(u, space_id, table_id) {
            1nat
        } else {
            0nat
        },
{
    assert(s.push(u).drop_last() =~= s);
}

/// A successful replay returns metadata that stands in the manifest, under
/// the replayed key.
pub proof fn lemma_replay_entry_in_manifest(s: Seq<MetaUpdate>, space_id: SpaceId, table_id: TableId)
    requires
        replay_table(s, space_id, table_id) is Some,
    ensures
        exists|i: int|
            0 <= i < s.len() && s[i] == MetaUpdate::AddTable(
                replay_table(s, space_id, table_id)->Some_0,
            ),
        replay_table(s, space_id, table_id)->Some_0.space_id == space_id,
        replay_table(s, space_id, table_id)->Some_0.table_id == table_id,
    decreases s.len(),
{
    if s.len() > 0 {
        if update_key(s.last()) == (space_id, table_id) {
            assert(s[s.len() - 1] == s.last());
        } else {
            lemma_replay_entry_in_manifest(s.drop_last(), space_id, table_id);
            let i = choose|i: int|
                0 <= i < s.drop_last().len() && s.drop_last()[i] == MetaUpdate::AddTable(
                    replay_table(s.drop_last(), space_id, table_id)->Some_0,
                );
            assert(s[i] == s.drop_last()[i]);
        }
    }
}

/// Error reported by a manifest whose durable append failed. The
/// in-memory manifest of this crate never produces it; durable
/// implementations substitute their own failure there.
#[derive(Clone, Copy, PartialEq, Eq, Structural, Debug)]
pub enum ManifestError {
    StorageUnavailable,
}

/// An in-memory manifest: the append-only log of [`MetaUpdate`]s. Its
/// view is the sequence of updates stored so far, oldest first.
pub struct Manifest {
    updates: Vec<MetaUpdate>,
}

impl View for Manifest {
    type V = Seq<MetaUpdate>;

    closed spec fn view(&self) -> Seq<MetaUpdate> {
        self.updates@
    }
}

impl Manifest {
    /// An empty manifest.
    pub fn new() -> (r: Self)
        ensures
            r@ == Seq::<MetaUpdate>::empty(),
    {
        Manifest { updates: Vec::new() }
    }

    /// Durably append one update; returns only after it is persisted.
    /// The in-memory store cannot fail, so the result is always `Ok`.
    pub fn store_update(&mut self, update: MetaUpdate) -> (r: Result<(), ManifestError>)
        ensures
            r is Ok,
            final(self)@ == old(self)@.push(update),
    {
        self.updates.push(update);
        Ok(())
    }

    /// Number of updates stored so far.
    pub fn len(&self) -> (n: usize)
        ensures
            n == self@.len(),
    {
        self.updates.len()
    }

    /// The `i`-th stored update, oldest first.
    pub fn get(&self, i: usize) -> (u: &MetaUpdate)
        requires
            i < self@.len(),
        ensures
            *u == self@[i as int],
    {
        &self.updates[i]
    }
}

} // verus!
