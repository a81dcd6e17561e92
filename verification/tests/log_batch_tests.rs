//! Behaviour of the reusable log write batch.

use analytic_engine::ids::TableId;
use analytic_engine::log_batch::{LogEntry, LogWriteBatch, LogWriteEntry};
use analytic_engine::meta::{DropTableMeta, MetaUpdate};

fn drop_entry(table_id: TableId) -> LogWriteEntry<MetaUpdate> {
    LogWriteEntry { payload: MetaUpdate::DropTable(DropTableMeta { space_id: 1, table_id }) }
}

#[test]
fn push_k_entries_len_is_k() {
    let mut batch: LogWriteBatch<MetaUpdate> = LogWriteBatch::new(7);
    assert_eq!(batch.region_id(), 7);
    assert!(batch.is_empty());
    assert_eq!(batch.len(), 0);
    for k in 0..3u64 {
        batch.push(drop_entry(k));
    }
    assert_eq!(batch.len(), 3);
    assert!(!batch.is_empty());
}

#[test]
fn clear_empties_and_batch_is_reusable() {
    let mut batch: LogWriteBatch<MetaUpdate> = LogWriteBatch::with_capacity(9, 16);
    batch.push(drop_entry(1));
    batch.push(drop_entry(2));
    assert_eq!(batch.len(), 2);
    batch.clear();
    assert_eq!(batch.len(), 0);
    assert!(batch.is_empty());
    // Reused for a different append cycle.
    batch.push(drop_entry(3));
    assert_eq!(batch.len(), 1);
    assert_eq!(batch.region_id(), 9);
}

#[test]
fn default_batch_uses_region_zero() {
    let batch: LogWriteBatch<MetaUpdate> = Default::default();
    assert_eq!(batch.region_id(), 0);
    assert!(batch.is_empty());
}

#[test]
fn log_entry_pairs_sequence_with_payload() {
    let entry = LogEntry {
        sequence: 41,
        payload: MetaUpdate::DropTable(DropTableMeta { space_id: 3, table_id: 4 }),
    };
    assert_eq!(entry.sequence, 41);
    match entry.payload {
        MetaUpdate::DropTable(d) => {
            assert_eq!(d.space_id, 3);
            assert_eq!(d.table_id, 4);
        }
        MetaUpdate::AddTable(_) => panic!("expected a drop entry"),
    }
}
