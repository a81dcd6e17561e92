//! Sequence assignment and replay of the in-memory log manager.

use analytic_engine::log_batch::{LogWriteBatch, LogWriteEntry, Payload};
use analytic_engine::meta::{DropTableMeta, MetaUpdate};
use analytic_engine::wal_manager::WalManager;

fn batch_of(region_id: u64, table_ids: &[u64]) -> LogWriteBatch<MetaUpdate> {
    let mut batch = LogWriteBatch::new(region_id);
    for table_id in table_ids {
        batch.push(LogWriteEntry {
            payload: MetaUpdate::DropTable(DropTableMeta { space_id: 1, table_id: *table_id }),
        });
    }
    batch
}

#[test]
fn append_assigns_consecutive_sequences_from_one() {
    let mut wal = WalManager::new();
    let last = wal.append(&batch_of(5, &[10, 11, 12])).expect("append succeeds");
    assert_eq!(last, 3);
    assert_eq!(wal.region_count(5), 3);

    let entries = wal.read(5, 0);
    assert_eq!(entries.len(), 3);
    for (k, entry) in entries.iter().enumerate() {
        assert_eq!(entry.sequence, (k as u64) + 1);
    }
}

#[test]
fn read_is_restartable_from_an_observed_sequence() {
    let mut wal = WalManager::new();
    let first_last = wal.append(&batch_of(5, &[10, 11])).expect("append succeeds");
    assert_eq!(first_last, 2);
    let second_last = wal.append(&batch_of(5, &[12, 13])).expect("append succeeds");
    assert_eq!(second_last, 4);

    // Replay from just past the first batch.
    let entries = wal.read(5, first_last + 1);
    assert_eq!(entries.len(), 2);
    assert_eq!(entries[0].sequence, 3);
    assert_eq!(entries[1].sequence, 4);

    // 0 and 1 both read from the beginning.
    assert_eq!(wal.read(5, 0).len(), 4);
    assert_eq!(wal.read(5, 1).len(), 4);
}

#[test]
fn regions_are_sequenced_independently() {
    let mut wal = WalManager::new();
    wal.append(&batch_of(5, &[10])).expect("append succeeds");
    let last = wal.append(&batch_of(6, &[20, 21])).expect("append succeeds");
    // The other region starts at 1 regardless of region 5's entries.
    assert_eq!(last, 2);
    assert_eq!(wal.read(5, 0).len(), 1);
    assert_eq!(wal.read(6, 0).len(), 2);
    assert_eq!(wal.read(7, 0).len(), 0);
}

#[test]
fn appended_bytes_are_the_payload_encodings() {
    let mut wal = WalManager::new();
    let update = MetaUpdate::DropTable(DropTableMeta { space_id: 1, table_id: 10 });
    let mut expected = Vec::new();
    update.encode_to(&mut expected).expect("encoding never fails");

    wal.append(&batch_of(9, &[10])).expect("append succeeds");
    let entries = wal.read(9, 0);
    assert_eq!(entries.len(), 1);
    assert_eq!(entries[0].payload, expected);
}

#[test]
fn empty_batch_appends_nothing_and_reports_the_last_sequence() {
    let mut wal = WalManager::new();
    let last = wal.append(&batch_of(5, &[])).expect("append succeeds");
    assert_eq!(last, 0);
    wal.append(&batch_of(5, &[10])).expect("append succeeds");
    let last = wal.append(&batch_of(5, &[])).expect("append succeeds");
    assert_eq!(last, 1);
    assert_eq!(wal.region_count(5), 1);
}

#[test]
fn cleared_batch_reused_across_append_calls() {
    let mut wal = WalManager::new();
    let mut batch = batch_of(5, &[10]);
    assert_eq!(wal.append(&batch).expect("append succeeds"), 1);
    batch.clear();
    batch.push(LogWriteEntry {
        payload: MetaUpdate::DropTable(DropTableMeta { space_id: 1, table_id: 11 }),
    });
    assert_eq!(wal.append(&batch).expect("append succeeds"), 2);
    assert_eq!(wal.region_count(5), 2);
}
