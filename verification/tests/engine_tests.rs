//! Table lifecycle behaviour through the engine facade.

use analytic_engine::engine::{build_space_id, TableEngineImpl};
use analytic_engine::error::Error;
use analytic_engine::ids::SchemaId;
use analytic_engine::instance::Instance;
use analytic_engine::meta::MetaUpdate;
use analytic_engine::requests::{
    CloseTableRequest, CreateTableRequest, DropTableRequest, OpenTableRequest, Schema,
};
use analytic_engine::table_options::{TableOptions, TableRequestOptions};

fn default_opts() -> TableOptions {
    TableOptions { segment_duration_ms: 7_200_000, ttl_ms: 0, write_buffer_size: 1024 }
}

fn new_engine() -> TableEngineImpl {
    TableEngineImpl::new(Instance::new(default_opts(), 4, 0, 0))
}

fn no_request_opts() -> TableRequestOptions {
    TableRequestOptions { segment_duration_ms: None, ttl_ms: None, write_buffer_size: None }
}

fn create_request(schema_id: u32, table_id: u64, name: &str) -> CreateTableRequest {
    CreateTableRequest {
        schema_id: SchemaId(schema_id),
        table_id,
        table_name: String::from(name),
        schema: Schema { version: 1, num_key_columns: 1, num_columns: 3 },
        options: no_request_opts(),
    }
}

fn open_request(schema_id: u32, table_id: u64) -> OpenTableRequest {
    OpenTableRequest {
        schema_id: SchemaId(schema_id),
        table_id,
        table_name: String::from("any"),
    }
}

fn drop_request(schema_id: u32, table_id: u64) -> DropTableRequest {
    DropTableRequest {
        schema_id: SchemaId(schema_id),
        table_id,
        table_name: String::from("any"),
    }
}

fn close_request(schema_id: u32, table_id: u64) -> CloseTableRequest {
    CloseTableRequest {
        schema_id: SchemaId(schema_id),
        table_id,
        table_name: String::from("any"),
    }
}

fn count_add_entries(engine: &TableEngineImpl, space_id: u32, table_id: u64) -> usize {
    let mut count = 0;
    for i in 0..engine.manifest_len() {
        if let MetaUpdate::AddTable(m) = engine.manifest_get(i) {
            if m.space_id == space_id && m.table_id == table_id {
                count += 1;
            }
        }
    }
    count
}

#[test]
fn engine_type_is_analytic() {
    let engine = new_engine();
    assert_eq!(engine.engine_type(), "analytic");
}

#[test]
fn build_space_id_is_the_schema_id() {
    assert_eq!(build_space_id(SchemaId(7)), 7);
    assert_eq!(SchemaId(7).as_u32(), 7);
    // Distinct schema ids give distinct space ids.
    assert_ne!(build_space_id(SchemaId(1)), build_space_id(SchemaId(2)));
}

#[test]
fn create_then_open_scenario() {
    // CreateTableRequest{schema_id=7, table_id=42, name="t1", default options}.
    let mut engine = new_engine();
    let table = engine.create_table(create_request(7, 42, "t1")).expect("create succeeds");
    assert_eq!(table.data.space_id, 7);
    assert_eq!(table.data.id, 42);
    assert_eq!(table.data.name, "t1");

    // The manifest gained AddTable{space_id=7, table_id=42}.
    assert_eq!(engine.manifest_len(), 1);
    match engine.manifest_get(0) {
        MetaUpdate::AddTable(m) => {
            assert_eq!(m.space_id, 7);
            assert_eq!(m.table_id, 42);
            assert_eq!(m.table_name, "t1");
        }
        MetaUpdate::DropTable(_) => panic!("expected an addition"),
    }

    // A subsequent open returns the table, with its name.
    let opened = engine.open_table(&open_request(7, 42)).expect("open succeeds");
    let opened = opened.expect("table exists");
    assert_eq!(opened.data.name, "t1");
}

#[test]
fn duplicate_creates_register_one_table() {
    // Two create calls for the same (schema_id=7, table_id=42), as two
    // submissions to the table's lane would run them, one after the other.
    let mut engine = new_engine();
    let first = engine.create_table(create_request(7, 42, "t1")).expect("first create succeeds");
    let second = engine.create_table(create_request(7, 42, "t1")).expect("second create succeeds");
    assert_eq!(first.data.id, second.data.id);
    assert_eq!(first.data.name, second.data.name);
    assert_eq!(first.data.space_id, second.data.space_id);
    assert_eq!(engine.table_count(), 1);
    // Exactly one manifest addition for the table.
    assert_eq!(count_add_entries(&engine, 7, 42), 1);
}

#[test]
fn open_of_never_created_table_is_absent_not_an_error() {
    let mut engine = new_engine();
    let opened = engine.open_table(&open_request(7, 42)).expect("open does not fail");
    assert!(opened.is_none());
}

#[test]
fn drop_of_never_created_table_reports_nothing_dropped() {
    let mut engine = new_engine();
    let dropped = engine.drop_table(drop_request(7, 42)).expect("drop does not fail");
    assert!(!dropped);
}

#[test]
fn drop_reports_true_exactly_once() {
    let mut engine = new_engine();
    engine.create_table(create_request(7, 42, "t1")).expect("create succeeds");
    assert!(engine.drop_table(drop_request(7, 42)).expect("first drop"));
    assert!(!engine.drop_table(drop_request(7, 42)).expect("second drop"));
    assert!(!engine.drop_table(drop_request(7, 42)).expect("third drop"));
}

#[test]
fn dropped_table_cannot_be_reopened() {
    let mut engine = new_engine();
    engine.create_table(create_request(7, 42, "t1")).expect("create succeeds");
    assert!(engine.drop_table(drop_request(7, 42)).expect("drop succeeds"));
    let opened = engine.open_table(&open_request(7, 42)).expect("open does not fail");
    assert!(opened.is_none());
}

#[test]
fn closed_table_reopens_by_manifest_replay() {
    let mut engine = new_engine();
    engine.create_table(create_request(7, 42, "t1")).expect("create succeeds");
    engine.close_table(close_request(7, 42)).expect("close succeeds");
    assert_eq!(engine.table_count(), 0);
    // The manifest still holds the addition; open rebuilds the table.
    let opened = engine.open_table(&open_request(7, 42)).expect("open succeeds");
    let opened = opened.expect("table is rebuilt from the manifest");
    assert_eq!(opened.data.name, "t1");
    assert_eq!(opened.data.id, 42);
    assert_eq!(engine.table_count(), 1);
}

#[test]
fn closing_an_absent_table_is_a_no_op() {
    let mut engine = new_engine();
    engine.close_table(close_request(7, 42)).expect("close of absent table succeeds");
}

#[test]
fn engine_close_unregisters_all_tables_and_keeps_the_manifest() {
    let mut engine = new_engine();
    engine.create_table(create_request(7, 42, "t1")).expect("create succeeds");
    engine.create_table(create_request(8, 43, "t2")).expect("create succeeds");
    assert_eq!(engine.table_count(), 2);
    engine.close().expect("close succeeds");
    assert_eq!(engine.table_count(), 0);
    assert_eq!(engine.manifest_len(), 2);
    // A later open still replays the manifest.
    let opened = engine.open_table(&open_request(8, 43)).expect("open succeeds");
    assert_eq!(opened.expect("table is rebuilt").data.name, "t2");
}

#[test]
fn zero_segment_duration_is_invalid_options() {
    let mut engine = new_engine();
    let mut request = create_request(7, 42, "t1");
    request.options.segment_duration_ms = Some(0);
    match engine.create_table(request) {
        Err(Error::InvalidOptions { space_id, table, table_id }) => {
            assert_eq!(space_id, 7);
            assert_eq!(table, "t1");
            assert_eq!(table_id, 42);
        }
        _ => panic!("expected the invalid-options failure"),
    }
    // Nothing was applied.
    assert_eq!(engine.manifest_len(), 0);
    assert_eq!(engine.table_count(), 0);
}

#[test]
fn invalid_schema_is_create_table_data_failure() {
    let mut engine = new_engine();
    let mut request = create_request(7, 42, "t1");
    request.schema = Schema { version: 1, num_key_columns: 5, num_columns: 3 };
    match engine.create_table(request) {
        Err(Error::CreateTableData { space_id, table, table_id }) => {
            assert_eq!(space_id, 7);
            assert_eq!(table, "t1");
            assert_eq!(table_id, 42);
        }
        _ => panic!("expected the create-table-data failure"),
    }
    assert_eq!(engine.manifest_len(), 0);
}

#[test]
fn options_merge_takes_request_values_and_defaults() {
    let mut engine = new_engine();
    let mut request = create_request(7, 42, "t1");
    request.options.segment_duration_ms = Some(60_000);
    request.options.write_buffer_size = Some(333);
    let table = engine.create_table(request).expect("create succeeds");
    // Request values where present, defaults otherwise; no budget is set.
    assert_eq!(table.data.opts.segment_duration_ms, 60_000);
    assert_eq!(table.data.opts.ttl_ms, 0);
    assert_eq!(table.data.opts.write_buffer_size, 333);
}

#[test]
fn space_budget_overrides_the_table_write_buffer() {
    let mut engine = TableEngineImpl::new(Instance::new(default_opts(), 4, 0, 500));
    let mut request = create_request(7, 42, "t1");
    request.options.write_buffer_size = Some(9999);
    let table = engine.create_table(request).expect("create succeeds");
    assert_eq!(table.data.opts.write_buffer_size, 500);
}

#[test]
fn short_ttl_is_normalized_to_one_segment() {
    let mut engine = new_engine();
    let mut request = create_request(7, 42, "t1");
    request.options.ttl_ms = Some(10);
    let table = engine.create_table(request).expect("create succeeds");
    // Sanitize raised the time-to-live to the segment duration.
    assert_eq!(table.data.opts.ttl_ms, 7_200_000);
}

#[test]
fn tables_in_different_spaces_do_not_collide() {
    let mut engine = new_engine();
    engine.create_table(create_request(7, 42, "a")).expect("create succeeds");
    engine.create_table(create_request(9, 42, "b")).expect("create succeeds");
    assert_eq!(engine.table_count(), 2);
    assert!(engine.drop_table(drop_request(7, 42)).expect("drop succeeds"));
    // The same table id in the other space is untouched.
    let opened = engine.open_table(&open_request(9, 42)).expect("open succeeds");
    assert_eq!(opened.expect("still present").data.name, "b");
}

#[test]
fn error_kind_names_are_distinct() {
    let invalid = Error::InvalidOptions { space_id: 1, table: String::from("t"), table_id: 2 };
    let create = Error::CreateTableData { space_id: 1, table: String::from("t"), table_id: 2 };
    assert_ne!(invalid.kind_name(), create.kind_name());
    assert_eq!(Error::Close.kind_name(), "close");
}
