//! The manifest-update payload codec: round trips, exact bytes, errors.

use analytic_engine::log_batch::{Payload, PayloadDecoder, PayloadError};
use analytic_engine::meta::{AddTableMeta, DropTableMeta, MetaUpdate};
use analytic_engine::meta_codec::MetaUpdateDecoder;
use analytic_engine::requests::Schema;
use analytic_engine::table_options::TableOptions;

fn sample_add() -> MetaUpdate {
    MetaUpdate::AddTable(AddTableMeta {
        space_id: 7,
        table_id: 42,
        table_name: String::from("t1"),
        schema: Schema { version: 1, num_key_columns: 2, num_columns: 5 },
        opts: TableOptions { segment_duration_ms: 3_600_000, ttl_ms: 0, write_buffer_size: 512 },
    })
}

fn encode(update: &MetaUpdate) -> Vec<u8> {
    let mut buf = Vec::new();
    update.encode_to(&mut buf).expect("encoding never fails");
    buf
}

#[test]
fn round_trip_add_table() {
    let original = sample_add();
    let buf = encode(&original);
    assert_eq!(buf.len(), original.encode_size());
    let decoded = MetaUpdateDecoder.decode(&buf).expect("decodes");
    match (original, decoded) {
        (MetaUpdate::AddTable(a), MetaUpdate::AddTable(b)) => {
            assert_eq!(a.space_id, b.space_id);
            assert_eq!(a.table_id, b.table_id);
            assert_eq!(a.table_name, b.table_name);
            assert_eq!(a.schema, b.schema);
            assert_eq!(a.opts, b.opts);
        }
        _ => panic!("variant changed in the round trip"),
    }
}

#[test]
fn round_trip_add_table_unicode_name() {
    let original = MetaUpdate::AddTable(AddTableMeta {
        space_id: 1,
        table_id: 2,
        table_name: String::from("m\u{e9}trique \u{6e2c}"),
        schema: Schema { version: 0, num_key_columns: 0, num_columns: 1 },
        opts: TableOptions { segment_duration_ms: 1, ttl_ms: 5, write_buffer_size: 0 },
    });
    let buf = encode(&original);
    let decoded = MetaUpdateDecoder.decode(&buf).expect("decodes");
    match (original, decoded) {
        (MetaUpdate::AddTable(a), MetaUpdate::AddTable(b)) => {
            assert_eq!(a.table_name, b.table_name);
        }
        _ => panic!("variant changed in the round trip"),
    }
}

#[test]
fn round_trip_drop_table() {
    let original = MetaUpdate::DropTable(DropTableMeta { space_id: 9, table_id: 11 });
    let buf = encode(&original);
    assert_eq!(buf.len(), original.encode_size());
    match MetaUpdateDecoder.decode(&buf).expect("decodes") {
        MetaUpdate::DropTable(d) => {
            assert_eq!(d.space_id, 9);
            assert_eq!(d.table_id, 11);
        }
        MetaUpdate::AddTable(_) => panic!("variant changed in the round trip"),
    }
}

#[test]
fn drop_table_exact_bytes() {
    let update = MetaUpdate::DropTable(DropTableMeta { space_id: 1, table_id: 2 });
    let buf = encode(&update);
    assert_eq!(buf, vec![1u8, 1, 0, 0, 0, 2, 0, 0, 0, 0, 0, 0, 0]);
    assert_eq!(update.encode_size(), 13);
}

#[test]
fn truncated_buffer_is_rejected() {
    let buf = encode(&sample_add());
    let truncated = &buf[..buf.len() - 1];
    assert_eq!(MetaUpdateDecoder.decode(truncated).unwrap_err(), PayloadError::InsufficientBytes);
    assert_eq!(MetaUpdateDecoder.decode(&[]).unwrap_err(), PayloadError::InsufficientBytes);
    assert_eq!(MetaUpdateDecoder.decode(&[1u8, 0, 0]).unwrap_err(), PayloadError::InsufficientBytes);
}

#[test]
fn unknown_tag_is_rejected() {
    let mut buf = encode(&sample_add());
    buf[0] = 9;
    assert_eq!(MetaUpdateDecoder.decode(&buf).unwrap_err(), PayloadError::InvalidTag);
}

#[test]
fn trailing_bytes_are_rejected() {
    let mut buf = encode(&sample_add());
    buf.push(0);
    assert_eq!(MetaUpdateDecoder.decode(&buf).unwrap_err(), PayloadError::TrailingBytes);

    let mut drop_buf = encode(&MetaUpdate::DropTable(DropTableMeta { space_id: 1, table_id: 2 }));
    drop_buf.push(0);
    assert_eq!(MetaUpdateDecoder.decode(&drop_buf).unwrap_err(), PayloadError::TrailingBytes);
}

#[test]
fn invalid_utf8_name_is_rejected() {
    // Tag, space id, table id, a one-byte name that is not UTF-8,
    // then schema and options fields.
    let mut buf = vec![0u8];
    buf.extend_from_slice(&[7, 0, 0, 0]);
    buf.extend_from_slice(&[42, 0, 0, 0, 0, 0, 0, 0]);
    buf.extend_from_slice(&[1, 0, 0, 0, 0, 0, 0, 0]);
    buf.push(0xff);
    buf.extend_from_slice(&[0u8; 32]);
    assert_eq!(MetaUpdateDecoder.decode(&buf).unwrap_err(), PayloadError::InvalidUtf8);
}
