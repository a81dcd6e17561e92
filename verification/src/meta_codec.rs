//! The byte encoding of manifest updates: the concrete payload type the
//! engine appends to its durable logs, with a proved encode/decode
//! round trip.
//!
//! Layout, little-endian throughout: a one-byte variant tag, then the
//! variant's fields. An added table is tag 0, the space id (4 bytes),
//! the table id (8), the name as an 8-byte byte-length followed by its
//! UTF-8 bytes, the schema (three 4-byte fields), and the options (two
//! 8-byte fields and one 4-byte field). A dropped table is tag 1, the
//! space id (4) and the table id (8).

use vstd::bytes::{
    lemma_auto_spec_u32_to_from_le_bytes, lemma_auto_spec_u64_to_from_le_bytes,
    spec_u32_from_le_bytes, spec_u32_to_le_bytes, spec_u64_from_le_bytes, spec_u64_to_le_bytes,
    u32_from_le_bytes, u32_to_le_bytes, u64_from_le_bytes, u64_to_le_bytes,
};
use vstd::prelude::*;
use vstd::slice::{slice_index_get, slice_subrange, slice_to_vec};
use vstd::string::StrSliceExecFns;
use vstd::utf8::{decode_utf8, encode_utf8, encode_utf8_decode_utf8, encode_utf8_valid_utf8, valid_utf8};

use crate::log_batch::{Payload, PayloadDecoder, PayloadError};
use crate::meta::{AddTableMeta, DropTableMeta, MetaUpdate};
use crate::requests::Schema;
use crate::table_options::TableOptions;

verus! {

/// Tag byte of an added table.
pub const ADD_TABLE_TAG: u8 = 0;

/// Tag byte of a dropped table.
pub const DROP_TABLE_TAG: u8 = 1;

/// The abstract value of an [`AddTableMeta`]: its name as a character
/// sequence.
pub struct AddTableModel {
    pub space_id: u32,
    pub table_id: u64,
    pub table_name: Seq<char>,
    pub schema: Schema,
    pub opts: TableOptions,
}

/// The abstract value of a [`MetaUpdate`].
pub enum MetaUpdateModel {
    AddTable(AddTableModel),
    DropTable(DropTableMeta),
}

impl View for AddTableMeta {
    type V = AddTableModel;

    open spec fn view(&self) -> AddTableModel {
        AddTableModel {
            space_id: self.space_id,
            table_id: self.table_id,
            table_name: self.table_name@,
            schema: self.schema,
            opts: self.opts,
        }
    }
}

impl View for MetaUpdate {
    type V = MetaUpdateModel;

    open spec fn view(&self) -> MetaUpdateModel {
        match self {
            MetaUpdate::AddTable(m) => MetaUpdateModel::AddTable(m@),
            MetaUpdate::DropTable(d) => MetaUpdateModel::DropTable(*d),
        }
    }
}

/// Encoding of a name: its UTF-8 byte length, then those bytes.
pub open spec fn spec_encode_name(name: Seq<char>) -> Seq<u8> {
    spec_u64_to_le_bytes(encode_utf8(name).len() as u64) + encode_utf8(name)
}

/// Encoding of a schema summary.
pub open spec fn spec_encode_schema(s: Schema) -> Seq<u8> {
    spec_u32_to_le_bytes(s.version) + spec_u32_to_le_bytes(s.num_key_columns)
        + spec_u32_to_le_bytes(s.num_columns)
}

/// Encoding of effective table options.
pub open spec fn spec_encode_options(o: TableOptions) -> Seq<u8> {
    spec_u64_to_le_bytes(o.segment_duration_ms) + spec_u64_to_le_bytes(o.ttl_ms)
        + spec_u32_to_le_bytes(o.write_buffer_size)
}

/// Encoding of a manifest update.
pub open spec fn spec_encode_meta_update(m: MetaUpdateModel) -> Seq<u8> {
    match m {
        MetaUpdateModel::AddTable(a) => seq![ADD_TABLE_TAG] + spec_u32_to_le_bytes(a.space_id)
            + spec_u64_to_le_bytes(a.table_id) + spec_encode_name(a.table_name)
            + spec_encode_schema(a.schema) + spec_encode_options(a.opts),
        MetaUpdateModel::DropTable(d) => seq![DROP_TABLE_TAG] + spec_u32_to_le_bytes(d.space_id)
            + spec_u64_to_le_bytes(d.table_id),
    }
}

/// An update model that an executable value can carry: its name's UTF-8
/// form fits the length prefix.
pub open spec fn meta_model_wf(m: MetaUpdateModel) -> bool {
    match m {
        MetaUpdateModel::AddTable(a) => encode_utf8(a.table_name).len() <= u64::MAX,
        MetaUpdateModel::DropTable(_) => true,
    }
}

/// What a buffer decodes to under the layout above, demanding that the
/// buffer holds exactly one update and nothing more.
pub open spec fn spec_decode_meta_update(b: Seq<u8>) -> Option<MetaUpdateModel> {
    if b.len() < 1 {
        None
    } else if b[0] == ADD_TABLE_TAG {
        spec_decode_add_body(b.skip(1))
    } else if b[0] == DROP_TABLE_TAG {
        spec_decode_drop_body(b.skip(1))
    } else {
        None
    }
}

/// Decoding of a dropped table's body: exactly space id and table id.
pub open spec fn spec_decode_drop_body(b: Seq<u8>) -> Option<MetaUpdateModel> {
    if b.len() == 12 {
        Some(
            MetaUpdateModel::DropTable(
                DropTableMeta {
                    space_id: spec_u32_from_le_bytes(b.take(4)),
                    table_id: spec_u64_from_le_bytes(b.skip(4)),
                },
            ),
        )
    } else {
        None
    }
}

/// Decoding of an added table's body.
pub open spec fn spec_decode_add_body(b: Seq<u8>) -> Option<MetaUpdateModel> {
    if b.len() < 20 {
        None
    } else {
        let space_id = spec_u32_from_le_bytes(b.take(4));
        let b1 = b.skip(4);
        let table_id = spec_u64_from_le_bytes(b1.take(8));
        let b2 = b1.skip(8);
        let name_len = spec_u64_from_le_bytes(b2.take(8)) as int;
        let b3 = b2.skip(8);
        if b3.len() < name_len + 32 {
            None
        } else {
            let name_bytes = b3.take(name_len);
            let b4 = b3.skip(name_len);
            if !valid_utf8(name_bytes) {
                None
            } else if b4.len() != 32 {
                None
            } else {
                Some(
                    MetaUpdateModel::AddTable(
                        AddTableModel {
                            space_id,
                            table_id,
                            table_name: decode_utf8(name_bytes),
                            schema: Schema {
                                version: spec_u32_from_le_bytes(b4.take(4)),
                                num_key_columns: spec_u32_from_le_bytes(b4.skip(4).take(4)),
                                num_columns: spec_u32_from_le_bytes(b4.skip(8).take(4)),
                            },
                            opts: TableOptions {
                                segment_duration_ms: spec_u64_from_le_bytes(b4.skip(12).take(8)),
                                ttl_ms: spec_u64_from_le_bytes(b4.skip(20).take(8)),
                                write_buffer_size: spec_u32_from_le_bytes(b4.skip(28)),
                            },
                        },
                    ),
                )
            }
        }
    }
}

/// Decoding inverts encoding: any update value comes back from its own
/// bytes unchanged.
pub proof fn lemma_meta_update_round_trip(m: MetaUpdateModel)
    requires
        meta_model_wf(m),
    ensures
        spec_decode_meta_update(spec_encode_meta_update(m)) == Some(m),
{
    lemma_auto_spec_u32_to_from_le_bytes();
    lemma_auto_spec_u64_to_from_le_bytes();
    let e = spec_encode_meta_update(m);
    match m {
        MetaUpdateModel::DropTable(d) => {
            assert(e[0] == DROP_TABLE_TAG);
            let body = e.skip(1);
            assert(body =~= spec_u32_to_le_bytes(d.space_id) + spec_u64_to_le_bytes(d.table_id));
            assert(body.len() == 12);
            assert(body.take(4) =~= spec_u32_to_le_bytes(d.space_id));
            assert(body.skip(4) =~= spec_u64_to_le_bytes(d.table_id));
        },
        MetaUpdateModel::AddTable(a) => {
            let nb = encode_utf8(a.table_name);
            broadcast use encode_utf8_valid_utf8;

            encode_utf8_decode_utf8(a.table_name);
            assert(e[0] == ADD_TABLE_TAG);
            let body = e.skip(1);
            assert(body =~= spec_u32_to_le_bytes(a.space_id) + spec_u64_to_le_bytes(a.table_id)
                + spec_u64_to_le_bytes(nb.len() as u64) + nb + spec_encode_schema(a.schema)
                + spec_encode_options(a.opts));
            assert(body.len() == 20 + nb.len() + 32);
            assert(body.take(4) =~= spec_u32_to_le_bytes(a.space_id));
            let b1 = body.skip(4);
            assert(b1.take(8) =~= spec_u64_to_le_bytes(a.table_id));
            let b2 = b1.skip(8);
            assert(b2.take(8) =~= spec_u64_to_le_bytes(nb.len() as u64));
            let b3 = b2.skip(8);
            assert(spec_u64_from_le_bytes(spec_u64_to_le_bytes(nb.len() as u64)) == nb.len());
            assert(b3.len() == nb.len() + 32);
            assert(b3.take(nb.len() as int) =~= nb);
            let b4 = b3.skip(nb.len() as int);
            assert(b4 =~= spec_encode_schema(a.schema) + spec_encode_options(a.opts));
            assert(b4.len() == 32);
            assert(b4.take(4) =~= spec_u32_to_le_bytes(a.schema.version));
            assert(b4.skip(4).take(4) =~= spec_u32_to_le_bytes(a.schema.num_key_columns));
            assert(b4.skip(8).take(4) =~= spec_u32_to_le_bytes(a.schema.num_columns));
            assert(b4.skip(12).take(8) =~= spec_u64_to_le_bytes(a.opts.segment_duration_ms));
            assert(b4.skip(20).take(8) =~= spec_u64_to_le_bytes(a.opts.ttl_ms));
            assert(b4.skip(28) =~= spec_u32_to_le_bytes(a.opts.write_buffer_size));
        },
    }
}

/// Relies on `String::from_utf8` of std: it succeeds exactly when the
/// bytes are valid UTF-8, and the returned string's UTF-8 bytes are
/// exactly the input bytes.
#[verifier::external_body]
fn string_from_utf8(bytes: Vec<u8>) -> (r: Option<String>)
    ensures
        r matches Some(s) ==> valid_utf8(bytes@) && encode_utf8(s@) == bytes@,
        r is None ==> !valid_utf8(bytes@),
{
    String::from_utf8(bytes).ok()
}

impl Payload for MetaUpdate {
    open spec fn encoding(&self) -> Seq<u8> {
        spec_encode_meta_update(self@)
    }

    open spec fn encodes(&self) -> bool {
        true
    }

    fn encode_size(&self) -> (n: usize) {
        proof {
            lemma_auto_spec_u32_to_from_le_bytes();
            lemma_auto_spec_u64_to_from_le_bytes();
        }
        match self {
            MetaUpdate::AddTable(m) => {
                let name_len = m.table_name.as_str().len();
                53 + name_len
            },
            MetaUpdate::DropTable(_) => 13,
        }
    }

    fn encode_to(&self, buf: &mut Vec<u8>) -> (r: Result<(), PayloadError>)
        ensures
            r is Ok,
    {
        proof {
            lemma_auto_spec_u32_to_from_le_bytes();
            lemma_auto_spec_u64_to_from_le_bytes();
        }
        match self {
            MetaUpdate::AddTable(m) => {
                buf.push(ADD_TABLE_TAG);
                let mut part = u32_to_le_bytes(m.space_id);
                buf.append(&mut part);
                let mut part = u64_to_le_bytes(m.table_id);
                buf.append(&mut part);
                let mut name_bytes = m.table_name.as_str().as_bytes_vec();
                let mut part = u64_to_le_bytes(name_bytes.len() as u64);
                buf.append(&mut part);
                buf.append(&mut name_bytes);
                let mut part = u32_to_le_bytes(m.schema.version);
                buf.append(&mut part);
                let mut part = u32_to_le_bytes(m.schema.num_key_columns);
                buf.append(&mut part);
                let mut part = u32_to_le_bytes(m.schema.num_columns);
                buf.append(&mut part);
                let mut part = u64_to_le_bytes(m.opts.segment_duration_ms);
                buf.append(&mut part);
                let mut part = u64_to_le_bytes(m.opts.ttl_ms);
                buf.append(&mut part);
                let mut part = u32_to_le_bytes(m.opts.write_buffer_size);
                buf.append(&mut part);
                proof {
                    assert(buf@ =~= old(buf)@ + self.encoding());
                }
                Ok(())
            },
            MetaUpdate::DropTable(d) => {
                buf.push(DROP_TABLE_TAG);
                let mut part = u32_to_le_bytes(d.space_id);
                buf.append(&mut part);
                let mut part = u64_to_le_bytes(d.table_id);
                buf.append(&mut part);
                proof {
                    assert(buf@ =~= old(buf)@ + self.encoding());
                }
                Ok(())
            },
        }
    }
}

/// Decoder of manifest updates from their byte encoding.
pub struct MetaUpdateDecoder;

impl PayloadDecoder for MetaUpdateDecoder {
    type Target = MetaUpdate;

    open spec fn decode_spec(&self, bytes: Seq<u8>) -> Option<MetaUpdateModel> {
        spec_decode_meta_update(bytes)
    }

    fn decode(&self, buf: &[u8]) -> (r: Result<MetaUpdate, PayloadError>) {
        proof {
            lemma_auto_spec_u32_to_from_le_bytes();
            lemma_auto_spec_u64_to_from_le_bytes();
        }
        let n = buf.len();
        if n < 1 {
            return Err(PayloadError::InsufficientBytes);
        }
        let tag = *slice_index_get(buf, 0);
        if tag == DROP_TABLE_TAG {
            if n < 13 {
                return Err(PayloadError::InsufficientBytes);
            }
            if n > 13 {
                return Err(PayloadError::TrailingBytes);
            }
            let space_id = u32_from_le_bytes(slice_subrange(buf, 1, 5));
            let table_id = u64_from_le_bytes(slice_subrange(buf, 5, 13));
            proof {
                assert(buf@.subrange(1, 5) =~= buf@.skip(1).take(4));
                assert(buf@.subrange(5, 13) =~= buf@.skip(1).skip(4));
            }
            return Ok(MetaUpdate::DropTable(DropTableMeta { space_id, table_id }));
        }
        if tag != ADD_TABLE_TAG {
            return Err(PayloadError::InvalidTag);
        }
        if n < 21 {
            return Err(PayloadError::InsufficientBytes);
        }
        let space_id = u32_from_le_bytes(slice_subrange(buf, 1, 5));
        let table_id = u64_from_le_bytes(slice_subrange(buf, 5, 13));
        let name_len64 = u64_from_le_bytes(slice_subrange(buf, 13, 21));
        proof {
            assert(buf@.subrange(1, 5) =~= buf@.skip(1).take(4));
            assert(buf@.subrange(5, 13) =~= buf@.skip(1).skip(4).take(8));
            assert(buf@.subrange(13, 21) =~= buf@.skip(1).skip(4).skip(8).take(8));
        }
        let avail = n - 21;
        if (avail as u64) < name_len64 || ((avail as u64) - name_len64) < 32 {
            return Err(PayloadError::InsufficientBytes);
        }
        if ((avail as u64) - name_len64) > 32 {
            return Err(PayloadError::TrailingBytes);
        }
        let name_len = name_len64 as usize;
        let name_bytes = slice_to_vec(slice_subrange(buf, 21, 21 + name_len));
        proof {
            assert(buf@.subrange(21, 21 + name_len as int) =~= buf@.skip(1).skip(4).skip(8).skip(
                8,
            ).take(name_len as int));
        }
        let table_name = match string_from_utf8(name_bytes) {
            Some(s) => s,
            None => {
                return Err(PayloadError::InvalidUtf8);
            },
        };
        proof {
            encode_utf8_decode_utf8(table_name@);
        }
        let off = 21 + name_len;
        let version = u32_from_le_bytes(slice_subrange(buf, off, off + 4));
        let num_key_columns = u32_from_le_bytes(slice_subrange(buf, off + 4, off + 8));
        let num_columns = u32_from_le_bytes(slice_subrange(buf, off + 8, off + 12));
        let segment_duration_ms = u64_from_le_bytes(slice_subrange(buf, off + 12, off + 20));
        let ttl_ms = u64_from_le_bytes(slice_subrange(buf, off + 20, off + 28));
        let write_buffer_size = u32_from_le_bytes(slice_subrange(buf, off + 28, off + 32));
        proof {
            let b4 = buf@.skip(1).skip(4).skip(8).skip(8).skip(name_len as int);
            assert(buf@.subrange(off as int, off + 4) =~= b4.take(4));
            assert(buf@.subrange(off + 4, off + 8) =~= b4.skip(4).take(4));
            assert(buf@.subrange(off + 8, off + 12) =~= b4.skip(8).take(4));
            assert(buf@.subrange(off + 12, off + 20) =~= b4.skip(12).take(8));
            assert(buf@.subrange(off + 20, off + 28) =~= b4.skip(20).take(8));
            assert(buf@.subrange(off + 28, off + 32) =~= b4.skip(28));
        }
        Ok(
            MetaUpdate::AddTable(
                AddTableMeta {
                    space_id,
                    table_id,
                    table_name,
                    schema: Schema { version, num_key_columns, num_columns },
                    opts: TableOptions { segment_duration_ms, ttl_ms, write_buffer_size },
                },
            ),
        )
    }
}

} // verus!
