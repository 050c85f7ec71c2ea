use osmio::error::PbfError;
use osmio::fields::{
    column_bool, column_int32, column_sint32, column_sint64, column_uint32, int32, last_bytes,
    last_varint, optional_bool, optional_int32, optional_int64, optional_string, optional_uint32,
    repeated_varints, sint32, uint32, unpack_varints,
};
use osmio::fileformat::{Blob, BlobHeader};
use osmio::framer::{FramerOutput, FramerState};
use osmio::message::parse;
use osmio::pbf::read_length;
use osmio::strings::BlockStrings;
use osmio::wire::{int64, read_field, read_varint, scan_fields, zigzag, WireValue};

#[test]
fn varints_are_read_as_protobuf_reads_them() {
    assert_eq!(read_varint(&[0x00], 0), Some((0, 1)));
    assert_eq!(read_varint(&[0x7f], 0), Some((127, 1)));
    assert_eq!(read_varint(&[0x80, 0x01], 0), Some((128, 2)));
    assert_eq!(read_varint(&[0x96, 0x01], 0), Some((150, 2)));
    assert_eq!(read_varint(&[0xac, 0x02, 0xff], 0), Some((300, 2)));
    assert_eq!(read_varint(&[1, 0x96, 0x01], 1), Some((150, 3)));
    assert_eq!(read_varint(&[0xff, 0xff, 0xff, 0xff, 0x0f], 0), Some((u32::MAX as u64, 5)));
    assert_eq!(
        read_varint(&[0xff, 0xff, 0xff, 0xff, 0xff, 0xff, 0xff, 0xff, 0xff, 0x01], 0),
        Some((u64::MAX, 10))
    );
    assert_eq!(
        read_varint(&[0x80, 0x80, 0x80, 0x80, 0x80, 0x80, 0x80, 0x80, 0x80, 0x01], 0),
        Some((1 << 63, 10))
    );
    assert_eq!(
        read_varint(&[0x80, 0x80, 0x80, 0x80, 0x80, 0x80, 0x80, 0x80, 0x7f], 0),
        Some((0x7f << 56, 9))
    );
}

#[test]
fn varints_with_leading_zero_groups_are_read() {
    assert_eq!(read_varint(&[0x80, 0x00], 0), Some((0, 2)));
    assert_eq!(read_varint(&[0x80, 0x80, 0x00], 0), Some((0, 3)));
    assert_eq!(read_varint(&[0x81, 0x80, 0x80, 0x00], 0), Some((1, 4)));
    assert_eq!(
        read_varint(&[0x80, 0x80, 0x80, 0x80, 0x80, 0x80, 0x80, 0x80, 0x80, 0x00], 0),
        Some((0, 10))
    );
}

#[test]
fn malformed_varints_are_rejected() {
    assert_eq!(read_varint(&[], 0), None);
    assert_eq!(read_varint(&[1], 1), None);
    assert_eq!(read_varint(&[1], 2), None);
    assert_eq!(read_varint(&[0x80], 0), None);
    assert_eq!(read_varint(&[0xff, 0xff], 0), None);
    assert_eq!(read_varint(&[0x80, 0x80, 0x80, 0x80, 0x80, 0x80, 0x80, 0x80, 0x80], 0), None);
    assert_eq!(
        read_varint(&[0xff, 0xff, 0xff, 0xff, 0xff, 0xff, 0xff, 0xff, 0xff, 0x02], 0),
        None
    );
    assert_eq!(
        read_varint(&[0xff, 0xff, 0xff, 0xff, 0xff, 0xff, 0xff, 0xff, 0xff, 0x7f], 0),
        None
    );
    assert_eq!(
        read_varint(&[0x80, 0x80, 0x80, 0x80, 0x80, 0x80, 0x80, 0x80, 0x80, 0x80, 0x00], 0),
        None
    );
    assert_eq!(
        read_varint(&[0x80, 0x80, 0x80, 0x80, 0x80, 0x80, 0x80, 0x80, 0x80, 0x81, 0x00], 0),
        None
    );
}

#[test]
fn zigzag_counts_up_and_down() {
    assert_eq!(zigzag(0), 0);
    assert_eq!(zigzag(1), -1);
    assert_eq!(zigzag(2), 1);
    assert_eq!(zigzag(3), -2);
    assert_eq!(zigzag(200), 100);
    assert_eq!(zigzag(u64::MAX), i64::MIN);
    assert_eq!(zigzag(u64::MAX - 1), i64::MAX);
}

#[test]
fn integers_take_their_declared_types() {
    assert_eq!(int64(0), 0);
    assert_eq!(int64(i64::MAX as u64), i64::MAX);
    assert_eq!(int64(u64::MAX), -1);
    assert_eq!(int64(1 << 63), i64::MIN);
    assert_eq!(int32(5), Ok(5));
    assert_eq!(int32(u64::MAX), Ok(-1));
    assert_eq!(int32(i32::MAX as u64), Ok(i32::MAX));
    assert_eq!(int32(i32::MAX as u64 + 1), Err(PbfError::ValueOutOfRange));
    assert_eq!(int32(i32::MIN as i64 as u64), Ok(i32::MIN));
    assert_eq!(int32((i32::MIN as i64 - 1) as u64), Err(PbfError::ValueOutOfRange));
    assert_eq!(sint32(1), Ok(-1));
    assert_eq!(sint32(u32::MAX as u64), Ok(i32::MIN));
    assert_eq!(sint32(u32::MAX as u64 + 1), Err(PbfError::ValueOutOfRange));
    assert_eq!(uint32(u32::MAX as u64), Ok(u32::MAX));
    assert_eq!(uint32(u32::MAX as u64 + 1), Err(PbfError::ValueOutOfRange));
}

#[test]
fn fields_are_scanned_in_order() {
    // field 1 varint 150, field 2 bytes "hi", field 3 fixed64, field 4 fixed32, field 16 varint 1
    let bytes = [
        0x08, 0x96, 0x01, 0x12, 0x02, b'h', b'i', 0x19, 1, 2, 3, 4, 5, 6, 7, 8, 0x25, 1, 2, 3, 4,
        0x80, 0x01, 0x01,
    ];
    let fields = scan_fields(&bytes).unwrap();
    assert_eq!(fields.len(), 5);
    assert_eq!(fields[0].number, 1);
    assert!(matches!(fields[0].value, WireValue::Varint(150)));
    assert_eq!(fields[1].number, 2);
    assert!(matches!(&fields[1].value, WireValue::LengthDelimited(b) if b == b"hi"));
    assert_eq!(fields[2].number, 3);
    assert!(matches!(fields[2].value, WireValue::Fixed64));
    assert_eq!(fields[3].number, 4);
    assert!(matches!(fields[3].value, WireValue::Fixed32));
    assert_eq!(fields[4].number, 16);
    assert!(matches!(fields[4].value, WireValue::Varint(1)));
    assert_eq!(scan_fields(&[]).unwrap().len(), 0);
    let (field, next) = read_field(&bytes, 3).unwrap();
    assert_eq!((field.number, next), (2, 7));
}

#[test]
fn broken_messages_are_rejected() {
    assert_eq!(scan_fields(&[0x08]).unwrap_err(), PbfError::MalformedVarint);
    assert_eq!(scan_fields(&[0x80]).unwrap_err(), PbfError::MalformedVarint);
    assert_eq!(scan_fields(&[0x00, 0x00]).unwrap_err(), PbfError::MalformedTag);
    assert_eq!(scan_fields(&[0x0b]).unwrap_err(), PbfError::MalformedTag);
    assert_eq!(scan_fields(&[0x0c]).unwrap_err(), PbfError::MalformedTag);
    assert_eq!(scan_fields(&[0x0e, 0x00]).unwrap_err(), PbfError::MalformedTag);
    assert_eq!(scan_fields(&[0x0f, 0x00]).unwrap_err(), PbfError::MalformedTag);
    assert_eq!(scan_fields(&[0x12, 0x03, b'h', b'i']).unwrap_err(), PbfError::TruncatedMessage);
    assert_eq!(scan_fields(&[0x12, 0x80]).unwrap_err(), PbfError::MalformedVarint);
    assert_eq!(scan_fields(&[0x19, 1, 2, 3, 4, 5, 6, 7]).unwrap_err(), PbfError::TruncatedMessage);
    assert_eq!(scan_fields(&[0x25, 1, 2, 3]).unwrap_err(), PbfError::TruncatedMessage);
    // a tag beyond 32 bits
    assert_eq!(
        scan_fields(&[0x80, 0x80, 0x80, 0x80, 0x10, 0x00]).unwrap_err(),
        PbfError::MalformedTag
    );
    // the largest field number
    assert_eq!(scan_fields(&[0xf8, 0xff, 0xff, 0xff, 0x0f, 0x00]).unwrap()[0].number, (1 << 29) - 1);
}

#[test]
fn the_last_of_repeated_optional_fields_counts() {
    let fields = scan_fields(&[0x08, 0x01, 0x10, 0x07, 0x08, 0x02, 0x12, 0x00]).unwrap();
    assert_eq!(last_varint(&fields, 1), Ok(Some(2)));
    assert_eq!(last_varint(&fields, 3), Ok(None));
    assert_eq!(last_varint(&fields, 2), Err(PbfError::UnexpectedWireType));
    assert_eq!(last_bytes(&fields, 1).unwrap_err(), PbfError::UnexpectedWireType);
    assert_eq!(last_bytes(&fields, 3), Ok(None));
    assert_eq!(optional_int32(&fields, 1), Ok(Some(2)));
    assert_eq!(optional_int64(&fields, 1), Ok(Some(2)));
    assert_eq!(optional_uint32(&fields, 1), Ok(Some(2)));
    assert_eq!(optional_bool(&fields, 1), Ok(Some(true)));
    assert_eq!(optional_bool(&fields, 9), Ok(None));
    let fields = scan_fields(&[0x12, 0x01, b'a', 0x12, 0x02, b'b', b'c']).unwrap();
    assert_eq!(last_bytes(&fields, 2).unwrap().unwrap(), b"bc");
    assert_eq!(optional_string(&fields, 2), Ok(Some("bc".to_string())));
    let fields = scan_fields(&[0x12, 0x01, 0xff]).unwrap();
    assert_eq!(optional_string(&fields, 2), Err(PbfError::InvalidUtf8));
}

#[test]
fn columns_are_read_packed_and_one_by_one() {
    // field 1: packed [1, 2], then a single 3, then packed [4]
    let fields = scan_fields(&[0x0a, 0x02, 0x01, 0x02, 0x08, 0x03, 0x0a, 0x01, 0x04]).unwrap();
    assert_eq!(repeated_varints(&fields, 1), Ok(vec![1, 2, 3, 4]));
    assert_eq!(repeated_varints(&fields, 2), Ok(vec![]));
    assert_eq!(column_sint64(&fields, 1), Ok(vec![-1, 1, -2, 2]));
    assert_eq!(column_sint32(&fields, 1), Ok(vec![-1, 1, -2, 2]));
    assert_eq!(column_int32(&fields, 1), Ok(vec![1, 2, 3, 4]));
    assert_eq!(column_uint32(&fields, 1), Ok(vec![1, 2, 3, 4]));
    assert_eq!(column_bool(&fields, 1), Ok(vec![true, true, true, true]));
    assert_eq!(unpack_varints(&[0x96, 0x01, 0x00]), Ok(vec![150, 0]));
    assert_eq!(unpack_varints(&[]), Ok(vec![]));
    assert_eq!(unpack_varints(&[0x96]), Err(PbfError::MalformedVarint));
    let fields = scan_fields(&[0x0a, 0x01, 0x80]).unwrap();
    assert_eq!(repeated_varints(&fields, 1), Err(PbfError::MalformedVarint));
    let fields = scan_fields(&[0x0d, 1, 2, 3, 4]).unwrap();
    assert_eq!(repeated_varints(&fields, 1), Err(PbfError::UnexpectedWireType));
    let fields = scan_fields(&[0x08, 0xff, 0xff, 0xff, 0xff, 0x1f]).unwrap();
    assert_eq!(column_uint32(&fields, 1), Err(PbfError::ValueOutOfRange));
    assert_eq!(column_int32(&fields, 1), Err(PbfError::ValueOutOfRange));
    assert_eq!(column_sint32(&fields, 1), Err(PbfError::ValueOutOfRange));
}

#[test]
fn blob_header_accessors() {
    let mut header = BlobHeader::new();
    assert!(!header.has_field_type() && !header.has_indexdata() && !header.has_datasize());
    assert_eq!(header.get_field_type(), "");
    assert_eq!(header.get_indexdata(), b"");
    assert_eq!(header.get_datasize(), 0);
    header.set_field_type("OSMData".to_string());
    header.set_indexdata(vec![1, 2]);
    header.set_datasize(42);
    assert!(header.has_field_type() && header.has_indexdata() && header.has_datasize());
    assert_eq!(header.get_field_type(), "OSMData");
    assert_eq!(header.get_indexdata(), &[1, 2]);
    assert_eq!(header.get_datasize(), 42);
    header.mut_field_type().push_str("!");
    header.mut_indexdata().push(3);
    assert_eq!(header.take_field_type(), "OSMData!");
    assert_eq!(header.take_indexdata(), vec![1, 2, 3]);
    assert!(!header.has_field_type() && !header.has_indexdata());
    assert_eq!(header.take_field_type(), "");
    assert_eq!(header.take_indexdata(), Vec::<u8>::new());
    header.mut_field_type().push_str("x");
    assert_eq!(header.get_field_type(), "x");
    assert_eq!(header.mut_indexdata(), &mut Vec::<u8>::new());
    assert!(header.has_indexdata());
    header.clear_field_type();
    header.clear_indexdata();
    header.clear_datasize();
    assert!(!header.has_field_type() && !header.has_indexdata() && !header.has_datasize());
}

#[test]
fn blob_accessors() {
    let mut blob = Blob::new();
    assert!(!blob.has_raw() && !blob.has_raw_size() && !blob.has_zlib_data());
    assert!(!blob.has_lzma_data() && !blob.has_OBSOLETE_bzip2_data());
    assert_eq!(blob.get_raw(), b"");
    assert_eq!(blob.get_raw_size(), 0);
    blob.set_raw(vec![1]);
    blob.set_raw_size(1);
    blob.set_zlib_data(vec![2]);
    blob.set_lzma_data(vec![3]);
    blob.set_OBSOLETE_bzip2_data(vec![4]);
    assert_eq!(blob.get_raw(), &[1]);
    assert_eq!(blob.get_raw_size(), 1);
    assert_eq!(blob.get_zlib_data(), &[2]);
    assert_eq!(blob.get_lzma_data(), &[3]);
    assert_eq!(blob.get_OBSOLETE_bzip2_data(), &[4]);
    blob.mut_raw().push(9);
    blob.mut_zlib_data().push(9);
    blob.mut_lzma_data().push(9);
    blob.mut_OBSOLETE_bzip2_data().push(9);
    assert_eq!(blob.take_raw(), vec![1, 9]);
    assert_eq!(blob.take_zlib_data(), vec![2, 9]);
    assert_eq!(blob.take_lzma_data(), vec![3, 9]);
    assert_eq!(blob.take_OBSOLETE_bzip2_data(), vec![4, 9]);
    assert!(!blob.has_raw() && !blob.has_zlib_data());
    assert!(!blob.has_lzma_data() && !blob.has_OBSOLETE_bzip2_data());
    assert_eq!(blob.take_raw(), Vec::<u8>::new());
    blob.set_raw(vec![]);
    assert!(blob.has_raw());
    blob.clear_raw();
    blob.clear_raw_size();
    blob.set_zlib_data(vec![]);
    blob.clear_zlib_data();
    blob.set_lzma_data(vec![]);
    blob.clear_lzma_data();
    blob.set_OBSOLETE_bzip2_data(vec![]);
    blob.clear_OBSOLETE_bzip2_data();
    assert!(!blob.has_raw() && !blob.has_raw_size() && !blob.has_zlib_data());
    assert!(!blob.has_lzma_data() && !blob.has_OBSOLETE_bzip2_data());
}

#[test]
fn blobs_are_parsed_field_by_field() {
    // raw_size 5, zlib_data "ab", an unknown field 9
    let blob = parse::<Blob>(&[0x10, 0x05, 0x1a, 0x02, b'a', b'b', 0x48, 0x01]).unwrap();
    assert!(!blob.has_raw());
    assert_eq!(blob.get_raw_size(), 5);
    assert_eq!(blob.get_zlib_data(), b"ab");
    assert_eq!(parse::<Blob>(&[0x08, 0x05]).unwrap_err(), PbfError::UnexpectedWireType);
    assert_eq!(parse::<Blob>(&[0x12, 0x00]).unwrap_err(), PbfError::UnexpectedWireType);
    assert!(parse::<Blob>(&[]).is_ok());
    let header = parse::<BlobHeader>(&[0x0a, 0x01, b'x', 0x18, 0x07]).unwrap();
    assert_eq!(header.get_field_type(), "x");
    assert_eq!(header.get_datasize(), 7);
    assert!(!header.has_indexdata());
}

#[test]
fn lengths_are_big_endian() {
    assert_eq!(read_length(&[0, 0, 0, 0]), Some(0));
    assert_eq!(read_length(&[0, 0, 0, 13]), Some(13));
    assert_eq!(read_length(&[0, 0, 1, 0]), Some(256));
    assert_eq!(read_length(&[1, 2, 3, 4]), Some(0x01020304));
    assert_eq!(read_length(&[0xff, 0xff, 0xff, 0xff, 9]), Some(u32::MAX));
    assert_eq!(read_length(&[1, 2, 3]), None);
    assert_eq!(read_length(&[]), None);
}

#[test]
fn string_tables_resolve_indices() {
    let table = BlockStrings::new(&vec![b"".to_vec(), b"caf\xc3\xa9".to_vec(), vec![0xc3]]);
    assert_eq!(table.len(), 3);
    assert_eq!(table.resolve(0), Some(""));
    assert_eq!(table.resolve(1), Some("caf\u{e9}"));
    assert_eq!(table.resolve(2), None);
    assert_eq!(table.resolve(3), None);
    assert_eq!(table.lookup(1), Ok("caf\u{e9}".to_string()));
    assert_eq!(table.lookup(2), Err(PbfError::MalformedString));
    assert_eq!(table.lookup(3), Err(PbfError::StringIndexOutOfRange));
    assert_eq!(table.lookup(-1), Err(PbfError::StringIndexOutOfRange));
    assert_eq!(table.lookup(i64::MAX), Err(PbfError::StringIndexOutOfRange));
}

#[test]
fn the_framer_walks_through_a_frame() {
    let header = [0x0a, 0x07, b'O', b'S', b'M', b'D', b'a', b't', b'a', 0x18, 0x03];
    let state = FramerState::new();
    assert_eq!(state.wanted(), 4);
    let (state, out) = state.step(Some(&[0, 0, 0, header.len() as u8]));
    assert_eq!(state, FramerState::AwaitingHeader { len: header.len() });
    assert!(matches!(out, FramerOutput::Continue));
    assert_eq!(state.wanted(), header.len());
    let (state, out) = state.step(Some(&header));
    assert_eq!(state, FramerState::AwaitingPayload { data: true, len: 3 });
    assert!(matches!(out, FramerOutput::Continue));
    let (state, out) = state.step(Some(&[0x0a, 0x01, b'z']));
    assert_eq!(state, FramerState::AwaitingHeaderLength);
    assert!(matches!(out, FramerOutput::Blob(blob) if blob.get_raw() == b"z"));
    let (state, out) = state.step(None);
    assert_eq!(state, FramerState::Finished);
    assert!(matches!(out, FramerOutput::End));
    assert_eq!(state.wanted(), 0);
    let (state, out) = state.step(Some(&[]));
    assert_eq!(state, FramerState::Finished);
    assert!(matches!(out, FramerOutput::End));
}

#[test]
fn the_framer_drops_other_frames_and_fails_inside_a_frame() {
    let header = [0x0a, 0x01, b'H', 0x18, 0x02];
    let (state, _) = FramerState::new().step(Some(&[0, 0, 0, 5]));
    let (state, out) = state.step(Some(&header));
    assert_eq!(state, FramerState::AwaitingPayload { data: false, len: 2 });
    assert!(matches!(out, FramerOutput::Continue));
    let (state, out) = state.step(Some(&[0xff, 0xff]));
    assert_eq!(state, FramerState::AwaitingHeaderLength);
    assert!(matches!(out, FramerOutput::Continue));

    let (state, out) = FramerState::new().step(Some(&[0, 0]));
    assert_eq!(state, FramerState::Finished);
    assert!(matches!(out, FramerOutput::End));
    let (state, out) = FramerState::AwaitingHeader { len: 5 }.step(None);
    assert_eq!(state, FramerState::Finished);
    assert!(matches!(out, FramerOutput::Failed(PbfError::TruncatedStream)));
    let (_, out) = FramerState::AwaitingHeader { len: 5 }.step(Some(&header[..4]));
    assert!(matches!(out, FramerOutput::Failed(PbfError::TruncatedStream)));
    let (_, out) = FramerState::AwaitingHeader { len: 2 }.step(Some(&[0x18, 0x02]));
    assert!(matches!(out, FramerOutput::Failed(PbfError::MissingRequiredField)));
    let (_, out) = FramerState::AwaitingPayload { data: true, len: 2 }.step(None);
    assert!(matches!(out, FramerOutput::Failed(PbfError::TruncatedStream)));
    let (state, out) = FramerState::AwaitingPayload { data: true, len: 2 }.step(Some(&[0x08, 0x01]));
    assert_eq!(state, FramerState::Finished);
    assert!(matches!(out, FramerOutput::Failed(PbfError::UnexpectedWireType)));
    let negative = [0x0a, 0x01, b'H', 0x18, 0xff, 0xff, 0xff, 0xff, 0xff, 0xff, 0xff, 0xff, 0xff, 0x01];
    let (_, out) = FramerState::AwaitingHeader { len: negative.len() }.step(Some(&negative));
    assert!(matches!(out, FramerOutput::Failed(PbfError::InvalidLength)));
}
