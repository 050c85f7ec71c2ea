use std::io::Write;

use flate2::write::ZlibEncoder;
use flate2::Compression;
use osmio::arc_types::ArcOSMObj;
use osmio::block::{decode_block_to_objs, decode_block_with, dropped_members, RolePolicy};
use osmio::coords::{Lat, Lon};
use osmio::decode::{internal_lat, internal_lon, tag_rows};
use osmio::error::PbfError;
use osmio::fileformat::{Blob, BlobHeader};
use osmio::framer::{Pull, StreamReader};
use osmio::message::parse;
use osmio::node_id_pos::{decode_block_to_positions, PBFNodePositionReader};
use osmio::objects::{Node, OSMObj, OSMObjBase, OSMObjectType, Relation, Way};
use osmio::osmformat::{PrimitiveBlock, Relation as RawRelation};
use osmio::pbf::{blob_raw_data, select_blob_data, FileReader};
use osmio::reader::{OSMReader, PBFReader};
use osmio::strings::BlockStrings;
use osmio::timestamp::TimestampFormat;
use protobuf::CodedOutputStream;

fn message(build: impl FnOnce(&mut CodedOutputStream)) -> Vec<u8> {
    let mut bytes = Vec::new();
    {
        let mut out = CodedOutputStream::vec(&mut bytes);
        build(&mut out);
        out.flush().unwrap();
    }
    bytes
}

fn string_table(entries: &[&[u8]]) -> Vec<u8> {
    message(|out| {
        for entry in entries {
            out.write_bytes(1, entry).unwrap();
        }
    })
}

struct Dense {
    ids: Vec<i64>,
    lats: Vec<i64>,
    lons: Vec<i64>,
    versions: Vec<i32>,
    timestamps: Vec<i64>,
    changesets: Vec<i64>,
    uids: Vec<i32>,
    user_sids: Vec<i32>,
    visible: Vec<bool>,
    keys_vals: Vec<i32>,
}

fn plain_dense(ids: &[i64]) -> Dense {
    let n = ids.len();
    Dense {
        ids: ids.to_vec(),
        lats: vec![0; n],
        lons: vec![0; n],
        versions: vec![1; n],
        timestamps: vec![0; n],
        changesets: vec![0; n],
        uids: vec![0; n],
        user_sids: vec![0; n],
        visible: vec![],
        keys_vals: vec![],
    }
}

fn dense_group(dense: &Dense) -> Vec<u8> {
    let info = message(|out| {
        out.write_repeated_packed_int32(1, &dense.versions).unwrap();
        out.write_repeated_packed_sint64(2, &dense.timestamps).unwrap();
        out.write_repeated_packed_sint64(3, &dense.changesets).unwrap();
        out.write_repeated_packed_sint32(4, &dense.uids).unwrap();
        out.write_repeated_packed_sint32(5, &dense.user_sids).unwrap();
        out.write_repeated_packed_bool(6, &dense.visible).unwrap();
    });
    let nodes = message(|out| {
        out.write_repeated_packed_sint64(1, &dense.ids).unwrap();
        out.write_bytes(5, &info).unwrap();
        out.write_repeated_packed_sint64(8, &dense.lats).unwrap();
        out.write_repeated_packed_sint64(9, &dense.lons).unwrap();
        out.write_repeated_packed_int32(10, &dense.keys_vals).unwrap();
    });
    message(|out| out.write_bytes(2, &nodes).unwrap())
}

fn info(version: i32, timestamp: i64, changeset: i64, uid: i32, user_sid: u32) -> Vec<u8> {
    message(|out| {
        out.write_int32(1, version).unwrap();
        out.write_int64(2, timestamp).unwrap();
        out.write_int64(3, changeset).unwrap();
        out.write_int32(4, uid).unwrap();
        out.write_uint32(5, user_sid).unwrap();
    })
}

fn way(id: i64, keys: &[u32], vals: &[u32], info: Option<&[u8]>, refs: &[i64]) -> Vec<u8> {
    message(|out| {
        out.write_int64(1, id).unwrap();
        out.write_repeated_packed_uint32(2, keys).unwrap();
        out.write_repeated_packed_uint32(3, vals).unwrap();
        if let Some(info) = info {
            out.write_bytes(4, info).unwrap();
        }
        out.write_repeated_packed_sint64(8, refs).unwrap();
    })
}

fn relation(
    id: i64,
    keys: &[u32],
    vals: &[u32],
    roles: &[i32],
    memids: &[i64],
    types: &[i32],
) -> Vec<u8> {
    message(|out| {
        out.write_int64(1, id).unwrap();
        out.write_repeated_packed_uint32(2, keys).unwrap();
        out.write_repeated_packed_uint32(3, vals).unwrap();
        out.write_repeated_packed_int32(8, roles).unwrap();
        out.write_repeated_packed_sint64(9, memids).unwrap();
        out.write_repeated_packed_int32(10, types).unwrap();
    })
}

fn group_of(field: u32, records: &[Vec<u8>]) -> Vec<u8> {
    message(|out| {
        for record in records {
            out.write_bytes(field, record).unwrap();
        }
    })
}

fn block(strings: &[&[u8]], groups: &[Vec<u8>]) -> Vec<u8> {
    let table = string_table(strings);
    message(|out| {
        out.write_bytes(1, &table).unwrap();
        for group in groups {
            out.write_bytes(2, group).unwrap();
        }
    })
}

fn scaled_block(
    strings: &[&[u8]],
    groups: &[Vec<u8>],
    granularity: i32,
    date_granularity: i32,
    lat_offset: i64,
    lon_offset: i64,
) -> Vec<u8> {
    let table = string_table(strings);
    message(|out| {
        out.write_bytes(1, &table).unwrap();
        for group in groups {
            out.write_bytes(2, group).unwrap();
        }
        out.write_int32(17, granularity).unwrap();
        out.write_int32(18, date_granularity).unwrap();
        out.write_int64(19, lat_offset).unwrap();
        out.write_int64(20, lon_offset).unwrap();
    })
}

fn raw_blob(data: &[u8]) -> Vec<u8> {
    message(|out| out.write_bytes(1, data).unwrap())
}

fn zlib(data: &[u8]) -> Vec<u8> {
    let mut encoder = ZlibEncoder::new(Vec::new(), Compression::default());
    encoder.write_all(data).unwrap();
    encoder.finish().unwrap()
}

fn zlib_blob(data: &[u8]) -> Vec<u8> {
    let compressed = zlib(data);
    message(|out| {
        out.write_int32(2, data.len() as i32).unwrap();
        out.write_bytes(3, &compressed).unwrap();
    })
}

fn frame(kind: &str, payload: &[u8]) -> Vec<u8> {
    let header = message(|out| {
        out.write_string(1, kind).unwrap();
        out.write_int32(3, payload.len() as i32).unwrap();
    });
    let mut bytes = Vec::new();
    bytes.extend_from_slice(&(header.len() as u32).to_be_bytes());
    bytes.extend_from_slice(&header);
    bytes.extend_from_slice(payload);
    bytes
}

fn decode(bytes: &[u8]) -> Result<Vec<ArcOSMObj>, PbfError> {
    decode_block_to_objs(parse::<PrimitiveBlock>(bytes)?)
}

fn read_all(reader: &mut PBFReader) -> Result<Vec<ArcOSMObj>, PbfError> {
    let mut objs = Vec::new();
    while let Some(obj) = reader.next()? {
        objs.push(obj);
    }
    Ok(objs)
}

#[test]
fn coordinate_reconstruction() {
    assert_eq!(internal_lat(0, 100, 0), Ok(Lat::from_inner(0)));
    assert_eq!(internal_lat(1, 100, 0), Ok(Lat::from_inner(1)));
    assert_eq!(internal_lat(1, 200, 0), Ok(Lat::from_inner(2)));
    assert_eq!(internal_lat(0, 100, 100), Ok(Lat::from_inner(1)));
    assert_eq!(internal_lon(0, 100, 0), Ok(Lon::from_inner(0)));
    assert_eq!(internal_lon(1, 100, 0), Ok(Lon::from_inner(1)));
    assert_eq!(internal_lon(1, 200, 0), Ok(Lon::from_inner(2)));
    assert_eq!(internal_lon(0, 100, 100), Ok(Lon::from_inner(1)));
}

#[test]
fn coordinate_scaling_rounds_towards_zero() {
    assert_eq!(internal_lat(7, 250, 199), Ok(Lat::from_inner(15)));
    assert_eq!(internal_lat(7, 250, -199), Ok(Lat::from_inner(13)));
    assert_eq!(internal_lat(-7, 100, -100), Ok(Lat::from_inner(-8)));
    assert_eq!(internal_lat(5, 99, 0), Ok(Lat::from_inner(0)));
    assert_eq!(internal_lat(5, -250, 0), Ok(Lat::from_inner(-10)));
}

#[test]
fn coordinate_overflow_is_an_error() {
    assert_eq!(internal_lat(i32::MAX, 200, 0), Err(PbfError::Overflow));
    assert_eq!(internal_lat(i32::MAX, 100, 100), Err(PbfError::Overflow));
    assert_eq!(internal_lat(i32::MIN, 100, -100), Err(PbfError::Overflow));
    assert_eq!(internal_lat(0, 100, i64::MAX), Err(PbfError::Overflow));
    assert_eq!(internal_lat(i32::MAX, 100, 0), Ok(Lat::from_inner(i32::MAX)));
    assert_eq!(internal_lat(i32::MIN, 100, 0), Ok(Lat::from_inner(i32::MIN)));
}

#[test]
fn dense_tag_termination() {
    assert_eq!(tag_rows(&vec![5, 6, 0, 0], 2), Ok(vec![vec![(5, 6)], vec![]]));

    let mut dense = plain_dense(&[1, 1]);
    dense.keys_vals = vec![5, 6, 0, 0];
    let strings: [&[u8]; 7] = [b"", b"a", b"b", b"c", b"d", b"highway", b"primary"];
    let objs = decode(&block(&strings, &[dense_group(&dense)])).unwrap();
    assert_eq!(objs.len(), 2);
    assert_eq!(objs[0].num_tags(), 1);
    assert_eq!(objs[0].tag("highway"), Some("primary"));
    assert_eq!(objs[0].tags(), &vec![("highway".to_string(), "primary".to_string())]);
    assert_eq!(objs[1].num_tags(), 0);
    assert!(objs[1].untagged());
}

#[test]
fn dense_tags_without_an_array_are_empty() {
    assert_eq!(tag_rows(&vec![], 3), Ok(vec![vec![], vec![], vec![]]));
    assert_eq!(tag_rows(&vec![], 0), Ok(vec![]));
}

#[test]
fn dense_tags_must_be_terminated() {
    assert_eq!(tag_rows(&vec![5, 6], 1), Err(PbfError::UnterminatedTags));
    assert_eq!(tag_rows(&vec![5, 6, 0], 2), Err(PbfError::UnterminatedTags));
    assert_eq!(tag_rows(&vec![5], 1), Err(PbfError::UnterminatedTags));
    assert_eq!(tag_rows(&vec![1, 2, 3, 4, 0, 0, 9], 2), Ok(vec![vec![(1, 2), (3, 4)], vec![]]));
}

#[test]
fn end_to_end_two_blobs() {
    let mut dense = plain_dense(&[100, 5]);
    dense.lats = vec![10, 1];
    dense.lons = vec![-20, -2];
    let data = scaled_block(&[b""], &[dense_group(&dense)], 100, 1000, 0, 0);
    let mut stream = frame("OSMHeader", &raw_blob(b"not a block"));
    stream.extend(frame("OSMData", &zlib_blob(&data)));

    let mut reader = PBFReader::new(stream);
    let first = reader.next().unwrap().unwrap();
    assert!(first.is_node());
    assert_eq!(first.id(), 100);
    assert_eq!(first.as_node().unwrap().lat_lon(), Some((Lat::from_inner(10), Lon::from_inner(-20))));
    let second = reader.next().unwrap().unwrap();
    assert!(second.is_node());
    assert_eq!(second.id(), 105);
    assert_eq!(
        second.as_node().unwrap().lat_lon(),
        Some((Lat::from_inner(11), Lon::from_inner(-22)))
    );
    assert_eq!(second.num_tags(), 0);
    assert_eq!(reader.next(), Ok(None));
    assert_eq!(reader.next(), Ok(None));
}

#[test]
fn blob_round_trip_zlib() {
    let buffers: [&[u8]; 4] = [b"", b"a", b"hello hello hello hello", &[0u8, 255, 1, 254, 0, 0, 0]];
    for buffer in buffers {
        let stream = frame("OSMData", &zlib_blob(buffer));
        let mut reader = FileReader::new(stream);
        let mut blob = reader.next().unwrap().unwrap();
        assert!(blob.has_zlib_data());
        assert_eq!(blob.get_raw_size(), buffer.len() as i32);
        assert_eq!(blob_raw_data(&mut blob), Ok(buffer.to_vec()));
        assert!(reader.next().unwrap().is_none());
    }
    let big: Vec<u8> = (0..100_000u32).map(|i| (i % 251) as u8).collect();
    let mut reader = FileReader::new(frame("OSMData", &zlib_blob(&big)));
    let mut blob = reader.next().unwrap().unwrap();
    assert_eq!(blob_raw_data(&mut blob), Ok(big));
}

#[test]
fn blob_round_trip_raw() {
    let mut reader = FileReader::new(frame("OSMData", &raw_blob(b"as it is")));
    let mut blob = reader.next().unwrap().unwrap();
    assert_eq!(blob_raw_data(&mut blob), Ok(b"as it is".to_vec()));
    assert!(!blob.has_raw());
}

#[test]
fn unsupported_compression_rejected() {
    let lzma = message(|out| out.write_bytes(4, b"xz").unwrap());
    let mut blob = parse::<Blob>(&lzma).unwrap();
    assert!(blob.has_lzma_data());
    assert_eq!(blob_raw_data(&mut blob), Err(PbfError::UnsupportedCompression));

    let bzip2 = message(|out| out.write_bytes(5, b"bz").unwrap());
    let mut blob = parse::<Blob>(&bzip2).unwrap();
    assert!(blob.has_OBSOLETE_bzip2_data());
    assert_eq!(blob_raw_data(&mut blob), Err(PbfError::UnsupportedCompression));

    let both = message(|out| {
        out.write_bytes(1, b"raw").unwrap();
        out.write_bytes(4, b"xz").unwrap();
    });
    let mut blob = parse::<Blob>(&both).unwrap();
    assert_eq!(blob_raw_data(&mut blob), Err(PbfError::UnsupportedCompression));
    assert_eq!(blob.get_raw(), b"raw");

    let mut reader = PBFReader::new(frame("OSMData", &lzma));
    assert_eq!(reader.next(), Err(PbfError::UnsupportedCompression));
    assert_eq!(reader.next(), Ok(None));
}

#[test]
fn blob_without_data_rejected() {
    let mut blob = Blob::new();
    assert_eq!(blob_raw_data(&mut blob), Err(PbfError::EmptyBlob));
    blob.set_raw_size(7);
    assert_eq!(blob_raw_data(&mut blob), Err(PbfError::EmptyBlob));
}

#[test]
fn corrupt_zlib_rejected() {
    let mut blob = Blob::new();
    blob.set_zlib_data(b"this is no zlib stream".to_vec());
    assert_eq!(blob_raw_data(&mut blob), Err(PbfError::CorruptCompressedData));
    let mut cut = zlib(b"hello hello hello hello hello");
    cut.truncate(cut.len() - 5);
    let mut blob = Blob::new();
    blob.set_zlib_data(cut);
    assert_eq!(blob_raw_data(&mut blob), Err(PbfError::CorruptCompressedData));
}

#[test]
fn frames_of_other_kinds_are_passed_over() {
    let mut stream = frame("OSMHeader", b"\xff\xff\xff");
    stream.extend(frame("Unknown", b""));
    stream.extend(frame("OSMData", &raw_blob(b"one")));
    stream.extend(frame("OSMHeader", b""));
    stream.extend(frame("OSMData", &raw_blob(b"two")));
    let mut reader = FileReader::new(stream.clone());
    assert_eq!(reader.next().unwrap().unwrap().get_raw(), b"one");
    assert_eq!(reader.get_next_osmdata_blob().unwrap().unwrap().get_raw(), b"two");
    assert!(reader.next().unwrap().is_none());
    assert_eq!(reader.inner(), &stream);
    assert_eq!(reader.into_inner(), stream);
}

#[test]
fn the_end_of_the_stream_is_no_error() {
    assert!(FileReader::new(vec![]).next().unwrap().is_none());
    assert!(FileReader::new(vec![0, 0]).next().unwrap().is_none());
    assert!(FileReader::new(vec![0, 0, 1]).next().unwrap().is_none());
    let mut reader = PBFReader::new(vec![]);
    assert_eq!(reader.next(), Ok(None));
}

#[test]
fn truncated_frames_are_errors() {
    let whole = frame("OSMData", &raw_blob(b"payload"));
    for cut in 4..whole.len() {
        let mut reader = FileReader::new(whole[..cut].to_vec());
        assert_eq!(reader.next().unwrap_err(), PbfError::TruncatedStream, "cut at {}", cut);
        assert!(reader.next().unwrap().is_none());
    }
}

#[test]
fn malformed_headers_are_errors() {
    let no_size = message(|out| out.write_string(1, "OSMData").unwrap());
    let mut stream = (no_size.len() as u32).to_be_bytes().to_vec();
    stream.extend(&no_size);
    assert_eq!(FileReader::new(stream).next().unwrap_err(), PbfError::MissingRequiredField);

    let no_kind = message(|out| out.write_int32(3, 0).unwrap());
    let mut stream = (no_kind.len() as u32).to_be_bytes().to_vec();
    stream.extend(&no_kind);
    assert_eq!(FileReader::new(stream).next().unwrap_err(), PbfError::MissingRequiredField);

    let negative = message(|out| {
        out.write_string(1, "OSMData").unwrap();
        out.write_int32(3, -1).unwrap();
    });
    let mut stream = (negative.len() as u32).to_be_bytes().to_vec();
    stream.extend(&negative);
    assert_eq!(FileReader::new(stream).next().unwrap_err(), PbfError::InvalidLength);

    let not_text = message(|out| {
        out.write_bytes(1, b"\xff\xfe").unwrap();
        out.write_int32(3, 0).unwrap();
    });
    let mut stream = (not_text.len() as u32).to_be_bytes().to_vec();
    stream.extend(&not_text);
    assert_eq!(FileReader::new(stream).next().unwrap_err(), PbfError::InvalidUtf8);

    let wrong_type = message(|out| {
        out.write_string(1, "OSMData").unwrap();
        out.write_bytes(3, b"12").unwrap();
    });
    assert_eq!(parse::<BlobHeader>(&wrong_type).unwrap_err(), PbfError::UnexpectedWireType);
}

#[test]
fn header_length_is_big_endian() {
    let header = message(|out| {
        out.write_string(1, "OSMData").unwrap();
        out.write_bytes(2, &[7u8; 300]).unwrap();
        out.write_int32(3, 2).unwrap();
    });
    assert!(header.len() > 255);
    let mut stream = vec![0, 0, (header.len() / 256) as u8, (header.len() % 256) as u8];
    stream.extend(&header);
    stream.extend(raw_blob(b""));
    let mut reader = FileReader::new(stream);
    let blob = reader.next().unwrap().unwrap();
    assert!(blob.has_raw());
    assert_eq!(blob.get_raw(), b"");
}

#[test]
fn dense_nodes_are_delta_decoded() {
    let dense = Dense {
        ids: vec![100, 5, -3],
        lats: vec![1000, -1, 2],
        lons: vec![-2000, 5, 5],
        versions: vec![3, 1, 7],
        timestamps: vec![1_000_000, 10, -5],
        changesets: vec![50, 1, 0],
        uids: vec![7, 0, -2],
        user_sids: vec![1, 1, -2],
        visible: vec![true, false],
        keys_vals: vec![3, 4, 0, 0, 3, 4, 4, 3, 0],
    };
    let strings: [&[u8]; 5] = [b"", b"alice", b"bob", b"k", b"v"];
    let data = scaled_block(&strings, &[dense_group(&dense)], 1000, 2000, 500, -500);
    let objs = decode(&data).unwrap();
    assert_eq!(objs.len(), 3);

    let n = objs[0].as_node().unwrap();
    assert_eq!(n.id(), 100);
    assert_eq!(n.lat_lon(), Some((Lat::from_inner(10_005), Lon::from_inner(-20_005))));
    assert_eq!(n.version(), Some(3));
    assert_eq!(n.timestamp(), &Some(TimestampFormat::EpochNunber(2_000_000)));
    assert_eq!(n.changeset_id(), Some(50));
    assert_eq!(n.uid(), Some(7));
    assert_eq!(n.user(), Some("alice"));
    assert!(!n.deleted());
    assert_eq!(n.tag("k"), Some("v"));
    assert_eq!(n.num_tags(), 1);

    let n = objs[1].as_node().unwrap();
    assert_eq!(n.id(), 105);
    assert_eq!(n.lat_lon(), Some((Lat::from_inner(9_995), Lon::from_inner(-19_955))));
    assert_eq!(n.version(), Some(1));
    assert_eq!(n.timestamp(), &Some(TimestampFormat::EpochNunber(2_000_020)));
    assert_eq!(n.changeset_id(), Some(51));
    assert_eq!(n.uid(), Some(7));
    assert_eq!(n.user(), Some("bob"));
    assert!(n.deleted());
    assert!(n.untagged());

    let n = objs[2].as_node().unwrap();
    assert_eq!(n.id(), 102);
    assert_eq!(n.lat_lon(), Some((Lat::from_inner(10_015), Lon::from_inner(-19_905))));
    assert_eq!(n.version(), Some(7));
    assert_eq!(n.timestamp(), &Some(TimestampFormat::EpochNunber(2_000_010)));
    assert_eq!(n.changeset_id(), Some(51));
    assert_eq!(n.uid(), Some(5));
    assert_eq!(n.user(), Some(""));
    assert!(!n.deleted());
    assert_eq!(n.tag("k"), Some("v"));
    assert_eq!(n.tag("v"), Some("k"));
}

#[test]
fn block_defaults_are_used() {
    let mut dense = plain_dense(&[1]);
    dense.lats = vec![5];
    dense.lons = vec![6];
    dense.timestamps = vec![77];
    let parsed = parse::<PrimitiveBlock>(&block(&[b""], &[dense_group(&dense)])).unwrap();
    assert_eq!(parsed.get_granularity(), 100);
    assert_eq!(parsed.get_date_granularity(), 1000);
    assert_eq!(parsed.get_lat_offset(), 0);
    assert_eq!(parsed.get_lon_offset(), 0);
    let objs = decode_block_to_objs(parsed).unwrap();
    let n = objs[0].as_node().unwrap();
    assert_eq!(n.lat_lon(), Some((Lat::from_inner(5), Lon::from_inner(6))));
    assert_eq!(n.timestamp(), &Some(TimestampFormat::EpochNunber(77)));
}

#[test]
fn dense_column_lengths_must_agree() {
    let mut dense = plain_dense(&[1, 2]);
    dense.lats = vec![0];
    assert_eq!(decode(&block(&[b""], &[dense_group(&dense)])), Err(PbfError::ColumnLengthMismatch));
    let mut dense = plain_dense(&[1, 2]);
    dense.lons = vec![0, 0, 0];
    assert_eq!(decode(&block(&[b""], &[dense_group(&dense)])), Err(PbfError::ColumnLengthMismatch));
    let mut dense = plain_dense(&[1, 2]);
    dense.user_sids = vec![];
    assert_eq!(decode(&block(&[b""], &[dense_group(&dense)])), Err(PbfError::ColumnLengthMismatch));
    let mut dense = plain_dense(&[1, 2]);
    dense.visible = vec![true, true, true];
    assert_eq!(decode(&block(&[b""], &[dense_group(&dense)])).unwrap().len(), 2);
}

#[test]
fn dense_overflow_is_an_error() {
    let dense = plain_dense(&[i64::MAX, 1]);
    assert_eq!(decode(&block(&[b""], &[dense_group(&dense)])), Err(PbfError::Overflow));
    let mut dense = plain_dense(&[1, 2]);
    dense.lats = vec![i32::MAX as i64, 1];
    assert_eq!(decode(&block(&[b""], &[dense_group(&dense)])), Err(PbfError::Overflow));
    let mut dense = plain_dense(&[1, 2]);
    dense.lons = vec![i32::MIN as i64, -1];
    assert_eq!(decode(&block(&[b""], &[dense_group(&dense)])), Err(PbfError::Overflow));
    let mut dense = plain_dense(&[1]);
    dense.timestamps = vec![i64::MAX];
    assert_eq!(
        decode(&scaled_block(&[b""], &[dense_group(&dense)], 100, 2000, 0, 0)),
        Err(PbfError::Overflow)
    );
}

#[test]
fn dense_values_must_fit_their_fields() {
    let mut dense = plain_dense(&[1]);
    dense.changesets = vec![-1];
    assert_eq!(decode(&block(&[b""], &[dense_group(&dense)])), Err(PbfError::ValueOutOfRange));
    let mut dense = plain_dense(&[1]);
    dense.changesets = vec![u32::MAX as i64 + 1];
    assert_eq!(decode(&block(&[b""], &[dense_group(&dense)])), Err(PbfError::ValueOutOfRange));
    let mut dense = plain_dense(&[1]);
    dense.uids = vec![-1];
    assert_eq!(decode(&block(&[b""], &[dense_group(&dense)])), Err(PbfError::ValueOutOfRange));
    let mut dense = plain_dense(&[1]);
    dense.uids = vec![i32::MAX];
    assert_eq!(decode(&block(&[b""], &[dense_group(&dense)])), Err(PbfError::ValueOutOfRange));
    let mut dense = plain_dense(&[1]);
    dense.versions = vec![-1];
    assert_eq!(decode(&block(&[b""], &[dense_group(&dense)])), Err(PbfError::ValueOutOfRange));
}

#[test]
fn string_indices_must_resolve() {
    let mut dense = plain_dense(&[1]);
    dense.user_sids = vec![1];
    assert_eq!(decode(&block(&[b""], &[dense_group(&dense)])), Err(PbfError::StringIndexOutOfRange));
    let mut dense = plain_dense(&[1]);
    dense.user_sids = vec![-1];
    assert_eq!(decode(&block(&[b""], &[dense_group(&dense)])), Err(PbfError::StringIndexOutOfRange));
    let mut dense = plain_dense(&[1]);
    dense.user_sids = vec![1];
    assert_eq!(
        decode(&block(&[b"", b"\xff"], &[dense_group(&dense)])),
        Err(PbfError::MalformedString)
    );
    let mut dense = plain_dense(&[1]);
    dense.keys_vals = vec![1, 2, 0];
    assert_eq!(
        decode(&block(&[b"", b"k"], &[dense_group(&dense)])),
        Err(PbfError::StringIndexOutOfRange)
    );
    assert_eq!(
        decode(&block(&[b"", b"k", b"\xc3"], &[dense_group(&dense)])),
        Err(PbfError::MalformedString)
    );
    // an entry that is not text does no harm where nothing points at it
    let dense = plain_dense(&[1]);
    assert_eq!(decode(&block(&[b"", b"\xff"], &[dense_group(&dense)])).unwrap().len(), 1);
}

#[test]
fn ways_are_decoded() {
    let strings: [&[u8]; 5] = [b"", b"highway", b"primary", b"carol", b"name"];
    let meta = info(4, 1_500_000_000, 99, 12, 3);
    let ways = group_of(
        3,
        &[
            way(10, &[1, 4], &[2, 3], Some(&meta), &[1000, 1, 1, -2]),
            way(-11, &[], &[], None, &[]),
        ],
    );
    let objs = decode(&block(&strings, &[ways])).unwrap();
    assert_eq!(objs.len(), 2);
    let w = objs[0].as_way().unwrap();
    assert_eq!(objs[0].object_type(), OSMObjectType::Way);
    assert_eq!(w.id(), 10);
    assert_eq!(w.nodes(), &[1000, 1001, 1002, 1000]);
    assert_eq!(w.num_nodes(), 4);
    assert_eq!(w.node(1), Some(1001));
    assert_eq!(w.node(4), None);
    assert!(w.is_closed());
    assert!(w.is_area());
    assert_eq!(w.tag("highway"), Some("primary"));
    assert_eq!(w.tag("name"), Some("carol"));
    assert_eq!(w.version(), Some(4));
    assert_eq!(w.timestamp(), &Some(TimestampFormat::EpochNunber(1_500_000_000)));
    assert_eq!(w.changeset_id(), Some(99));
    assert_eq!(w.uid(), Some(12));
    assert_eq!(w.user(), Some("carol"));
    assert!(!w.deleted());

    let w = objs[1].as_way().unwrap();
    assert_eq!(w.id(), -11);
    assert_eq!(w.num_nodes(), 0);
    assert!(!w.is_closed());
    assert_eq!(w.version(), None);
    assert_eq!(w.timestamp(), &None);
    assert_eq!(w.changeset_id(), None);
    assert_eq!(w.uid(), None);
    assert_eq!(w.user(), None);
    assert!(!w.deleted());
}

#[test]
fn way_timestamps_are_not_scaled() {
    let meta = info(1, 1234, 1, 1, 0);
    let ways = group_of(3, &[way(1, &[], &[], Some(&meta), &[1])]);
    let objs = decode(&scaled_block(&[b""], &[ways], 100, 5000, 0, 0)).unwrap();
    assert_eq!(objs[0].timestamp(), &Some(TimestampFormat::EpochNunber(1234)));
}

#[test]
fn invisible_records_are_deleted() {
    let hidden = message(|out| out.write_bool(6, false).unwrap());
    let shown = message(|out| out.write_bool(6, true).unwrap());
    let ways = group_of(
        3,
        &[way(1, &[], &[], Some(&hidden), &[]), way(2, &[], &[], Some(&shown), &[])],
    );
    let objs = decode(&block(&[b""], &[ways])).unwrap();
    assert!(objs[0].deleted());
    assert!(!objs[1].deleted());
}

#[test]
fn way_errors() {
    let ways = group_of(3, &[way(1, &[1], &[], None, &[])]);
    assert_eq!(decode(&block(&[b"", b"k"], &[ways])), Err(PbfError::ColumnLengthMismatch));
    let ways = group_of(3, &[way(1, &[1], &[2], None, &[])]);
    assert_eq!(decode(&block(&[b"", b"k"], &[ways])), Err(PbfError::StringIndexOutOfRange));
    let ways = group_of(3, &[way(1, &[], &[], None, &[i64::MAX, 1])]);
    assert_eq!(decode(&block(&[b""], &[ways])), Err(PbfError::Overflow));
    let meta = info(-1, 0, 0, 0, 0);
    let ways = group_of(3, &[way(1, &[], &[], Some(&meta), &[])]);
    assert_eq!(decode(&block(&[b""], &[ways])), Err(PbfError::ValueOutOfRange));
    let no_id = message(|out| out.write_repeated_packed_sint64(8, &[1]).unwrap());
    let ways = group_of(3, &[no_id]);
    assert_eq!(decode(&block(&[b""], &[ways])), Err(PbfError::MissingRequiredField));
    // one way that fails fails the block
    let ways = group_of(3, &[way(1, &[], &[], None, &[1]), way(2, &[1], &[], None, &[])]);
    assert_eq!(decode(&block(&[b"", b"k"], &[ways])), Err(PbfError::ColumnLengthMismatch));
}

#[test]
fn relations_are_decoded() {
    let strings: [&[u8]; 5] = [b"", b"type", b"route", b"inner", b"outer"];
    let relations =
        group_of(4, &[relation(7, &[1], &[2], &[3, 4, 0], &[50, -10, 100], &[0, 1, 2])]);
    let objs = decode(&block(&strings, &[relations])).unwrap();
    assert_eq!(objs.len(), 1);
    assert!(objs[0].is_relation());
    let r = objs[0].as_relation().unwrap();
    assert_eq!(r.id(), 7);
    assert_eq!(r.tag("type"), Some("route"));
    assert_eq!(
        r.members(),
        &vec![
            (OSMObjectType::Node, 50, "inner".to_string()),
            (OSMObjectType::Way, 40, "outer".to_string()),
            (OSMObjectType::Relation, 140, "".to_string()),
        ]
    );
}

#[test]
fn relation_columns_must_agree() {
    let strings: [&[u8]; 2] = [b"", b"role"];
    for (roles, memids, types) in [
        (vec![1], vec![1, 2], vec![0, 0]),
        (vec![1, 1], vec![1], vec![0, 0]),
        (vec![1, 1], vec![1, 2], vec![0]),
        (vec![], vec![1], vec![]),
    ] {
        let relations = group_of(4, &[relation(7, &[], &[], &roles, &memids, &types)]);
        assert_eq!(decode(&block(&strings, &[relations])), Err(PbfError::ColumnLengthMismatch));
    }
    let relations = group_of(4, &[relation(7, &[], &[], &[1], &[1], &[3])]);
    assert_eq!(decode(&block(&strings, &[relations])), Err(PbfError::InvalidMemberType));
    let relations = group_of(4, &[relation(7, &[], &[], &[2], &[1], &[0])]);
    assert_eq!(decode(&block(&strings, &[relations])), Err(PbfError::StringIndexOutOfRange));
}

#[test]
fn role_policy_decides_on_roles_that_are_no_text() {
    let strings: [&[u8]; 3] = [b"", b"\xff\xff", b"outer"];
    let relations = group_of(4, &[relation(7, &[], &[], &[2, 1, 0], &[5, 5, 5], &[0, 1, 2])]);
    let data = block(&strings, &[relations]);

    let objs = decode(&data).unwrap();
    assert_eq!(
        objs[0].as_relation().unwrap().members(),
        &vec![
            (OSMObjectType::Node, 5, "outer".to_string()),
            (OSMObjectType::Relation, 15, "".to_string()),
        ]
    );
    let dropped = decode_block_with(parse::<PrimitiveBlock>(&data).unwrap(), RolePolicy::DropMember);
    assert_eq!(dropped.unwrap(), objs);
    let strict = decode_block_with(parse::<PrimitiveBlock>(&data).unwrap(), RolePolicy::Reject);
    assert_eq!(strict, Err(PbfError::MalformedString));

    let mut reader = PBFReader::new(frame("OSMData", &raw_blob(&data)));
    reader.set_role_policy(RolePolicy::Reject);
    assert_eq!(reader.next(), Err(PbfError::MalformedString));
}

#[test]
fn groups_are_dispatched_by_their_kind() {
    let legacy = group_of(1, &[message(|out| out.write_sint64(1, 5).unwrap())]);
    assert_eq!(decode(&block(&[b""], &[legacy])), Err(PbfError::LegacyNodes));
    assert_eq!(decode(&block(&[b""], &[vec![]])), Err(PbfError::EmptyGroup));
    let changesets = group_of(5, &[message(|out| out.write_int64(1, 5).unwrap())]);
    assert_eq!(decode(&block(&[b""], &[changesets])), Err(PbfError::EmptyGroup));
    assert_eq!(decode(&block(&[b""], &[])), Ok(vec![]));
    let no_table = message(|out| out.write_int32(17, 100).unwrap());
    assert_eq!(decode(&no_table), Err(PbfError::MissingRequiredField));
}

#[test]
fn objects_come_in_the_order_of_the_stream() {
    let nodes = dense_group(&plain_dense(&[1, 1]));
    let ways = group_of(3, &[way(10, &[], &[], None, &[1]), way(11, &[], &[], None, &[2])]);
    let relations = group_of(4, &[relation(20, &[], &[], &[], &[], &[])]);
    let first = block(&[b""], &[nodes, ways]);
    let empty = block(&[b""], &[]);
    let second = block(&[b""], &[relations, dense_group(&plain_dense(&[30]))]);
    let mut stream = frame("OSMHeader", b"");
    stream.extend(frame("OSMData", &raw_blob(&first)));
    stream.extend(frame("OSMData", &zlib_blob(&empty)));
    stream.extend(frame("OSMData", &zlib_blob(&second)));

    let mut reader = PBFReader::new(stream.clone());
    assert!(!reader.get_sorted_assumption());
    reader.assume_sorted();
    assert!(reader.get_sorted_assumption());
    reader.assume_unsorted();
    assert!(!reader.get_sorted_assumption());
    reader.set_sorted_assumption(true);
    let objs = read_all(&mut reader).unwrap();
    let seen: Vec<(OSMObjectType, i64)> = objs.iter().map(|o| (o.object_type(), o.id())).collect();
    assert_eq!(
        seen,
        vec![
            (OSMObjectType::Node, 1),
            (OSMObjectType::Node, 2),
            (OSMObjectType::Way, 10),
            (OSMObjectType::Way, 11),
            (OSMObjectType::Relation, 20),
            (OSMObjectType::Node, 30),
        ]
    );
    assert!(reader.get_sorted_assumption());
    assert_eq!(reader.inner(), &stream);
    assert_eq!(reader.into_inner(), stream);
}

#[test]
fn a_failing_block_stops_the_reader() {
    let good = block(&[b""], &[dense_group(&plain_dense(&[1, 1]))]);
    let bad = block(&[b""], &[dense_group(&plain_dense(&[i64::MAX, 1]))]);
    let mut stream = frame("OSMData", &raw_blob(&good));
    stream.extend(frame("OSMData", &raw_blob(&bad)));
    stream.extend(frame("OSMData", &raw_blob(&good)));
    let mut reader = PBFReader::new(stream);
    assert_eq!(reader.next().unwrap().unwrap().id(), 1);
    assert_eq!(reader.next().unwrap().unwrap().id(), 2);
    assert_eq!(reader.next(), Err(PbfError::Overflow));
    assert_eq!(reader.next(), Ok(None));

    let mut reader = PBFReader::new(frame("OSMData", &raw_blob(b"\x0a\x05ab")));
    assert_eq!(reader.next(), Err(PbfError::TruncatedMessage));
}

#[test]
fn into_conversions_follow_the_kind() {
    let nodes = dense_group(&plain_dense(&[1]));
    let ways = group_of(3, &[way(10, &[], &[], None, &[1])]);
    let relations = group_of(4, &[relation(20, &[], &[], &[], &[], &[])]);
    let objs = decode(&block(&[b""], &[nodes, ways, relations])).unwrap();
    assert!(objs[0].as_node().is_some() && objs[0].as_way().is_none());
    assert!(objs[1].as_way().is_some() && objs[1].as_relation().is_none());
    assert!(objs[2].as_relation().is_some() && objs[2].as_node().is_none());
    let mut objs = objs;
    let relation = objs.pop().unwrap();
    assert!(relation.clone().into_node().is_none());
    assert!(relation.clone().into_way().is_none());
    assert_eq!(relation.into_relation().unwrap().id(), 20);
    let way = objs.pop().unwrap();
    assert_eq!(way.into_way().unwrap().id(), 10);
    let mut node = objs.pop().unwrap();
    assert!(node.as_way_mut().is_none());
    assert!(node.as_relation_mut().is_none());
    node.as_node_mut().unwrap().set_lat_lon_direct(None);
    assert!(!node.as_node().unwrap().has_lat_lon());
    assert_eq!(node.into_node().unwrap().id(), 1);
}

#[test]
fn all_objects_can_be_read_at_once() {
    let good = block(&[b""], &[dense_group(&plain_dense(&[1, 1]))]);
    let bad = block(&[b""], &[dense_group(&plain_dense(&[i64::MAX, 1]))]);
    let mut stream = frame("OSMData", &raw_blob(&good));
    stream.extend(frame("OSMHeader", b""));
    stream.extend(frame("OSMData", &zlib_blob(&good)));
    let mut reader = PBFReader::new(stream.clone());
    assert_eq!(reader.next().unwrap().unwrap().id(), 1);
    let (objs, failure) = reader.objects();
    assert_eq!(objs.iter().map(|o| o.id()).collect::<Vec<_>>(), vec![2, 1, 2]);
    assert_eq!(failure, None);
    assert_eq!(reader.objects(), (vec![], None));

    stream.extend(frame("OSMData", &raw_blob(&bad)));
    stream.extend(frame("OSMData", &raw_blob(&good)));
    let mut reader = PBFReader::new(stream);
    let (objs, failure) = reader.objects();
    assert_eq!(objs.iter().map(|o| o.id()).collect::<Vec<_>>(), vec![1, 2, 1, 2]);
    assert_eq!(failure, Some(PbfError::Overflow));
    assert_eq!(reader.objects(), (vec![], None));
}

#[test]
fn the_reader_answers_through_its_trait() {
    fn drain<R: OSMReader>(mut reader: R) -> Vec<i64> {
        let mut ids = Vec::new();
        reader.assume_sorted();
        assert!(reader.get_sorted_assumption());
        reader.assume_unsorted();
        assert!(!reader.get_sorted_assumption());
        while let Ok(Some(obj)) = reader.next() {
            ids.push(obj.id());
        }
        assert!(reader.inner().len() > 0);
        ids
    }
    let data = block(&[b""], &[dense_group(&plain_dense(&[4, 4, 4]))]);
    let stream = frame("OSMData", &raw_blob(&data));
    let mut reader: PBFReader = OSMReader::new(stream.clone());
    assert_eq!(OSMReader::inner(&reader), &stream);
    assert!(!OSMReader::get_sorted_assumption(&reader));
    assert_eq!(OSMReader::next(&mut reader).unwrap().unwrap().id(), 4);
    let reader: PBFReader = OSMReader::new(stream.clone());
    assert_eq!(drain(reader), vec![4, 8, 12]);
    let reader: PBFReader = OSMReader::new(stream.clone());
    assert_eq!(OSMReader::into_inner(reader), stream);
}

#[test]
fn dropped_members_are_counted() {
    let table = BlockStrings::new(&vec![b"".to_vec(), vec![0xff], b"outer".to_vec(), vec![0xc3]]);
    let raw = parse::<RawRelation>(&relation(7, &[], &[], &[2, 1, 0, 3, 9, -1], &[1; 6], &[0; 6]))
        .unwrap();
    assert_eq!(dropped_members(&raw, &table), 2);
    let raw = parse::<RawRelation>(&relation(7, &[], &[], &[], &[], &[])).unwrap();
    assert_eq!(dropped_members(&raw, &table), 0);
}

#[test]
fn node_positions_are_read_alone() {
    let mut dense = plain_dense(&[100, 5, -3]);
    dense.lats = vec![1000, -1, 2];
    dense.lons = vec![-2000, 5, 5];
    // what the positions do not need may be missing or broken
    dense.versions = vec![];
    dense.user_sids = vec![99, 99, 99];
    dense.keys_vals = vec![5];
    let ways = group_of(3, &[way(10, &[], &[], None, &[1])]);
    let relations = group_of(4, &[relation(20, &[], &[], &[], &[], &[])]);
    let data = scaled_block(&[b""], &[dense_group(&dense), ways, relations], 1000, 1000, 500, -500);
    let parsed = parse::<PrimitiveBlock>(&data).unwrap();
    let expected = vec![
        (100, (Lat::from_inner(10_005), Lon::from_inner(-20_005))),
        (105, (Lat::from_inner(9_995), Lon::from_inner(-19_955))),
        (102, (Lat::from_inner(10_015), Lon::from_inner(-19_905))),
    ];
    assert_eq!(decode_block_to_positions(&parsed), Ok(expected.clone()));

    let mut stream = frame("OSMHeader", b"");
    stream.extend(frame("OSMData", &zlib_blob(&data)));
    stream.extend(frame("OSMData", &raw_blob(&block(&[b""], &[]))));
    stream.extend(frame("OSMData", &raw_blob(&data)));
    let mut reader = PBFNodePositionReader::from_reader(stream);
    let mut seen = Vec::new();
    while let Some(position) = reader.next().unwrap() {
        seen.push(position);
    }
    let mut twice = expected.clone();
    twice.extend(expected);
    assert_eq!(seen, twice);
    assert_eq!(reader.next(), Ok(None));
}

#[test]
fn node_position_errors() {
    let positions = |groups: &[Vec<u8>]| {
        decode_block_to_positions(&parse::<PrimitiveBlock>(&block(&[b""], groups)).unwrap())
    };
    let legacy = group_of(1, &[message(|out| out.write_sint64(1, 5).unwrap())]);
    assert_eq!(positions(&[legacy]), Err(PbfError::LegacyNodes));
    assert_eq!(positions(&[vec![]]), Err(PbfError::EmptyGroup));
    let mut dense = plain_dense(&[1, 2]);
    dense.lats = vec![1];
    assert_eq!(positions(&[dense_group(&dense)]), Err(PbfError::ColumnLengthMismatch));
    let mut dense = plain_dense(&[1, 2]);
    dense.lons = vec![i32::MAX as i64, 1];
    assert_eq!(positions(&[dense_group(&dense)]), Err(PbfError::Overflow));
    assert_eq!(positions(&[dense_group(&plain_dense(&[i64::MIN, -1]))]), Err(PbfError::Overflow));
    let mut reader = PBFNodePositionReader::new(frame("OSMData", &raw_blob(&[0x0a])));
    assert_eq!(reader.next(), Err(PbfError::MalformedVarint));
    assert_eq!(reader.next(), Ok(None));
}

fn pull_all(stream: &[u8], policy: RolePolicy) -> (Vec<ArcOSMObj>, Option<PbfError>) {
    let mut reader = StreamReader::new();
    reader.role_policy = policy;
    let mut pos = 0;
    let mut objs = Vec::new();
    loop {
        match reader.pull() {
            Pull::Object(obj) => objs.push(obj),
            Pull::End => return (objs, None),
            Pull::Read(wanted) => {
                let input = if stream.len() - pos >= wanted {
                    pos += wanted;
                    Some(&stream[pos - wanted..pos])
                } else {
                    pos = stream.len();
                    None
                };
                if let Some(failure) = reader.feed(input) {
                    assert!(matches!(reader.pull(), Pull::End));
                    return (objs, Some(failure));
                }
            }
        }
    }
}

#[test]
fn the_stream_reader_agrees_with_the_reader_in_memory() {
    let nodes = dense_group(&plain_dense(&[1, 1]));
    let ways = group_of(3, &[way(10, &[], &[], None, &[1]), way(11, &[], &[], None, &[2])]);
    let strings: [&[u8]; 2] = [b"", b"\xff"];
    let relations = group_of(4, &[relation(20, &[], &[], &[1, 0], &[5, 5], &[0, 1])]);
    let first = block(&strings, &[nodes, ways]);
    let second = block(&strings, &[relations]);
    let bad = block(&[b""], &[dense_group(&plain_dense(&[i64::MAX, 1]))]);
    let mut good_stream = frame("OSMHeader", b"");
    good_stream.extend(frame("OSMData", &raw_blob(&first)));
    good_stream.extend(frame("OSMHeader", b"skipped"));
    good_stream.extend(frame("OSMData", &zlib_blob(&block(&[b""], &[]))));
    good_stream.extend(frame("OSMData", &zlib_blob(&second)));
    let mut failing = good_stream.clone();
    failing.extend(frame("OSMData", &raw_blob(&bad)));
    failing.extend(frame("OSMData", &raw_blob(&first)));
    let mut streams = vec![vec![], good_stream.clone(), failing];
    for cut in [1, 3, 4, 5, 17, 30, good_stream.len() - 1] {
        streams.push(good_stream[..cut].to_vec());
    }
    for stream in streams {
        for policy in [RolePolicy::DropMember, RolePolicy::Reject] {
            let mut reader = PBFReader::new(stream.clone());
            reader.set_role_policy(policy);
            assert_eq!(pull_all(&stream, policy), reader.objects());
        }
    }
    assert_eq!(pull_all(&good_stream, RolePolicy::DropMember).0.len(), 5);
    assert_eq!(pull_all(&good_stream, RolePolicy::Reject).1, Some(PbfError::MalformedString));
}

#[test]
fn blob_data_is_selected_from_what_inflating_gave() {
    let mut blob = Blob::new();
    blob.set_zlib_data(vec![1, 2, 3]);
    blob.set_raw_size(2);
    assert_eq!(select_blob_data(&mut blob, Some(vec![9, 9])), Ok(vec![9, 9]));
    assert_eq!(select_blob_data(&mut blob, None), Err(PbfError::CorruptCompressedData));
    assert_eq!(blob.get_zlib_data(), &[1, 2, 3]);
    blob.set_raw(vec![7]);
    assert_eq!(select_blob_data(&mut blob, Some(vec![9, 9])), Ok(vec![7]));
    assert!(!blob.has_raw());
    blob.set_raw(vec![7]);
    blob.set_OBSOLETE_bzip2_data(vec![]);
    assert_eq!(select_blob_data(&mut blob, Some(vec![9])), Err(PbfError::UnsupportedCompression));
    assert!(blob.has_raw());
    assert_eq!(select_blob_data(&mut Blob::new(), Some(vec![9])), Err(PbfError::EmptyBlob));
}
