//! How messages are written, as mathematical functions, and the laws that
//! reading gives back what was written.
//!
//! Nothing here runs: the library only reads. The functions say what a
//! well-formed frame is, so that the reading can be held against it.
use vstd::prelude::*;
use vstd::utf8::{decode_utf8, encode_utf8, valid_utf8};
use crate::error::PbfError;
use crate::fields::{spec_int32, spec_last_bytes, spec_last_varint};
use crate::fileformat::{Blob, BlobHeader, BlobHeaderView, BlobView};
use crate::message::spec_parse;
use crate::pbf::{
    lemma_blob_data_round_trip, lemma_framed_blob_is_found, osm_data, spec_blob_data, spec_frame,
    spec_next_blob, zlib_inflated,
};
use crate::wire::{
    Field, FieldValue, MAX_VARINT_LEN, spec_field, spec_fields, spec_varint, varint_len,
    varint_payload,
};

verus! {

/// The shortest encoding of a number as a variable-length integer: groups of
/// seven bits, least significant first, each but the last with the
/// continuation bit set.
pub open spec fn encode_varint(v: nat) -> Seq<u8>
    decreases v,
{
    if v < 128 {
        seq![v as u8]
    } else {
        seq![(v % 128 + 128) as u8] + encode_varint(v / 128)
    }
}

/// The largest number that `groups` groups of seven bits can spell, plus one.
pub open spec fn group_limit(groups: nat) -> nat
    decreases groups,
{
    if groups == 0 {
        1
    } else {
        128 * group_limit((groups - 1) as nat)
    }
}

/// A number below the limit of `groups` groups is encoded in no more bytes,
/// and reading its encoding gives its length and the number back, whatever
/// follows.
pub proof fn lemma_encode_varint(v: nat, groups: nat, rest: Seq<u8>)
    requires
        groups >= 1,
        v < group_limit(groups),
    ensures
        1 <= encode_varint(v).len() <= groups,
        varint_len(encode_varint(v) + rest, groups) == Some(encode_varint(v).len()),
        varint_payload(encode_varint(v) + rest, encode_varint(v).len()) == v,
        encode_varint(v).last() as nat * group_limit((encode_varint(v).len() - 1) as nat) <= v,
    decreases v,
{
    let bytes = encode_varint(v) + rest;
    if v < 128 {
        assert(bytes[0] == v as u8);
        assert(varint_payload(bytes.drop_first(), 0) == 0);
        assert(group_limit(0) == 1);
    } else {
        let tail = encode_varint(v / 128);
        assert(groups >= 2) by {
            if groups == 1 {
                assert(group_limit(1) == 128 * group_limit(0));
                assert(group_limit(0) == 1);
            }
        }
        assert(group_limit(groups) == 128 * group_limit((groups - 1) as nat));
        lemma_encode_varint(v / 128, (groups - 1) as nat, rest);
        assert(bytes[0] == (v % 128 + 128) as u8);
        assert(bytes.drop_first() =~= tail + rest);
        assert(encode_varint(v).len() == 1 + tail.len());
        assert(encode_varint(v).last() == tail.last());
        assert(group_limit(tail.len()) == 128 * group_limit((tail.len() - 1) as nat));
        assert(tail.last() as nat * group_limit(tail.len()) <= v) by (nonlinear_arith)
            requires
                tail.last() as nat * group_limit((tail.len() - 1) as nat) <= v / 128,
                group_limit(tail.len()) == 128 * group_limit((tail.len() - 1) as nat),
        ;
    }
}

/// Ten groups of seven bits hold every 64-bit number, and the tenth group of
/// one is at most one.
pub proof fn lemma_group_limits()
    ensures
        group_limit(9) == 0x8000_0000_0000_0000,
        group_limit(10) > u64::MAX,
{
    reveal_with_fuel(group_limit, 11);
}

/// Reading the encoding of a 64-bit number gives the number back, whatever
/// follows it.
pub proof fn lemma_varint_round_trip(v: u64, rest: Seq<u8>)
    ensures
        spec_varint(encode_varint(v as nat) + rest) == Some((v, encode_varint(v as nat).len())),
        1 <= encode_varint(v as nat).len() <= MAX_VARINT_LEN,
{
    lemma_group_limits();
    lemma_encode_varint(v as nat, 10, rest);
    let code = encode_varint(v as nat);
    let bytes = code + rest;
    if code.len() == 10 {
        assert(bytes[9] == code.last());
        assert(code.last() as nat * group_limit(9) <= v);
        assert(code.last() <= 1);
    }
}

/// A field with a variable-length integer: the tag, then the integer.
pub open spec fn encode_varint_field(number: u32, value: u64) -> Seq<u8> {
    encode_varint(number as nat * 8) + encode_varint(value as nat)
}

/// A length-delimited field: the tag, the length, then the bytes.
pub open spec fn encode_bytes_field(number: u32, payload: Seq<u8>) -> Seq<u8> {
    encode_varint(number as nat * 8 + 2) + encode_varint(payload.len()) + payload
}

/// Whether a number can be the number of a field.
pub open spec fn is_field_number(number: u32) -> bool {
    1 <= number < 0x2000_0000
}

/// Reading a written integer field gives the field back, whatever follows.
pub proof fn lemma_varint_field_round_trip(number: u32, value: u64, rest: Seq<u8>)
    requires
        is_field_number(number),
    ensures
        spec_field(encode_varint_field(number, value) + rest) == Ok::<(Field, nat), PbfError>(
            (
                Field { number: number, value: FieldValue::Varint(value) },
                encode_varint_field(number, value).len(),
            ),
        ),
        encode_varint_field(number, value).len() >= 1,
{
    let tag = (number as nat * 8) as u64;
    let tag_code = encode_varint(tag as nat);
    let value_code = encode_varint(value as nat);
    let bytes = encode_varint_field(number, value) + rest;
    assert(bytes =~= tag_code + (value_code + rest));
    lemma_varint_round_trip(tag, value_code + rest);
    assert(bytes.skip(tag_code.len() as int) =~= value_code + rest);
    lemma_varint_round_trip(value, rest);
}

/// Reading a written length-delimited field gives the field back, whatever
/// follows.
pub proof fn lemma_bytes_field_round_trip(number: u32, payload: Seq<u8>, rest: Seq<u8>)
    requires
        is_field_number(number),
        payload.len() <= u64::MAX,
    ensures
        spec_field(encode_bytes_field(number, payload) + rest) == Ok::<(Field, nat), PbfError>(
            (
                Field { number: number, value: FieldValue::Bytes(payload) },
                encode_bytes_field(number, payload).len(),
            ),
        ),
        encode_bytes_field(number, payload).len() >= 1,
{
    let tag = (number as nat * 8 + 2) as u64;
    let tag_code = encode_varint(tag as nat);
    let len_code = encode_varint(payload.len());
    let bytes = encode_bytes_field(number, payload) + rest;
    assert(bytes =~= tag_code + (len_code + (payload + rest)));
    lemma_varint_round_trip(tag, len_code + (payload + rest));
    let after_tag = bytes.skip(tag_code.len() as int);
    assert(after_tag =~= len_code + (payload + rest));
    lemma_varint_round_trip(payload.len() as u64, payload + rest);
    assert(after_tag.subrange(len_code.len() as int, (len_code.len() + payload.len()) as int)
        =~= payload);
}

/// Reading a message of one written field and what follows gives the field
/// and the fields of what follows.
pub proof fn lemma_fields_after_field(code: Seq<u8>, field: Field, rest: Seq<u8>)
    requires
        code.len() >= 1,
        spec_field(code + rest) == Ok::<(Field, nat), PbfError>((field, code.len())),
    ensures
        spec_fields(code + rest) == (match spec_fields(rest) {
            Ok(later) => Ok::<Seq<Field>, PbfError>(seq![field] + later),
            Err(e) => Err(e),
        }),
{
    assert((code + rest).skip(code.len() as int) =~= rest);
}

/// The integer that a field of type `int32` is written as: the number in 64
/// bits of two's complement.
pub open spec fn int32_bits(v: i32) -> u64 {
    if v >= 0 {
        v as u64
    } else {
        (v + 0x1_0000_0000_0000_0000) as u64
    }
}

/// Reading a written `int32` gives the number back.
pub proof fn lemma_int32_round_trip(v: i32)
    ensures
        spec_int32(int32_bits(v)) == Ok::<i32, PbfError>(v),
{
}

/// A blob with zlib data, as it is written: the size of the data when
/// inflated, then the compressed bytes.
pub open spec fn encode_zlib_blob(compressed: Seq<u8>, raw_size: i32) -> Seq<u8> {
    encode_varint_field(2, int32_bits(raw_size)) + encode_bytes_field(3, compressed)
}

/// A blob with raw data, as it is written.
pub open spec fn encode_raw_blob(data: Seq<u8>) -> Seq<u8> {
    encode_bytes_field(1, data)
}

/// The header of a blob, as it is written: the kind of the blob, then the
/// length of its payload.
pub open spec fn encode_blob_header(kind: Seq<char>, datasize: i32) -> Seq<u8> {
    encode_bytes_field(1, encode_utf8(kind)) + encode_varint_field(3, int32_bits(datasize))
}

/// The fields of a message of two written fields.
proof fn lemma_two_fields(first: Seq<u8>, a: Field, second: Seq<u8>, b: Field)
    requires
        first.len() >= 1,
        second.len() >= 1,
        spec_field(first + second) == Ok::<(Field, nat), PbfError>((a, first.len())),
        spec_field(second + Seq::<u8>::empty()) == Ok::<(Field, nat), PbfError>(
            (b, second.len()),
        ),
    ensures
        spec_fields(first + second) == Ok::<Seq<Field>, PbfError>(seq![a, b]),
{
    let none = Seq::<u8>::empty();
    assert(spec_fields(none) == Ok::<Seq<Field>, PbfError>(Seq::empty()));
    lemma_fields_after_field(second, b, none);
    assert(second + none =~= second);
    lemma_fields_after_field(first, a, second);
    assert(seq![a] + (seq![b] + Seq::<Field>::empty()) =~= seq![a, b]);
}

/// Reading a written blob with zlib data gives the blob back.
pub proof fn lemma_parse_zlib_blob(compressed: Seq<u8>, raw_size: i32)
    requires
        compressed.len() <= u64::MAX,
    ensures
        spec_parse::<Blob>(encode_zlib_blob(compressed, raw_size)) == Ok::<BlobView, PbfError>(
            BlobView {
                raw: None,
                raw_size: Some(raw_size),
                zlib_data: Some(compressed),
                lzma_data: None,
                OBSOLETE_bzip2_data: None,
            },
        ),
{
    let a = Field { number: 2, value: FieldValue::Varint(int32_bits(raw_size)) };
    let b = Field { number: 3, value: FieldValue::Bytes(compressed) };
    let first = encode_varint_field(2, int32_bits(raw_size));
    let second = encode_bytes_field(3, compressed);
    lemma_varint_field_round_trip(2, int32_bits(raw_size), second);
    lemma_bytes_field_round_trip(3, compressed, Seq::empty());
    lemma_two_fields(first, a, second, b);
    let fields = seq![a, b];
    lemma_int32_round_trip(raw_size);
    assert(fields.drop_last() =~= seq![a]);
    assert(seq![a].drop_last() =~= Seq::<Field>::empty());
    reveal_with_fuel(spec_last_bytes, 3);
    reveal_with_fuel(spec_last_varint, 3);
}

/// Reading a written blob with raw data gives the blob back.
pub proof fn lemma_parse_raw_blob(data: Seq<u8>)
    requires
        data.len() <= u64::MAX,
    ensures
        spec_parse::<Blob>(encode_raw_blob(data)) == Ok::<BlobView, PbfError>(
            BlobView {
                raw: Some(data),
                raw_size: None,
                zlib_data: None,
                lzma_data: None,
                OBSOLETE_bzip2_data: None,
            },
        ),
{
    let a = Field { number: 1, value: FieldValue::Bytes(data) };
    let code = encode_raw_blob(data);
    let none = Seq::<u8>::empty();
    lemma_bytes_field_round_trip(1, data, none);
    assert(spec_fields(none) == Ok::<Seq<Field>, PbfError>(Seq::empty()));
    lemma_fields_after_field(code, a, none);
    assert(code + none =~= code);
    assert(seq![a] + Seq::<Field>::empty() =~= seq![a]);
    assert(seq![a].drop_last() =~= Seq::<Field>::empty());
    reveal_with_fuel(spec_last_bytes, 2);
    reveal_with_fuel(spec_last_varint, 2);
}

/// Reading a written header gives the header back.
pub proof fn lemma_parse_blob_header(kind: Seq<char>, datasize: i32)
    requires
        encode_utf8(kind).len() <= u64::MAX,
    ensures
        spec_parse::<BlobHeader>(encode_blob_header(kind, datasize)) == Ok::<
            BlobHeaderView,
            PbfError,
        >(BlobHeaderView { field_type: Some(kind), indexdata: None, datasize: Some(datasize) }),
{
    broadcast use vstd::utf8::encode_utf8_valid_utf8, vstd::utf8::encode_utf8_decode_utf8;

    let text = encode_utf8(kind);
    assert(valid_utf8(text));
    assert(decode_utf8(text) == kind);
    let a = Field { number: 1, value: FieldValue::Bytes(text) };
    let b = Field { number: 3, value: FieldValue::Varint(int32_bits(datasize)) };
    let first = encode_bytes_field(1, text);
    let second = encode_varint_field(3, int32_bits(datasize));
    lemma_bytes_field_round_trip(1, text, second);
    lemma_varint_field_round_trip(3, int32_bits(datasize), Seq::empty());
    lemma_two_fields(first, a, second, b);
    let fields = seq![a, b];
    lemma_int32_round_trip(datasize);
    assert(fields.drop_last() =~= seq![a]);
    assert(seq![a].drop_last() =~= Seq::<Field>::empty());
    reveal_with_fuel(spec_last_bytes, 3);
    reveal_with_fuel(spec_last_varint, 3);
}

/// A written field is no longer than its parts: ten bytes for the tag, ten
/// for the integer or the length, and the payload.
pub proof fn lemma_field_lengths(number: u32, value: u64, payload: Seq<u8>)
    requires
        payload.len() <= u64::MAX,
    ensures
        encode_varint_field(number, value).len() <= 20,
        encode_bytes_field(number, payload).len() <= 20 + payload.len(),
{
    lemma_varint_round_trip((number as nat * 8) as u64, Seq::empty());
    lemma_varint_round_trip((number as nat * 8 + 2) as u64, Seq::empty());
    lemma_varint_round_trip(value, Seq::empty());
    lemma_varint_round_trip(payload.len() as u64, Seq::empty());
}

/// The blob round trip: a buffer that is compressed with zlib, wrapped in a
/// blob with its size, and framed with a header of the kind `OSMData` and the
/// blob's length, is found by the framing, and the blob's data is the buffer.
///
/// `compressed` stands for what the compression of `data` gave: all that is
/// asked of it is that it inflates to `data`.
pub proof fn lemma_blob_round_trip(data: Seq<u8>, compressed: Seq<u8>, rest: Seq<u8>)
    requires
        zlib_inflated(compressed) == Some(data),
        data.len() <= i32::MAX,
        compressed.len() <= i32::MAX - 40,
    ensures
        ({
            let payload = encode_zlib_blob(compressed, data.len() as i32);
            let header = encode_blob_header(osm_data(), payload.len() as i32);
            let found = spec_next_blob(spec_frame(header, payload) + rest, 0);
            &&& found.1 == spec_frame(header, payload).len()
            &&& found.0 matches Ok(Some(blob)) && spec_blob_data(blob) == Ok::<
                Seq<u8>,
                PbfError,
            >(data)
        }),
{
    broadcast use vstd::utf8::is_ascii_chars_encode_utf8;

    let payload = encode_zlib_blob(compressed, data.len() as i32);
    lemma_field_lengths(2, int32_bits(data.len() as i32), Seq::empty());
    lemma_field_lengths(3, 0, compressed);
    assert(payload.len() <= i32::MAX);
    let header = encode_blob_header(osm_data(), payload.len() as i32);
    reveal_strlit("OSMData");
    assert(vstd::utf8::is_ascii_chars(osm_data()));
    let kind = encode_utf8(osm_data());
    assert(kind.len() == 7);
    lemma_field_lengths(1, 0, kind);
    lemma_field_lengths(3, int32_bits(payload.len() as i32), Seq::empty());
    assert(header.len() <= 47);
    lemma_parse_zlib_blob(compressed, data.len() as i32);
    lemma_parse_blob_header(osm_data(), payload.len() as i32);
    let blob = BlobView {
        raw: None,
        raw_size: Some(data.len() as i32),
        zlib_data: Some(compressed),
        lzma_data: None,
        OBSOLETE_bzip2_data: None,
    };
    lemma_framed_blob_is_found(header, payload, rest, blob);
    lemma_blob_data_round_trip(data, compressed, Some(data.len() as i32));
}

/// The same for a blob that holds the buffer uncompressed.
pub proof fn lemma_raw_blob_round_trip(data: Seq<u8>, rest: Seq<u8>)
    requires
        data.len() <= i32::MAX - 20,
    ensures
        ({
            let payload = encode_raw_blob(data);
            let header = encode_blob_header(osm_data(), payload.len() as i32);
            let found = spec_next_blob(spec_frame(header, payload) + rest, 0);
            &&& found.1 == spec_frame(header, payload).len()
            &&& found.0 matches Ok(Some(blob)) && spec_blob_data(blob) == Ok::<
                Seq<u8>,
                PbfError,
            >(data)
        }),
{
    broadcast use vstd::utf8::is_ascii_chars_encode_utf8;

    let payload = encode_raw_blob(data);
    lemma_field_lengths(1, 0, data);
    let header = encode_blob_header(osm_data(), payload.len() as i32);
    reveal_strlit("OSMData");
    assert(vstd::utf8::is_ascii_chars(osm_data()));
    let kind = encode_utf8(osm_data());
    assert(kind.len() == 7);
    lemma_field_lengths(1, 0, kind);
    lemma_field_lengths(3, int32_bits(payload.len() as i32), Seq::empty());
    assert(header.len() <= 47);
    lemma_parse_raw_blob(data);
    lemma_parse_blob_header(osm_data(), payload.len() as i32);
    let blob = BlobView {
        raw: Some(data),
        raw_size: None,
        zlib_data: None,
        lzma_data: None,
        OBSOLETE_bzip2_data: None,
    };
    lemma_framed_blob_is_found(header, payload, rest, blob);
}

} // verus!
