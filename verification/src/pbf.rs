//! The blob container: frames of a header and a payload, and the payload's
//! decompression.
use std::io::Read;
use vstd::prelude::*;
use vstd::slice::slice_subrange;
use crate::error::PbfError;
use crate::fileformat::{Blob, BlobHeader, BlobView, text_or_empty};
use crate::message::{parse, spec_parse};

verus! {

/// The number that four bytes spell, most significant byte first.
pub open spec fn spec_be_u32(bytes: Seq<u8>) -> u32 {
    (bytes[0] as int * 0x100_0000 + bytes[1] as int * 0x1_0000 + bytes[2] as int * 0x100
        + bytes[3] as int) as u32
}

/// Reads a big-endian 32-bit number with `byteorder::BigEndian::read_u32`.
///
/// The function reads the first four bytes of the buffer, most significant
/// first, and panics on a shorter buffer, which the precondition rules out.
#[verifier::external_body]
fn read_be_u32(bytes: &[u8]) -> (r: u32)
    requires
        bytes@.len() >= 4,
    ensures
        r == spec_be_u32(bytes@),
{
    <byteorder::BigEndian as byteorder::ByteOrder>::read_u32(bytes)
}

/// Reads the length that the first four bytes spell, most significant byte
/// first, or `None` where there are fewer than four.
pub fn read_length(bytes: &[u8]) -> (r: Option<u32>)
    ensures
        r == (if bytes@.len() >= 4 {
            Some(spec_be_u32(bytes@))
        } else {
            None
        }),
{
    if bytes.len() >= 4 {
        Some(read_be_u32(bytes))
    } else {
        None
    }
}

/// What inflating a zlib stream gives: the data, or `None` where the bytes
/// are no complete zlib stream.
pub uninterp spec fn zlib_inflated(data: Seq<u8>) -> Option<Seq<u8>>;

/// Inflates a zlib stream with `flate2::read::ZlibDecoder`.
///
/// The decoder is opened on the bytes and read to its end with
/// `std::io::Read::read_to_end`. What comes out depends on the bytes alone;
/// an error of the decoder gives `None`.
#[verifier::external_body]
fn zlib_inflate(data: &[u8]) -> (r: Option<Vec<u8>>)
    ensures
        match r {
            Some(out) => zlib_inflated(data@) == Some(out@),
            None => zlib_inflated(data@) is None,
        },
{
    let mut out = Vec::new();
    match flate2::read::ZlibDecoder::new(data).read_to_end(&mut out) {
        Ok(_) => Some(out),
        Err(_) => None,
    }
}

/// The data of a blob, given what inflating its zlib field gives.
///
/// A blob that carries data in a compression other than zlib fails, whatever
/// else it carries. Raw data is passed through; zlib data is inflated; a blob
/// with neither fails.
pub open spec fn spec_select_data(blob: BlobView, inflated: Option<Seq<u8>>) -> Result<
    Seq<u8>,
    PbfError,
> {
    if blob.lzma_data is Some || blob.OBSOLETE_bzip2_data is Some {
        Err(PbfError::UnsupportedCompression)
    } else if blob.raw is Some {
        Ok(blob.raw->Some_0)
    } else if blob.zlib_data is Some {
        match inflated {
            Some(data) => Ok(data),
            None => Err(PbfError::CorruptCompressedData),
        }
    } else {
        Err(PbfError::EmptyBlob)
    }
}

/// The data of a blob.
pub open spec fn spec_blob_data(blob: BlobView) -> Result<Seq<u8>, PbfError> {
    spec_select_data(
        blob,
        match blob.zlib_data {
            Some(z) => zlib_inflated(z),
            None => None,
        },
    )
}

/// The blob after its data was taken: raw data moves out, all else stays.
pub open spec fn blob_after_data(blob: BlobView) -> BlobView {
    if blob.lzma_data is Some || blob.OBSOLETE_bzip2_data is Some || blob.raw is None {
        blob
    } else {
        BlobView { raw: None, ..blob }
    }
}

/// The view of data that may be there.
pub open spec fn data_view(data: Option<Vec<u8>>) -> Option<Seq<u8>> {
    match data {
        Some(d) => Some(d@),
        None => None,
    }
}

/// The data of a blob, given what inflating its zlib field gave.
///
/// Raw data is moved out of the blob. A blob that carries LZMA or bzip2 data
/// is rejected, never passed over.
pub fn select_blob_data(blob: &mut Blob, inflated: Option<Vec<u8>>) -> (r: Result<
    Vec<u8>,
    PbfError,
>)
    ensures
        match r {
            Ok(data) => spec_select_data(old(blob)@, data_view(inflated)) == Ok::<
                Seq<u8>,
                PbfError,
            >(data@),
            Err(e) => spec_select_data(old(blob)@, data_view(inflated)) == Err::<
                Seq<u8>,
                PbfError,
            >(e),
        },
        final(blob)@ == blob_after_data(old(blob)@),
{
    if blob.has_lzma_data() || blob.has_OBSOLETE_bzip2_data() {
        Err(PbfError::UnsupportedCompression)
    } else if blob.has_raw() {
        Ok(blob.take_raw())
    } else if blob.has_zlib_data() {
        match inflated {
            Some(data) => Ok(data),
            None => Err(PbfError::CorruptCompressedData),
        }
    } else {
        Err(PbfError::EmptyBlob)
    }
}

/// The decompressed data of a blob.
///
/// Raw data is moved out of the blob and passed through; zlib data is
/// inflated; a blob that carries LZMA or bzip2 data is rejected, never passed
/// over. The size that the blob announces for its data is not held against
/// what comes out.
pub fn blob_raw_data(blob: &mut Blob) -> (r: Result<Vec<u8>, PbfError>)
    ensures
        match r {
            Ok(data) => spec_blob_data(old(blob)@) == Ok::<Seq<u8>, PbfError>(data@),
            Err(e) => spec_blob_data(old(blob)@) == Err::<Seq<u8>, PbfError>(e),
        },
        final(blob)@ == blob_after_data(old(blob)@),
{
    let wanted: bool = blob.has_zlib_data() && !blob.has_raw() && !blob.has_lzma_data()
        && !blob.has_OBSOLETE_bzip2_data();
    let inflated: Option<Vec<u8>> = if wanted {
        zlib_inflate(blob.get_zlib_data())
    } else {
        None
    };
    select_blob_data(blob, inflated)
}

/// The kind of the blobs that carry data.
pub open spec fn osm_data() -> Seq<char> {
    "OSMData"@
}

/// Whether a blob of this kind carries data. The leading blob of a file, of
/// kind `OSMHeader`, does not.
pub fn is_osm_data(kind: &str) -> (r: bool)
    ensures
        r == (kind@ == osm_data()),
{
    let given: String = kind.to_owned();
    let wanted: String = "OSMData".to_owned();
    given == wanted
}

/// The length that a header announces for its payload.
pub open spec fn announced(datasize: Option<i32>) -> int {
    match datasize {
        Some(n) => n as int,
        None => 0,
    }
}

/// The next blob of data in `stream` from position `pos` on, and the
/// position after it.
///
/// A frame is four bytes of length, a header of that length and a payload of
/// the length the header announces. Frames of another kind than `OSMData`
/// are passed over. Fewer than four bytes end the stream; a failure abandons
/// it, so that the position after is the stream's end.
pub open spec fn spec_next_blob(stream: Seq<u8>, pos: int) -> (
    Result<Option<BlobView>, PbfError>,
    int,
)
    decreases stream.len() - pos,
{
    let end = stream.len() as int;
    if pos < 0 || end - pos < 4 {
        (Ok(None), end)
    } else {
        let header_len = spec_be_u32(stream.subrange(pos, pos + 4)) as int;
        let header_start = pos + 4;
        let header_end = header_start + header_len;
        if end - header_start < header_len {
            (Err(PbfError::TruncatedStream), end)
        } else {
            match spec_parse::<BlobHeader>(stream.subrange(header_start, header_end)) {
                Err(e) => (Err(e), end),
                Ok(header) => {
                    let datasize = announced(header.datasize);
                    let payload_end = header_end + datasize;
                    if datasize < 0 {
                        (Err(PbfError::InvalidLength), end)
                    } else if end - header_end < datasize {
                        (Err(PbfError::TruncatedStream), end)
                    } else if text_or_empty(header.field_type) != osm_data() {
                        spec_next_blob(stream, payload_end)
                    } else {
                        match spec_parse::<Blob>(stream.subrange(header_end, payload_end)) {
                            Err(e) => (Err(e), end),
                            Ok(blob) => (Ok(Some(blob)), payload_end),
                        }
                    }
                },
            }
        }
    }
}

/// A blob that is found lies after the position the search started from, and
/// the position after any search lies within the stream.
pub proof fn lemma_next_blob_advances(stream: Seq<u8>, pos: int)
    requires
        0 <= pos <= stream.len(),
    ensures
        spec_next_blob(stream, pos).1 <= stream.len(),
        spec_next_blob(stream, pos).0 matches Ok(Some(_)) ==> pos < spec_next_blob(stream, pos).1,
        !(spec_next_blob(stream, pos).0 matches Ok(Some(_))) ==> spec_next_blob(stream, pos).1
            == stream.len(),
    decreases stream.len() - pos,
{
    let end = stream.len() as int;
    if end - pos >= 4 {
        let header_len = spec_be_u32(stream.subrange(pos, pos + 4)) as int;
        let header_start = pos + 4;
        let header_end = header_start + header_len;
        if end - header_start >= header_len {
            match spec_parse::<BlobHeader>(stream.subrange(header_start, header_end)) {
                Err(e) => {},
                Ok(header) => {
                    let datasize = announced(header.datasize);
                    if datasize >= 0 && end - header_end >= datasize && text_or_empty(
                        header.field_type,
                    ) != osm_data() {
                        lemma_next_blob_advances(stream, header_end + datasize);
                    }
                },
            }
        }
    }
}

/// Reads the frames of a blob container that is held in memory.
#[derive(Debug, Clone)]
pub struct FileReader {
    /// The bytes of the container.
    pub reader: Vec<u8>,
    /// The position of the next frame.
    pub pos: usize,
}

impl FileReader {
    /// A reader at the start of the given bytes.
    pub fn new(reader: Vec<u8>) -> (r: Self)
        ensures
            r.reader == reader,
            r.pos == 0,
    {
        FileReader { reader, pos: 0 }
    }

    /// The bytes that are read.
    pub fn inner(&self) -> (r: &Vec<u8>)
        ensures
            r == &self.reader,
    {
        &self.reader
    }

    /// Gives the bytes back.
    pub fn into_inner(self) -> (r: Vec<u8>)
        ensures
            r == self.reader,
    {
        self.reader
    }

    /// Moves to the next blob of data and returns it, or `None` at the end
    /// of the stream. Blobs of other kinds are passed over. After a failure
    /// the reader stands at the end of the stream.
    pub fn get_next_osmdata_blob(&mut self) -> (r: Result<Option<Blob>, PbfError>)
        ensures
            final(self).reader == old(self).reader,
            final(self).pos as int == spec_next_blob(old(self).reader@, old(self).pos as int).1,
            match r {
                Ok(Some(blob)) => spec_next_blob(old(self).reader@, old(self).pos as int).0
                    == Ok::<Option<BlobView>, PbfError>(Some(blob@)),
                Ok(None) => spec_next_blob(old(self).reader@, old(self).pos as int).0 == Ok::<
                    Option<BlobView>,
                    PbfError,
                >(None),
                Err(e) => spec_next_blob(old(self).reader@, old(self).pos as int).0 == Err::<
                    Option<BlobView>,
                    PbfError,
                >(e),
            },
    {
        let end: usize = self.reader.len();
        loop
            invariant
                self.reader == old(self).reader,
                end == self.reader@.len(),
                spec_next_blob(self.reader@, self.pos as int) == spec_next_blob(
                    old(self).reader@,
                    old(self).pos as int,
                ),
            decreases self.reader@.len() - self.pos,
        {
            let pos: usize = self.pos;
            if pos > end || end - pos < 4 {
                self.pos = end;
                return Ok(None);
            }
            let header_start: usize = pos + 4;
            let size: u32 = match read_length(
                slice_subrange(self.reader.as_slice(), pos, header_start),
            ) {
                Some(size) => size,
                None => {
                    self.pos = end;
                    return Ok(None);
                },
            };
            if ((end - header_start) as u64) < size as u64 {
                self.pos = end;
                return Err(PbfError::TruncatedStream);
            }
            let header_end: usize = header_start + size as usize;
            let blob_header: BlobHeader = match parse::<BlobHeader>(
                slice_subrange(self.reader.as_slice(), header_start, header_end),
            ) {
                Ok(header) => header,
                Err(e) => {
                    self.pos = end;
                    return Err(e);
                },
            };
            let datasize: i32 = blob_header.get_datasize();
            if datasize < 0 {
                self.pos = end;
                return Err(PbfError::InvalidLength);
            }
            if ((end - header_end) as u64) < datasize as u64 {
                self.pos = end;
                return Err(PbfError::TruncatedStream);
            }
            let payload_end: usize = header_end + datasize as usize;
            if !is_osm_data(blob_header.get_field_type()) {
                // keep going to the next blob
                self.pos = payload_end;
                continue;
            }
            match parse::<Blob>(slice_subrange(self.reader.as_slice(), header_end, payload_end)) {
                Ok(blob) => {
                    self.pos = payload_end;
                    return Ok(Some(blob));
                },
                Err(e) => {
                    self.pos = end;
                    return Err(e);
                },
            }
        }
    }

    /// The next blob of data, as `get_next_osmdata_blob` gives it.
    pub fn next(&mut self) -> (r: Result<Option<Blob>, PbfError>)
        ensures
            final(self).reader == old(self).reader,
            final(self).pos as int == spec_next_blob(old(self).reader@, old(self).pos as int).1,
            match r {
                Ok(Some(blob)) => spec_next_blob(old(self).reader@, old(self).pos as int).0
                    == Ok::<Option<BlobView>, PbfError>(Some(blob@)),
                Ok(None) => spec_next_blob(old(self).reader@, old(self).pos as int).0 == Ok::<
                    Option<BlobView>,
                    PbfError,
                >(None),
                Err(e) => spec_next_blob(old(self).reader@, old(self).pos as int).0 == Err::<
                    Option<BlobView>,
                    PbfError,
                >(e),
            },
    {
        self.get_next_osmdata_blob()
    }
}

/// The four bytes that spell a number, most significant byte first.
pub open spec fn spec_be_bytes(n: u32) -> Seq<u8> {
    seq![
        (n / 0x100_0000) as u8,
        (n / 0x1_0000 % 0x100) as u8,
        (n / 0x100 % 0x100) as u8,
        (n % 0x100) as u8,
    ]
}

/// Reading the four bytes of a number gives the number back.
pub proof fn lemma_be_round_trip(n: u32)
    ensures
        spec_be_u32(spec_be_bytes(n)) == n,
{
    let b = spec_be_bytes(n);
    assert(b[0] == (n / 0x100_0000) as u8);
    assert(b[1] == (n / 0x1_0000 % 0x100) as u8);
    assert(b[2] == (n / 0x100 % 0x100) as u8);
    assert(b[3] == (n % 0x100) as u8);
}

/// One frame: the length of the header in four bytes, the header and the
/// payload.
pub open spec fn spec_frame(header: Seq<u8>, payload: Seq<u8>) -> Seq<u8> {
    spec_be_bytes(header.len() as u32) + header + payload
}

/// A blob that carries data in a compression other than zlib is rejected,
/// whatever else it carries.
pub proof fn lemma_unsupported_compression_rejected(blob: BlobView)
    requires
        blob.lzma_data is Some || blob.OBSOLETE_bzip2_data is Some,
    ensures
        spec_blob_data(blob) == Err::<Seq<u8>, PbfError>(PbfError::UnsupportedCompression),
{
}

/// A blob that is populated in no field is rejected.
pub proof fn lemma_empty_blob_rejected(blob: BlobView)
    requires
        blob.raw is None,
        blob.zlib_data is None,
    ensures
        spec_blob_data(blob) is Err,
{
}

/// The data of a blob that holds a zlib stream and nothing else is what the
/// stream inflates to, whatever size the blob announces; the data of a blob
/// that holds raw data and nothing else is that data.
pub proof fn lemma_blob_data_round_trip(data: Seq<u8>, compressed: Seq<u8>, raw_size: Option<i32>)
    requires
        zlib_inflated(compressed) == Some(data),
    ensures
        spec_blob_data(
            BlobView {
                raw: None,
                raw_size: raw_size,
                zlib_data: Some(compressed),
                lzma_data: None,
                OBSOLETE_bzip2_data: None,
            },
        ) == Ok::<Seq<u8>, PbfError>(data),
        spec_blob_data(
            BlobView {
                raw: Some(data),
                raw_size: raw_size,
                zlib_data: None,
                lzma_data: None,
                OBSOLETE_bzip2_data: None,
            },
        ) == Ok::<Seq<u8>, PbfError>(data),
{
}

/// A frame whose header announces the kind `OSMData` and the length of the
/// payload is found in front of whatever follows it, with the blob that the
/// payload holds, and the search ends behind the frame.
pub proof fn lemma_framed_blob_is_found(
    header: Seq<u8>,
    payload: Seq<u8>,
    rest: Seq<u8>,
    blob: BlobView,
)
    requires
        header.len() <= u32::MAX,
        payload.len() <= i32::MAX,
        spec_parse::<BlobHeader>(header) matches Ok(h) && h.field_type == Some(osm_data())
            && h.datasize == Some(payload.len() as i32),
        spec_parse::<Blob>(payload) == Ok::<BlobView, PbfError>(blob),
    ensures
        spec_next_blob(spec_frame(header, payload) + rest, 0) == (
            Ok::<Option<BlobView>, PbfError>(Some(blob)),
            spec_frame(header, payload).len() as int,
        ),
{
    let stream = spec_frame(header, payload) + rest;
    let length = spec_be_bytes(header.len() as u32);
    lemma_be_round_trip(header.len() as u32);
    assert(stream.subrange(0, 4) =~= length);
    assert(stream.subrange(4, 4 + header.len() as int) =~= header);
    assert(stream.subrange(4 + header.len() as int, 4 + header.len() + payload.len() as int) =~= payload);
}

/// A frame of another kind than `OSMData` is passed over: the search goes on
/// behind it.
pub proof fn lemma_other_frame_is_passed_over(header: Seq<u8>, payload: Seq<u8>, rest: Seq<u8>)
    requires
        header.len() <= u32::MAX,
        payload.len() <= i32::MAX,
        spec_parse::<BlobHeader>(header) matches Ok(h) && text_or_empty(h.field_type)
            != osm_data() && h.datasize == Some(payload.len() as i32),
    ensures
        spec_next_blob(spec_frame(header, payload) + rest, 0) == spec_next_blob(
            spec_frame(header, payload) + rest,
            spec_frame(header, payload).len() as int,
        ),
{
    let stream = spec_frame(header, payload) + rest;
    let length = spec_be_bytes(header.len() as u32);
    lemma_be_round_trip(header.len() as u32);
    assert(stream.subrange(0, 4) =~= length);
    assert(stream.subrange(4, 4 + header.len() as int) =~= header);
}

} // verus!
