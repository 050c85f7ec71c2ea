//! The ways in which reading a PBF stream can fail.
use vstd::prelude::*;

verus! {

/// Why a stream, a blob or a block could not be decoded.
///
/// Every failure is final for the block it occurs in: nothing is recovered
/// from a block that produced an error.
#[derive(Debug, Clone, Copy, PartialEq, Eq, Structural)]
pub enum PbfError {
    /// The stream ends inside a header or a payload.
    TruncatedStream,
    /// A header announces a negative payload length.
    InvalidLength,
    /// A variable-length integer is cut short or longer than ten bytes.
    MalformedVarint,
    /// A field tag names field zero, a number beyond 32 bits or a wire type
    /// that is not in use.
    MalformedTag,
    /// A length-delimited or fixed-width field runs past the end of its message.
    TruncatedMessage,
    /// A known field arrives with a wire type its schema does not allow.
    UnexpectedWireType,
    /// A field the schema requires is absent.
    MissingRequiredField,
    /// A field of type `string` does not hold UTF-8.
    InvalidUtf8,
    /// The blob is compressed with a scheme other than zlib.
    UnsupportedCompression,
    /// The blob carries neither raw nor compressed data.
    EmptyBlob,
    /// The zlib payload of a blob cannot be inflated.
    CorruptCompressedData,
    /// A group holds plain (non-dense) nodes, which are not decoded.
    LegacyNodes,
    /// A group holds none of the four kinds of record.
    EmptyGroup,
    /// Columns that run in parallel differ in length.
    ColumnLengthMismatch,
    /// The flattened tag array of a dense group ends inside a row.
    UnterminatedTags,
    /// A relation member has a kind other than node, way or relation.
    InvalidMemberType,
    /// A running sum or a scaled value leaves the width of its column.
    Overflow,
    /// A value does not fit the field of the record that receives it.
    ValueOutOfRange,
    /// A string index points outside the block's string table.
    StringIndexOutOfRange,
    /// A string index points at an entry that is not UTF-8.
    MalformedString,
}

} // verus!
