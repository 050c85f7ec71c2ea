//! The protocol-buffer wire format: variable-length integers, tagged fields
//! and packed columns, read from a byte buffer.
use vstd::prelude::*;
use vstd::slice::{slice_subrange, slice_to_vec};
use crate::error::PbfError;

verus! {

/// The longest encoding of a 64-bit variable-length integer.
pub const MAX_VARINT_LEN: usize = 10;

/// The number of bytes of the variable-length integer at the front of `bytes`:
/// one more than the position of the first byte without a continuation bit,
/// looking at no more than `limit` bytes.
pub open spec fn varint_len(bytes: Seq<u8>, limit: nat) -> Option<nat>
    decreases limit,
{
    if limit == 0 || bytes.len() == 0 {
        None
    } else if bytes[0] < 128 {
        Some(1)
    } else {
        match varint_len(bytes.drop_first(), (limit - 1) as nat) {
            Some(n) => Some(n + 1),
            None => None,
        }
    }
}

/// The number spelled by the low seven bits of the first `n` bytes, least
/// significant group first.
pub open spec fn varint_payload(bytes: Seq<u8>, n: nat) -> nat
    decreases n,
{
    if n == 0 || bytes.len() == 0 {
        0
    } else {
        (bytes[0] % 128) as nat + 128 * varint_payload(bytes.drop_first(), (n - 1) as nat)
    }
}

/// The variable-length integer at the front of `bytes` and its length, or
/// `None` where the bytes end before it does, where it runs past ten bytes,
/// or where its tenth byte carries bits beyond the 64th.
pub open spec fn spec_varint(bytes: Seq<u8>) -> Option<(u64, nat)> {
    match varint_len(bytes, MAX_VARINT_LEN as nat) {
        None => None,
        Some(n) => if n == MAX_VARINT_LEN && bytes[9] > 1 {
            None
        } else {
            Some((varint_payload(bytes, n) as u64, n))
        },
    }
}

/// A variable-length integer takes at least one byte and no more than are there.
pub proof fn lemma_varint_len_bounds(bytes: Seq<u8>, limit: nat)
    ensures
        varint_len(bytes, limit) matches Some(n) ==> 1 <= n <= bytes.len() && n <= limit,
    decreases limit,
{
    if limit != 0 && bytes.len() != 0 && bytes[0] >= 128 {
        lemma_varint_len_bounds(bytes.drop_first(), (limit - 1) as nat);
    }
}

/// The bounds of `lemma_varint_len_bounds`, for `spec_varint`.
pub proof fn lemma_varint_bounds(bytes: Seq<u8>)
    ensures
        spec_varint(bytes) matches Some((_, n)) ==> 1 <= n <= bytes.len() && n <= MAX_VARINT_LEN,
{
    lemma_varint_len_bounds(bytes, MAX_VARINT_LEN as nat);
}

/// Reads one variable-length integer with `protobuf::CodedInputStream`.
///
/// The stream is opened on `bytes` with `from_bytes`; `read_raw_varint64`
/// gives the value and `pos` the number of bytes it took. The contract states
/// what that method does on a slice: it adds up the seven-bit groups until a
/// byte without continuation bit, accepts a tenth byte only if it is 0 or 1,
/// and fails where the slice ends first.
#[verifier::external_body]
fn read_raw_varint64(bytes: &[u8]) -> (r: Option<(u64, usize)>)
    ensures
        match r {
            Some((value, taken)) => spec_varint(bytes@) == Some((value, taken as nat)),
            None => spec_varint(bytes@) is None,
        },
{
    let mut stream = protobuf::CodedInputStream::from_bytes(bytes);
    match stream.read_raw_varint64() {
        Ok(value) => Some((value, stream.pos() as usize)),
        Err(_) => None,
    }
}

/// Reads the variable-length integer that starts at `pos`.
///
/// Returns its value and the position after it.
pub fn read_varint(bytes: &[u8], pos: usize) -> (r: Option<(u64, usize)>)
    ensures
        match r {
            Some((value, next)) => pos < next <= bytes.len() && spec_varint(
                bytes@.skip(pos as int),
            ) == Some((value, (next - pos) as nat)),
            None => pos > bytes.len() || spec_varint(bytes@.skip(pos as int)) is None,
        },
{
    if pos > bytes.len() {
        return None;
    }
    let rest = slice_subrange(bytes, pos, bytes.len());
    assert(rest@ =~= bytes@.skip(pos as int));
    proof {
        lemma_varint_bounds(rest@);
    }
    match read_raw_varint64(rest) {
        Some((value, taken)) => Some((value, pos + taken)),
        None => None,
    }
}

/// The signed number that a zigzag-coded value stands for: even values count
/// up from zero, odd values count down from minus one.
pub open spec fn spec_zigzag(v: u64) -> i64 {
    if v % 2 == 0 {
        (v / 2) as i64
    } else {
        (-(v / 2) - 1) as i64
    }
}

/// Decodes a zigzag-coded value.
pub fn zigzag(v: u64) -> (r: i64)
    ensures
        r == spec_zigzag(v),
{
    let half: u64 = v / 2;
    if v % 2 == 0 {
        half as i64
    } else {
        -(half as i64) - 1
    }
}

/// The value of a field of type `int64`: the 64 bits read as two's complement.
pub open spec fn spec_int64(v: u64) -> i64 {
    if v <= i64::MAX as u64 {
        v as i64
    } else {
        (v - 0x1_0000_0000_0000_0000) as i64
    }
}

/// Reads 64 bits as a two's complement number.
pub fn int64(v: u64) -> (r: i64)
    ensures
        r == spec_int64(v),
{
    if v <= i64::MAX as u64 {
        v as i64
    } else {
        let below: u64 = u64::MAX - v;
        -(below as i64) - 1
    }
}

/// What a field carries, by wire type.
pub enum FieldValue {
    /// Wire type 0: a variable-length integer.
    Varint(u64),
    /// Wire type 1: eight bytes, which no schema of this crate reads.
    Fixed64,
    /// Wire type 2: a length and that many bytes.
    Bytes(Seq<u8>),
    /// Wire type 5: four bytes, which no schema of this crate reads.
    Fixed32,
}

/// One field of a message: its number and what it carries.
pub struct Field {
    pub number: u32,
    pub value: FieldValue,
}

/// What a field carries, by wire type.
#[derive(Debug, Clone)]
pub enum WireValue {
    /// Wire type 0: a variable-length integer.
    Varint(u64),
    /// Wire type 1: eight bytes, skipped.
    Fixed64,
    /// Wire type 2: a length and that many bytes.
    LengthDelimited(Vec<u8>),
    /// Wire type 5: four bytes, skipped.
    Fixed32,
}

/// One field of a message as it was read.
#[derive(Debug, Clone)]
pub struct WireField {
    pub number: u32,
    pub value: WireValue,
}

impl View for WireValue {
    type V = FieldValue;

    open spec fn view(&self) -> FieldValue {
        match self {
            WireValue::Varint(v) => FieldValue::Varint(*v),
            WireValue::Fixed64 => FieldValue::Fixed64,
            WireValue::LengthDelimited(b) => FieldValue::Bytes(b@),
            WireValue::Fixed32 => FieldValue::Fixed32,
        }
    }
}

impl View for WireField {
    type V = Field;

    open spec fn view(&self) -> Field {
        Field { number: self.number, value: self.value@ }
    }
}

/// The fields of a vector, each by its view.
pub open spec fn field_views(fields: Seq<WireField>) -> Seq<Field> {
    Seq::new(fields.len(), |i: int| fields[i]@)
}

/// The field at the front of `bytes` and the number of bytes it takes.
///
/// A field is a tag, whose value is eight times the field number plus the
/// wire type, followed by what the wire type says.
pub open spec fn spec_field(bytes: Seq<u8>) -> Result<(Field, nat), PbfError> {
    match spec_varint(bytes) {
        None => Err(PbfError::MalformedVarint),
        Some((tag, n)) => {
            let rest = bytes.skip(n as int);
            if tag > u32::MAX || tag / 8 == 0 {
                Err(PbfError::MalformedTag)
            } else if tag % 8 == 0 {
                match spec_varint(rest) {
                    None => Err(PbfError::MalformedVarint),
                    Some((v, m)) => Ok(
                        (Field { number: (tag / 8) as u32, value: FieldValue::Varint(v) }, n + m),
                    ),
                }
            } else if tag % 8 == 1 {
                if rest.len() < 8 {
                    Err(PbfError::TruncatedMessage)
                } else {
                    Ok((Field { number: (tag / 8) as u32, value: FieldValue::Fixed64 }, n + 8))
                }
            } else if tag % 8 == 2 {
                match spec_varint(rest) {
                    None => Err(PbfError::MalformedVarint),
                    Some((len, m)) => if len > rest.len() - m {
                        Err(PbfError::TruncatedMessage)
                    } else {
                        Ok(
                            (
                                Field {
                                    number: (tag / 8) as u32,
                                    value: FieldValue::Bytes(
                                        rest.subrange(m as int, m + len as int),
                                    ),
                                },
                                n + m + len as nat,
                            ),
                        )
                    },
                }
            } else if tag % 8 == 5 {
                if rest.len() < 4 {
                    Err(PbfError::TruncatedMessage)
                } else {
                    Ok((Field { number: (tag / 8) as u32, value: FieldValue::Fixed32 }, n + 4))
                }
            } else {
                Err(PbfError::MalformedTag)
            }
        },
    }
}

/// The fields that `bytes` hold, in order, or the first error met.
pub open spec fn spec_fields(bytes: Seq<u8>) -> Result<Seq<Field>, PbfError>
    decreases bytes.len(),
{
    if bytes.len() == 0 {
        Ok(Seq::empty())
    } else {
        match spec_field(bytes) {
            Err(e) => Err(e),
            Ok((field, n)) => {
                if 1 <= n <= bytes.len() {
                    match spec_fields(bytes.skip(n as int)) {
                        Err(e) => Err(e),
                        Ok(rest) => Ok(seq![field] + rest),
                    }
                } else {
                    Err(PbfError::TruncatedMessage)
                }
            },
        }
    }
}

/// Reads the field that starts at `pos`: its value and the position after it.
pub fn read_field(bytes: &[u8], pos: usize) -> (r: Result<(WireField, usize), PbfError>)
    ensures
        match r {
            Ok((field, next)) => pos < next <= bytes.len() && spec_field(bytes@.skip(pos as int))
                == Ok::<(Field, nat), PbfError>((field@, (next - pos) as nat)),
            Err(e) => if pos > bytes.len() {
                e == PbfError::TruncatedMessage
            } else {
                spec_field(bytes@.skip(pos as int)) == Err::<(Field, nat), PbfError>(e)
            },
        },
{
    if pos > bytes.len() {
        return Err(PbfError::TruncatedMessage);
    }
    let ghost input = bytes@.skip(pos as int);
    let (tag, after_tag) = match read_varint(bytes, pos) {
        Some(t) => t,
        None => {
            return Err(PbfError::MalformedVarint);
        },
    };
    let ghost n = (after_tag - pos) as nat;
    let ghost rest = input.skip(n as int);
    assert(rest =~= bytes@.skip(after_tag as int));
    if tag > u32::MAX as u64 || tag / 8 == 0 {
        return Err(PbfError::MalformedTag);
    }
    let number: u32 = (tag / 8) as u32;
    let wire_type: u64 = tag % 8;
    if wire_type == 0 {
        match read_varint(bytes, after_tag) {
            None => Err(PbfError::MalformedVarint),
            Some((v, next)) => Ok((WireField { number, value: WireValue::Varint(v) }, next)),
        }
    } else if wire_type == 1 {
        if bytes.len() - after_tag < 8 {
            Err(PbfError::TruncatedMessage)
        } else {
            Ok((WireField { number, value: WireValue::Fixed64 }, after_tag + 8))
        }
    } else if wire_type == 2 {
        match read_varint(bytes, after_tag) {
            None => Err(PbfError::MalformedVarint),
            Some((len, start)) => {
                if len > (bytes.len() - start) as u64 {
                    Err(PbfError::TruncatedMessage)
                } else {
                    let end: usize = start + len as usize;
                    let payload = slice_to_vec(slice_subrange(bytes, start, end));
                    assert(payload@ =~= rest.subrange(
                        (start - after_tag) as int,
                        (start - after_tag) + len as int,
                    ));
                    Ok((WireField { number, value: WireValue::LengthDelimited(payload) }, end))
                }
            },
        }
    } else if wire_type == 5 {
        if bytes.len() - after_tag < 4 {
            Err(PbfError::TruncatedMessage)
        } else {
            Ok((WireField { number, value: WireValue::Fixed32 }, after_tag + 4))
        }
    } else {
        Err(PbfError::MalformedTag)
    }
}

/// Splits a message into its fields.
///
/// Fails with the first error met from the front; nothing is returned of a
/// message that does not parse to its end.
pub fn scan_fields(bytes: &[u8]) -> (r: Result<Vec<WireField>, PbfError>)
    ensures
        match r {
            Ok(fields) => spec_fields(bytes@) == Ok::<Seq<Field>, PbfError>(
                field_views(fields@),
            ),
            Err(e) => spec_fields(bytes@) == Err::<Seq<Field>, PbfError>(e),
        },
{
    let mut fields: Vec<WireField> = Vec::new();
    let mut pos: usize = 0;
    assert(bytes@.skip(0) =~= bytes@);
    assert(field_views(fields@) =~= Seq::<Field>::empty());
    while pos < bytes.len()
        invariant
            pos <= bytes.len(),
            match spec_fields(bytes@.skip(pos as int)) {
                Ok(rest) => spec_fields(bytes@) == Ok::<Seq<Field>, PbfError>(
                    field_views(fields@) + rest,
                ),
                Err(e) => spec_fields(bytes@) == Err::<Seq<Field>, PbfError>(e),
            },
        decreases bytes.len() - pos,
    {
        let ghost before = field_views(fields@);
        let ghost input = bytes@.skip(pos as int);
        match read_field(bytes, pos) {
            Err(e) => {
                return Err(e);
            },
            Ok((field, next)) => {
                proof {
                    assert(input.skip(next - pos) =~= bytes@.skip(next as int));
                    if let Ok(rest) = spec_fields(bytes@.skip(next as int)) {
                        assert(before + (seq![field@] + rest) =~= (before.push(field@)) + rest);
                    }
                }
                fields.push(field);
                assert(field_views(fields@) =~= before.push(field@));
                pos = next;
            },
        }
    }
    assert(field_views(fields@) + Seq::<Field>::empty() =~= field_views(fields@));
    Ok(fields)
}

} // verus!
