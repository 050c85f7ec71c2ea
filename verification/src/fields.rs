//! Picking the fields of a schema out of a scanned message, and giving the
//! integers they carry their declared types.
use vstd::prelude::*;
use crate::error::PbfError;
use crate::strings::{byte_strings, entry_text, str_from_utf8};
use crate::wire::{
    Field, field_views, FieldValue, int64, read_varint, spec_int64, spec_varint, spec_zigzag,
    WireField, WireValue, zigzag,
};

verus! {

/// The integers of a packed column: variable-length integers laid end to end.
pub open spec fn spec_packed(bytes: Seq<u8>) -> Result<Seq<u64>, PbfError>
    decreases bytes.len(),
{
    if bytes.len() == 0 {
        Ok(Seq::empty())
    } else {
        match spec_varint(bytes) {
            None => Err(PbfError::MalformedVarint),
            Some((v, n)) => {
                if 1 <= n <= bytes.len() {
                    match spec_packed(bytes.skip(n as int)) {
                        Err(e) => Err(e),
                        Ok(rest) => Ok(seq![v] + rest),
                    }
                } else {
                    Err(PbfError::MalformedVarint)
                }
            },
        }
    }
}

/// Reads a packed column to its end.
pub fn unpack_varints(bytes: &[u8]) -> (r: Result<Vec<u64>, PbfError>)
    ensures
        match r {
            Ok(values) => spec_packed(bytes@) == Ok::<Seq<u64>, PbfError>(values@),
            Err(e) => spec_packed(bytes@) == Err::<Seq<u64>, PbfError>(e),
        },
{
    let mut values: Vec<u64> = Vec::new();
    let mut pos: usize = 0;
    assert(bytes@.skip(0) =~= bytes@);
    assert(values@ + Seq::<u64>::empty() =~= values@);
    while pos < bytes.len()
        invariant
            pos <= bytes.len(),
            match spec_packed(bytes@.skip(pos as int)) {
                Ok(rest) => spec_packed(bytes@) == Ok::<Seq<u64>, PbfError>(values@ + rest),
                Err(e) => spec_packed(bytes@) == Err::<Seq<u64>, PbfError>(e),
            },
        decreases bytes.len() - pos,
    {
        let ghost before = values@;
        let ghost input = bytes@.skip(pos as int);
        match read_varint(bytes, pos) {
            None => {
                return Err(PbfError::MalformedVarint);
            },
            Some((v, next)) => {
                proof {
                    assert(input.skip(next - pos) =~= bytes@.skip(next as int));
                    if let Ok(rest) = spec_packed(bytes@.skip(next as int)) {
                        assert(before + (seq![v] + rest) =~= before.push(v) + rest);
                    }
                }
                values.push(v);
                pos = next;
            },
        }
    }
    assert(values@ + Seq::<u64>::empty() =~= values@);
    Ok(values)
}

/// The value of the last field `number`, which must be a variable-length
/// integer wherever it occurs.
pub open spec fn spec_last_varint(fields: Seq<Field>, number: u32) -> Result<Option<u64>, PbfError>
    decreases fields.len(),
{
    if fields.len() == 0 {
        Ok(None)
    } else {
        match spec_last_varint(fields.drop_last(), number) {
            Err(e) => Err(e),
            Ok(earlier) => if fields.last().number != number {
                Ok(earlier)
            } else {
                match fields.last().value {
                    FieldValue::Varint(v) => Ok(Some(v)),
                    _ => Err(PbfError::UnexpectedWireType),
                }
            },
        }
    }
}

/// The bytes of the last field `number`, which must be length-delimited
/// wherever it occurs.
pub open spec fn spec_last_bytes(fields: Seq<Field>, number: u32) -> Result<
    Option<Seq<u8>>,
    PbfError,
>
    decreases fields.len(),
{
    if fields.len() == 0 {
        Ok(None)
    } else {
        match spec_last_bytes(fields.drop_last(), number) {
            Err(e) => Err(e),
            Ok(earlier) => if fields.last().number != number {
                Ok(earlier)
            } else {
                match fields.last().value {
                    FieldValue::Bytes(b) => Ok(Some(b)),
                    _ => Err(PbfError::UnexpectedWireType),
                }
            },
        }
    }
}

/// The bytes of every field `number`, in order; each must be length-delimited.
pub open spec fn spec_all_bytes(fields: Seq<Field>, number: u32) -> Result<Seq<Seq<u8>>, PbfError>
    decreases fields.len(),
{
    if fields.len() == 0 {
        Ok(Seq::empty())
    } else {
        match spec_all_bytes(fields.drop_last(), number) {
            Err(e) => Err(e),
            Ok(earlier) => if fields.last().number != number {
                Ok(earlier)
            } else {
                match fields.last().value {
                    FieldValue::Bytes(b) => Ok(earlier.push(b)),
                    _ => Err(PbfError::UnexpectedWireType),
                }
            },
        }
    }
}

/// The integers of the repeated field `number`, in order. An occurrence is
/// either one integer or a packed run of them.
pub open spec fn spec_repeated_varints(fields: Seq<Field>, number: u32) -> Result<
    Seq<u64>,
    PbfError,
>
    decreases fields.len(),
{
    if fields.len() == 0 {
        Ok(Seq::empty())
    } else {
        match spec_repeated_varints(fields.drop_last(), number) {
            Err(e) => Err(e),
            Ok(earlier) => if fields.last().number != number {
                Ok(earlier)
            } else {
                match fields.last().value {
                    FieldValue::Varint(v) => Ok(earlier.push(v)),
                    FieldValue::Bytes(b) => match spec_packed(b) {
                        Err(e) => Err(e),
                        Ok(run) => Ok(earlier + run),
                    },
                    _ => Err(PbfError::UnexpectedWireType),
                }
            },
        }
    }
}

/// The value of the optional integer field `number`; of several occurrences
/// the last counts.
pub fn last_varint(fields: &Vec<WireField>, number: u32) -> (r: Result<Option<u64>, PbfError>)
    ensures
        r == spec_last_varint(field_views(fields@), number),
{
    let ghost all = field_views(fields@);
    let mut found: Option<u64> = None;
    let mut i: usize = 0;
    while i < fields.len()
        invariant
            i <= fields.len(),
            all == field_views(fields@),
            spec_last_varint(all.take(i as int), number) == Ok::<Option<u64>, PbfError>(found),
        decreases fields.len() - i,
    {
        assert(all.take(i + 1).drop_last() =~= all.take(i as int));
        assert(all.take(i + 1).last() == fields[i as int]@);
        if fields[i].number == number {
            match fields[i].value {
                WireValue::Varint(v) => {
                    found = Some(v);
                },
                _ => {
                    proof {
                        lemma_last_varint_error(all, i + 1, number);
                    }
                    return Err(PbfError::UnexpectedWireType);
                },
            }
        }
        i += 1;
    }
    assert(all.take(i as int) =~= all);
    Ok(found)
}

proof fn lemma_last_varint_error(fields: Seq<Field>, n: int, number: u32)
    requires
        0 <= n <= fields.len(),
        spec_last_varint(fields.take(n), number) is Err,
    ensures
        spec_last_varint(fields, number) == spec_last_varint(fields.take(n), number),
    decreases fields.len() - n,
{
    if n < fields.len() {
        assert(fields.take(n + 1).drop_last() =~= fields.take(n));
        lemma_last_varint_error(fields, n + 1, number);
    } else {
        assert(fields.take(n) =~= fields);
    }
}

/// The bytes of the optional length-delimited field `number`; of several
/// occurrences the last counts.
pub fn last_bytes<'a>(fields: &'a Vec<WireField>, number: u32) -> (r: Result<
    Option<&'a Vec<u8>>,
    PbfError,
>)
    ensures
        match r {
            Ok(Some(b)) => spec_last_bytes(field_views(fields@), number) == Ok::<
                Option<Seq<u8>>,
                PbfError,
            >(Some(b@)),
            Ok(None) => spec_last_bytes(field_views(fields@), number) == Ok::<
                Option<Seq<u8>>,
                PbfError,
            >(None),
            Err(e) => spec_last_bytes(field_views(fields@), number) == Err::<
                Option<Seq<u8>>,
                PbfError,
            >(e),
        },
{
    let ghost all = field_views(fields@);
    let mut found: Option<&'a Vec<u8>> = None;
    let mut i: usize = 0;
    while i < fields.len()
        invariant
            i <= fields.len(),
            all == field_views(fields@),
            match found {
                Some(b) => spec_last_bytes(all.take(i as int), number) == Ok::<
                    Option<Seq<u8>>,
                    PbfError,
                >(Some(b@)),
                None => spec_last_bytes(all.take(i as int), number) == Ok::<
                    Option<Seq<u8>>,
                    PbfError,
                >(None),
            },
        decreases fields.len() - i,
    {
        assert(all.take(i + 1).drop_last() =~= all.take(i as int));
        assert(all.take(i + 1).last() == fields[i as int]@);
        if fields[i].number == number {
            match &fields[i].value {
                WireValue::LengthDelimited(b) => {
                    found = Some(b);
                },
                _ => {
                    proof {
                        lemma_last_bytes_error(all, i + 1, number);
                    }
                    return Err(PbfError::UnexpectedWireType);
                },
            }
        }
        i += 1;
    }
    assert(all.take(i as int) =~= all);
    Ok(found)
}

proof fn lemma_last_bytes_error(fields: Seq<Field>, n: int, number: u32)
    requires
        0 <= n <= fields.len(),
        spec_last_bytes(fields.take(n), number) is Err,
    ensures
        spec_last_bytes(fields, number) == spec_last_bytes(fields.take(n), number),
    decreases fields.len() - n,
{
    if n < fields.len() {
        assert(fields.take(n + 1).drop_last() =~= fields.take(n));
        lemma_last_bytes_error(fields, n + 1, number);
    } else {
        assert(fields.take(n) =~= fields);
    }
}

/// The byte strings of a vector of borrowed buffers.
pub open spec fn buffer_views(buffers: Seq<&Vec<u8>>) -> Seq<Seq<u8>> {
    Seq::new(buffers.len(), |i: int| buffers[i]@)
}

/// The bytes of every occurrence of the repeated length-delimited field
/// `number`, in order.
pub fn all_bytes<'a>(fields: &'a Vec<WireField>, number: u32) -> (r: Result<
    Vec<&'a Vec<u8>>,
    PbfError,
>)
    ensures
        match r {
            Ok(found) => spec_all_bytes(field_views(fields@), number) == Ok::<
                Seq<Seq<u8>>,
                PbfError,
            >(buffer_views(found@)),
            Err(e) => spec_all_bytes(field_views(fields@), number) == Err::<
                Seq<Seq<u8>>,
                PbfError,
            >(e),
        },
{
    let ghost all = field_views(fields@);
    let mut found: Vec<&'a Vec<u8>> = Vec::new();
    let mut i: usize = 0;
    assert(buffer_views(found@) =~= Seq::<Seq<u8>>::empty());
    while i < fields.len()
        invariant
            i <= fields.len(),
            all == field_views(fields@),
            spec_all_bytes(all.take(i as int), number) == Ok::<Seq<Seq<u8>>, PbfError>(
                buffer_views(found@),
            ),
        decreases fields.len() - i,
    {
        assert(all.take(i + 1).drop_last() =~= all.take(i as int));
        assert(all.take(i + 1).last() == fields[i as int]@);
        if fields[i].number == number {
            match &fields[i].value {
                WireValue::LengthDelimited(b) => {
                    let ghost before = buffer_views(found@);
                    found.push(b);
                    assert(buffer_views(found@) =~= before.push(b@));
                },
                _ => {
                    proof {
                        lemma_all_bytes_error(all, i + 1, number);
                    }
                    return Err(PbfError::UnexpectedWireType);
                },
            }
        }
        i += 1;
    }
    assert(all.take(i as int) =~= all);
    Ok(found)
}

proof fn lemma_all_bytes_error(fields: Seq<Field>, n: int, number: u32)
    requires
        0 <= n <= fields.len(),
        spec_all_bytes(fields.take(n), number) is Err,
    ensures
        spec_all_bytes(fields, number) == spec_all_bytes(fields.take(n), number),
    decreases fields.len() - n,
{
    if n < fields.len() {
        assert(fields.take(n + 1).drop_last() =~= fields.take(n));
        lemma_all_bytes_error(fields, n + 1, number);
    } else {
        assert(fields.take(n) =~= fields);
    }
}

/// The integers of the repeated field `number`, packed or one by one, in order.
pub fn repeated_varints(fields: &Vec<WireField>, number: u32) -> (r: Result<Vec<u64>, PbfError>)
    ensures
        match r {
            Ok(values) => spec_repeated_varints(field_views(fields@), number) == Ok::<
                Seq<u64>,
                PbfError,
            >(values@),
            Err(e) => spec_repeated_varints(field_views(fields@), number) == Err::<
                Seq<u64>,
                PbfError,
            >(e),
        },
{
    let ghost all = field_views(fields@);
    let mut values: Vec<u64> = Vec::new();
    let mut i: usize = 0;
    while i < fields.len()
        invariant
            i <= fields.len(),
            all == field_views(fields@),
            spec_repeated_varints(all.take(i as int), number) == Ok::<Seq<u64>, PbfError>(
                values@,
            ),
        decreases fields.len() - i,
    {
        assert(all.take(i + 1).drop_last() =~= all.take(i as int));
        assert(all.take(i + 1).last() == fields[i as int]@);
        if fields[i].number == number {
            match &fields[i].value {
                WireValue::Varint(v) => {
                    values.push(*v);
                },
                WireValue::LengthDelimited(b) => {
                    match unpack_varints(b.as_slice()) {
                        Ok(mut run) => {
                            values.append(&mut run);
                        },
                        Err(e) => {
                            proof {
                                lemma_repeated_varints_error(all, i + 1, number);
                            }
                            return Err(e);
                        },
                    }
                },
                _ => {
                    proof {
                        lemma_repeated_varints_error(all, i + 1, number);
                    }
                    return Err(PbfError::UnexpectedWireType);
                },
            }
        }
        i += 1;
    }
    assert(all.take(i as int) =~= all);
    Ok(values)
}

proof fn lemma_repeated_varints_error(fields: Seq<Field>, n: int, number: u32)
    requires
        0 <= n <= fields.len(),
        spec_repeated_varints(fields.take(n), number) is Err,
    ensures
        spec_repeated_varints(fields, number) == spec_repeated_varints(fields.take(n), number),
    decreases fields.len() - n,
{
    if n < fields.len() {
        assert(fields.take(n + 1).drop_last() =~= fields.take(n));
        lemma_repeated_varints_error(fields, n + 1, number);
    } else {
        assert(fields.take(n) =~= fields);
    }
}

/// The value of a field of type `int32`: the integer as `int64`, which must
/// lie within 32 bits.
pub open spec fn spec_int32(v: u64) -> Result<i32, PbfError> {
    if i32::MIN <= spec_int64(v) <= i32::MAX {
        Ok(spec_int64(v) as i32)
    } else {
        Err(PbfError::ValueOutOfRange)
    }
}

/// The value of a field of type `sint32`: the zigzag-decoded integer, which
/// must lie within 32 bits.
pub open spec fn spec_sint32(v: u64) -> Result<i32, PbfError> {
    if i32::MIN <= spec_zigzag(v) <= i32::MAX {
        Ok(spec_zigzag(v) as i32)
    } else {
        Err(PbfError::ValueOutOfRange)
    }
}

/// The value of a field of type `uint32`, which must lie within 32 bits.
pub open spec fn spec_uint32(v: u64) -> Result<u32, PbfError> {
    if v <= u32::MAX {
        Ok(v as u32)
    } else {
        Err(PbfError::ValueOutOfRange)
    }
}

/// Gives an integer the type `int32`.
pub fn int32(v: u64) -> (r: Result<i32, PbfError>)
    ensures
        r == spec_int32(v),
{
    let wide: i64 = int64(v);
    if wide < i32::MIN as i64 || wide > i32::MAX as i64 {
        Err(PbfError::ValueOutOfRange)
    } else {
        Ok(wide as i32)
    }
}

/// Gives an integer the type `sint32`.
pub fn sint32(v: u64) -> (r: Result<i32, PbfError>)
    ensures
        r == spec_sint32(v),
{
    let wide: i64 = zigzag(v);
    if wide < i32::MIN as i64 || wide > i32::MAX as i64 {
        Err(PbfError::ValueOutOfRange)
    } else {
        Ok(wide as i32)
    }
}

/// Gives an integer the type `uint32`.
pub fn uint32(v: u64) -> (r: Result<u32, PbfError>)
    ensures
        r == spec_uint32(v),
{
    if v > u32::MAX as u64 {
        Err(PbfError::ValueOutOfRange)
    } else {
        Ok(v as u32)
    }
}

/// A column of type `sint64`.
pub open spec fn spec_sint64s(values: Seq<u64>) -> Seq<i64> {
    Seq::new(values.len(), |i: int| spec_zigzag(values[i]))
}

/// A column of type `bool`: every integer but zero is true.
pub open spec fn spec_bools(values: Seq<u64>) -> Seq<bool> {
    Seq::new(values.len(), |i: int| values[i] != 0)
}

/// A column of type `int32`, or an error where one entry does not fit.
pub open spec fn spec_int32s(values: Seq<u64>) -> Result<Seq<i32>, PbfError> {
    if forall|i: int| 0 <= i < values.len() ==> (#[trigger] spec_int32(values[i])) is Ok {
        Ok(Seq::new(values.len(), |i: int| spec_int32(values[i])->Ok_0))
    } else {
        Err(PbfError::ValueOutOfRange)
    }
}

/// A column of type `sint32`, or an error where one entry does not fit.
pub open spec fn spec_sint32s(values: Seq<u64>) -> Result<Seq<i32>, PbfError> {
    if forall|i: int| 0 <= i < values.len() ==> (#[trigger] spec_sint32(values[i])) is Ok {
        Ok(Seq::new(values.len(), |i: int| spec_sint32(values[i])->Ok_0))
    } else {
        Err(PbfError::ValueOutOfRange)
    }
}

/// A column of type `uint32`, or an error where one entry does not fit.
pub open spec fn spec_uint32s(values: Seq<u64>) -> Result<Seq<u32>, PbfError> {
    if forall|i: int| 0 <= i < values.len() ==> (#[trigger] spec_uint32(values[i])) is Ok {
        Ok(Seq::new(values.len(), |i: int| spec_uint32(values[i])->Ok_0))
    } else {
        Err(PbfError::ValueOutOfRange)
    }
}

/// Gives a column the type `sint64`.
pub fn sint64s(values: &Vec<u64>) -> (r: Vec<i64>)
    ensures
        r@ == spec_sint64s(values@),
{
    let mut out: Vec<i64> = Vec::new();
    let mut i: usize = 0;
    while i < values.len()
        invariant
            i <= values.len(),
            out.len() == i,
            forall|k: int| 0 <= k < i ==> out[k] == spec_zigzag(values[k]),
        decreases values.len() - i,
    {
        out.push(zigzag(values[i]));
        i += 1;
    }
    assert(out@ =~= spec_sint64s(values@));
    out
}

/// Gives a column the type `bool`.
pub fn bools(values: &Vec<u64>) -> (r: Vec<bool>)
    ensures
        r@ == spec_bools(values@),
{
    let mut out: Vec<bool> = Vec::new();
    let mut i: usize = 0;
    while i < values.len()
        invariant
            i <= values.len(),
            out.len() == i,
            forall|k: int| 0 <= k < i ==> out[k] == (values[k] != 0),
        decreases values.len() - i,
    {
        out.push(values[i] != 0);
        i += 1;
    }
    assert(out@ =~= spec_bools(values@));
    out
}

/// Gives a column the type `int32`.
pub fn int32s(values: &Vec<u64>) -> (r: Result<Vec<i32>, PbfError>)
    ensures
        match r {
            Ok(out) => spec_int32s(values@) == Ok::<Seq<i32>, PbfError>(out@),
            Err(e) => spec_int32s(values@) == Err::<Seq<i32>, PbfError>(e),
        },
{
    let mut out: Vec<i32> = Vec::new();
    let mut i: usize = 0;
    while i < values.len()
        invariant
            i <= values.len(),
            out.len() == i,
            forall|k: int| 0 <= k < i ==> (#[trigger] spec_int32(values[k])) == Ok::<i32, PbfError>(out[k]),
        decreases values.len() - i,
    {
        match int32(values[i]) {
            Ok(x) => {
                out.push(x);
            },
            Err(e) => {
                assert(!(spec_int32(values[i as int]) is Ok));
                return Err(e);
            },
        }
        i += 1;
    }
    assert(out@ =~= Seq::new(values@.len(), |i: int| spec_int32(values@[i])->Ok_0));
    Ok(out)
}

/// Gives a column the type `sint32`.
pub fn sint32s(values: &Vec<u64>) -> (r: Result<Vec<i32>, PbfError>)
    ensures
        match r {
            Ok(out) => spec_sint32s(values@) == Ok::<Seq<i32>, PbfError>(out@),
            Err(e) => spec_sint32s(values@) == Err::<Seq<i32>, PbfError>(e),
        },
{
    let mut out: Vec<i32> = Vec::new();
    let mut i: usize = 0;
    while i < values.len()
        invariant
            i <= values.len(),
            out.len() == i,
            forall|k: int| 0 <= k < i ==> (#[trigger] spec_sint32(values[k])) == Ok::<i32, PbfError>(out[k]),
        decreases values.len() - i,
    {
        match sint32(values[i]) {
            Ok(x) => {
                out.push(x);
            },
            Err(e) => {
                assert(!(spec_sint32(values[i as int]) is Ok));
                return Err(e);
            },
        }
        i += 1;
    }
    assert(out@ =~= Seq::new(values@.len(), |i: int| spec_sint32(values@[i])->Ok_0));
    Ok(out)
}

/// Gives a column the type `uint32`.
pub fn uint32s(values: &Vec<u64>) -> (r: Result<Vec<u32>, PbfError>)
    ensures
        match r {
            Ok(out) => spec_uint32s(values@) == Ok::<Seq<u32>, PbfError>(out@),
            Err(e) => spec_uint32s(values@) == Err::<Seq<u32>, PbfError>(e),
        },
{
    let mut out: Vec<u32> = Vec::new();
    let mut i: usize = 0;
    while i < values.len()
        invariant
            i <= values.len(),
            out.len() == i,
            forall|k: int| 0 <= k < i ==> (#[trigger] spec_uint32(values[k])) == Ok::<u32, PbfError>(out[k]),
        decreases values.len() - i,
    {
        match uint32(values[i]) {
            Ok(x) => {
                out.push(x);
            },
            Err(e) => {
                assert(!(spec_uint32(values[i as int]) is Ok));
                return Err(e);
            },
        }
        i += 1;
    }
    assert(out@ =~= Seq::new(values@.len(), |i: int| spec_uint32(values@[i])->Ok_0));
    Ok(out)
}

/// The optional field `number` of type `int32`.
pub open spec fn spec_optional_int32(fields: Seq<Field>, number: u32) -> Result<
    Option<i32>,
    PbfError,
> {
    match spec_last_varint(fields, number) {
        Err(e) => Err(e),
        Ok(None) => Ok(None),
        Ok(Some(v)) => match spec_int32(v) {
            Err(e) => Err(e),
            Ok(x) => Ok(Some(x)),
        },
    }
}

/// The optional field `number` of type `uint32`.
pub open spec fn spec_optional_uint32(fields: Seq<Field>, number: u32) -> Result<
    Option<u32>,
    PbfError,
> {
    match spec_last_varint(fields, number) {
        Err(e) => Err(e),
        Ok(None) => Ok(None),
        Ok(Some(v)) => match spec_uint32(v) {
            Err(e) => Err(e),
            Ok(x) => Ok(Some(x)),
        },
    }
}

/// The optional field `number` of type `int64`.
pub open spec fn spec_optional_int64(fields: Seq<Field>, number: u32) -> Result<
    Option<i64>,
    PbfError,
> {
    match spec_last_varint(fields, number) {
        Err(e) => Err(e),
        Ok(None) => Ok(None),
        Ok(Some(v)) => Ok(Some(spec_int64(v))),
    }
}

/// The optional field `number` of type `bool`.
pub open spec fn spec_optional_bool(fields: Seq<Field>, number: u32) -> Result<
    Option<bool>,
    PbfError,
> {
    match spec_last_varint(fields, number) {
        Err(e) => Err(e),
        Ok(None) => Ok(None),
        Ok(Some(v)) => Ok(Some(v != 0)),
    }
}

/// The repeated field `number` of type `sint64`.
pub open spec fn spec_column_sint64(fields: Seq<Field>, number: u32) -> Result<
    Seq<i64>,
    PbfError,
> {
    match spec_repeated_varints(fields, number) {
        Err(e) => Err(e),
        Ok(values) => Ok(spec_sint64s(values)),
    }
}

/// The repeated field `number` of type `bool`.
pub open spec fn spec_column_bool(fields: Seq<Field>, number: u32) -> Result<
    Seq<bool>,
    PbfError,
> {
    match spec_repeated_varints(fields, number) {
        Err(e) => Err(e),
        Ok(values) => Ok(spec_bools(values)),
    }
}

/// The repeated field `number` of type `int32`.
pub open spec fn spec_column_int32(fields: Seq<Field>, number: u32) -> Result<
    Seq<i32>,
    PbfError,
> {
    match spec_repeated_varints(fields, number) {
        Err(e) => Err(e),
        Ok(values) => spec_int32s(values),
    }
}

/// The repeated field `number` of type `sint32`.
pub open spec fn spec_column_sint32(fields: Seq<Field>, number: u32) -> Result<
    Seq<i32>,
    PbfError,
> {
    match spec_repeated_varints(fields, number) {
        Err(e) => Err(e),
        Ok(values) => spec_sint32s(values),
    }
}

/// The repeated field `number` of type `uint32`.
pub open spec fn spec_column_uint32(fields: Seq<Field>, number: u32) -> Result<
    Seq<u32>,
    PbfError,
> {
    match spec_repeated_varints(fields, number) {
        Err(e) => Err(e),
        Ok(values) => spec_uint32s(values),
    }
}

/// Reads the optional field `number` of type `int32`.
pub fn optional_int32(fields: &Vec<WireField>, number: u32) -> (r: Result<Option<i32>, PbfError>)
    ensures
        r == spec_optional_int32(field_views(fields@), number),
{
    match last_varint(fields, number)? {
        None => Ok(None),
        Some(v) => Ok(Some(int32(v)?)),
    }
}

/// Reads the optional field `number` of type `uint32`.
pub fn optional_uint32(fields: &Vec<WireField>, number: u32) -> (r: Result<Option<u32>, PbfError>)
    ensures
        r == spec_optional_uint32(field_views(fields@), number),
{
    match last_varint(fields, number)? {
        None => Ok(None),
        Some(v) => Ok(Some(uint32(v)?)),
    }
}

/// Reads the optional field `number` of type `int64`.
pub fn optional_int64(fields: &Vec<WireField>, number: u32) -> (r: Result<Option<i64>, PbfError>)
    ensures
        r == spec_optional_int64(field_views(fields@), number),
{
    match last_varint(fields, number)? {
        None => Ok(None),
        Some(v) => Ok(Some(int64(v))),
    }
}

/// Reads the optional field `number` of type `bool`.
pub fn optional_bool(fields: &Vec<WireField>, number: u32) -> (r: Result<Option<bool>, PbfError>)
    ensures
        r == spec_optional_bool(field_views(fields@), number),
{
    match last_varint(fields, number)? {
        None => Ok(None),
        Some(v) => Ok(Some(v != 0)),
    }
}

/// Reads the repeated field `number` of type `sint64`.
pub fn column_sint64(fields: &Vec<WireField>, number: u32) -> (r: Result<Vec<i64>, PbfError>)
    ensures
        match r {
            Ok(out) => spec_column_sint64(field_views(fields@), number) == Ok::<
                Seq<i64>,
                PbfError,
            >(out@),
            Err(e) => spec_column_sint64(field_views(fields@), number) == Err::<
                Seq<i64>,
                PbfError,
            >(e),
        },
{
    let values = repeated_varints(fields, number)?;
    Ok(sint64s(&values))
}

/// Reads the repeated field `number` of type `bool`.
pub fn column_bool(fields: &Vec<WireField>, number: u32) -> (r: Result<Vec<bool>, PbfError>)
    ensures
        match r {
            Ok(out) => spec_column_bool(field_views(fields@), number) == Ok::<
                Seq<bool>,
                PbfError,
            >(out@),
            Err(e) => spec_column_bool(field_views(fields@), number) == Err::<
                Seq<bool>,
                PbfError,
            >(e),
        },
{
    let values = repeated_varints(fields, number)?;
    Ok(bools(&values))
}

/// Reads the repeated field `number` of type `int32`.
pub fn column_int32(fields: &Vec<WireField>, number: u32) -> (r: Result<Vec<i32>, PbfError>)
    ensures
        match r {
            Ok(out) => spec_column_int32(field_views(fields@), number) == Ok::<
                Seq<i32>,
                PbfError,
            >(out@),
            Err(e) => spec_column_int32(field_views(fields@), number) == Err::<
                Seq<i32>,
                PbfError,
            >(e),
        },
{
    let values = repeated_varints(fields, number)?;
    int32s(&values)
}

/// Reads the repeated field `number` of type `sint32`.
pub fn column_sint32(fields: &Vec<WireField>, number: u32) -> (r: Result<Vec<i32>, PbfError>)
    ensures
        match r {
            Ok(out) => spec_column_sint32(field_views(fields@), number) == Ok::<
                Seq<i32>,
                PbfError,
            >(out@),
            Err(e) => spec_column_sint32(field_views(fields@), number) == Err::<
                Seq<i32>,
                PbfError,
            >(e),
        },
{
    let values = repeated_varints(fields, number)?;
    sint32s(&values)
}

/// Reads the repeated field `number` of type `uint32`.
pub fn column_uint32(fields: &Vec<WireField>, number: u32) -> (r: Result<Vec<u32>, PbfError>)
    ensures
        match r {
            Ok(out) => spec_column_uint32(field_views(fields@), number) == Ok::<
                Seq<u32>,
                PbfError,
            >(out@),
            Err(e) => spec_column_uint32(field_views(fields@), number) == Err::<
                Seq<u32>,
                PbfError,
            >(e),
        },
{
    let values = repeated_varints(fields, number)?;
    uint32s(&values)
}

/// The optional field `number` of type `string`, which must hold UTF-8.
pub open spec fn spec_optional_string(fields: Seq<Field>, number: u32) -> Result<
    Option<Seq<char>>,
    PbfError,
> {
    match spec_last_bytes(fields, number) {
        Err(e) => Err(e),
        Ok(None) => Ok(None),
        Ok(Some(bytes)) => match entry_text(bytes) {
            Some(text) => Ok(Some(text)),
            None => Err(PbfError::InvalidUtf8),
        },
    }
}

/// Reads the optional field `number` of type `string`.
pub fn optional_string(fields: &Vec<WireField>, number: u32) -> (r: Result<
    Option<String>,
    PbfError,
>)
    ensures
        match r {
            Ok(Some(s)) => spec_optional_string(field_views(fields@), number) == Ok::<
                Option<Seq<char>>,
                PbfError,
            >(Some(s@)),
            Ok(None) => spec_optional_string(field_views(fields@), number) == Ok::<
                Option<Seq<char>>,
                PbfError,
            >(None),
            Err(e) => spec_optional_string(field_views(fields@), number) == Err::<
                Option<Seq<char>>,
                PbfError,
            >(e),
        },
{
    match last_bytes(fields, number)? {
        None => Ok(None),
        Some(bytes) => match str_from_utf8(bytes.as_slice()) {
            Some(text) => Ok(Some(text.to_owned())),
            None => Err(PbfError::InvalidUtf8),
        },
    }
}

/// Reads the optional field `number` of type `bytes` into a buffer of its own.
pub fn optional_bytes(fields: &Vec<WireField>, number: u32) -> (r: Result<
    Option<Vec<u8>>,
    PbfError,
>)
    ensures
        match r {
            Ok(Some(b)) => spec_last_bytes(field_views(fields@), number) == Ok::<
                Option<Seq<u8>>,
                PbfError,
            >(Some(b@)),
            Ok(None) => spec_last_bytes(field_views(fields@), number) == Ok::<
                Option<Seq<u8>>,
                PbfError,
            >(None),
            Err(e) => spec_last_bytes(field_views(fields@), number) == Err::<
                Option<Seq<u8>>,
                PbfError,
            >(e),
        },
{
    match last_bytes(fields, number)? {
        None => Ok(None),
        Some(bytes) => Ok(Some(bytes.clone())),
    }
}

/// Reads every occurrence of the repeated field `number` of type `bytes`
/// into a buffer of its own.
pub fn repeated_bytes(fields: &Vec<WireField>, number: u32) -> (r: Result<Vec<Vec<u8>>, PbfError>)
    ensures
        match r {
            Ok(out) => spec_all_bytes(field_views(fields@), number) == Ok::<
                Seq<Seq<u8>>,
                PbfError,
            >(byte_strings(out@)),
            Err(e) => spec_all_bytes(field_views(fields@), number) == Err::<
                Seq<Seq<u8>>,
                PbfError,
            >(e),
        },
{
    let found = all_bytes(fields, number)?;
    let mut out: Vec<Vec<u8>> = Vec::new();
    let mut i: usize = 0;
    while i < found.len()
        invariant
            i <= found.len(),
            out.len() == i,
            forall|k: int| 0 <= k < i ==> out[k]@ == found[k]@,
        decreases found.len() - i,
    {
        let entry: Vec<u8> = found[i].clone();
        out.push(entry);
        i += 1;
    }
    assert(byte_strings(out@) =~= buffer_views(found@));
    Ok(out)
}

} // verus!
