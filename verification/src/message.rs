//! Messages: values that are read from the fields of a length-delimited record.
use vstd::prelude::*;
use crate::error::PbfError;
use crate::fields::{all_bytes, buffer_views, last_bytes, spec_all_bytes, spec_last_bytes};
use crate::wire::{Field, field_views, scan_fields, spec_fields, WireField};

verus! {

/// A type whose values are read from the fields of a message.
pub trait Message: Sized + View {
    /// The value that the fields stand for, or why they stand for none.
    spec fn spec_from_fields(fields: Seq<Field>) -> Result<Self::V, PbfError>;

    /// Builds the value from the fields of its message.
    fn from_fields(fields: &Vec<WireField>) -> (r: Result<Self, PbfError>)
        ensures
            match r {
                Ok(m) => Self::spec_from_fields(field_views(fields@)) == Ok::<Self::V, PbfError>(
                    m@,
                ),
                Err(e) => Self::spec_from_fields(field_views(fields@)) == Err::<
                    Self::V,
                    PbfError,
                >(e),
            },
    ;
}

/// The value that the bytes of a message stand for.
pub open spec fn spec_parse<M: Message>(bytes: Seq<u8>) -> Result<M::V, PbfError> {
    match spec_fields(bytes) {
        Err(e) => Err(e),
        Ok(fields) => M::spec_from_fields(fields),
    }
}

/// Reads a message from its bytes.
pub fn parse<M: Message>(bytes: &[u8]) -> (r: Result<M, PbfError>)
    ensures
        match r {
            Ok(m) => spec_parse::<M>(bytes@) == Ok::<M::V, PbfError>(m@),
            Err(e) => spec_parse::<M>(bytes@) == Err::<M::V, PbfError>(e),
        },
{
    let fields = scan_fields(bytes)?;
    M::from_fields(&fields)
}

/// The views of a list of values.
pub open spec fn views<M: View>(items: Seq<M>) -> Seq<M::V> {
    Seq::new(items.len(), |i: int| items[i]@)
}

/// The values of a list of messages, or the error of the first that fails.
pub open spec fn spec_parse_each<M: Message>(raws: Seq<Seq<u8>>) -> Result<Seq<M::V>, PbfError>
    decreases raws.len(),
{
    if raws.len() == 0 {
        Ok(Seq::empty())
    } else {
        match spec_parse_each::<M>(raws.drop_last()) {
            Err(e) => Err(e),
            Ok(earlier) => match spec_parse::<M>(raws.last()) {
                Err(e) => Err(e),
                Ok(m) => Ok(earlier.push(m)),
            },
        }
    }
}

proof fn lemma_parse_each_error<M: Message>(raws: Seq<Seq<u8>>, n: int)
    requires
        0 <= n <= raws.len(),
        spec_parse_each::<M>(raws.take(n)) is Err,
    ensures
        spec_parse_each::<M>(raws) == spec_parse_each::<M>(raws.take(n)),
    decreases raws.len() - n,
{
    if n < raws.len() {
        assert(raws.take(n + 1).drop_last() =~= raws.take(n));
        lemma_parse_each_error::<M>(raws, n + 1);
    } else {
        assert(raws.take(n) =~= raws);
    }
}

/// Reads each of a list of messages.
pub fn parse_each<M: Message>(raws: &Vec<&Vec<u8>>) -> (r: Result<Vec<M>, PbfError>)
    ensures
        match r {
            Ok(items) => spec_parse_each::<M>(buffer_views(raws@)) == Ok::<Seq<M::V>, PbfError>(
                views(items@),
            ),
            Err(e) => spec_parse_each::<M>(buffer_views(raws@)) == Err::<Seq<M::V>, PbfError>(e),
        },
{
    let ghost all = buffer_views(raws@);
    let mut items: Vec<M> = Vec::new();
    let mut i: usize = 0;
    assert(views(items@) =~= Seq::<M::V>::empty());
    while i < raws.len()
        invariant
            i <= raws.len(),
            all == buffer_views(raws@),
            spec_parse_each::<M>(all.take(i as int)) == Ok::<Seq<M::V>, PbfError>(views(items@)),
        decreases raws.len() - i,
    {
        assert(all.take(i + 1).drop_last() =~= all.take(i as int));
        assert(all.take(i + 1).last() == raws[i as int]@);
        match parse::<M>(raws[i].as_slice()) {
            Ok(m) => {
                let ghost before = views(items@);
                items.push(m);
                assert(views(items@) =~= before.push(m@));
            },
            Err(e) => {
                proof {
                    lemma_parse_each_error::<M>(all, i + 1);
                }
                return Err(e);
            },
        }
        i += 1;
    }
    assert(all.take(i as int) =~= all);
    Ok(items)
}

/// The messages of the repeated field `number`.
pub open spec fn spec_repeated_messages<M: Message>(fields: Seq<Field>, number: u32) -> Result<
    Seq<M::V>,
    PbfError,
> {
    match spec_all_bytes(fields, number) {
        Err(e) => Err(e),
        Ok(raws) => spec_parse_each::<M>(raws),
    }
}

/// Reads the messages of the repeated field `number`.
pub fn repeated_messages<M: Message>(fields: &Vec<WireField>, number: u32) -> (r: Result<
    Vec<M>,
    PbfError,
>)
    ensures
        match r {
            Ok(items) => spec_repeated_messages::<M>(field_views(fields@), number) == Ok::<
                Seq<M::V>,
                PbfError,
            >(views(items@)),
            Err(e) => spec_repeated_messages::<M>(field_views(fields@), number) == Err::<
                Seq<M::V>,
                PbfError,
            >(e),
        },
{
    let raws = all_bytes(fields, number)?;
    parse_each::<M>(&raws)
}

/// The message of the optional field `number`.
pub open spec fn spec_optional_message<M: Message>(fields: Seq<Field>, number: u32) -> Result<
    Option<M::V>,
    PbfError,
> {
    match spec_last_bytes(fields, number) {
        Err(e) => Err(e),
        Ok(None) => Ok(None),
        Ok(Some(raw)) => match spec_parse::<M>(raw) {
            Err(e) => Err(e),
            Ok(m) => Ok(Some(m)),
        },
    }
}

/// The view of an optional value.
pub open spec fn optional_view<M: View>(item: Option<M>) -> Option<M::V> {
    match item {
        Some(m) => Some(m@),
        None => None,
    }
}

/// Reads the message of the optional field `number`; of several occurrences
/// the last counts.
pub fn optional_message<M: Message>(fields: &Vec<WireField>, number: u32) -> (r: Result<
    Option<M>,
    PbfError,
>)
    ensures
        match r {
            Ok(item) => spec_optional_message::<M>(field_views(fields@), number) == Ok::<
                Option<M::V>,
                PbfError,
            >(optional_view(item)),
            Err(e) => spec_optional_message::<M>(field_views(fields@), number) == Err::<
                Option<M::V>,
                PbfError,
            >(e),
        },
{
    match last_bytes(fields, number)? {
        None => Ok(None),
        Some(raw) => Ok(Some(parse::<M>(raw.as_slice())?)),
    }
}

} // verus!
