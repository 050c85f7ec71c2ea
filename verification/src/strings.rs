//! The string table of one block, decoded: indices resolve to text.
use vstd::prelude::*;
use vstd::utf8::{decode_utf8, valid_utf8};
use crate::error::PbfError;

verus! {

/// The byte strings of a list of buffers.
pub open spec fn byte_strings(buffers: Seq<Vec<u8>>) -> Seq<Seq<u8>> {
    Seq::new(buffers.len(), |i: int| buffers[i]@)
}

/// The text of a table entry: its bytes read as UTF-8, or `None` where they
/// are not UTF-8.
pub open spec fn entry_text(bytes: Seq<u8>) -> Option<Seq<char>> {
    if valid_utf8(bytes) {
        Some(decode_utf8(bytes))
    } else {
        None
    }
}

/// The texts of the entries of a raw table.
pub open spec fn table_texts(raw: Seq<Seq<u8>>) -> Seq<Option<Seq<char>>> {
    Seq::new(raw.len(), |i: int| entry_text(raw[i]))
}

/// What an index into a table of texts resolves to.
///
/// An index outside the table and an entry that is no text are different
/// failures: only the second can be tolerated by a caller.
pub open spec fn spec_lookup(table: Seq<Option<Seq<char>>>, index: int) -> Result<
    Seq<char>,
    PbfError,
> {
    if index < 0 || index >= table.len() {
        Err(PbfError::StringIndexOutOfRange)
    } else {
        match table[index] {
            Some(text) => Ok(text),
            None => Err(PbfError::MalformedString),
        }
    }
}

/// Checks bytes for UTF-8 with `std::str::from_utf8`.
///
/// The standard library documents that it returns the bytes as a string
/// slice exactly when they are valid UTF-8.
#[verifier::external_body]
pub(crate) fn str_from_utf8(bytes: &[u8]) -> (r: Option<&str>)
    ensures
        match r {
            Some(text) => valid_utf8(bytes@) && text@ == decode_utf8(bytes@),
            None => !valid_utf8(bytes@),
        },
{
    match std::str::from_utf8(bytes) {
        Ok(text) => Some(text),
        Err(_) => None,
    }
}

/// The strings of one block. An entry that is not UTF-8 is kept as `None`,
/// so that a damaged string does not spoil the records that do not use it.
#[derive(Debug, Clone)]
pub struct BlockStrings {
    pub entries: Vec<Option<String>>,
}

impl View for BlockStrings {
    type V = Seq<Option<Seq<char>>>;

    open spec fn view(&self) -> Seq<Option<Seq<char>>> {
        Seq::new(
            self.entries@.len(),
            |i: int|
                match self.entries@[i] {
                    Some(s) => Some(s@),
                    None => None,
                },
        )
    }
}

impl BlockStrings {
    /// Decodes the raw byte strings of a block.
    pub fn new(raw: &Vec<Vec<u8>>) -> (r: Self)
        ensures
            r@ == table_texts(byte_strings(raw@)),
    {
        let mut entries: Vec<Option<String>> = Vec::new();
        let mut i: usize = 0;
        while i < raw.len()
            invariant
                i <= raw.len(),
                entries.len() == i,
                forall|k: int|
                    0 <= k < i ==> (match #[trigger] entries[k] {
                        Some(s) => Some(s@),
                        None => None,
                    }) == entry_text(raw[k]@),
            decreases raw.len() - i,
        {
            let entry: Option<String> = match str_from_utf8(raw[i].as_slice()) {
                Some(text) => Some(text.to_owned()),
                None => None,
            };
            entries.push(entry);
            i += 1;
        }
        let r = BlockStrings { entries };
        assert(r@ =~= table_texts(byte_strings(raw@)));
        r
    }

    /// The number of entries.
    pub fn len(&self) -> (r: usize)
        ensures
            r == self@.len(),
    {
        self.entries.len()
    }

    /// The text of entry `index`, or `None` where the index lies outside the
    /// table or the entry is not UTF-8.
    pub fn resolve(&self, index: usize) -> (r: Option<&str>)
        ensures
            match r {
                Some(text) => index < self@.len() && self@[index as int] == Some(text@),
                None => index >= self@.len() || self@[index as int] is None,
            },
    {
        if index < self.entries.len() {
            match &self.entries[index] {
                Some(s) => Some(s.as_str()),
                None => None,
            }
        } else {
            None
        }
    }

    /// The text of entry `index` as an owned string, or the reason why there
    /// is none.
    pub fn lookup(&self, index: i64) -> (r: Result<String, PbfError>)
        ensures
            match r {
                Ok(s) => spec_lookup(self@, index as int) == Ok::<Seq<char>, PbfError>(s@),
                Err(e) => spec_lookup(self@, index as int) == Err::<Seq<char>, PbfError>(e),
            },
    {
        if index < 0 || index as u64 >= self.entries.len() as u64 {
            return Err(PbfError::StringIndexOutOfRange);
        }
        match &self.entries[index as usize] {
            Some(s) => Ok(s.clone()),
            None => Err(PbfError::MalformedString),
        }
    }
}

} // verus!
