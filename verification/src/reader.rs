//! The streaming reader: a pull-based sequence of objects, decoded one block
//! at a time.
use vstd::prelude::*;
use crate::arc_types::{ArcOSMObj, obj_views};
use crate::block::{decode_block_with, RolePolicy, spec_decode_block};
use crate::error::PbfError;
use crate::fileformat::{Blob, BlobView};
use crate::message::{parse, spec_parse};
use crate::objects::{ObjView, OSMObj};
use crate::osmformat::PrimitiveBlock;
use crate::pbf::{
    blob_raw_data, FileReader, lemma_next_blob_advances, spec_blob_data, spec_next_blob,
};

verus! {

/// The objects that a blob of data holds: its data is decompressed, read as
/// a primitive block and decoded.
pub open spec fn spec_objs_of_blob(blob: BlobView, policy: RolePolicy) -> Result<
    Seq<ObjView>,
    PbfError,
> {
    match spec_blob_data(blob) {
        Err(e) => Err(e),
        Ok(data) => match spec_parse::<PrimitiveBlock>(data) {
            Err(e) => Err(e),
            Ok(block) => spec_decode_block(block, policy),
        },
    }
}

/// The objects of a vector in the order in which popping gives them.
pub open spec fn popping_order(buffer: Seq<ArcOSMObj>) -> Seq<ObjView> {
    Seq::new(buffer.len(), |i: int| buffer[buffer.len() - 1 - i]@)
}

/// What reading one block comes to: its objects, `None` at the end of the
/// stream, or a failure; and where in the stream the reader then stands.
pub struct BlockStep {
    pub outcome: Result<Option<Seq<ObjView>>, PbfError>,
    pub pos: int,
}

/// The objects of the next blob of data from position `pos` on. A failure
/// abandons the stream.
#[verifier::opaque]
pub open spec fn spec_next_block(stream: Seq<u8>, pos: int, policy: RolePolicy) -> BlockStep {
    let found = spec_next_blob(stream, pos);
    match found.0 {
        Err(e) => BlockStep { outcome: Err(e), pos: found.1 },
        Ok(None) => BlockStep { outcome: Ok(None), pos: found.1 },
        Ok(Some(blob)) => match spec_objs_of_blob(blob, policy) {
            Err(e) => BlockStep { outcome: Err(e), pos: stream.len() as int },
            Ok(objs) => BlockStep { outcome: Ok(Some(objs)), pos: found.1 },
        },
    }
}

/// One step of a reader: what it yields, what stays buffered, and where in
/// the stream it stands afterwards.
pub struct ReadStep {
    pub outcome: Result<Option<ObjView>, PbfError>,
    pub pending: Seq<ObjView>,
    pub pos: int,
}

/// What a reader yields next, with `pending` objects buffered and the stream
/// read up to `pos`.
///
/// A buffered object is yielded first. With none buffered the next blob of
/// data is decoded into the buffer; a block without objects is passed over.
/// The end of the stream ends the sequence; a failure ends it too and
/// abandons the stream.
#[verifier::opaque]
pub open spec fn spec_next_obj(
    pending: Seq<ObjView>,
    stream: Seq<u8>,
    pos: int,
    policy: RolePolicy,
) -> ReadStep
    decreases stream.len() - pos, pending.len(),
{
    if pending.len() > 0 {
        ReadStep { outcome: Ok(Some(pending[0])), pending: pending.skip(1), pos: pos }
    } else if pos < 0 || pos > stream.len() {
        ReadStep { outcome: Ok(None), pending: Seq::empty(), pos: stream.len() as int }
    } else {
        let step = spec_next_block(stream, pos, policy);
        match step.outcome {
            Err(e) => ReadStep { outcome: Err(e), pending: Seq::empty(), pos: step.pos },
            Ok(None) => ReadStep { outcome: Ok(None), pending: Seq::empty(), pos: step.pos },
            Ok(Some(objs)) => {
                if pos < step.pos <= stream.len() {
                    spec_next_obj(objs, stream, step.pos, policy)
                } else {
                    ReadStep { outcome: Ok(None), pending: Seq::empty(), pos: step.pos }
                }
            },
        }
    }
}

/// A block that is read lies after the position the reading started from,
/// and the position after any reading lies within the stream.
pub proof fn lemma_next_block_advances(stream: Seq<u8>, pos: int, policy: RolePolicy)
    requires
        0 <= pos <= stream.len(),
    ensures
        spec_next_block(stream, pos, policy).pos <= stream.len(),
        spec_next_block(stream, pos, policy).outcome matches Ok(Some(_)) ==> pos
            < spec_next_block(stream, pos, policy).pos,
        !(spec_next_block(stream, pos, policy).outcome matches Ok(Some(_))) ==> spec_next_block(
            stream,
            pos,
            policy,
        ).pos == stream.len(),
{
    reveal(spec_next_block);
    lemma_next_blob_advances(stream, pos);
}

/// With an object buffered, the reader yields it and reads nothing.
pub proof fn lemma_next_obj_buffered(
    pending: Seq<ObjView>,
    stream: Seq<u8>,
    pos: int,
    policy: RolePolicy,
)
    requires
        pending.len() > 0,
    ensures
        spec_next_obj(pending, stream, pos, policy) == (ReadStep {
            outcome: Ok(Some(pending[0])),
            pending: pending.skip(1),
            pos: pos,
        }),
{
    reveal(spec_next_obj);
}

/// With nothing buffered, the reader reads the next block: its end and its
/// failure are the reader's, and its objects are buffered and read from.
pub proof fn lemma_next_obj_reads(stream: Seq<u8>, pos: int, policy: RolePolicy)
    requires
        0 <= pos <= stream.len(),
    ensures
        spec_next_obj(Seq::empty(), stream, pos, policy) == (match spec_next_block(
            stream,
            pos,
            policy,
        ).outcome {
            Err(e) => ReadStep {
                outcome: Err(e),
                pending: Seq::empty(),
                pos: spec_next_block(stream, pos, policy).pos,
            },
            Ok(None) => ReadStep {
                outcome: Ok(None),
                pending: Seq::empty(),
                pos: spec_next_block(stream, pos, policy).pos,
            },
            Ok(Some(objs)) => spec_next_obj(
                objs,
                stream,
                spec_next_block(stream, pos, policy).pos,
                policy,
            ),
        }),
{
    reveal(spec_next_obj);
    lemma_next_block_advances(stream, pos, policy);
}

/// A reader that stands outside its stream with nothing buffered is at its end.
pub proof fn lemma_next_obj_outside(stream: Seq<u8>, pos: int, policy: RolePolicy)
    requires
        pos < 0 || pos > stream.len(),
    ensures
        spec_next_obj(Seq::empty(), stream, pos, policy) == (ReadStep {
            outcome: Ok(None),
            pending: Seq::empty(),
            pos: stream.len() as int,
        }),
{
    reveal(spec_next_obj);
}

/// Decompresses a blob of data, reads it as a primitive block and decodes
/// the block into its objects.
pub fn objs_of_blob(blob: Blob, policy: RolePolicy) -> (r: Result<Vec<ArcOSMObj>, PbfError>)
    ensures
        match r {
            Ok(objs) => spec_objs_of_blob(blob@, policy) == Ok::<Seq<ObjView>, PbfError>(
                obj_views(objs@),
            ),
            Err(e) => spec_objs_of_blob(blob@, policy) == Err::<Seq<ObjView>, PbfError>(e),
        },
{
    let mut blob = blob;
    let blob_data = blob_raw_data(&mut blob)?;
    let block = parse::<PrimitiveBlock>(blob_data.as_slice())?;
    // Turn a block into OSM objects
    decode_block_with(block, policy)
}

/// Turns a vector round, so that popping gives its objects first to last.
pub fn reversed(objs: Vec<ArcOSMObj>) -> (r: Vec<ArcOSMObj>)
    ensures
        r@.len() == objs@.len(),
        forall|i: int| 0 <= i < r@.len() ==> r@[i] == objs@[objs@.len() - 1 - i],
{
    let mut rest = objs;
    let mut out: Vec<ArcOSMObj> = Vec::new();
    while rest.len() > 0
        invariant
            rest@.len() + out@.len() == objs@.len(),
            forall|i: int| 0 <= i < rest@.len() ==> rest@[i] == objs@[i],
            forall|i: int| 0 <= i < out@.len() ==> out@[i] == objs@[objs@.len() - 1 - i],
        decreases rest@.len(),
    {
        match rest.pop() {
            Some(obj) => {
                out.push(obj);
            },
            None => {},
        }
    }
    out
}

/// The objects of two vectors laid end to end are popped from the second
/// first.
pub proof fn lemma_popping_order_of_both(front: Seq<ArcOSMObj>, back: Seq<ArcOSMObj>)
    ensures
        popping_order(front + back) == popping_order(back) + popping_order(front),
{
    assert(popping_order(front + back) =~= popping_order(back) + popping_order(front));
}

/// Puts objects into a buffer from which they are popped, behind those that
/// wait there.
pub fn enqueue(buffer: &mut Vec<ArcOSMObj>, objs: Vec<ArcOSMObj>)
    ensures
        popping_order(final(buffer)@) == popping_order(old(buffer)@) + obj_views(objs@),
{
    let ghost waiting = buffer@;
    let mut turned = reversed(objs);
    let ghost added = turned@;
    assert(popping_order(added) =~= obj_views(objs@));
    turned.append(buffer);
    proof {
        lemma_popping_order_of_both(added, waiting);
    }
    std::mem::swap(buffer, &mut turned);
}

/// Reads the objects of a PBF stream that is held in memory.
///
/// The reader decodes one blob at a time and hands its objects out one by
/// one, in the order of the stream: blob by blob, group by group, row by row.
#[derive(Debug, Clone)]
pub struct PBFReader {
    pub filereader: FileReader,
    /// The objects of the current block that are still to be handed out, last
    /// first.
    pub _buffer: Vec<ArcOSMObj>,
    pub _sorted_assumption: bool,
    /// What is done with relation members whose role is not UTF-8.
    pub role_policy: RolePolicy,
}

impl PBFReader {
    /// A reader at the start of the given bytes. Nothing is assumed of the
    /// order of the objects, and relation members whose role is not UTF-8 are
    /// left out.
    pub fn new(reader: Vec<u8>) -> (r: PBFReader)
        ensures
            r.filereader.reader == reader,
            r.filereader.pos == 0,
            r._buffer@.len() == 0,
            !r._sorted_assumption,
            r.role_policy == RolePolicy::DropMember,
    {
        PBFReader {
            filereader: FileReader::new(reader),
            _buffer: Vec::new(),
            _sorted_assumption: false,
            role_policy: RolePolicy::DropMember,
        }
    }

    /// The objects that are buffered, in the order in which they will be
    /// handed out.
    pub open spec fn pending(&self) -> Seq<ObjView> {
        popping_order(self._buffer@)
    }

    /// Notes whether the caller takes the objects to be sorted. The reader
    /// neither checks nor uses the note.
    pub fn set_sorted_assumption(&mut self, sorted_assumption: bool)
        ensures
            final(self)._sorted_assumption == sorted_assumption,
            final(self).filereader == old(self).filereader,
            final(self)._buffer == old(self)._buffer,
            final(self).role_policy == old(self).role_policy,
    {
        self._sorted_assumption = sorted_assumption;
    }

    /// Whether the caller takes the objects to be sorted.
    pub fn get_sorted_assumption(&self) -> (r: bool)
        ensures
            r == self._sorted_assumption,
    {
        self._sorted_assumption
    }

    /// Notes that the caller takes the objects to be sorted.
    pub fn assume_sorted(&mut self)
        ensures
            final(self)._sorted_assumption,
            final(self).filereader == old(self).filereader,
            final(self)._buffer == old(self)._buffer,
            final(self).role_policy == old(self).role_policy,
    {
        self.set_sorted_assumption(true);
    }

    /// Notes that the caller does not take the objects to be sorted.
    pub fn assume_unsorted(&mut self)
        ensures
            !final(self)._sorted_assumption,
            final(self).filereader == old(self).filereader,
            final(self)._buffer == old(self)._buffer,
            final(self).role_policy == old(self).role_policy,
    {
        self.set_sorted_assumption(false);
    }

    /// Chooses what is done with relation members whose role is not UTF-8.
    pub fn set_role_policy(&mut self, role_policy: RolePolicy)
        ensures
            final(self).role_policy == role_policy,
            final(self).filereader == old(self).filereader,
            final(self)._buffer == old(self)._buffer,
            final(self)._sorted_assumption == old(self)._sorted_assumption,
    {
        self.role_policy = role_policy;
    }

    /// The bytes that are read.
    pub fn inner(&self) -> (r: &Vec<u8>)
        ensures
            r == &self.filereader.reader,
    {
        self.filereader.inner()
    }

    /// Gives the bytes back.
    pub fn into_inner(self) -> (r: Vec<u8>)
        ensures
            r == self.filereader.reader,
    {
        self.filereader.into_inner()
    }

    /// Reads and decodes the next blob of data: its objects, or `None` at
    /// the end of the stream. After a failure the reader stands at the end
    /// of the stream.
    pub fn next_block(&mut self) -> (r: Result<Option<Vec<ArcOSMObj>>, PbfError>)
        ensures
            final(self).filereader.reader == old(self).filereader.reader,
            final(self)._sorted_assumption == old(self)._sorted_assumption,
            final(self).role_policy == old(self).role_policy,
            final(self)._buffer == old(self)._buffer,
            final(self).filereader.pos as int == spec_next_block(
                old(self).filereader.reader@,
                old(self).filereader.pos as int,
                old(self).role_policy,
            ).pos,
            match r {
                Ok(Some(objs)) => spec_next_block(
                    old(self).filereader.reader@,
                    old(self).filereader.pos as int,
                    old(self).role_policy,
                ).outcome == Ok::<Option<Seq<ObjView>>, PbfError>(Some(obj_views(objs@))),
                Ok(None) => spec_next_block(
                    old(self).filereader.reader@,
                    old(self).filereader.pos as int,
                    old(self).role_policy,
                ).outcome == Ok::<Option<Seq<ObjView>>, PbfError>(None),
                Err(e) => spec_next_block(
                    old(self).filereader.reader@,
                    old(self).filereader.pos as int,
                    old(self).role_policy,
                ).outcome == Err::<Option<Seq<ObjView>>, PbfError>(e),
            },
    {
        reveal(spec_next_block);
        // get the next block
        let blob = match self.filereader.next()? {
            Some(blob) => blob,
            None => {
                return Ok(None);
            },
        };
        match objs_of_blob(blob, self.role_policy) {
            Ok(objs) => Ok(Some(objs)),
            Err(e) => {
                self.filereader.pos = self.filereader.reader.len();
                Err(e)
            },
        }
    }

    /// The next object of the stream, `None` at its end, or the failure that
    /// ends the reading.
    pub fn next(&mut self) -> (r: Result<Option<ArcOSMObj>, PbfError>)
        ensures
            final(self).filereader.reader == old(self).filereader.reader,
            final(self)._sorted_assumption == old(self)._sorted_assumption,
            final(self).role_policy == old(self).role_policy,
            final(self).pending() == spec_next_obj(
                old(self).pending(),
                old(self).filereader.reader@,
                old(self).filereader.pos as int,
                old(self).role_policy,
            ).pending,
            final(self).filereader.pos as int == spec_next_obj(
                old(self).pending(),
                old(self).filereader.reader@,
                old(self).filereader.pos as int,
                old(self).role_policy,
            ).pos,
            match r {
                Ok(Some(obj)) => spec_next_obj(
                    old(self).pending(),
                    old(self).filereader.reader@,
                    old(self).filereader.pos as int,
                    old(self).role_policy,
                ).outcome == Ok::<Option<ObjView>, PbfError>(Some(obj@)),
                Ok(None) => spec_next_obj(
                    old(self).pending(),
                    old(self).filereader.reader@,
                    old(self).filereader.pos as int,
                    old(self).role_policy,
                ).outcome == Ok::<Option<ObjView>, PbfError>(None),
                Err(e) => spec_next_obj(
                    old(self).pending(),
                    old(self).filereader.reader@,
                    old(self).filereader.pos as int,
                    old(self).role_policy,
                ).outcome == Err::<Option<ObjView>, PbfError>(e),
            },
    {
        let ghost stream = self.filereader.reader@;
        let ghost policy = self.role_policy;
        let ghost wanted = spec_next_obj(
            self.pending(),
            stream,
            self.filereader.pos as int,
            policy,
        );
        while self._buffer.is_empty()
            invariant
                self.filereader.reader == old(self).filereader.reader,
                self._sorted_assumption == old(self)._sorted_assumption,
                self.role_policy == old(self).role_policy,
                policy == self.role_policy,
                stream == self.filereader.reader@,
                wanted == spec_next_obj(
                    old(self).pending(),
                    old(self).filereader.reader@,
                    old(self).filereader.pos as int,
                    old(self).role_policy,
                ),
                wanted == spec_next_obj(
                    self.pending(),
                    stream,
                    self.filereader.pos as int,
                    policy,
                ),
            decreases stream.len() - self.filereader.pos,
        {
            let ghost pos = self.filereader.pos as int;
            assert(self.pending() =~= Seq::<ObjView>::empty());
            if self.filereader.pos > self.filereader.reader.len() {
                proof {
                    lemma_next_obj_outside(stream, pos, policy);
                }
                self.filereader.pos = self.filereader.reader.len();
                return Ok(None);
            }
            proof {
                lemma_next_block_advances(stream, pos, policy);
                lemma_next_obj_reads(stream, pos, policy);
            }
            // get the next file block and fill up our buffer
            let objs = match self.next_block() {
                Ok(Some(objs)) => objs,
                Ok(None) => {
                    return Ok(None);
                },
                Err(e) => {
                    return Err(e);
                },
            };
            let ghost decoded = obj_views(objs@);
            // the vector is turned round so that popping gives the objects in order
            self._buffer = reversed(objs);
            assert(self.pending() =~= decoded);
        }
        let ghost before = self.pending();
        proof {
            lemma_next_obj_buffered(before, stream, self.filereader.pos as int, policy);
        }
        let obj = self._buffer.pop();
        assert(self.pending() =~= before.skip(1));
        Ok(obj)
    }

    /// All the objects that are left in the stream, in the order in which
    /// `next` would hand them out, and the failure that ended the reading,
    /// if one did.
    pub fn objects(&mut self) -> (r: (Vec<ArcOSMObj>, Option<PbfError>))
        ensures
            final(self).filereader.reader == old(self).filereader.reader,
            final(self)._sorted_assumption == old(self)._sorted_assumption,
            final(self).role_policy == old(self).role_policy,
            obj_views(r.0@) == spec_objects(
                old(self).pending(),
                old(self).filereader.reader@,
                old(self).filereader.pos as int,
                old(self).role_policy,
            ).objs,
            r.1 == spec_objects(
                old(self).pending(),
                old(self).filereader.reader@,
                old(self).filereader.pos as int,
                old(self).role_policy,
            ).failure,
    {
        let ghost stream = self.filereader.reader@;
        let ghost policy = self.role_policy;
        let ghost wanted = spec_objects(
            self.pending(),
            stream,
            self.filereader.pos as int,
            policy,
        );
        let mut out: Vec<ArcOSMObj> = Vec::new();
        assert(obj_views(out@) + wanted.objs =~= wanted.objs);
        loop
            invariant
                self.filereader.reader == old(self).filereader.reader,
                self._sorted_assumption == old(self)._sorted_assumption,
                self.role_policy == old(self).role_policy,
                policy == self.role_policy,
                stream == self.filereader.reader@,
                wanted == spec_objects(
                    old(self).pending(),
                    old(self).filereader.reader@,
                    old(self).filereader.pos as int,
                    old(self).role_policy,
                ),
                wanted.objs == obj_views(out@) + spec_objects(
                    self.pending(),
                    stream,
                    self.filereader.pos as int,
                    policy,
                ).objs,
                wanted.failure == spec_objects(
                    self.pending(),
                    stream,
                    self.filereader.pos as int,
                    policy,
                ).failure,
            decreases stream.len() - self.filereader.pos, self.pending().len(),
        {
            let ghost before = obj_views(out@);
            let ghost pending = self.pending();
            let ghost pos = self.filereader.pos as int;
            proof {
                lemma_objects_unfold(pending, stream, pos, policy);
                lemma_next_obj_progress(pending, stream, pos, policy);
            }
            match self.next() {
                Ok(Some(obj)) => {
                    out.push(obj);
                    proof {
                        let rest = spec_objects(
                            self.pending(),
                            stream,
                            self.filereader.pos as int,
                            policy,
                        );
                        assert(obj_views(out@) =~= before.push(obj@));
                        assert(before + (seq![obj@] + rest.objs) =~= before.push(obj@) + rest.objs);
                    }
                },
                Ok(None) => {
                    assert(before + Seq::<ObjView>::empty() =~= before);
                    return (out, None);
                },
                Err(e) => {
                    assert(before + Seq::<ObjView>::empty() =~= before);
                    return (out, Some(e));
                },
            }
        }
    }
}

/// What reading a stream to its end gives: the objects that were read, and
/// the failure that ended the reading, if one did.
pub struct Drained {
    pub objs: Seq<ObjView>,
    pub failure: Option<PbfError>,
}

/// Whether a step of a reader has come nearer to the end of the stream: it
/// has handed out a buffered object, or it has moved on in the stream.
pub open spec fn has_advanced(
    pending: Seq<ObjView>,
    stream: Seq<u8>,
    pos: int,
    step: ReadStep,
) -> bool {
    (step.pos == pos && step.pending.len() < pending.len()) || pos < step.pos <= stream.len()
}

/// The objects that a reader hands out until the stream ends or fails, one
/// call of `next` after the other.
#[verifier::opaque]
pub open spec fn spec_objects(
    pending: Seq<ObjView>,
    stream: Seq<u8>,
    pos: int,
    policy: RolePolicy,
) -> Drained
    decreases stream.len() - pos, pending.len(),
{
    let step = spec_next_obj(pending, stream, pos, policy);
    match step.outcome {
        Err(e) => Drained { objs: Seq::empty(), failure: Some(e) },
        Ok(None) => Drained { objs: Seq::empty(), failure: None },
        Ok(Some(obj)) => if has_advanced(pending, stream, pos, step) {
            let rest = spec_objects(step.pending, stream, step.pos, policy);
            Drained { objs: seq![obj] + rest.objs, failure: rest.failure }
        } else {
            Drained { objs: seq![obj], failure: None }
        },
    }
}

/// A step that hands out an object has come nearer to the end of the stream.
pub proof fn lemma_next_obj_progress(
    pending: Seq<ObjView>,
    stream: Seq<u8>,
    pos: int,
    policy: RolePolicy,
)
    ensures
        spec_next_obj(pending, stream, pos, policy).outcome matches Ok(Some(_)) ==> has_advanced(
            pending,
            stream,
            pos,
            spec_next_obj(pending, stream, pos, policy),
        ),
    decreases stream.len() - pos, pending.len(),
{
    if pending.len() > 0 {
        lemma_next_obj_buffered(pending, stream, pos, policy);
    } else if pos < 0 || pos > stream.len() {
        assert(pending =~= Seq::<ObjView>::empty());
        lemma_next_obj_outside(stream, pos, policy);
    } else {
        assert(pending =~= Seq::<ObjView>::empty());
        lemma_next_obj_reads(stream, pos, policy);
        lemma_next_block_advances(stream, pos, policy);
        let block = spec_next_block(stream, pos, policy);
        if let Ok(Some(objs)) = block.outcome {
            lemma_next_obj_progress(objs, stream, block.pos, policy);
            if objs.len() > 0 {
                lemma_next_obj_buffered(objs, stream, block.pos, policy);
            }
        }
    }
}

/// The objects of a reader are what its next step hands out, followed by the
/// objects of the reader after that step.
pub proof fn lemma_objects_unfold(
    pending: Seq<ObjView>,
    stream: Seq<u8>,
    pos: int,
    policy: RolePolicy,
)
    ensures
        spec_objects(pending, stream, pos, policy) == (match spec_next_obj(
            pending,
            stream,
            pos,
            policy,
        ).outcome {
            Err(e) => Drained { objs: Seq::empty(), failure: Some(e) },
            Ok(None) => Drained { objs: Seq::empty(), failure: None },
            Ok(Some(obj)) => Drained {
                objs: seq![obj] + spec_objects(
                    spec_next_obj(pending, stream, pos, policy).pending,
                    stream,
                    spec_next_obj(pending, stream, pos, policy).pos,
                    policy,
                ).objs,
                failure: spec_objects(
                    spec_next_obj(pending, stream, pos, policy).pending,
                    stream,
                    spec_next_obj(pending, stream, pos, policy).pos,
                    policy,
                ).failure,
            },
        }),
{
    reveal(spec_objects);
    lemma_next_obj_progress(pending, stream, pos, policy);
}

/// The objects of a stream from position `pos` on, block after block: those
/// of each blob of data in the order of the blobs, up to the end of the
/// stream or the first failure.
pub open spec fn spec_stream_objects(stream: Seq<u8>, pos: int, policy: RolePolicy) -> Drained
    decreases stream.len() - pos,
{
    if pos < 0 || pos > stream.len() {
        Drained { objs: Seq::empty(), failure: None }
    } else {
        let block = spec_next_block(stream, pos, policy);
        match block.outcome {
            Err(e) => Drained { objs: Seq::empty(), failure: Some(e) },
            Ok(None) => Drained { objs: Seq::empty(), failure: None },
            Ok(Some(objs)) => if pos < block.pos <= stream.len() {
                let rest = spec_stream_objects(stream, block.pos, policy);
                Drained { objs: objs + rest.objs, failure: rest.failure }
            } else {
                Drained { objs: objs, failure: None }
            },
        }
    }
}

/// A reader hands out its objects in the order of the stream: first what it
/// has buffered, then the objects of each blob of data, blob after blob, each
/// block in the order of its groups and rows.
pub proof fn lemma_objects_in_stream_order(
    pending: Seq<ObjView>,
    stream: Seq<u8>,
    pos: int,
    policy: RolePolicy,
)
    ensures
        spec_objects(pending, stream, pos, policy).objs == pending + spec_stream_objects(
            stream,
            pos,
            policy,
        ).objs,
        spec_objects(pending, stream, pos, policy).failure == spec_stream_objects(
            stream,
            pos,
            policy,
        ).failure,
    decreases stream.len() - pos, pending.len(),
{
    lemma_objects_unfold(pending, stream, pos, policy);
    let rest = spec_stream_objects(stream, pos, policy);
    if pending.len() > 0 {
        lemma_next_obj_buffered(pending, stream, pos, policy);
        lemma_objects_in_stream_order(pending.skip(1), stream, pos, policy);
        assert(seq![pending[0]] + (pending.skip(1) + rest.objs) =~= pending + rest.objs);
    } else if pos < 0 || pos > stream.len() {
        assert(pending =~= Seq::<ObjView>::empty());
        lemma_next_obj_outside(stream, pos, policy);
        assert(pending + rest.objs =~= Seq::<ObjView>::empty());
    } else {
        assert(pending =~= Seq::<ObjView>::empty());
        lemma_next_obj_reads(stream, pos, policy);
        lemma_next_block_advances(stream, pos, policy);
        let block = spec_next_block(stream, pos, policy);
        match block.outcome {
            Ok(Some(objs)) => {
                // the reader goes on with the block's objects buffered
                lemma_objects_unfold(objs, stream, block.pos, policy);
                lemma_objects_in_stream_order(objs, stream, block.pos, policy);
                assert(pending + rest.objs =~= rest.objs);
            },
            _ => {
                assert(pending + rest.objs =~= Seq::<ObjView>::empty());
            },
        }
    }
}

/// A generic reader that reads OSM objects from bytes held in memory.
pub trait OSMReader: Sized {
    /// The type of OSM object that this returns
    type Obj: OSMObj;

    /// Whether the caller takes the objects to be sorted. The note is the
    /// caller's: a reader neither checks nor enforces it.
    spec fn sorted_assumption(&self) -> bool;

    /// The bytes that the reader was made from.
    spec fn stream(&self) -> Seq<u8>;

    /// Create this reader from the bytes of a file. The reader holds these
    /// bytes, and nothing is assumed of the order of the objects.
    fn new(reader: Vec<u8>) -> (r: Self)
        ensures
            r.stream() == reader@,
            !r.sorted_assumption(),
    ;

    /// Notes whether the caller takes the objects to be sorted.
    fn set_sorted_assumption(&mut self, sorted_assumption: bool)
        ensures
            final(self).sorted_assumption() == sorted_assumption,
    ;

    /// Whether the caller takes the objects to be sorted.
    fn get_sorted_assumption(&self) -> (r: bool)
        ensures
            r == self.sorted_assumption(),
    ;

    /// Notes that the caller takes the objects to be sorted.
    fn assume_sorted(&mut self)
        ensures
            final(self).sorted_assumption(),
    {
        self.set_sorted_assumption(true);
    }

    /// Notes that the caller does not take the objects to be sorted.
    fn assume_unsorted(&mut self)
        ensures
            !final(self).sorted_assumption(),
    {
        self.set_sorted_assumption(false);
    }

    /// Convert to the underlying bytes
    fn into_inner(self) -> (r: Vec<u8>)
        ensures
            r@ == self.stream(),
    ;

    /// Reference to the inner
    fn inner(&self) -> (r: &Vec<u8>)
        ensures
            r@ == self.stream(),
    ;

    /// Returns the next OSM object of this reader, `None` at the end of the
    /// stream, or the failure that ends the reading.
    fn next(&mut self) -> Result<Option<Self::Obj>, PbfError>;
}

impl OSMReader for PBFReader {
    type Obj = ArcOSMObj;

    open spec fn sorted_assumption(&self) -> bool {
        self._sorted_assumption
    }

    open spec fn stream(&self) -> Seq<u8> {
        self.filereader.reader@
    }

    /// A reader at the start of the given bytes, with nothing buffered.
    /// Relation members whose role is not UTF-8 are left out.
    fn new(reader: Vec<u8>) -> (r: PBFReader)
        ensures
            r.filereader.reader == reader,
            r.filereader.pos == 0,
            r._buffer@.len() == 0,
            r.role_policy == RolePolicy::DropMember,
    {
        PBFReader::new(reader)
    }

    fn set_sorted_assumption(&mut self, sorted_assumption: bool) {
        PBFReader::set_sorted_assumption(self, sorted_assumption);
    }

    fn get_sorted_assumption(&self) -> (r: bool) {
        PBFReader::get_sorted_assumption(self)
    }

    fn into_inner(self) -> (r: Vec<u8>)
        ensures
            r == self.filereader.reader,
    {
        PBFReader::into_inner(self)
    }

    fn inner(&self) -> (r: &Vec<u8>)
        ensures
            r == &self.filereader.reader,
    {
        PBFReader::inner(self)
    }

    fn next(&mut self) -> (r: Result<Option<ArcOSMObj>, PbfError>)
        ensures
            final(self).filereader.reader == old(self).filereader.reader,
            final(self).sorted_assumption() == old(self).sorted_assumption(),
            final(self).role_policy == old(self).role_policy,
            final(self).pending() == spec_next_obj(
                old(self).pending(),
                old(self).filereader.reader@,
                old(self).filereader.pos as int,
                old(self).role_policy,
            ).pending,
            final(self).filereader.pos as int == spec_next_obj(
                old(self).pending(),
                old(self).filereader.reader@,
                old(self).filereader.pos as int,
                old(self).role_policy,
            ).pos,
            match r {
                Ok(Some(obj)) => spec_next_obj(
                    old(self).pending(),
                    old(self).filereader.reader@,
                    old(self).filereader.pos as int,
                    old(self).role_policy,
                ).outcome == Ok::<Option<ObjView>, PbfError>(Some(obj@)),
                Ok(None) => spec_next_obj(
                    old(self).pending(),
                    old(self).filereader.reader@,
                    old(self).filereader.pos as int,
                    old(self).role_policy,
                ).outcome == Ok::<Option<ObjView>, PbfError>(None),
                Err(e) => spec_next_obj(
                    old(self).pending(),
                    old(self).filereader.reader@,
                    old(self).filereader.pos as int,
                    old(self).role_policy,
                ).outcome == Err::<Option<ObjView>, PbfError>(e),
            },
    {
        PBFReader::next(self)
    }
}

} // verus!
