//! The framing of the blob container as a state machine, for readers that
//! fetch the bytes of a stream piece by piece.
//!
//! The caller reads as many bytes as the state wants, hands them to `step`
//! and acts on what comes back; the machine decides what the bytes mean.
use vstd::prelude::*;
use crate::arc_types::ArcOSMObj;
use crate::block::RolePolicy;
use crate::error::PbfError;
use crate::fileformat::{Blob, BlobHeader, BlobView, text_or_empty};
use crate::message::{parse, spec_parse};
use crate::objects::ObjView;
use crate::pbf::{
    announced, is_osm_data, lemma_be_round_trip, osm_data, read_length, spec_be_bytes, spec_be_u32,
    spec_next_blob,
};
use crate::reader::{
    enqueue, lemma_next_obj_buffered, lemma_next_obj_reads, objs_of_blob, popping_order,
    spec_next_block, spec_next_obj, spec_objs_of_blob,
};

verus! {

/// Where in a frame the reader stands.
#[derive(Debug, Clone, Copy, PartialEq, Eq, Structural)]
pub enum FramerState {
    /// Before a frame: the four bytes of the header's length come next.
    AwaitingHeaderLength,
    /// The header of the given length comes next.
    AwaitingHeader { len: usize },
    /// The payload of the given length comes next; `data` tells whether the
    /// frame is of the kind that carries data.
    AwaitingPayload { data: bool, len: usize },
    /// The stream has ended or failed: nothing more is read.
    Finished,
}

/// What a step of the machine hands to the caller.
#[derive(Debug, Clone)]
pub enum FramerOutput {
    /// Nothing yet: read what the new state wants and step again.
    Continue,
    /// A blob of data.
    Blob(Blob),
    /// The stream has ended between two frames.
    End,
    /// The stream is broken.
    Failed(PbfError),
}

/// What a `FramerOutput` holds.
pub enum FramerOutputView {
    Continue,
    Blob(BlobView),
    End,
    Failed(PbfError),
}

impl View for FramerOutput {
    type V = FramerOutputView;

    open spec fn view(&self) -> FramerOutputView {
        match self {
            FramerOutput::Continue => FramerOutputView::Continue,
            FramerOutput::Blob(blob) => FramerOutputView::Blob(blob@),
            FramerOutput::End => FramerOutputView::End,
            FramerOutput::Failed(e) => FramerOutputView::Failed(*e),
        }
    }
}

/// The number of bytes that a state wants to be read next.
pub open spec fn spec_wanted(state: FramerState) -> usize {
    match state {
        FramerState::AwaitingHeaderLength => 4,
        FramerState::AwaitingHeader { len } => len,
        FramerState::AwaitingPayload { data, len } => len,
        FramerState::Finished => 0,
    }
}

/// One step of the machine. `input` holds the bytes that were read, or
/// `None` where the stream ended before all the wanted bytes were there;
/// bytes of another number than wanted count as such an end.
///
/// The end of the stream before a frame ends the reading; inside a frame it
/// is a failure. A frame of another kind than `OSMData` is read and dropped.
pub open spec fn spec_step(state: FramerState, input: Option<Seq<u8>>) -> (
    FramerState,
    FramerOutputView,
) {
    let complete = input matches Some(bytes) && bytes.len() == spec_wanted(state);
    match state {
        FramerState::Finished => (FramerState::Finished, FramerOutputView::End),
        FramerState::AwaitingHeaderLength => if !complete {
            (FramerState::Finished, FramerOutputView::End)
        } else if spec_be_u32(input->Some_0) > usize::MAX {
            (FramerState::Finished, FramerOutputView::Failed(PbfError::InvalidLength))
        } else {
            (
                FramerState::AwaitingHeader { len: spec_be_u32(input->Some_0) as usize },
                FramerOutputView::Continue,
            )
        },
        FramerState::AwaitingHeader { len } => if !complete {
            (FramerState::Finished, FramerOutputView::Failed(PbfError::TruncatedStream))
        } else {
            match spec_parse::<BlobHeader>(input->Some_0) {
                Err(e) => (FramerState::Finished, FramerOutputView::Failed(e)),
                Ok(header) => if announced(header.datasize) < 0 || announced(header.datasize)
                    > usize::MAX {
                    (FramerState::Finished, FramerOutputView::Failed(PbfError::InvalidLength))
                } else {
                    (
                        FramerState::AwaitingPayload {
                            data: text_or_empty(header.field_type) == osm_data(),
                            len: announced(header.datasize) as usize,
                        },
                        FramerOutputView::Continue,
                    )
                },
            }
        },
        FramerState::AwaitingPayload { data, len } => if !complete {
            (FramerState::Finished, FramerOutputView::Failed(PbfError::TruncatedStream))
        } else if !data {
            (FramerState::AwaitingHeaderLength, FramerOutputView::Continue)
        } else {
            match spec_parse::<Blob>(input->Some_0) {
                Err(e) => (FramerState::Finished, FramerOutputView::Failed(e)),
                Ok(blob) => (FramerState::AwaitingHeaderLength, FramerOutputView::Blob(blob)),
            }
        },
    }
}

impl FramerState {
    /// The state before the first frame.
    pub fn new() -> (r: FramerState)
        ensures
            r == FramerState::AwaitingHeaderLength,
    {
        FramerState::AwaitingHeaderLength
    }

    /// The number of bytes to read before the next step.
    pub fn wanted(&self) -> (r: usize)
        ensures
            r == spec_wanted(*self),
    {
        match self {
            FramerState::AwaitingHeaderLength => 4,
            FramerState::AwaitingHeader { len } => *len,
            FramerState::AwaitingPayload { data: _, len } => *len,
            FramerState::Finished => 0,
        }
    }

    /// Takes the bytes that were read, or `None` for a stream that ended
    /// before they were all there, and gives the next state and what the
    /// caller is to do.
    pub fn step(self, input: Option<&[u8]>) -> (r: (FramerState, FramerOutput))
        ensures
            r.0 == spec_step(
                self,
                match input {
                    Some(bytes) => Some(bytes@),
                    None => None,
                },
            ).0,
            r.1@ == spec_step(
                self,
                match input {
                    Some(bytes) => Some(bytes@),
                    None => None,
                },
            ).1,
    {
        let wanted: usize = self.wanted();
        let bytes: Option<&[u8]> = match input {
            Some(bytes) => if bytes.len() == wanted {
                Some(bytes)
            } else {
                None
            },
            None => None,
        };
        match self {
            FramerState::Finished => (FramerState::Finished, FramerOutput::End),
            FramerState::AwaitingHeaderLength => match bytes {
                None => (FramerState::Finished, FramerOutput::End),
                Some(bytes) => match read_length(bytes) {
                    None => (FramerState::Finished, FramerOutput::End),
                    Some(size) => {
                        if size as u64 > usize::MAX as u64 {
                            (FramerState::Finished, FramerOutput::Failed(PbfError::InvalidLength))
                        } else {
                            (
                                FramerState::AwaitingHeader { len: size as usize },
                                FramerOutput::Continue,
                            )
                        }
                    },
                },
            },
            FramerState::AwaitingHeader { len: _ } => match bytes {
                None => (FramerState::Finished, FramerOutput::Failed(PbfError::TruncatedStream)),
                Some(bytes) => match parse::<BlobHeader>(bytes) {
                    Err(e) => (FramerState::Finished, FramerOutput::Failed(e)),
                    Ok(header) => {
                        let datasize: i32 = header.get_datasize();
                        if datasize < 0 || datasize as u64 > usize::MAX as u64 {
                            (FramerState::Finished, FramerOutput::Failed(PbfError::InvalidLength))
                        } else {
                            (
                                FramerState::AwaitingPayload {
                                    data: is_osm_data(header.get_field_type()),
                                    len: datasize as usize,
                                },
                                FramerOutput::Continue,
                            )
                        }
                    },
                },
            },
            FramerState::AwaitingPayload { data, len: _ } => match bytes {
                None => (FramerState::Finished, FramerOutput::Failed(PbfError::TruncatedStream)),
                Some(bytes) => {
                    if !data {
                        (FramerState::AwaitingHeaderLength, FramerOutput::Continue)
                    } else {
                        match parse::<Blob>(bytes) {
                            Err(e) => (FramerState::Finished, FramerOutput::Failed(e)),
                            Ok(blob) => (FramerState::AwaitingHeaderLength, FramerOutput::Blob(blob)),
                        }
                    }
                },
            },
        }
    }
}

/// The machine reads a frame of data in three steps: given the length, the
/// header and the payload of a frame whose header announces the kind
/// `OSMData` and the payload's length, it hands out the blob of the payload
/// and stands before the next frame.
pub proof fn lemma_framer_reads_frame(header: Seq<u8>, payload: Seq<u8>, blob: BlobView)
    requires
        header.len() <= u32::MAX,
        header.len() <= usize::MAX,
        payload.len() <= i32::MAX,
        payload.len() <= usize::MAX,
        spec_parse::<BlobHeader>(header) matches Ok(h) && h.field_type == Some(osm_data())
            && h.datasize == Some(payload.len() as i32),
        spec_parse::<Blob>(payload) == Ok::<BlobView, PbfError>(blob),
    ensures
        ({
            let first = spec_step(
                FramerState::AwaitingHeaderLength,
                Some(spec_be_bytes(header.len() as u32)),
            );
            let second = spec_step(first.0, Some(header));
            let third = spec_step(second.0, Some(payload));
            &&& first == (
                FramerState::AwaitingHeader { len: header.len() as usize },
                FramerOutputView::Continue,
            )
            &&& second == (
                FramerState::AwaitingPayload { data: true, len: payload.len() as usize },
                FramerOutputView::Continue,
            )
            &&& third == (FramerState::AwaitingHeaderLength, FramerOutputView::Blob(blob))
        }),
{
    lemma_be_round_trip(header.len() as u32);
}

/// What a stream reader asks of its caller.
#[derive(Debug, Clone)]
pub enum Pull {
    /// The next object of the stream.
    Object(ArcOSMObj),
    /// Read this many bytes from the stream and feed them to the reader.
    Read(usize),
    /// The stream has ended.
    End,
}

/// What a `Pull` holds.
pub enum PullView {
    Object(ObjView),
    Read(usize),
    End,
}

impl View for Pull {
    type V = PullView;

    open spec fn view(&self) -> PullView {
        match self {
            Pull::Object(obj) => PullView::Object(obj@),
            Pull::Read(n) => PullView::Read(*n),
            Pull::End => PullView::End,
        }
    }
}

/// The streaming reader as a state machine: it holds the objects of one
/// block at a time and asks its caller for the bytes of the next frame when
/// it has none left.
///
/// The caller calls `pull`; where that asks for bytes, the caller reads them
/// from wherever the stream lies, calls `feed` and pulls again.
#[derive(Debug, Clone)]
pub struct StreamReader {
    pub framer: FramerState,
    /// The objects of the current block that are still to be handed out, last
    /// first.
    pub buffer: Vec<ArcOSMObj>,
    pub sorted_assumption: bool,
    /// What is done with relation members whose role is not UTF-8.
    pub role_policy: RolePolicy,
}

/// What feeding bytes to a stream reader does: the state of the framing
/// afterwards, the objects that are then buffered, and the failure, if the
/// bytes were the end of a stream inside a frame, malformed, or a block that
/// does not decode.
pub struct Fed {
    pub framer: FramerState,
    pub pending: Seq<ObjView>,
    pub failure: Option<PbfError>,
}

/// Feeding bytes to a reader that has `pending` objects buffered. The
/// framing takes its step; a blob of data that completes is decoded, and its
/// objects are buffered behind those that are there. A failure of the framing
/// or of the decoding ends the reading; what is buffered stays.
pub open spec fn spec_feed(
    framer: FramerState,
    pending: Seq<ObjView>,
    input: Option<Seq<u8>>,
    policy: RolePolicy,
) -> Fed {
    let step = spec_step(framer, input);
    match step.1 {
        FramerOutputView::Continue => Fed { framer: step.0, pending: pending, failure: None },
        FramerOutputView::End => Fed { framer: step.0, pending: pending, failure: None },
        FramerOutputView::Failed(e) => Fed { framer: step.0, pending: pending, failure: Some(e) },
        FramerOutputView::Blob(blob) => match spec_objs_of_blob(blob, policy) {
            Ok(objs) => Fed { framer: step.0, pending: pending + objs, failure: None },
            Err(e) => Fed { framer: FramerState::Finished, pending: pending, failure: Some(e) },
        },
    }
}

impl StreamReader {
    /// A reader before the first frame of a stream. Nothing is assumed of
    /// the order of the objects, and relation members whose role is not
    /// UTF-8 are left out.
    pub fn new() -> (r: StreamReader)
        ensures
            r.framer == FramerState::AwaitingHeaderLength,
            r.buffer@.len() == 0,
            !r.sorted_assumption,
            r.role_policy == RolePolicy::DropMember,
    {
        StreamReader {
            framer: FramerState::new(),
            buffer: Vec::new(),
            sorted_assumption: false,
            role_policy: RolePolicy::DropMember,
        }
    }

    /// The objects that are buffered, in the order in which they will be
    /// handed out.
    pub open spec fn pending(&self) -> Seq<ObjView> {
        popping_order(self.buffer@)
    }

    /// Hands out the next buffered object. With none buffered, asks for the
    /// bytes that the framing wants next, or tells that the stream has ended.
    pub fn pull(&mut self) -> (r: Pull)
        ensures
            final(self).framer == old(self).framer,
            final(self).sorted_assumption == old(self).sorted_assumption,
            final(self).role_policy == old(self).role_policy,
            r@ == (if old(self).pending().len() > 0 {
                PullView::Object(old(self).pending()[0])
            } else if old(self).framer == FramerState::Finished {
                PullView::End
            } else {
                PullView::Read(spec_wanted(old(self).framer))
            }),
            final(self).pending() == (if old(self).pending().len() > 0 {
                old(self).pending().skip(1)
            } else {
                old(self).pending()
            }),
    {
        let ghost before = self.pending();
        match self.buffer.pop() {
            Some(obj) => {
                assert(self.pending() =~= before.skip(1));
                Pull::Object(obj)
            },
            None => {
                assert(self.pending() =~= before);
                match self.framer {
                    FramerState::Finished => Pull::End,
                    _ => Pull::Read(self.framer.wanted()),
                }
            },
        }
    }

    /// Takes the bytes that `pull` asked for, or `None` for a stream that
    /// ended before they were all there. Returns the failure that ends the
    /// reading, if there is one.
    pub fn feed(&mut self, input: Option<&[u8]>) -> (r: Option<PbfError>)
        ensures
            final(self).sorted_assumption == old(self).sorted_assumption,
            final(self).role_policy == old(self).role_policy,
            final(self).framer == spec_feed(
                old(self).framer,
                old(self).pending(),
                match input {
                    Some(bytes) => Some(bytes@),
                    None => None,
                },
                old(self).role_policy,
            ).framer,
            final(self).pending() == spec_feed(
                old(self).framer,
                old(self).pending(),
                match input {
                    Some(bytes) => Some(bytes@),
                    None => None,
                },
                old(self).role_policy,
            ).pending,
            r == spec_feed(
                old(self).framer,
                old(self).pending(),
                match input {
                    Some(bytes) => Some(bytes@),
                    None => None,
                },
                old(self).role_policy,
            ).failure,
    {
        let (framer, output) = self.framer.step(input);
        self.framer = framer;
        match output {
            FramerOutput::Continue => None,
            FramerOutput::End => None,
            FramerOutput::Failed(e) => Some(e),
            FramerOutput::Blob(blob) => match objs_of_blob(blob, self.role_policy) {
                Ok(objs) => {
                    // the new objects are handed out after those that wait
                    enqueue(&mut self.buffer, objs);
                    None
                },
                Err(e) => {
                    self.framer = FramerState::Finished;
                    Some(e)
                },
            },
        }
    }
}

/// The bytes that a caller hands over when a reader that stands at `pos`
/// asks for `wanted` bytes of a stream: the next bytes, or `None` where the
/// stream has not so many left.
pub open spec fn spec_read(stream: Seq<u8>, pos: int, wanted: usize) -> Option<Seq<u8>> {
    if 0 <= pos && pos + wanted <= stream.len() {
        Some(stream.subrange(pos, pos + wanted))
    } else {
        None
    }
}

/// How far the framing is from the end of its frame.
pub open spec fn steps_left(framer: FramerState) -> nat {
    match framer {
        FramerState::AwaitingHeader { len } => 2,
        FramerState::AwaitingPayload { data, len } => 1,
        _ => 0,
    }
}

/// What pulling from a stream reader comes to, when the caller feeds it the
/// bytes of a stream as it asks for them.
pub struct Driven {
    pub outcome: Result<Option<ObjView>, PbfError>,
    pub pending: Seq<ObjView>,
    pub framer: FramerState,
    pub pos: int,
}

/// Pulling from a stream reader until it hands out an object, ends or
/// fails, with the bytes of `stream` from `pos` on fed to it as it asks.
#[verifier::opaque]
pub open spec fn spec_drive(
    framer: FramerState,
    pending: Seq<ObjView>,
    stream: Seq<u8>,
    pos: int,
    policy: RolePolicy,
) -> Driven
    decreases stream.len() - pos, steps_left(framer), pending.len(),
{
    if pending.len() > 0 {
        Driven { outcome: Ok(Some(pending[0])), pending: pending.skip(1), framer: framer, pos: pos }
    } else if framer == FramerState::Finished {
        Driven { outcome: Ok(None), pending: Seq::empty(), framer: framer, pos: pos }
    } else {
        let wanted = spec_wanted(framer);
        let input = spec_read(stream, pos, wanted);
        let fed = spec_feed(framer, pending, input, policy);
        let next = if input is Some {
            pos + wanted
        } else {
            stream.len() as int
        };
        if fed.failure is Some {
            Driven {
                outcome: Err(fed.failure->Some_0),
                pending: Seq::empty(),
                framer: fed.framer,
                pos: next,
            }
        } else if fed.framer != FramerState::Finished && next <= stream.len() && (next > pos
            || steps_left(fed.framer) < steps_left(framer) || fed.pending.len() > 0) {
            spec_drive(fed.framer, fed.pending, stream, next, policy)
        } else {
            Driven { outcome: Ok(None), pending: Seq::empty(), framer: fed.framer, pos: next }
        }
    }
}

/// The reader before a frame: without four bytes left the stream has ended;
/// with them, the reader goes on to the header they announce.
proof fn lemma_drive_length(stream: Seq<u8>, pos: int, policy: RolePolicy)
    requires
        0 <= pos <= stream.len(),
    ensures
        stream.len() - pos < 4 ==> spec_drive(
            FramerState::AwaitingHeaderLength,
            Seq::empty(),
            stream,
            pos,
            policy,
        ).outcome == Ok::<Option<ObjView>, PbfError>(None) && spec_drive(
            FramerState::AwaitingHeaderLength,
            Seq::empty(),
            stream,
            pos,
            policy,
        ).pending == Seq::<ObjView>::empty(),
        stream.len() - pos >= 4 ==> spec_drive(
            FramerState::AwaitingHeaderLength,
            Seq::empty(),
            stream,
            pos,
            policy,
        ) == spec_drive(
            FramerState::AwaitingHeader {
                len: spec_be_u32(stream.subrange(pos, pos + 4)) as usize,
            },
            Seq::empty(),
            stream,
            pos + 4,
            policy,
        ),
{
    reveal(spec_drive);
}

/// The reader before a header: a header that is cut short or malformed
/// fails the reading; otherwise the reader goes on to the payload.
proof fn lemma_drive_header(stream: Seq<u8>, pos: int, len: usize, policy: RolePolicy)
    requires
        0 <= pos <= stream.len(),
    ensures
        ({
            let driven = spec_drive(
                FramerState::AwaitingHeader { len },
                Seq::empty(),
                stream,
                pos,
                policy,
            );
            if stream.len() - pos < len {
                driven.outcome == Err::<Option<ObjView>, PbfError>(PbfError::TruncatedStream)
                    && driven.pending == Seq::<ObjView>::empty()
            } else {
                match spec_parse::<BlobHeader>(stream.subrange(pos, pos + len)) {
                    Err(e) => driven.outcome == Err::<Option<ObjView>, PbfError>(e)
                        && driven.pending == Seq::<ObjView>::empty(),
                    Ok(header) => if announced(header.datasize) < 0 {
                        driven.outcome == Err::<Option<ObjView>, PbfError>(
                            PbfError::InvalidLength,
                        ) && driven.pending == Seq::<ObjView>::empty()
                    } else {
                        driven == spec_drive(
                            FramerState::AwaitingPayload {
                                data: text_or_empty(header.field_type) == osm_data(),
                                len: announced(header.datasize) as usize,
                            },
                            Seq::empty(),
                            stream,
                            pos + len,
                            policy,
                        )
                    },
                }
            }
        }),
{
    reveal(spec_drive);
}

/// The reader before a payload: a payload that is cut short fails the
/// reading; one of a frame without data is passed over; one of a frame of
/// data is decoded, and the reader goes on with its objects buffered.
proof fn lemma_drive_payload(stream: Seq<u8>, pos: int, data: bool, len: usize, policy: RolePolicy)
    requires
        0 <= pos <= stream.len(),
    ensures
        ({
            let driven = spec_drive(
                FramerState::AwaitingPayload { data, len },
                Seq::empty(),
                stream,
                pos,
                policy,
            );
            if stream.len() - pos < len {
                driven.outcome == Err::<Option<ObjView>, PbfError>(PbfError::TruncatedStream)
                    && driven.pending == Seq::<ObjView>::empty()
            } else if !data {
                driven == spec_drive(
                    FramerState::AwaitingHeaderLength,
                    Seq::empty(),
                    stream,
                    pos + len,
                    policy,
                )
            } else {
                match spec_parse::<Blob>(stream.subrange(pos, pos + len)) {
                    Err(e) => driven.outcome == Err::<Option<ObjView>, PbfError>(e)
                        && driven.pending == Seq::<ObjView>::empty(),
                    Ok(blob) => match spec_objs_of_blob(blob, policy) {
                        Err(e) => driven.outcome == Err::<Option<ObjView>, PbfError>(e)
                            && driven.pending == Seq::<ObjView>::empty(),
                        Ok(objs) => driven == spec_drive(
                            FramerState::AwaitingHeaderLength,
                            objs,
                            stream,
                            pos + len,
                            policy,
                        ),
                    },
                }
            }
        }),
{
    reveal(spec_drive);
}

/// A reader with an object buffered hands it out and asks for nothing.
proof fn lemma_drive_buffered(
    framer: FramerState,
    pending: Seq<ObjView>,
    stream: Seq<u8>,
    pos: int,
    policy: RolePolicy,
)
    requires
        pending.len() > 0,
    ensures
        spec_drive(framer, pending, stream, pos, policy) == (Driven {
            outcome: Ok(Some(pending[0])),
            pending: pending.skip(1),
            framer: framer,
            pos: pos,
        }),
{
    reveal(spec_drive);
}

/// A stream reader that is fed the bytes of a stream as it asks for them
/// hands out what the reader of the stream in memory hands out: the same
/// object, end or failure, with the same objects left in its buffer; and
/// after an object it stands before the same frame.
pub proof fn lemma_stream_reader_agrees(
    pending: Seq<ObjView>,
    stream: Seq<u8>,
    pos: int,
    policy: RolePolicy,
)
    requires
        0 <= pos <= stream.len(),
    ensures
        spec_drive(FramerState::AwaitingHeaderLength, pending, stream, pos, policy).outcome
            == spec_next_obj(pending, stream, pos, policy).outcome,
        spec_drive(FramerState::AwaitingHeaderLength, pending, stream, pos, policy).pending
            == spec_next_obj(pending, stream, pos, policy).pending,
        spec_next_obj(pending, stream, pos, policy).outcome matches Ok(Some(_)) ==> {
            &&& spec_drive(
                FramerState::AwaitingHeaderLength,
                pending,
                stream,
                pos,
                policy,
            ).framer == FramerState::AwaitingHeaderLength
            &&& spec_drive(FramerState::AwaitingHeaderLength, pending, stream, pos, policy).pos
                == spec_next_obj(pending, stream, pos, policy).pos
        },
    decreases stream.len() - pos, pending.len(),
{
    let start = FramerState::AwaitingHeaderLength;
    if pending.len() > 0 {
        lemma_drive_buffered(start, pending, stream, pos, policy);
        lemma_next_obj_buffered(pending, stream, pos, policy);
    } else {
        assert(pending =~= Seq::<ObjView>::empty());
        lemma_next_obj_reads(stream, pos, policy);
        lemma_drive_length(stream, pos, policy);
        let end = stream.len() as int;
        let found = spec_next_blob(stream, pos);
        assert(spec_next_block(stream, pos, policy).outcome == (match found.0 {
            Err(e) => Err::<Option<Seq<ObjView>>, PbfError>(e),
            Ok(None) => Ok(None),
            Ok(Some(blob)) => match spec_objs_of_blob(blob, policy) {
                Err(e) => Err(e),
                Ok(objs) => Ok(Some(objs)),
            },
        }) && (spec_next_block(stream, pos, policy).outcome is Ok ==> spec_next_block(
            stream,
            pos,
            policy,
        ).pos == found.1)) by {
            reveal(spec_next_block);
        }
        if end - pos >= 4 {
            let header_len = spec_be_u32(stream.subrange(pos, pos + 4));
            let header_start = pos + 4;
            let header_end = header_start + header_len;
            lemma_drive_header(stream, header_start, header_len as usize, policy);
            if end - header_start >= header_len {
                match spec_parse::<BlobHeader>(stream.subrange(header_start, header_end)) {
                    Err(e) => {},
                    Ok(header) => {
                        let datasize = announced(header.datasize);
                        let payload_end = header_end + datasize;
                        if datasize >= 0 {
                            let data = text_or_empty(header.field_type) == osm_data();
                            lemma_drive_payload(
                                stream,
                                header_end,
                                data,
                                datasize as usize,
                                policy,
                            );
                            if end - header_end >= datasize {
                                if !data {
                                    lemma_stream_reader_agrees(
                                        pending,
                                        stream,
                                        payload_end,
                                        policy,
                                    );
                                    lemma_next_obj_reads(stream, payload_end, policy);
                                    assert(spec_next_block(stream, payload_end, policy)
                                        == spec_next_block(stream, pos, policy)) by {
                                        reveal(spec_next_block);
                                    }
                                } else {
                                    match spec_parse::<Blob>(
                                        stream.subrange(header_end, payload_end),
                                    ) {
                                        Err(e) => {},
                                        Ok(blob) => match spec_objs_of_blob(blob, policy) {
                                            Err(e) => {},
                                            Ok(objs) => {
                                                lemma_stream_reader_agrees(
                                                    objs,
                                                    stream,
                                                    payload_end,
                                                    policy,
                                                );
                                            },
                                        },
                                    }
                                }
                            }
                        }
                    },
                }
            }
        }
    }
}

} // verus!
