//! Reading only the ids and positions of the nodes of a PBF stream, which is
//! a little faster than decoding whole objects.
use vstd::prelude::*;
use crate::ObjId;
use crate::coords::{Lat, Lon};
use crate::decode::{internal_lat, internal_lon, spec_internal_coord};
use crate::delta::{delta_decode_within, spec_delta_decode};
use crate::error::PbfError;
use crate::fileformat::{Blob, BlobView};
use crate::message::{parse, spec_parse, views};
use crate::osmformat::{
    DenseNodes, DenseNodesView, PrimitiveBlock, PrimitiveBlockView, PrimitiveGroup,
    PrimitiveGroupView,
};
use crate::pbf::{
    blob_raw_data, FileReader, lemma_next_blob_advances, spec_blob_data, spec_next_blob,
};

verus! {

/// (node id, (latitude, longitude))
pub type NodeIdPos = (ObjId, (Lat, Lon));

/// The id and position of row `i` of a dense group, from its reconstructed
/// columns.
pub open spec fn spec_position(
    ids: Seq<i64>,
    lats: Seq<i64>,
    lons: Seq<i64>,
    granularity: i32,
    lat_offset: i64,
    lon_offset: i64,
    i: int,
) -> Result<NodeIdPos, PbfError> {
    let lat = spec_internal_coord(lats[i] as i32, granularity, lat_offset);
    let lon = spec_internal_coord(lons[i] as i32, granularity, lon_offset);
    if lat is Err {
        Err(lat->Err_0)
    } else if lon is Err {
        Err(lon->Err_0)
    } else {
        Ok((ids[i], (Lat(lat->Ok_0), Lon(lon->Ok_0))))
    }
}

/// The ids and positions of the first `n` rows of a dense group, or the
/// error of the first row that fails.
pub open spec fn spec_positions(
    ids: Seq<i64>,
    lats: Seq<i64>,
    lons: Seq<i64>,
    granularity: i32,
    lat_offset: i64,
    lon_offset: i64,
    n: nat,
) -> Result<Seq<NodeIdPos>, PbfError>
    decreases n,
{
    if n == 0 {
        Ok(Seq::empty())
    } else {
        match spec_positions(ids, lats, lons, granularity, lat_offset, lon_offset, (n - 1) as nat) {
            Err(e) => Err(e),
            Ok(earlier) => match spec_position(
                ids,
                lats,
                lons,
                granularity,
                lat_offset,
                lon_offset,
                n - 1,
            ) {
                Err(e) => Err(e),
                Ok(position) => Ok(earlier.push(position)),
            },
        }
    }
}

proof fn lemma_positions_error(
    ids: Seq<i64>,
    lats: Seq<i64>,
    lons: Seq<i64>,
    granularity: i32,
    lat_offset: i64,
    lon_offset: i64,
    m: nat,
    n: nat,
)
    requires
        m <= n,
        spec_positions(ids, lats, lons, granularity, lat_offset, lon_offset, m) is Err,
    ensures
        spec_positions(ids, lats, lons, granularity, lat_offset, lon_offset, n) == spec_positions(
            ids,
            lats,
            lons,
            granularity,
            lat_offset,
            lon_offset,
            m,
        ),
    decreases n - m,
{
    if m < n {
        lemma_positions_error(
            ids,
            lats,
            lons,
            granularity,
            lat_offset,
            lon_offset,
            m,
            (n - 1) as nat,
        );
    }
}

/// The ids and positions of the nodes of a dense group: the three columns
/// must agree in length, are reconstructed from zero, and the coordinates
/// are scaled as for whole nodes. The metadata and the tags are not read.
pub open spec fn spec_dense_positions(
    dense: DenseNodesView,
    granularity: i32,
    lat_offset: i64,
    lon_offset: i64,
) -> Result<Seq<NodeIdPos>, PbfError> {
    let ids = spec_delta_decode(dense.id, 0, i64::MIN as int, i64::MAX as int);
    let lats = spec_delta_decode(dense.lat, 0, i32::MIN as int, i32::MAX as int);
    let lons = spec_delta_decode(dense.lon, 0, i32::MIN as int, i32::MAX as int);
    if dense.lat.len() != dense.id.len() || dense.lon.len() != dense.id.len() {
        Err(PbfError::ColumnLengthMismatch)
    } else if ids is Err {
        Err(ids->Err_0)
    } else if lats is Err {
        Err(lats->Err_0)
    } else if lons is Err {
        Err(lons->Err_0)
    } else {
        spec_positions(
            ids->Ok_0,
            lats->Ok_0,
            lons->Ok_0,
            granularity,
            lat_offset,
            lon_offset,
            dense.id.len(),
        )
    }
}

/// Decodes the ids and positions of the nodes of a dense group.
pub fn dense_positions(dense: &DenseNodes, granularity: i32, lat_offset: i64, lon_offset: i64) -> (r:
    Result<Vec<NodeIdPos>, PbfError>)
    ensures
        match r {
            Ok(out) => spec_dense_positions(dense@, granularity, lat_offset, lon_offset) == Ok::<
                Seq<NodeIdPos>,
                PbfError,
            >(out@),
            Err(e) => spec_dense_positions(dense@, granularity, lat_offset, lon_offset) == Err::<
                Seq<NodeIdPos>,
                PbfError,
            >(e),
        },
{
    let num_nodes: usize = dense.id.len();
    if dense.lat.len() != num_nodes || dense.lon.len() != num_nodes {
        return Err(PbfError::ColumnLengthMismatch);
    }
    let ids = delta_decode_within(dense.id.as_slice(), 0, i64::MIN, i64::MAX)?;
    let lats = delta_decode_within(dense.lat.as_slice(), 0, i32::MIN as i64, i32::MAX as i64)?;
    let lons = delta_decode_within(dense.lon.as_slice(), 0, i32::MIN as i64, i32::MAX as i64)?;
    let mut out: Vec<NodeIdPos> = Vec::new();
    let mut index: usize = 0;
    while index < num_nodes
        invariant
            index <= num_nodes,
            num_nodes == dense@.id.len(),
            dense@.lat.len() == dense@.id.len(),
            dense@.lon.len() == dense@.id.len(),
            spec_delta_decode(dense@.id, 0, i64::MIN as int, i64::MAX as int) == Ok::<
                Seq<i64>,
                PbfError,
            >(ids@),
            spec_delta_decode(dense@.lat, 0, i32::MIN as int, i32::MAX as int) == Ok::<
                Seq<i64>,
                PbfError,
            >(lats@),
            spec_delta_decode(dense@.lon, 0, i32::MIN as int, i32::MAX as int) == Ok::<
                Seq<i64>,
                PbfError,
            >(lons@),
            ids.len() == num_nodes,
            lats.len() == num_nodes,
            lons.len() == num_nodes,
            forall|k: int| 0 <= k < num_nodes ==> i32::MIN <= #[trigger] lats@[k] <= i32::MAX,
            forall|k: int| 0 <= k < num_nodes ==> i32::MIN <= #[trigger] lons@[k] <= i32::MAX,
            spec_positions(
                ids@,
                lats@,
                lons@,
                granularity,
                lat_offset,
                lon_offset,
                index as nat,
            ) == Ok::<Seq<NodeIdPos>, PbfError>(out@),
        decreases num_nodes - index,
    {
        let lat = match internal_lat(lats[index] as i32, granularity, lat_offset) {
            Ok(lat) => lat,
            Err(e) => {
                proof {
                    assert(spec_position(
                        ids@,
                        lats@,
                        lons@,
                        granularity,
                        lat_offset,
                        lon_offset,
                        index as int,
                    ) == Err::<NodeIdPos, PbfError>(e));
                    assert(spec_positions(
                        ids@,
                        lats@,
                        lons@,
                        granularity,
                        lat_offset,
                        lon_offset,
                        (index + 1) as nat,
                    ) == Err::<Seq<NodeIdPos>, PbfError>(e));
                    lemma_positions_error(
                        ids@,
                        lats@,
                        lons@,
                        granularity,
                        lat_offset,
                        lon_offset,
                        (index + 1) as nat,
                        num_nodes as nat,
                    );
                }
                return Err(e);
            },
        };
        let lon = match internal_lon(lons[index] as i32, granularity, lon_offset) {
            Ok(lon) => lon,
            Err(e) => {
                proof {
                    assert(spec_position(
                        ids@,
                        lats@,
                        lons@,
                        granularity,
                        lat_offset,
                        lon_offset,
                        index as int,
                    ) == Err::<NodeIdPos, PbfError>(e));
                    assert(spec_positions(
                        ids@,
                        lats@,
                        lons@,
                        granularity,
                        lat_offset,
                        lon_offset,
                        (index + 1) as nat,
                    ) == Err::<Seq<NodeIdPos>, PbfError>(e));
                    lemma_positions_error(
                        ids@,
                        lats@,
                        lons@,
                        granularity,
                        lat_offset,
                        lon_offset,
                        (index + 1) as nat,
                        num_nodes as nat,
                    );
                }
                return Err(e);
            },
        };
        out.push((ids[index], (lat, lon)));
        index += 1;
    }
    Ok(out)
}

/// The ids and positions of the nodes of one group. Plain nodes fail; a
/// group of ways or relations has no nodes; a group of dense nodes gives
/// theirs; a group that holds nothing fails.
pub open spec fn spec_group_positions(
    group: PrimitiveGroupView,
    granularity: i32,
    lat_offset: i64,
    lon_offset: i64,
) -> Result<Seq<NodeIdPos>, PbfError> {
    if group.nodes.len() > 0 {
        Err(PbfError::LegacyNodes)
    } else if group.ways.len() > 0 || group.relations.len() > 0 {
        Ok(Seq::empty())
    } else if group.dense is Some {
        spec_dense_positions(group.dense->Some_0, granularity, lat_offset, lon_offset)
    } else {
        Err(PbfError::EmptyGroup)
    }
}

/// Decodes the ids and positions of the nodes of one group.
pub fn group_positions(
    group: &PrimitiveGroup,
    granularity: i32,
    lat_offset: i64,
    lon_offset: i64,
) -> (r: Result<Vec<NodeIdPos>, PbfError>)
    ensures
        match r {
            Ok(out) => spec_group_positions(group@, granularity, lat_offset, lon_offset) == Ok::<
                Seq<NodeIdPos>,
                PbfError,
            >(out@),
            Err(e) => spec_group_positions(group@, granularity, lat_offset, lon_offset) == Err::<
                Seq<NodeIdPos>,
                PbfError,
            >(e),
        },
{
    if !group.nodes.is_empty() {
        Err(PbfError::LegacyNodes)
    } else if !group.ways.is_empty() || !group.relations.is_empty() {
        Ok(Vec::new())
    } else {
        match &group.dense {
            Some(dense) => dense_positions(dense, granularity, lat_offset, lon_offset),
            None => Err(PbfError::EmptyGroup),
        }
    }
}

/// The ids and positions of the nodes of a list of groups, in order.
pub open spec fn spec_groups_positions(
    groups: Seq<PrimitiveGroupView>,
    granularity: i32,
    lat_offset: i64,
    lon_offset: i64,
) -> Result<Seq<NodeIdPos>, PbfError>
    decreases groups.len(),
{
    if groups.len() == 0 {
        Ok(Seq::empty())
    } else {
        match spec_groups_positions(groups.drop_last(), granularity, lat_offset, lon_offset) {
            Err(e) => Err(e),
            Ok(earlier) => match spec_group_positions(
                groups.last(),
                granularity,
                lat_offset,
                lon_offset,
            ) {
                Err(e) => Err(e),
                Ok(positions) => Ok(earlier + positions),
            },
        }
    }
}

proof fn lemma_groups_positions_error(
    groups: Seq<PrimitiveGroupView>,
    granularity: i32,
    lat_offset: i64,
    lon_offset: i64,
    n: int,
)
    requires
        0 <= n <= groups.len(),
        spec_groups_positions(groups.take(n), granularity, lat_offset, lon_offset) is Err,
    ensures
        spec_groups_positions(groups, granularity, lat_offset, lon_offset)
            == spec_groups_positions(groups.take(n), granularity, lat_offset, lon_offset),
    decreases groups.len() - n,
{
    if n < groups.len() {
        assert(groups.take(n + 1).drop_last() =~= groups.take(n));
        lemma_groups_positions_error(groups, granularity, lat_offset, lon_offset, n + 1);
    } else {
        assert(groups.take(n) =~= groups);
    }
}

/// The ids and positions of the nodes of a block.
pub open spec fn spec_block_positions(block: PrimitiveBlockView) -> Result<
    Seq<NodeIdPos>,
    PbfError,
> {
    spec_groups_positions(
        block.primitivegroup,
        block.get_granularity(),
        block.get_lat_offset(),
        block.get_lon_offset(),
    )
}

/// Decodes the ids and positions of the nodes of a block, in the order of
/// its groups and rows.
pub fn decode_block_to_positions(block: &PrimitiveBlock) -> (r: Result<Vec<NodeIdPos>, PbfError>)
    ensures
        match r {
            Ok(out) => spec_block_positions(block@) == Ok::<Seq<NodeIdPos>, PbfError>(out@),
            Err(e) => spec_block_positions(block@) == Err::<Seq<NodeIdPos>, PbfError>(e),
        },
{
    let granularity = block.get_granularity();
    let lat_offset = block.get_lat_offset();
    let lon_offset = block.get_lon_offset();
    let groups = block.get_primitivegroup();
    let ghost all = views(groups@);
    let mut out: Vec<NodeIdPos> = Vec::new();
    let mut i: usize = 0;
    while i < groups.len()
        invariant
            i <= groups.len(),
            all == views(groups@),
            all == block@.primitivegroup,
            granularity == block@.get_granularity(),
            lat_offset == block@.get_lat_offset(),
            lon_offset == block@.get_lon_offset(),
            spec_groups_positions(all.take(i as int), granularity, lat_offset, lon_offset) == Ok::<
                Seq<NodeIdPos>,
                PbfError,
            >(out@),
        decreases groups.len() - i,
    {
        assert(all.take(i + 1).drop_last() =~= all.take(i as int));
        assert(all.take(i + 1).last() == groups[i as int]@);
        match group_positions(&groups[i], granularity, lat_offset, lon_offset) {
            Ok(positions) => {
                let mut positions = positions;
                out.append(&mut positions);
            },
            Err(e) => {
                proof {
                    lemma_groups_positions_error(all, granularity, lat_offset, lon_offset, i + 1);
                }
                return Err(e);
            },
        }
        i += 1;
    }
    assert(all.take(i as int) =~= all);
    Ok(out)
}

/// The ids and positions of the nodes that a blob of data holds.
pub open spec fn spec_positions_of_blob(blob: BlobView) -> Result<Seq<NodeIdPos>, PbfError> {
    match spec_blob_data(blob) {
        Err(e) => Err(e),
        Ok(data) => match spec_parse::<PrimitiveBlock>(data) {
            Err(e) => Err(e),
            Ok(block) => spec_block_positions(block),
        },
    }
}

/// Decompresses a blob of data, reads it as a primitive block and decodes
/// the ids and positions of its nodes.
pub fn positions_of_blob(blob: Blob) -> (r: Result<Vec<NodeIdPos>, PbfError>)
    ensures
        match r {
            Ok(out) => spec_positions_of_blob(blob@) == Ok::<Seq<NodeIdPos>, PbfError>(out@),
            Err(e) => spec_positions_of_blob(blob@) == Err::<Seq<NodeIdPos>, PbfError>(e),
        },
{
    let mut blob = blob;
    let blob_data = blob_raw_data(&mut blob)?;
    let block = parse::<PrimitiveBlock>(blob_data.as_slice())?;
    decode_block_to_positions(&block)
}

/// What reading the positions of one block comes to, and where in the
/// stream the reader then stands.
pub struct PositionsStep {
    pub outcome: Result<Option<Seq<NodeIdPos>>, PbfError>,
    pub pos: int,
}

/// The positions of the next blob of data from position `pos` on. A failure
/// abandons the stream.
pub open spec fn spec_next_positions(stream: Seq<u8>, pos: int) -> PositionsStep {
    let found = spec_next_blob(stream, pos);
    match found.0 {
        Err(e) => PositionsStep { outcome: Err(e), pos: found.1 },
        Ok(None) => PositionsStep { outcome: Ok(None), pos: found.1 },
        Ok(Some(blob)) => match spec_positions_of_blob(blob) {
            Err(e) => PositionsStep { outcome: Err(e), pos: stream.len() as int },
            Ok(positions) => PositionsStep { outcome: Ok(Some(positions)), pos: found.1 },
        },
    }
}

/// A block that is read lies after the position the reading started from,
/// and the position after any reading lies within the stream.
pub proof fn lemma_next_positions_advances(stream: Seq<u8>, pos: int)
    requires
        0 <= pos <= stream.len(),
    ensures
        spec_next_positions(stream, pos).pos <= stream.len(),
        spec_next_positions(stream, pos).outcome matches Ok(Some(_)) ==> pos
            < spec_next_positions(stream, pos).pos,
{
    lemma_next_blob_advances(stream, pos);
}

/// One step of a reader of positions: what it yields, what stays buffered,
/// and where in the stream it stands afterwards.
pub struct PositionStep {
    pub outcome: Result<Option<NodeIdPos>, PbfError>,
    pub pending: Seq<NodeIdPos>,
    pub pos: int,
}

/// What a reader of positions yields next, with `pending` positions buffered
/// and the stream read up to `pos`: a buffered position first; with none
/// buffered, the first position of the next blob of data that has one. The
/// end of the stream ends the sequence; a failure ends it too.
pub open spec fn spec_next_position(pending: Seq<NodeIdPos>, stream: Seq<u8>, pos: int) -> PositionStep
    decreases stream.len() - pos, pending.len(),
{
    if pending.len() > 0 {
        PositionStep { outcome: Ok(Some(pending[0])), pending: pending.skip(1), pos: pos }
    } else if pos < 0 || pos > stream.len() {
        PositionStep { outcome: Ok(None), pending: Seq::empty(), pos: stream.len() as int }
    } else {
        let step = spec_next_positions(stream, pos);
        match step.outcome {
            Err(e) => PositionStep { outcome: Err(e), pending: Seq::empty(), pos: step.pos },
            Ok(None) => PositionStep { outcome: Ok(None), pending: Seq::empty(), pos: step.pos },
            Ok(Some(positions)) => {
                if pos < step.pos <= stream.len() {
                    spec_next_position(positions, stream, step.pos)
                } else {
                    PositionStep { outcome: Ok(None), pending: Seq::empty(), pos: step.pos }
                }
            },
        }
    }
}

/// Reads a PBF stream that is held in memory and returns just (nodeid, pos).
#[derive(Debug, Clone)]
pub struct PBFNodePositionReader {
    pub reader: FileReader,
    /// The positions of the current block.
    pub buffer: Vec<NodeIdPos>,
    /// How many positions of the current block were handed out.
    pub taken: usize,
}

impl PBFNodePositionReader {
    /// Create a new PBFNodePositionReader from this reader
    pub fn new(reader: Vec<u8>) -> (r: Self)
        ensures
            r.reader.reader == reader,
            r.reader.pos == 0,
            r.buffer@.len() == 0,
            r.taken == 0,
    {
        PBFNodePositionReader { reader: FileReader::new(reader), buffer: Vec::new(), taken: 0 }
    }

    /// The positions that are buffered and not yet handed out.
    pub open spec fn pending(&self) -> Seq<NodeIdPos> {
        if self.taken <= self.buffer@.len() {
            self.buffer@.skip(self.taken as int)
        } else {
            Seq::empty()
        }
    }

    /// Create a new PBFNodePositionReader from this reader
    pub fn from_reader(reader: Vec<u8>) -> (r: Self)
        ensures
            r.reader.reader == reader,
            r.reader.pos == 0,
            r.buffer@.len() == 0,
            r.taken == 0,
    {
        Self::new(reader)
    }

    /// Reads the next blob of data and decodes the positions of its nodes,
    /// or `None` at the end of the stream. After a failure the reader stands
    /// at the end of the stream.
    pub fn next_block(&mut self) -> (r: Result<Option<Vec<NodeIdPos>>, PbfError>)
        ensures
            final(self).reader.reader == old(self).reader.reader,
            final(self).buffer == old(self).buffer,
            final(self).taken == old(self).taken,
            final(self).reader.pos as int == spec_next_positions(
                old(self).reader.reader@,
                old(self).reader.pos as int,
            ).pos,
            match r {
                Ok(Some(out)) => spec_next_positions(
                    old(self).reader.reader@,
                    old(self).reader.pos as int,
                ).outcome == Ok::<Option<Seq<NodeIdPos>>, PbfError>(Some(out@)),
                Ok(None) => spec_next_positions(
                    old(self).reader.reader@,
                    old(self).reader.pos as int,
                ).outcome == Ok::<Option<Seq<NodeIdPos>>, PbfError>(None),
                Err(e) => spec_next_positions(
                    old(self).reader.reader@,
                    old(self).reader.pos as int,
                ).outcome == Err::<Option<Seq<NodeIdPos>>, PbfError>(e),
            },
    {
        let blob = match self.reader.next()? {
            Some(blob) => blob,
            None => {
                return Ok(None);
            },
        };
        match positions_of_blob(blob) {
            Ok(positions) => Ok(Some(positions)),
            Err(e) => {
                self.reader.pos = self.reader.reader.len();
                Err(e)
            },
        }
    }

    /// The id and position of the next node of the stream, `None` at its
    /// end, or the failure that ends the reading.
    pub fn next(&mut self) -> (r: Result<Option<NodeIdPos>, PbfError>)
        ensures
            final(self).reader.reader == old(self).reader.reader,
            r == spec_next_position(
                old(self).pending(),
                old(self).reader.reader@,
                old(self).reader.pos as int,
            ).outcome,
            final(self).pending() == spec_next_position(
                old(self).pending(),
                old(self).reader.reader@,
                old(self).reader.pos as int,
            ).pending,
            final(self).reader.pos as int == spec_next_position(
                old(self).pending(),
                old(self).reader.reader@,
                old(self).reader.pos as int,
            ).pos,
    {
        let ghost stream = self.reader.reader@;
        let ghost wanted = spec_next_position(self.pending(), stream, self.reader.pos as int);
        while self.taken >= self.buffer.len()
            invariant
                self.reader.reader == old(self).reader.reader,
                stream == self.reader.reader@,
                wanted == spec_next_position(
                    old(self).pending(),
                    old(self).reader.reader@,
                    old(self).reader.pos as int,
                ),
                wanted == spec_next_position(self.pending(), stream, self.reader.pos as int),
            decreases stream.len() - self.reader.pos,
        {
            assert(self.pending() =~= Seq::<NodeIdPos>::empty());
            if self.reader.pos > self.reader.reader.len() {
                self.reader.pos = self.reader.reader.len();
                return Ok(None);
            }
            proof {
                lemma_next_positions_advances(stream, self.reader.pos as int);
            }
            // get the next file block and fill up our buffer
            let positions = match self.next_block() {
                Ok(Some(positions)) => positions,
                Ok(None) => {
                    return Ok(None);
                },
                Err(e) => {
                    return Err(e);
                },
            };
            self.buffer = positions;
            self.taken = 0;
            assert(self.pending() =~= positions@);
        }
        let ghost before = self.pending();
        let position: NodeIdPos = self.buffer[self.taken];
        self.taken = self.taken + 1;
        assert(self.pending() =~= before.skip(1));
        Ok(Some(position))
    }
}

} // verus!
