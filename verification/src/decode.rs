//! Turning the column-coded records of a primitive block into nodes, ways
//! and relations.
use vstd::prelude::*;
use crate::COORD_PRECISION_NANOS;
use crate::arc_types::{ArcNode, ArcOSMObj, obj_views};
use crate::coords::{Lat, Lon};
use crate::delta::{delta_decode_within, spec_delta_decode};
use crate::error::PbfError;
use crate::objects::{ObjView, PayloadView, tag_views, TagView};
use crate::osmformat::{DenseInfoView, DenseNodes, DenseNodesView};
use crate::strings::{BlockStrings, spec_lookup};
use crate::timestamp::{TimestampFormat, TimestampView};

verus! {

/// Division that rounds towards zero, as the machine divides.
pub open spec fn trunc_div(a: int, b: int) -> int {
    if a >= 0 {
        a / b
    } else {
        -((-a) / b)
    }
}

/// A coordinate in units of 100 nanodegrees: the raw value times the
/// granularity, plus the offset, both taken in those units.
pub open spec fn spec_internal(raw: i32, granularity: i32, offset: i64) -> int {
    raw * trunc_div(granularity as int, COORD_PRECISION_NANOS as int) + trunc_div(
        offset as int,
        COORD_PRECISION_NANOS as int,
    )
}

/// The coordinate of `spec_internal` where it fits 32 bits.
pub open spec fn spec_internal_coord(raw: i32, granularity: i32, offset: i64) -> Result<
    i32,
    PbfError,
> {
    if i32::MIN <= spec_internal(raw, granularity, offset) <= i32::MAX {
        Ok(spec_internal(raw, granularity, offset) as i32)
    } else {
        Err(PbfError::Overflow)
    }
}

/// Scales a raw coordinate of a block to units of 100 nanodegrees.
pub fn internal_coord(raw: i32, granularity: i32, offset: i64) -> (r: Result<i32, PbfError>)
    ensures
        r == spec_internal_coord(raw, granularity, offset),
{
    let scale: i64 = (granularity / COORD_PRECISION_NANOS) as i64;
    let shift: i64 = offset / (COORD_PRECISION_NANOS as i64);
    assert(-0x8000_0000 * 21474837 <= (raw as int) * (scale as int) <= 0x8000_0000 * 21474837)
        by (nonlinear_arith)
        requires
            -0x8000_0000 <= raw <= 0x7fff_ffff,
            -21474837 <= scale <= 21474837,
    ;
    let total: i64 = (raw as i64) * scale + shift;
    if total < i32::MIN as i64 || total > i32::MAX as i64 {
        Err(PbfError::Overflow)
    } else {
        Ok(total as i32)
    }
}

/// The latitude of a node from its raw value and the block's scaling.
pub fn internal_lat(raw: i32, granularity: i32, offset: i64) -> (r: Result<Lat, PbfError>)
    ensures
        match spec_internal_coord(raw, granularity, offset) {
            Ok(inner) => r == Ok::<Lat, PbfError>(Lat(inner)),
            Err(e) => r == Err::<Lat, PbfError>(e),
        },
{
    Ok(Lat::from_inner(internal_coord(raw, granularity, offset)?))
}

/// The longitude of a node from its raw value and the block's scaling.
pub fn internal_lon(raw: i32, granularity: i32, offset: i64) -> (r: Result<Lon, PbfError>)
    ensures
        match spec_internal_coord(raw, granularity, offset) {
            Ok(inner) => r == Ok::<Lon, PbfError>(Lon(inner)),
            Err(e) => r == Err::<Lon, PbfError>(e),
        },
{
    Ok(Lon::from_inner(internal_coord(raw, granularity, offset)?))
}

/// Seconds since the Unix epoch: the accumulated date times the block's date
/// granularity in seconds.
pub open spec fn spec_epoch_seconds(date: i64, date_granularity: i32) -> Result<i64, PbfError> {
    let seconds = date * trunc_div(date_granularity as int, 1000);
    if i64::MIN <= seconds <= i64::MAX {
        Ok(seconds as i64)
    } else {
        Err(PbfError::Overflow)
    }
}

/// Scales an accumulated date of a dense row to seconds since the Unix epoch.
pub fn epoch_seconds(date: i64, date_granularity: i32) -> (r: Result<i64, PbfError>)
    ensures
        r == spec_epoch_seconds(date, date_granularity),
{
    let step: i64 = (date_granularity / 1000) as i64;
    match date.checked_mul(step) {
        Some(seconds) => Ok(seconds),
        None => Err(PbfError::Overflow),
    }
}

/// A value of a signed column as the unsigned field of a record: negative
/// values have no place there.
pub open spec fn spec_unsigned(value: i64) -> Result<u32, PbfError> {
    if 0 <= value <= u32::MAX {
        Ok(value as u32)
    } else {
        Err(PbfError::ValueOutOfRange)
    }
}

/// Gives a value of a signed column the unsigned type of a record's field.
pub fn unsigned(value: i64) -> (r: Result<u32, PbfError>)
    ensures
        r == spec_unsigned(value),
{
    if value < 0 || value > u32::MAX as i64 {
        Err(PbfError::ValueOutOfRange)
    } else {
        Ok(value as u32)
    }
}

/// A column of 32-bit values as 64-bit values.
pub open spec fn spec_widen(column: Seq<i32>) -> Seq<i64> {
    Seq::new(column.len(), |i: int| column[i] as i64)
}

/// Widens a column of 32-bit values.
pub fn widen(column: &Vec<i32>) -> (r: Vec<i64>)
    ensures
        r@ == spec_widen(column@),
{
    let mut out: Vec<i64> = Vec::new();
    let mut i: usize = 0;
    while i < column.len()
        invariant
            i <= column.len(),
            out.len() == i,
            forall|k: int| 0 <= k < i ==> out[k] == column[k] as i64,
        decreases column.len() - i,
    {
        out.push(column[i] as i64);
        i += 1;
    }
    assert(out@ =~= spec_widen(column@));
    out
}

/// The index pairs of parallel key and value columns.
pub open spec fn spec_pairs(keys: Seq<u32>, vals: Seq<u32>) -> Seq<(i64, i64)> {
    Seq::new(keys.len(), |i: int| (keys[i] as i64, vals[i] as i64))
}

/// Zips parallel key and value columns into index pairs. Columns of unequal
/// length are an error.
pub fn pairs(keys: &Vec<u32>, vals: &Vec<u32>) -> (r: Result<Vec<(i64, i64)>, PbfError>)
    ensures
        match r {
            Ok(out) => keys@.len() == vals@.len() && out@ == spec_pairs(keys@, vals@),
            Err(e) => keys@.len() != vals@.len() && e == PbfError::ColumnLengthMismatch,
        },
{
    if keys.len() != vals.len() {
        return Err(PbfError::ColumnLengthMismatch);
    }
    let mut out: Vec<(i64, i64)> = Vec::new();
    let mut i: usize = 0;
    while i < keys.len()
        invariant
            i <= keys.len(),
            keys.len() == vals.len(),
            out.len() == i,
            forall|k: int| 0 <= k < i ==> out[k] == (keys[k] as i64, vals[k] as i64),
        decreases keys.len() - i,
    {
        out.push((keys[i] as i64, vals[i] as i64));
        i += 1;
    }
    assert(out@ =~= spec_pairs(keys@, vals@));
    Ok(out)
}

/// The tags that a list of index pairs resolves to, or the error of the
/// first index that does not resolve.
pub open spec fn spec_resolve_tags(table: Seq<Option<Seq<char>>>, pairs: Seq<(i64, i64)>) -> Result<
    Seq<TagView>,
    PbfError,
>
    decreases pairs.len(),
{
    if pairs.len() == 0 {
        Ok(Seq::empty())
    } else {
        match spec_resolve_tags(table, pairs.drop_last()) {
            Err(e) => Err(e),
            Ok(earlier) => match spec_lookup(table, pairs.last().0 as int) {
                Err(e) => Err(e),
                Ok(key) => match spec_lookup(table, pairs.last().1 as int) {
                    Err(e) => Err(e),
                    Ok(value) => Ok(earlier.push((key, value))),
                },
            },
        }
    }
}

proof fn lemma_resolve_tags_error(table: Seq<Option<Seq<char>>>, pairs: Seq<(i64, i64)>, n: int)
    requires
        0 <= n <= pairs.len(),
        spec_resolve_tags(table, pairs.take(n)) is Err,
    ensures
        spec_resolve_tags(table, pairs) == spec_resolve_tags(table, pairs.take(n)),
    decreases pairs.len() - n,
{
    if n < pairs.len() {
        assert(pairs.take(n + 1).drop_last() =~= pairs.take(n));
        lemma_resolve_tags_error(table, pairs, n + 1);
    } else {
        assert(pairs.take(n) =~= pairs);
    }
}

/// Resolves the index pairs of a record's tags against the string table.
///
/// An index outside the table and an entry that is not UTF-8 both fail the
/// record: a tag is never dropped in silence.
pub fn resolve_tags(stringtable: &BlockStrings, pairs: &Vec<(i64, i64)>) -> (r: Result<
    Vec<(String, String)>,
    PbfError,
>)
    ensures
        match r {
            Ok(tags) => spec_resolve_tags(stringtable@, pairs@) == Ok::<Seq<TagView>, PbfError>(
                tag_views(tags@),
            ),
            Err(e) => spec_resolve_tags(stringtable@, pairs@) == Err::<Seq<TagView>, PbfError>(e),
        },
{
    let mut tags: Vec<(String, String)> = Vec::new();
    let mut i: usize = 0;
    assert(tag_views(tags@) =~= Seq::<TagView>::empty());
    while i < pairs.len()
        invariant
            i <= pairs.len(),
            spec_resolve_tags(stringtable@, pairs@.take(i as int)) == Ok::<
                Seq<TagView>,
                PbfError,
            >(tag_views(tags@)),
        decreases pairs.len() - i,
    {
        assert(pairs@.take(i + 1).drop_last() =~= pairs@.take(i as int));
        assert(pairs@.take(i + 1).last() == pairs[i as int]);
        let key = match stringtable.lookup(pairs[i].0) {
            Ok(key) => key,
            Err(e) => {
                proof {
                    lemma_resolve_tags_error(stringtable@, pairs@, i + 1);
                }
                return Err(e);
            },
        };
        let value = match stringtable.lookup(pairs[i].1) {
            Ok(value) => value,
            Err(e) => {
                proof {
                    lemma_resolve_tags_error(stringtable@, pairs@, i + 1);
                }
                return Err(e);
            },
        };
        let ghost before = tag_views(tags@);
        let ghost entry = (key@, value@);
        tags.push((key, value));
        assert(tag_views(tags@) =~= before.push(entry));
        i += 1;
    }
    assert(pairs@.take(i as int) =~= pairs@);
    Ok(tags)
}

/// The tags of the row at the front of a flattened tag array and the number
/// of entries the row takes: pairs of a key and a value index up to a zero in
/// the place of a key. `None` where the array ends before the zero.
pub open spec fn spec_tag_row(keys_vals: Seq<i32>) -> Option<(Seq<(i64, i64)>, nat)>
    decreases keys_vals.len(),
{
    if keys_vals.len() == 0 {
        None
    } else if keys_vals[0] == 0 {
        Some((Seq::empty(), 1))
    } else if keys_vals.len() < 2 {
        None
    } else {
        match spec_tag_row(keys_vals.skip(2)) {
            None => None,
            Some((later, n)) => Some(
                (seq![(keys_vals[0] as i64, keys_vals[1] as i64)] + later, n + 2),
            ),
        }
    }
}

/// A row takes at least its terminator and no more entries than are there.
pub proof fn lemma_tag_row_bounds(keys_vals: Seq<i32>)
    ensures
        spec_tag_row(keys_vals) matches Some((_, n)) ==> 1 <= n <= keys_vals.len(),
    decreases keys_vals.len(),
{
    if keys_vals.len() >= 2 && keys_vals[0] != 0 {
        lemma_tag_row_bounds(keys_vals.skip(2));
    }
}

/// The tags of `rows` rows of a dense group. An empty array gives every row
/// no tags; otherwise each row ends with a zero, and what follows the last
/// row is not looked at.
pub open spec fn spec_tag_rows(keys_vals: Seq<i32>, rows: nat) -> Result<
    Seq<Seq<(i64, i64)>>,
    PbfError,
> {
    if keys_vals.len() == 0 {
        Ok(Seq::new(rows, |i: int| Seq::<(i64, i64)>::empty()))
    } else {
        spec_terminated_rows(keys_vals, rows)
    }
}

/// The tags of `rows` rows, each of which ends with a zero.
pub open spec fn spec_terminated_rows(keys_vals: Seq<i32>, rows: nat) -> Result<
    Seq<Seq<(i64, i64)>>,
    PbfError,
>
    decreases rows,
{
    if rows == 0 {
        Ok(Seq::empty())
    } else {
        match spec_tag_row(keys_vals) {
            None => Err(PbfError::UnterminatedTags),
            Some((row, n)) => match spec_terminated_rows(
                keys_vals.skip(n as int),
                (rows - 1) as nat,
            ) {
                Err(e) => Err(e),
                Ok(later) => Ok(seq![row] + later),
            },
        }
    }
}

/// Reads the tags of one row that starts at `pos`: the index pairs and the
/// position after the row's terminator.
pub fn tag_row(keys_vals: &Vec<i32>, pos: usize) -> (r: Option<(Vec<(i64, i64)>, usize)>)
    ensures
        match r {
            Some((row, next)) => pos < next <= keys_vals.len() && spec_tag_row(
                keys_vals@.skip(pos as int),
            ) == Some((row@, (next - pos) as nat)),
            None => pos > keys_vals.len() || spec_tag_row(keys_vals@.skip(pos as int)) is None,
        },
{
    if pos > keys_vals.len() {
        return None;
    }
    let mut row: Vec<(i64, i64)> = Vec::new();
    let mut at: usize = pos;
    assert(row@ + Seq::<(i64, i64)>::empty() =~= row@);
    loop
        invariant
            pos <= at <= keys_vals.len(),
            match spec_tag_row(keys_vals@.skip(at as int)) {
                Some((later, n)) => spec_tag_row(keys_vals@.skip(pos as int)) == Some(
                    (row@ + later, (n + at - pos) as nat),
                ),
                None => spec_tag_row(keys_vals@.skip(pos as int)) is None,
            },
        decreases keys_vals.len() - at,
    {
        let ghost rest = keys_vals@.skip(at as int);
        proof {
            lemma_tag_row_bounds(rest);
        }
        if at >= keys_vals.len() {
            return None;
        }
        assert(rest[0] == keys_vals[at as int]);
        let key: i32 = keys_vals[at];
        if key == 0 {
            assert(row@ + Seq::<(i64, i64)>::empty() =~= row@);
            return Some((row, at + 1));
        }
        if keys_vals.len() - at < 2 {
            return None;
        }
        assert(rest[1] == keys_vals[at + 1]);
        let value: i32 = keys_vals[at + 1];
        proof {
            assert(rest.skip(2) =~= keys_vals@.skip(at + 2));
            if let Some((later, n)) = spec_tag_row(keys_vals@.skip(at + 2)) {
                assert(row@ + (seq![(key as i64, value as i64)] + later) =~= row@.push(
                    (key as i64, value as i64),
                ) + later);
            }
        }
        row.push((key as i64, value as i64));
        at += 2;
    }
}

/// The index pairs of a list of rows.
pub open spec fn row_views(rows: Seq<Vec<(i64, i64)>>) -> Seq<Seq<(i64, i64)>> {
    Seq::new(rows.len(), |i: int| rows[i]@)
}

/// Splits the flattened tag array of a dense group into `rows` rows.
pub fn tag_rows(keys_vals: &Vec<i32>, rows: usize) -> (r: Result<
    Vec<Vec<(i64, i64)>>,
    PbfError,
>)
    ensures
        match r {
            Ok(out) => out.len() == rows && spec_tag_rows(keys_vals@, rows as nat) == Ok::<
                Seq<Seq<(i64, i64)>>,
                PbfError,
            >(row_views(out@)),
            Err(e) => spec_tag_rows(keys_vals@, rows as nat) == Err::<
                Seq<Seq<(i64, i64)>>,
                PbfError,
            >(e),
        },
{
    let mut out: Vec<Vec<(i64, i64)>> = Vec::new();
    let mut done: usize = 0;
    if keys_vals.len() == 0 {
        while done < rows
            invariant
                done <= rows,
                out.len() == done,
                forall|k: int| 0 <= k < done ==> out[k]@ == Seq::<(i64, i64)>::empty(),
            decreases rows - done,
        {
            out.push(Vec::new());
            done += 1;
        }
        assert(row_views(out@) =~= Seq::new(rows as nat, |i: int| Seq::<(i64, i64)>::empty()));
        return Ok(out);
    }
    let mut pos: usize = 0;
    assert(keys_vals@.skip(0) =~= keys_vals@);
    assert(row_views(out@) =~= Seq::<Seq<(i64, i64)>>::empty());
    while done < rows
        invariant
            done <= rows,
            out.len() == done,
            pos <= keys_vals.len(),
            keys_vals.len() != 0,
            match spec_terminated_rows(keys_vals@.skip(pos as int), (rows - done) as nat) {
                Ok(later) => spec_terminated_rows(keys_vals@, rows as nat) == Ok::<
                    Seq<Seq<(i64, i64)>>,
                    PbfError,
                >(row_views(out@) + later),
                Err(e) => spec_terminated_rows(keys_vals@, rows as nat) == Err::<
                    Seq<Seq<(i64, i64)>>,
                    PbfError,
                >(e),
            },
        decreases rows - done,
    {
        let ghost before = row_views(out@);
        let ghost rest = keys_vals@.skip(pos as int);
        match tag_row(keys_vals, pos) {
            None => {
                assert(spec_terminated_rows(rest, (rows - done) as nat) == Err::<
                    Seq<Seq<(i64, i64)>>,
                    PbfError,
                >(PbfError::UnterminatedTags));
                return Err(PbfError::UnterminatedTags);
            },
            Some((row, next)) => {
                proof {
                    assert(rest.skip(next - pos) =~= keys_vals@.skip(next as int));
                    if let Ok(later) = spec_terminated_rows(
                        keys_vals@.skip(next as int),
                        (rows - done - 1) as nat,
                    ) {
                        assert(before + (seq![row@] + later) =~= before.push(row@) + later);
                    }
                }
                out.push(row);
                assert(row_views(out@) =~= before.push(row@));
                pos = next;
                done += 1;
            },
        }
    }
    assert(row_views(out@) + Seq::<Seq<(i64, i64)>>::empty() =~= row_views(out@));
    Ok(out)
}

/// The columns of a dense group after delta decoding, one entry for each row.
pub struct DenseColumns {
    pub ids: Seq<i64>,
    pub lats: Seq<i64>,
    pub lons: Seq<i64>,
    pub versions: Seq<i32>,
    pub dates: Seq<i64>,
    pub changesets: Seq<i64>,
    pub uids: Seq<i64>,
    pub user_sids: Seq<i64>,
    pub visible: Seq<bool>,
    pub tags: Seq<Seq<(i64, i64)>>,
}

/// The metadata columns of a dense group; a group without them has none.
pub open spec fn dense_info(info: Option<DenseInfoView>) -> DenseInfoView {
    match info {
        Some(info) => info,
        None => DenseInfoView {
            version: Seq::empty(),
            timestamp: Seq::empty(),
            changeset: Seq::empty(),
            uid: Seq::empty(),
            user_sid: Seq::empty(),
            visible: Seq::empty(),
        },
    }
}

/// Whether the columns of a dense group that run in parallel have one entry
/// for each id. The column of visibility flags may be shorter.
pub open spec fn dense_lengths_agree(dense: DenseNodesView) -> bool {
    let n = dense.id.len();
    let info = dense_info(dense.denseinfo);
    &&& dense.lat.len() == n
    &&& dense.lon.len() == n
    &&& info.version.len() == n
    &&& info.timestamp.len() == n
    &&& info.changeset.len() == n
    &&& info.uid.len() == n
    &&& info.user_sid.len() == n
}

/// The delta-coded columns of a dense group, reconstructed. Ids, dates and
/// changesets are sums of 64 bits; coordinates, author ids and author string
/// indices are sums of 32 bits. Every column starts from zero.
pub open spec fn spec_dense_columns(dense: DenseNodesView) -> Result<DenseColumns, PbfError> {
    let info = dense_info(dense.denseinfo);
    let ids = spec_delta_decode(dense.id, 0, i64::MIN as int, i64::MAX as int);
    let lats = spec_delta_decode(dense.lat, 0, i32::MIN as int, i32::MAX as int);
    let lons = spec_delta_decode(dense.lon, 0, i32::MIN as int, i32::MAX as int);
    let dates = spec_delta_decode(info.timestamp, 0, i64::MIN as int, i64::MAX as int);
    let changesets = spec_delta_decode(info.changeset, 0, i64::MIN as int, i64::MAX as int);
    let uids = spec_delta_decode(spec_widen(info.uid), 0, i32::MIN as int, i32::MAX as int);
    let user_sids = spec_delta_decode(
        spec_widen(info.user_sid),
        0,
        i32::MIN as int,
        i32::MAX as int,
    );
    let tags = spec_tag_rows(dense.keys_vals, dense.id.len());
    if !dense_lengths_agree(dense) {
        Err(PbfError::ColumnLengthMismatch)
    } else if ids is Err {
        Err(ids->Err_0)
    } else if lats is Err {
        Err(lats->Err_0)
    } else if lons is Err {
        Err(lons->Err_0)
    } else if dates is Err {
        Err(dates->Err_0)
    } else if changesets is Err {
        Err(changesets->Err_0)
    } else if uids is Err {
        Err(uids->Err_0)
    } else if user_sids is Err {
        Err(user_sids->Err_0)
    } else if tags is Err {
        Err(tags->Err_0)
    } else {
        Ok(
            DenseColumns {
                ids: ids->Ok_0,
                lats: lats->Ok_0,
                lons: lons->Ok_0,
                versions: info.version,
                dates: dates->Ok_0,
                changesets: changesets->Ok_0,
                uids: uids->Ok_0,
                user_sids: user_sids->Ok_0,
                visible: info.visible,
                tags: tags->Ok_0,
            },
        )
    }
}

/// Whether row `i` of a dense group is deleted: a row is visible unless the
/// column of flags has an entry for it that says otherwise.
pub open spec fn spec_deleted(visible: Seq<bool>, i: int) -> bool {
    0 <= i < visible.len() && !visible[i]
}

/// The author id of a dense row: not negative and below the largest 32-bit
/// signed number.
pub open spec fn spec_author_id(uid: i64) -> Result<u32, PbfError> {
    if 0 <= uid < i32::MAX {
        Ok(uid as u32)
    } else {
        Err(PbfError::ValueOutOfRange)
    }
}

/// The node that one row of a dense group stands for.
pub open spec fn spec_dense_node(
    id: i64,
    raw_lat: i64,
    raw_lon: i64,
    version: i32,
    date: i64,
    changeset: i64,
    uid: i64,
    user_sid: i64,
    deleted: bool,
    pairs: Seq<(i64, i64)>,
    granularity: i32,
    lat_offset: i64,
    lon_offset: i64,
    date_granularity: i32,
    table: Seq<Option<Seq<char>>>,
) -> Result<ObjView, PbfError> {
    let lat = spec_internal_coord(raw_lat as i32, granularity, lat_offset);
    let lon = spec_internal_coord(raw_lon as i32, granularity, lon_offset);
    let tags = spec_resolve_tags(table, pairs);
    let changeset_id = spec_unsigned(changeset);
    let author = spec_author_id(uid);
    let user = spec_lookup(table, user_sid as int);
    let seconds = spec_epoch_seconds(date, date_granularity);
    let version = spec_unsigned(version as i64);
    if lat is Err {
        Err(lat->Err_0)
    } else if lon is Err {
        Err(lon->Err_0)
    } else if tags is Err {
        Err(tags->Err_0)
    } else if changeset_id is Err {
        Err(changeset_id->Err_0)
    } else if author is Err {
        Err(author->Err_0)
    } else if user is Err {
        Err(user->Err_0)
    } else if seconds is Err {
        Err(seconds->Err_0)
    } else if version is Err {
        Err(version->Err_0)
    } else {
        Ok(
            ObjView {
                id: id,
                version: Some(version->Ok_0),
                deleted: deleted,
                changeset_id: Some(changeset_id->Ok_0),
                timestamp: Some(TimestampView::EpochNunber(seconds->Ok_0)),
                uid: Some(author->Ok_0),
                user: Some(user->Ok_0),
                tags: tags->Ok_0,
                payload: PayloadView::Node(Some((Lat(lat->Ok_0), Lon(lon->Ok_0)))),
            },
        )
    }
}

/// Builds the node of one row of a dense group.
pub fn dense_node(
    id: i64,
    raw_lat: i32,
    raw_lon: i32,
    version: i32,
    date: i64,
    changeset: i64,
    uid: i64,
    user_sid: i64,
    deleted: bool,
    pairs: &Vec<(i64, i64)>,
    granularity: i32,
    lat_offset: i64,
    lon_offset: i64,
    date_granularity: i32,
    stringtable: &BlockStrings,
) -> (r: Result<ArcNode, PbfError>)
    ensures
        match r {
            Ok(node) => spec_dense_node(
                id,
                raw_lat as i64,
                raw_lon as i64,
                version,
                date,
                changeset,
                uid,
                user_sid,
                deleted,
                pairs@,
                granularity,
                lat_offset,
                lon_offset,
                date_granularity,
                stringtable@,
            ) == Ok::<ObjView, PbfError>(node@),
            Err(e) => spec_dense_node(
                id,
                raw_lat as i64,
                raw_lon as i64,
                version,
                date,
                changeset,
                uid,
                user_sid,
                deleted,
                pairs@,
                granularity,
                lat_offset,
                lon_offset,
                date_granularity,
                stringtable@,
            ) == Err::<ObjView, PbfError>(e),
        },
{
    let lat = internal_lat(raw_lat, granularity, lat_offset)?;
    let lon = internal_lon(raw_lon, granularity, lon_offset)?;
    let tags = resolve_tags(stringtable, pairs)?;
    let changeset_id = unsigned(changeset)?;
    if uid < 0 || uid >= i32::MAX as i64 {
        return Err(PbfError::ValueOutOfRange);
    }
    let user = stringtable.lookup(user_sid)?;
    let seconds = epoch_seconds(date, date_granularity)?;
    let version = unsigned(version as i64)?;
    Ok(
        ArcNode {
            _id: id,
            _version: Some(version),
            _deleted: deleted,
            _changeset_id: Some(changeset_id),
            _timestamp: Some(TimestampFormat::EpochNunber(seconds)),
            _uid: Some(uid as u32),
            _user: Some(user),
            _tags: tags,
            _lat_lon: Some((lat, lon)),
        },
    )
}

/// The node of row `i` of a dense group.
pub open spec fn spec_dense_row(
    columns: DenseColumns,
    granularity: i32,
    lat_offset: i64,
    lon_offset: i64,
    date_granularity: i32,
    table: Seq<Option<Seq<char>>>,
    i: int,
) -> Result<ObjView, PbfError> {
    spec_dense_node(
        columns.ids[i],
        columns.lats[i],
        columns.lons[i],
        columns.versions[i],
        columns.dates[i],
        columns.changesets[i],
        columns.uids[i],
        columns.user_sids[i],
        spec_deleted(columns.visible, i),
        columns.tags[i],
        granularity,
        lat_offset,
        lon_offset,
        date_granularity,
        table,
    )
}

/// The nodes of the first `n` rows of a dense group, or the error of the
/// first row that fails.
pub open spec fn spec_dense_rows(
    columns: DenseColumns,
    granularity: i32,
    lat_offset: i64,
    lon_offset: i64,
    date_granularity: i32,
    table: Seq<Option<Seq<char>>>,
    n: nat,
) -> Result<Seq<ObjView>, PbfError>
    decreases n,
{
    if n == 0 {
        Ok(Seq::empty())
    } else {
        match spec_dense_rows(
            columns,
            granularity,
            lat_offset,
            lon_offset,
            date_granularity,
            table,
            (n - 1) as nat,
        ) {
            Err(e) => Err(e),
            Ok(earlier) => match spec_dense_row(
                columns,
                granularity,
                lat_offset,
                lon_offset,
                date_granularity,
                table,
                n - 1,
            ) {
                Err(e) => Err(e),
                Ok(node) => Ok(earlier.push(node)),
            },
        }
    }
}

proof fn lemma_dense_rows_error(
    columns: DenseColumns,
    granularity: i32,
    lat_offset: i64,
    lon_offset: i64,
    date_granularity: i32,
    table: Seq<Option<Seq<char>>>,
    m: nat,
    n: nat,
)
    requires
        m <= n,
        spec_dense_rows(columns, granularity, lat_offset, lon_offset, date_granularity, table, m)
            is Err,
    ensures
        spec_dense_rows(columns, granularity, lat_offset, lon_offset, date_granularity, table, n)
            == spec_dense_rows(
            columns,
            granularity,
            lat_offset,
            lon_offset,
            date_granularity,
            table,
            m,
        ),
    decreases n - m,
{
    if m < n {
        lemma_dense_rows_error(
            columns,
            granularity,
            lat_offset,
            lon_offset,
            date_granularity,
            table,
            m,
            (n - 1) as nat,
        );
    }
}

/// The nodes of a dense group.
///
/// The parallel columns must agree in length; the delta-coded columns are
/// reconstructed, each from zero; then each row gives one node, in order.
pub open spec fn spec_decode_dense(
    dense: DenseNodesView,
    granularity: i32,
    lat_offset: i64,
    lon_offset: i64,
    date_granularity: i32,
    table: Seq<Option<Seq<char>>>,
) -> Result<Seq<ObjView>, PbfError> {
    match spec_dense_columns(dense) {
        Err(e) => Err(e),
        Ok(columns) => spec_dense_rows(
            columns,
            granularity,
            lat_offset,
            lon_offset,
            date_granularity,
            table,
            dense.id.len(),
        ),
    }
}

/// Decodes the nodes of a dense group into a vector of their own.
pub fn dense_nodes(
    dense: &DenseNodes,
    granularity: i32,
    lat_offset: i64,
    lon_offset: i64,
    date_granularity: i32,
    stringtable: &BlockStrings,
) -> (r: Result<Vec<ArcOSMObj>, PbfError>)
    ensures
        match r {
            Ok(nodes) => spec_decode_dense(
                dense@,
                granularity,
                lat_offset,
                lon_offset,
                date_granularity,
                stringtable@,
            ) == Ok::<Seq<ObjView>, PbfError>(obj_views(nodes@)),
            Err(e) => spec_decode_dense(
                dense@,
                granularity,
                lat_offset,
                lon_offset,
                date_granularity,
                stringtable@,
            ) == Err::<Seq<ObjView>, PbfError>(e),
        },
{
    let no_version: Vec<i32> = Vec::new();
    let no_column: Vec<i64> = Vec::new();
    let no_flags: Vec<bool> = Vec::new();
    let (versions, timestamps, changeset_deltas, uid_deltas, sid_deltas, visible) =
        match &dense.denseinfo {
        Some(info) => (
            &info.version,
            &info.timestamp,
            &info.changeset,
            &info.uid,
            &info.user_sid,
            &info.visible,
        ),
        None => (&no_version, &no_column, &no_column, &no_version, &no_version, &no_flags),
    };
    let num_nodes: usize = dense.id.len();
    if dense.lat.len() != num_nodes || dense.lon.len() != num_nodes || versions.len() != num_nodes
        || timestamps.len() != num_nodes || changeset_deltas.len() != num_nodes
        || uid_deltas.len() != num_nodes || sid_deltas.len() != num_nodes {
        return Err(PbfError::ColumnLengthMismatch);
    }
    let ids = delta_decode_within(dense.id.as_slice(), 0, i64::MIN, i64::MAX)?;
    let lats = delta_decode_within(dense.lat.as_slice(), 0, i32::MIN as i64, i32::MAX as i64)?;
    let lons = delta_decode_within(dense.lon.as_slice(), 0, i32::MIN as i64, i32::MAX as i64)?;
    let dates = delta_decode_within(timestamps.as_slice(), 0, i64::MIN, i64::MAX)?;
    let changesets = delta_decode_within(changeset_deltas.as_slice(), 0, i64::MIN, i64::MAX)?;
    let wide_uids = widen(uid_deltas);
    let uids = delta_decode_within(wide_uids.as_slice(), 0, i32::MIN as i64, i32::MAX as i64)?;
    let wide_sids = widen(sid_deltas);
    let user_sids = delta_decode_within(
        wide_sids.as_slice(),
        0,
        i32::MIN as i64,
        i32::MAX as i64,
    )?;
    let tags = tag_rows(&dense.keys_vals, num_nodes)?;
    let ghost columns = DenseColumns {
        ids: ids@,
        lats: lats@,
        lons: lons@,
        versions: versions@,
        dates: dates@,
        changesets: changesets@,
        uids: uids@,
        user_sids: user_sids@,
        visible: visible@,
        tags: row_views(tags@),
    };
    assert(spec_dense_columns(dense@) == Ok::<DenseColumns, PbfError>(columns));
    let mut nodes: Vec<ArcOSMObj> = Vec::new();
    let mut index: usize = 0;
    assert(obj_views(nodes@) =~= Seq::<ObjView>::empty());
    while index < num_nodes
        invariant
            index <= num_nodes,
            num_nodes == dense@.id.len(),
            spec_dense_columns(dense@) == Ok::<DenseColumns, PbfError>(columns),
            ids.len() == num_nodes,
            lats.len() == num_nodes,
            lons.len() == num_nodes,
            versions.len() == num_nodes,
            dates.len() == num_nodes,
            changesets.len() == num_nodes,
            uids.len() == num_nodes,
            user_sids.len() == num_nodes,
            tags.len() == num_nodes,
            forall|k: int| 0 <= k < num_nodes ==> i32::MIN <= #[trigger] lats@[k] <= i32::MAX,
            forall|k: int| 0 <= k < num_nodes ==> i32::MIN <= #[trigger] lons@[k] <= i32::MAX,
            columns == (DenseColumns {
                ids: ids@,
                lats: lats@,
                lons: lons@,
                versions: versions@,
                dates: dates@,
                changesets: changesets@,
                uids: uids@,
                user_sids: user_sids@,
                visible: visible@,
                tags: row_views(tags@),
            }),
            spec_dense_rows(
                columns,
                granularity,
                lat_offset,
                lon_offset,
                date_granularity,
                stringtable@,
                index as nat,
            ) == Ok::<Seq<ObjView>, PbfError>(obj_views(nodes@)),
        decreases num_nodes - index,
    {
        let deleted: bool = if index < visible.len() {
            !visible[index]
        } else {
            false
        };
        match dense_node(
            ids[index],
            lats[index] as i32,
            lons[index] as i32,
            versions[index],
            dates[index],
            changesets[index],
            uids[index],
            user_sids[index],
            deleted,
            &tags[index],
            granularity,
            lat_offset,
            lon_offset,
            date_granularity,
            stringtable,
        ) {
            Ok(node) => {
                let ghost before = obj_views(nodes@);
                nodes.push(ArcOSMObj::Node(node));
                assert(obj_views(nodes@) =~= before.push(node@));
            },
            Err(e) => {
                proof {
                    assert(columns.tags[index as int] == tags[index as int]@);
                    assert(spec_dense_row(
                        columns,
                        granularity,
                        lat_offset,
                        lon_offset,
                        date_granularity,
                        stringtable@,
                        index as int,
                    ) == Err::<ObjView, PbfError>(e));
                    assert(spec_dense_rows(
                        columns,
                        granularity,
                        lat_offset,
                        lon_offset,
                        date_granularity,
                        stringtable@,
                        (index + 1) as nat,
                    ) == Err::<Seq<ObjView>, PbfError>(e));
                    lemma_dense_rows_error(
                        columns,
                        granularity,
                        lat_offset,
                        lon_offset,
                        date_granularity,
                        stringtable@,
                        (index + 1) as nat,
                        num_nodes as nat,
                    );
                }
                return Err(e);
            },
        }
        index += 1;
    }
    Ok(nodes)
}

} // verus!
