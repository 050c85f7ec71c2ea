//! The schema of a primitive block: the string table, the groups and the
//! column-coded records they hold, as they stand in the file.
use vstd::prelude::*;
use crate::error::PbfError;
use crate::fields::{
    column_bool, column_int32, column_sint32, column_sint64, column_uint32, optional_bool,
    optional_int32, optional_int64, optional_uint32, repeated_bytes, spec_all_bytes,
    spec_column_bool, spec_column_int32, spec_column_sint32, spec_column_sint64, spec_column_uint32,
    spec_optional_bool, spec_optional_int32, spec_optional_int64, spec_optional_uint32,
};
use crate::message::{
    Message, optional_message, optional_view, repeated_messages, spec_optional_message,
    spec_repeated_messages, views,
};
use crate::strings::byte_strings;
use crate::wire::{Field, WireField};

verus! {

/// The interned byte strings of one block. Entry zero is by convention empty.
#[derive(Debug, Clone)]
pub struct StringTable {
    pub s: Vec<Vec<u8>>,
}

impl View for StringTable {
    type V = Seq<Seq<u8>>;

    open spec fn view(&self) -> Seq<Seq<u8>> {
        byte_strings(self.s@)
    }
}

impl Message for StringTable {
    open spec fn spec_from_fields(fields: Seq<Field>) -> Result<Seq<Seq<u8>>, PbfError> {
        spec_all_bytes(fields, 1)
    }

    fn from_fields(fields: &Vec<WireField>) -> (r: Result<Self, PbfError>) {
        let s = repeated_bytes(fields, 1)?;
        Ok(StringTable { s })
    }
}

impl StringTable {
    /// The entries of the table.
    pub fn get_s(&self) -> (r: &Vec<Vec<u8>>)
        ensures
            r == &self.s,
    {
        &self.s
    }

    /// Takes the entries out of the table and leaves it empty.
    pub fn take_s(&mut self) -> (r: Vec<Vec<u8>>)
        ensures
            r == old(self).s,
            final(self).s@.len() == 0,
    {
        let mut taken: Vec<Vec<u8>> = Vec::new();
        std::mem::swap(&mut self.s, &mut taken);
        taken
    }
}

/// The metadata of one way or relation. Every field is optional.
#[derive(Debug, Clone, Copy, PartialEq, Eq, Structural)]
pub struct Info {
    pub version: Option<i32>,
    pub timestamp: Option<i64>,
    pub changeset: Option<i64>,
    pub uid: Option<i32>,
    pub user_sid: Option<u32>,
    pub visible: Option<bool>,
}

impl View for Info {
    type V = Info;

    open spec fn view(&self) -> Info {
        *self
    }
}

impl Message for Info {
    open spec fn spec_from_fields(fields: Seq<Field>) -> Result<Info, PbfError> {
        let version = spec_optional_int32(fields, 1);
        let timestamp = spec_optional_int64(fields, 2);
        let changeset = spec_optional_int64(fields, 3);
        let uid = spec_optional_int32(fields, 4);
        let user_sid = spec_optional_uint32(fields, 5);
        let visible = spec_optional_bool(fields, 6);
        if version is Err {
            Err(version->Err_0)
        } else if timestamp is Err {
            Err(timestamp->Err_0)
        } else if changeset is Err {
            Err(changeset->Err_0)
        } else if uid is Err {
            Err(uid->Err_0)
        } else if user_sid is Err {
            Err(user_sid->Err_0)
        } else if visible is Err {
            Err(visible->Err_0)
        } else {
            Ok(
                Info {
                    version: version->Ok_0,
                    timestamp: timestamp->Ok_0,
                    changeset: changeset->Ok_0,
                    uid: uid->Ok_0,
                    user_sid: user_sid->Ok_0,
                    visible: visible->Ok_0,
                },
            )
        }
    }

    fn from_fields(fields: &Vec<WireField>) -> (r: Result<Self, PbfError>) {
        let version = optional_int32(fields, 1)?;
        let timestamp = optional_int64(fields, 2)?;
        let changeset = optional_int64(fields, 3)?;
        let uid = optional_int32(fields, 4)?;
        let user_sid = optional_uint32(fields, 5)?;
        let visible = optional_bool(fields, 6)?;
        Ok(Info { version, timestamp, changeset, uid, user_sid, visible })
    }
}

/// The metadata of a dense group of nodes, one column for each field.
#[derive(Debug, Clone)]
pub struct DenseInfo {
    pub version: Vec<i32>,
    pub timestamp: Vec<i64>,
    pub changeset: Vec<i64>,
    pub uid: Vec<i32>,
    pub user_sid: Vec<i32>,
    pub visible: Vec<bool>,
}

/// What a `DenseInfo` holds.
pub struct DenseInfoView {
    pub version: Seq<i32>,
    pub timestamp: Seq<i64>,
    pub changeset: Seq<i64>,
    pub uid: Seq<i32>,
    pub user_sid: Seq<i32>,
    pub visible: Seq<bool>,
}

impl View for DenseInfo {
    type V = DenseInfoView;

    open spec fn view(&self) -> DenseInfoView {
        DenseInfoView {
            version: self.version@,
            timestamp: self.timestamp@,
            changeset: self.changeset@,
            uid: self.uid@,
            user_sid: self.user_sid@,
            visible: self.visible@,
        }
    }
}

impl Message for DenseInfo {
    open spec fn spec_from_fields(fields: Seq<Field>) -> Result<DenseInfoView, PbfError> {
        let version = spec_column_int32(fields, 1);
        let timestamp = spec_column_sint64(fields, 2);
        let changeset = spec_column_sint64(fields, 3);
        let uid = spec_column_sint32(fields, 4);
        let user_sid = spec_column_sint32(fields, 5);
        let visible = spec_column_bool(fields, 6);
        if version is Err {
            Err(version->Err_0)
        } else if timestamp is Err {
            Err(timestamp->Err_0)
        } else if changeset is Err {
            Err(changeset->Err_0)
        } else if uid is Err {
            Err(uid->Err_0)
        } else if user_sid is Err {
            Err(user_sid->Err_0)
        } else if visible is Err {
            Err(visible->Err_0)
        } else {
            Ok(
                DenseInfoView {
                    version: version->Ok_0,
                    timestamp: timestamp->Ok_0,
                    changeset: changeset->Ok_0,
                    uid: uid->Ok_0,
                    user_sid: user_sid->Ok_0,
                    visible: visible->Ok_0,
                },
            )
        }
    }

    fn from_fields(fields: &Vec<WireField>) -> (r: Result<Self, PbfError>) {
        let version = column_int32(fields, 1)?;
        let timestamp = column_sint64(fields, 2)?;
        let changeset = column_sint64(fields, 3)?;
        let uid = column_sint32(fields, 4)?;
        let user_sid = column_sint32(fields, 5)?;
        let visible = column_bool(fields, 6)?;
        Ok(DenseInfo { version, timestamp, changeset, uid, user_sid, visible })
    }
}

/// A group of nodes in column form.
#[derive(Debug, Clone)]
pub struct DenseNodes {
    pub id: Vec<i64>,
    pub denseinfo: Option<DenseInfo>,
    pub lat: Vec<i64>,
    pub lon: Vec<i64>,
    pub keys_vals: Vec<i32>,
}

/// What a `DenseNodes` holds.
pub struct DenseNodesView {
    pub id: Seq<i64>,
    pub denseinfo: Option<DenseInfoView>,
    pub lat: Seq<i64>,
    pub lon: Seq<i64>,
    pub keys_vals: Seq<i32>,
}

impl View for DenseNodes {
    type V = DenseNodesView;

    open spec fn view(&self) -> DenseNodesView {
        DenseNodesView {
            id: self.id@,
            denseinfo: optional_view(self.denseinfo),
            lat: self.lat@,
            lon: self.lon@,
            keys_vals: self.keys_vals@,
        }
    }
}

impl Message for DenseNodes {
    open spec fn spec_from_fields(fields: Seq<Field>) -> Result<DenseNodesView, PbfError> {
        let id = spec_column_sint64(fields, 1);
        let denseinfo = spec_optional_message::<DenseInfo>(fields, 5);
        let lat = spec_column_sint64(fields, 8);
        let lon = spec_column_sint64(fields, 9);
        let keys_vals = spec_column_int32(fields, 10);
        if id is Err {
            Err(id->Err_0)
        } else if denseinfo is Err {
            Err(denseinfo->Err_0)
        } else if lat is Err {
            Err(lat->Err_0)
        } else if lon is Err {
            Err(lon->Err_0)
        } else if keys_vals is Err {
            Err(keys_vals->Err_0)
        } else {
            Ok(
                DenseNodesView {
                    id: id->Ok_0,
                    denseinfo: denseinfo->Ok_0,
                    lat: lat->Ok_0,
                    lon: lon->Ok_0,
                    keys_vals: keys_vals->Ok_0,
                },
            )
        }
    }

    fn from_fields(fields: &Vec<WireField>) -> (r: Result<Self, PbfError>) {
        let id = column_sint64(fields, 1)?;
        let denseinfo = optional_message::<DenseInfo>(fields, 5)?;
        let lat = column_sint64(fields, 8)?;
        let lon = column_sint64(fields, 9)?;
        let keys_vals = column_int32(fields, 10)?;
        Ok(DenseNodes { id, denseinfo, lat, lon, keys_vals })
    }
}

/// A way as it stands in the file: string indices for tags, deltas for nodes.
#[derive(Debug, Clone)]
pub struct Way {
    pub id: i64,
    pub keys: Vec<u32>,
    pub vals: Vec<u32>,
    pub info: Option<Info>,
    pub refs: Vec<i64>,
}

/// What a `Way` holds.
pub struct WayView {
    pub id: i64,
    pub keys: Seq<u32>,
    pub vals: Seq<u32>,
    pub info: Option<Info>,
    pub refs: Seq<i64>,
}

impl View for Way {
    type V = WayView;

    open spec fn view(&self) -> WayView {
        WayView {
            id: self.id,
            keys: self.keys@,
            vals: self.vals@,
            info: self.info,
            refs: self.refs@,
        }
    }
}

impl Message for Way {
    open spec fn spec_from_fields(fields: Seq<Field>) -> Result<WayView, PbfError> {
        let id = spec_optional_int64(fields, 1);
        let keys = spec_column_uint32(fields, 2);
        let vals = spec_column_uint32(fields, 3);
        let info = spec_optional_message::<Info>(fields, 4);
        let refs = spec_column_sint64(fields, 8);
        if id is Err {
            Err(id->Err_0)
        } else if id->Ok_0 is None {
            Err(PbfError::MissingRequiredField)
        } else if keys is Err {
            Err(keys->Err_0)
        } else if vals is Err {
            Err(vals->Err_0)
        } else if info is Err {
            Err(info->Err_0)
        } else if refs is Err {
            Err(refs->Err_0)
        } else {
            Ok(
                WayView {
                    id: id->Ok_0->Some_0,
                    keys: keys->Ok_0,
                    vals: vals->Ok_0,
                    info: info->Ok_0,
                    refs: refs->Ok_0,
                },
            )
        }
    }

    fn from_fields(fields: &Vec<WireField>) -> (r: Result<Self, PbfError>) {
        let id = match optional_int64(fields, 1)? {
            Some(id) => id,
            None => {
                return Err(PbfError::MissingRequiredField);
            },
        };
        let keys = column_uint32(fields, 2)?;
        let vals = column_uint32(fields, 3)?;
        let info = optional_message::<Info>(fields, 4)?;
        let refs = column_sint64(fields, 8)?;
        Ok(Way { id, keys, vals, info, refs })
    }
}

/// A relation as it stands in the file: string indices for tags and roles,
/// deltas for member ids, numbers for member kinds.
#[derive(Debug, Clone)]
pub struct Relation {
    pub id: i64,
    pub keys: Vec<u32>,
    pub vals: Vec<u32>,
    pub info: Option<Info>,
    pub roles_sid: Vec<i32>,
    pub memids: Vec<i64>,
    pub types: Vec<i32>,
}

/// What a `Relation` holds.
pub struct RelationView {
    pub id: i64,
    pub keys: Seq<u32>,
    pub vals: Seq<u32>,
    pub info: Option<Info>,
    pub roles_sid: Seq<i32>,
    pub memids: Seq<i64>,
    pub types: Seq<i32>,
}

impl View for Relation {
    type V = RelationView;

    open spec fn view(&self) -> RelationView {
        RelationView {
            id: self.id,
            keys: self.keys@,
            vals: self.vals@,
            info: self.info,
            roles_sid: self.roles_sid@,
            memids: self.memids@,
            types: self.types@,
        }
    }
}

impl Message for Relation {
    open spec fn spec_from_fields(fields: Seq<Field>) -> Result<RelationView, PbfError> {
        let id = spec_optional_int64(fields, 1);
        let keys = spec_column_uint32(fields, 2);
        let vals = spec_column_uint32(fields, 3);
        let info = spec_optional_message::<Info>(fields, 4);
        let roles_sid = spec_column_int32(fields, 8);
        let memids = spec_column_sint64(fields, 9);
        let types = spec_column_int32(fields, 10);
        if id is Err {
            Err(id->Err_0)
        } else if id->Ok_0 is None {
            Err(PbfError::MissingRequiredField)
        } else if keys is Err {
            Err(keys->Err_0)
        } else if vals is Err {
            Err(vals->Err_0)
        } else if info is Err {
            Err(info->Err_0)
        } else if roles_sid is Err {
            Err(roles_sid->Err_0)
        } else if memids is Err {
            Err(memids->Err_0)
        } else if types is Err {
            Err(types->Err_0)
        } else {
            Ok(
                RelationView {
                    id: id->Ok_0->Some_0,
                    keys: keys->Ok_0,
                    vals: vals->Ok_0,
                    info: info->Ok_0,
                    roles_sid: roles_sid->Ok_0,
                    memids: memids->Ok_0,
                    types: types->Ok_0,
                },
            )
        }
    }

    fn from_fields(fields: &Vec<WireField>) -> (r: Result<Self, PbfError>) {
        let id = match optional_int64(fields, 1)? {
            Some(id) => id,
            None => {
                return Err(PbfError::MissingRequiredField);
            },
        };
        let keys = column_uint32(fields, 2)?;
        let vals = column_uint32(fields, 3)?;
        let info = optional_message::<Info>(fields, 4)?;
        let roles_sid = column_int32(fields, 8)?;
        let memids = column_sint64(fields, 9)?;
        let types = column_int32(fields, 10)?;
        Ok(Relation { id, keys, vals, info, roles_sid, memids, types })
    }
}

/// One group of a block. A group holds records of one kind: dense nodes,
/// plain nodes, ways or relations.
#[derive(Debug, Clone)]
pub struct PrimitiveGroup {
    /// The plain nodes of the group, each as the bytes of its message.
    pub nodes: Vec<Vec<u8>>,
    pub dense: Option<DenseNodes>,
    pub ways: Vec<Way>,
    pub relations: Vec<Relation>,
}

/// What a `PrimitiveGroup` holds.
pub struct PrimitiveGroupView {
    pub nodes: Seq<Seq<u8>>,
    pub dense: Option<DenseNodesView>,
    pub ways: Seq<WayView>,
    pub relations: Seq<RelationView>,
}

impl View for PrimitiveGroup {
    type V = PrimitiveGroupView;

    open spec fn view(&self) -> PrimitiveGroupView {
        PrimitiveGroupView {
            nodes: byte_strings(self.nodes@),
            dense: optional_view(self.dense),
            ways: views(self.ways@),
            relations: views(self.relations@),
        }
    }
}

impl Message for PrimitiveGroup {
    open spec fn spec_from_fields(fields: Seq<Field>) -> Result<PrimitiveGroupView, PbfError> {
        let nodes = spec_all_bytes(fields, 1);
        let dense = spec_optional_message::<DenseNodes>(fields, 2);
        let ways = spec_repeated_messages::<Way>(fields, 3);
        let relations = spec_repeated_messages::<Relation>(fields, 4);
        if nodes is Err {
            Err(nodes->Err_0)
        } else if dense is Err {
            Err(dense->Err_0)
        } else if ways is Err {
            Err(ways->Err_0)
        } else if relations is Err {
            Err(relations->Err_0)
        } else {
            Ok(
                PrimitiveGroupView {
                    nodes: nodes->Ok_0,
                    dense: dense->Ok_0,
                    ways: ways->Ok_0,
                    relations: relations->Ok_0,
                },
            )
        }
    }

    fn from_fields(fields: &Vec<WireField>) -> (r: Result<Self, PbfError>) {
        let nodes = repeated_bytes(fields, 1)?;
        let dense = optional_message::<DenseNodes>(fields, 2)?;
        let ways = repeated_messages::<Way>(fields, 3)?;
        let relations = repeated_messages::<Relation>(fields, 4)?;
        Ok(PrimitiveGroup { nodes, dense, ways, relations })
    }
}

impl PrimitiveGroup {
    /// Whether the group holds nodes in column form.
    pub fn has_dense(&self) -> (r: bool)
        ensures
            r == self.dense is Some,
    {
        self.dense.is_some()
    }

    /// The plain nodes of the group.
    pub fn get_nodes(&self) -> (r: &Vec<Vec<u8>>)
        ensures
            r == &self.nodes,
    {
        &self.nodes
    }

    /// The ways of the group.
    pub fn get_ways(&self) -> (r: &Vec<Way>)
        ensures
            r == &self.ways,
    {
        &self.ways
    }

    /// The relations of the group.
    pub fn get_relations(&self) -> (r: &Vec<Relation>)
        ensures
            r == &self.relations,
    {
        &self.relations
    }
}

/// One block: the strings, the scaling of its coordinates and dates, and the
/// groups of records.
#[derive(Debug, Clone)]
pub struct PrimitiveBlock {
    pub stringtable: StringTable,
    pub primitivegroup: Vec<PrimitiveGroup>,
    pub granularity: Option<i32>,
    pub lat_offset: Option<i64>,
    pub lon_offset: Option<i64>,
    pub date_granularity: Option<i32>,
}

/// What a `PrimitiveBlock` holds.
pub struct PrimitiveBlockView {
    pub stringtable: Seq<Seq<u8>>,
    pub primitivegroup: Seq<PrimitiveGroupView>,
    pub granularity: Option<i32>,
    pub lat_offset: Option<i64>,
    pub lon_offset: Option<i64>,
    pub date_granularity: Option<i32>,
}

impl View for PrimitiveBlock {
    type V = PrimitiveBlockView;

    open spec fn view(&self) -> PrimitiveBlockView {
        PrimitiveBlockView {
            stringtable: self.stringtable@,
            primitivegroup: views(self.primitivegroup@),
            granularity: self.granularity,
            lat_offset: self.lat_offset,
            lon_offset: self.lon_offset,
            date_granularity: self.date_granularity,
        }
    }
}

impl PrimitiveBlockView {
    /// The step of the block's coordinates in nanodegrees: 100 where the
    /// block names none.
    pub open spec fn get_granularity(self) -> i32 {
        match self.granularity {
            Some(g) => g,
            None => 100,
        }
    }

    /// The offset of the block's latitudes in nanodegrees: 0 where the block
    /// names none.
    pub open spec fn get_lat_offset(self) -> i64 {
        match self.lat_offset {
            Some(o) => o,
            None => 0,
        }
    }

    /// The offset of the block's longitudes in nanodegrees: 0 where the block
    /// names none.
    pub open spec fn get_lon_offset(self) -> i64 {
        match self.lon_offset {
            Some(o) => o,
            None => 0,
        }
    }

    /// The step of the block's dates in milliseconds: 1000 where the block
    /// names none.
    pub open spec fn get_date_granularity(self) -> i32 {
        match self.date_granularity {
            Some(g) => g,
            None => 1000,
        }
    }
}

impl Message for PrimitiveBlock {
    open spec fn spec_from_fields(fields: Seq<Field>) -> Result<PrimitiveBlockView, PbfError> {
        let stringtable = spec_optional_message::<StringTable>(fields, 1);
        let primitivegroup = spec_repeated_messages::<PrimitiveGroup>(fields, 2);
        let granularity = spec_optional_int32(fields, 17);
        let date_granularity = spec_optional_int32(fields, 18);
        let lat_offset = spec_optional_int64(fields, 19);
        let lon_offset = spec_optional_int64(fields, 20);
        if stringtable is Err {
            Err(stringtable->Err_0)
        } else if stringtable->Ok_0 is None {
            Err(PbfError::MissingRequiredField)
        } else if primitivegroup is Err {
            Err(primitivegroup->Err_0)
        } else if granularity is Err {
            Err(granularity->Err_0)
        } else if date_granularity is Err {
            Err(date_granularity->Err_0)
        } else if lat_offset is Err {
            Err(lat_offset->Err_0)
        } else if lon_offset is Err {
            Err(lon_offset->Err_0)
        } else {
            Ok(
                PrimitiveBlockView {
                    stringtable: stringtable->Ok_0->Some_0,
                    primitivegroup: primitivegroup->Ok_0,
                    granularity: granularity->Ok_0,
                    lat_offset: lat_offset->Ok_0,
                    lon_offset: lon_offset->Ok_0,
                    date_granularity: date_granularity->Ok_0,
                },
            )
        }
    }

    fn from_fields(fields: &Vec<WireField>) -> (r: Result<Self, PbfError>) {
        let stringtable = match optional_message::<StringTable>(fields, 1)? {
            Some(t) => t,
            None => {
                return Err(PbfError::MissingRequiredField);
            },
        };
        let primitivegroup = repeated_messages::<PrimitiveGroup>(fields, 2)?;
        let granularity = optional_int32(fields, 17)?;
        let date_granularity = optional_int32(fields, 18)?;
        let lat_offset = optional_int64(fields, 19)?;
        let lon_offset = optional_int64(fields, 20)?;
        Ok(
            PrimitiveBlock {
                stringtable,
                primitivegroup,
                granularity,
                lat_offset,
                lon_offset,
                date_granularity,
            },
        )
    }
}

impl PrimitiveBlock {
    /// The step of the block's coordinates in nanodegrees: 100 where the
    /// block names none.
    pub fn get_granularity(&self) -> (r: i32)
        ensures
            r == self@.get_granularity(),
    {
        match self.granularity {
            Some(g) => g,
            None => 100,
        }
    }

    /// The offset of the block's latitudes in nanodegrees.
    pub fn get_lat_offset(&self) -> (r: i64)
        ensures
            r == self@.get_lat_offset(),
    {
        match self.lat_offset {
            Some(o) => o,
            None => 0,
        }
    }

    /// The offset of the block's longitudes in nanodegrees.
    pub fn get_lon_offset(&self) -> (r: i64)
        ensures
            r == self@.get_lon_offset(),
    {
        match self.lon_offset {
            Some(o) => o,
            None => 0,
        }
    }

    /// The step of the block's dates in milliseconds: 1000 where the block
    /// names none.
    pub fn get_date_granularity(&self) -> (r: i32)
        ensures
            r == self@.get_date_granularity(),
    {
        match self.date_granularity {
            Some(g) => g,
            None => 1000,
        }
    }

    /// The groups of the block, in order.
    pub fn get_primitivegroup(&self) -> (r: &Vec<PrimitiveGroup>)
        ensures
            r == &self.primitivegroup,
    {
        &self.primitivegroup
    }

    /// Takes the string table out of the block and leaves an empty one.
    pub fn take_stringtable(&mut self) -> (r: StringTable)
        ensures
            r == old(self).stringtable,
            final(self).stringtable.s@.len() == 0,
            final(self).primitivegroup == old(self).primitivegroup,
            final(self).granularity == old(self).granularity,
            final(self).lat_offset == old(self).lat_offset,
            final(self).lon_offset == old(self).lon_offset,
            final(self).date_granularity == old(self).date_granularity,
    {
        let mut taken = StringTable { s: Vec::new() };
        std::mem::swap(&mut self.stringtable, &mut taken);
        taken
    }
}

} // verus!
