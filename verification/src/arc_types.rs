//! Nodes, ways and relations that own their strings.
use vstd::prelude::*;
use crate::ObjId;
use crate::coords::{Lat, Lon};
use crate::objects::{
    member_views, Node, ObjView, OSMObj, OSMObjBase, OSMObjectType, PayloadView, Relation,
    set_tag_in, string_view, tag_in, tag_views, unset_tag_in, Way,
};
use crate::timestamp::{timestamp_view, TimestampFormat};

verus! {

/// A node: a point with metadata and tags.
#[derive(PartialEq, Debug, Clone)]
pub struct ArcNode {
    pub _id: ObjId,
    pub _version: Option<u32>,
    pub _deleted: bool,
    pub _changeset_id: Option<u32>,
    pub _timestamp: Option<TimestampFormat>,
    pub _uid: Option<u32>,
    pub _user: Option<String>,
    pub _tags: Vec<(String, String)>,
    pub _lat_lon: Option<(Lat, Lon)>,
}

/// A way: an ordered list of node ids with metadata and tags.
#[derive(PartialEq, Debug, Clone)]
pub struct ArcWay {
    pub _id: ObjId,
    pub _version: Option<u32>,
    pub _deleted: bool,
    pub _changeset_id: Option<u32>,
    pub _timestamp: Option<TimestampFormat>,
    pub _uid: Option<u32>,
    pub _user: Option<String>,
    pub _tags: Vec<(String, String)>,
    pub _nodes: Vec<ObjId>,
}

/// A relation: an ordered list of members with metadata and tags.
#[derive(PartialEq, Debug, Clone)]
pub struct ArcRelation {
    pub _id: ObjId,
    pub _version: Option<u32>,
    pub _deleted: bool,
    pub _changeset_id: Option<u32>,
    pub _timestamp: Option<TimestampFormat>,
    pub _uid: Option<u32>,
    pub _user: Option<String>,
    pub _tags: Vec<(String, String)>,
    pub _members: Vec<(OSMObjectType, ObjId, String)>,
}

/// A node, a way or a relation.
#[derive(PartialEq, Debug, Clone)]
pub enum ArcOSMObj {
    Node(ArcNode),
    Way(ArcWay),
    Relation(ArcRelation),
}

impl View for ArcNode {
    type V = ObjView;

    open spec fn view(&self) -> ObjView {
        ObjView {
            id: self._id,
            version: self._version,
            deleted: self._deleted,
            changeset_id: self._changeset_id,
            timestamp: timestamp_view(self._timestamp),
            uid: self._uid,
            user: string_view(self._user),
            tags: tag_views(self._tags@),
            payload: PayloadView::Node(self._lat_lon),
        }
    }
}

impl View for ArcWay {
    type V = ObjView;

    open spec fn view(&self) -> ObjView {
        ObjView {
            id: self._id,
            version: self._version,
            deleted: self._deleted,
            changeset_id: self._changeset_id,
            timestamp: timestamp_view(self._timestamp),
            uid: self._uid,
            user: string_view(self._user),
            tags: tag_views(self._tags@),
            payload: PayloadView::Way(self._nodes@),
        }
    }
}

impl View for ArcRelation {
    type V = ObjView;

    open spec fn view(&self) -> ObjView {
        ObjView {
            id: self._id,
            version: self._version,
            deleted: self._deleted,
            changeset_id: self._changeset_id,
            timestamp: timestamp_view(self._timestamp),
            uid: self._uid,
            user: string_view(self._user),
            tags: tag_views(self._tags@),
            payload: PayloadView::Relation(member_views(self._members@)),
        }
    }
}

impl View for ArcOSMObj {
    type V = ObjView;

    open spec fn view(&self) -> ObjView {
        match self {
            ArcOSMObj::Node(n) => n@,
            ArcOSMObj::Way(w) => w@,
            ArcOSMObj::Relation(r) => r@,
        }
    }
}

/// The views of a list of objects.
pub open spec fn obj_views(objs: Seq<ArcOSMObj>) -> Seq<ObjView> {
    Seq::new(objs.len(), |i: int| objs[i]@)
}

impl OSMObjBase for ArcNode {
    open spec fn obj(&self) -> ObjView {
        self@
    }

    fn id(&self) -> (r: ObjId) {
        self._id
    }

    fn set_id(&mut self, val: ObjId) {
        self._id = val;
    }

    fn version(&self) -> (r: Option<u32>) {
        self._version
    }

    fn set_version(&mut self, val: Option<u32>) {
        self._version = val;
    }

    fn deleted(&self) -> (r: bool) {
        self._deleted
    }

    fn set_deleted(&mut self, val: bool) {
        self._deleted = val;
    }

    fn changeset_id(&self) -> (r: Option<u32>) {
        self._changeset_id
    }

    fn set_changeset_id(&mut self, val: Option<u32>) {
        self._changeset_id = val;
    }

    fn timestamp(&self) -> (r: &Option<TimestampFormat>) {
        &self._timestamp
    }

    fn set_timestamp(&mut self, val: Option<TimestampFormat>) {
        self._timestamp = val;
    }

    fn uid(&self) -> (r: Option<u32>) {
        self._uid
    }

    fn set_uid(&mut self, val: Option<u32>) {
        self._uid = val;
    }

    fn user(&self) -> (r: Option<&str>) {
        match &self._user {
            Some(name) => Some(name.as_str()),
            None => None,
        }
    }

    fn set_user(&mut self, val: Option<&str>) {
        self._user = match val {
            Some(name) => Some(name.to_owned()),
            None => None,
        };
    }

    fn tags(&self) -> (r: &Vec<(String, String)>) {
        &self._tags
    }

    fn tag(&self, key: &str) -> (r: Option<&str>) {
        tag_in(&self._tags, key)
    }

    fn set_tag(&mut self, key: &str, value: String) {
        set_tag_in(&mut self._tags, key, value);
    }

    fn unset_tag(&mut self, key: &str) {
        unset_tag_in(&mut self._tags, key);
    }

    fn object_type(&self) -> (r: OSMObjectType) {
        OSMObjectType::Node
    }
}

impl Node for ArcNode {
    fn lat_lon(&self) -> (r: Option<(Lat, Lon)>) {
        self._lat_lon
    }

    fn set_lat_lon_direct(&mut self, loc: Option<(Lat, Lon)>) {
        self._lat_lon = loc;
    }
}

impl OSMObjBase for ArcWay {
    open spec fn obj(&self) -> ObjView {
        self@
    }

    fn id(&self) -> (r: ObjId) {
        self._id
    }

    fn set_id(&mut self, val: ObjId) {
        self._id = val;
    }

    fn version(&self) -> (r: Option<u32>) {
        self._version
    }

    fn set_version(&mut self, val: Option<u32>) {
        self._version = val;
    }

    fn deleted(&self) -> (r: bool) {
        self._deleted
    }

    fn set_deleted(&mut self, val: bool) {
        self._deleted = val;
    }

    fn changeset_id(&self) -> (r: Option<u32>) {
        self._changeset_id
    }

    fn set_changeset_id(&mut self, val: Option<u32>) {
        self._changeset_id = val;
    }

    fn timestamp(&self) -> (r: &Option<TimestampFormat>) {
        &self._timestamp
    }

    fn set_timestamp(&mut self, val: Option<TimestampFormat>) {
        self._timestamp = val;
    }

    fn uid(&self) -> (r: Option<u32>) {
        self._uid
    }

    fn set_uid(&mut self, val: Option<u32>) {
        self._uid = val;
    }

    fn user(&self) -> (r: Option<&str>) {
        match &self._user {
            Some(name) => Some(name.as_str()),
            None => None,
        }
    }

    fn set_user(&mut self, val: Option<&str>) {
        self._user = match val {
            Some(name) => Some(name.to_owned()),
            None => None,
        };
    }

    fn tags(&self) -> (r: &Vec<(String, String)>) {
        &self._tags
    }

    fn tag(&self, key: &str) -> (r: Option<&str>) {
        tag_in(&self._tags, key)
    }

    fn set_tag(&mut self, key: &str, value: String) {
        set_tag_in(&mut self._tags, key, value);
    }

    fn unset_tag(&mut self, key: &str) {
        unset_tag_in(&mut self._tags, key);
    }

    fn object_type(&self) -> (r: OSMObjectType) {
        OSMObjectType::Way
    }
}

impl Way for ArcWay {
    fn nodes(&self) -> (r: &[ObjId]) {
        self._nodes.as_slice()
    }

    fn num_nodes(&self) -> (r: usize) {
        self._nodes.len()
    }

    fn node(&self, idx: usize) -> (r: Option<ObjId>) {
        if idx < self._nodes.len() {
            Some(self._nodes[idx])
        } else {
            None
        }
    }

    fn set_nodes(&mut self, nodes: Vec<ObjId>) {
        self._nodes = nodes;
    }
}

impl OSMObjBase for ArcRelation {
    open spec fn obj(&self) -> ObjView {
        self@
    }

    fn id(&self) -> (r: ObjId) {
        self._id
    }

    fn set_id(&mut self, val: ObjId) {
        self._id = val;
    }

    fn version(&self) -> (r: Option<u32>) {
        self._version
    }

    fn set_version(&mut self, val: Option<u32>) {
        self._version = val;
    }

    fn deleted(&self) -> (r: bool) {
        self._deleted
    }

    fn set_deleted(&mut self, val: bool) {
        self._deleted = val;
    }

    fn changeset_id(&self) -> (r: Option<u32>) {
        self._changeset_id
    }

    fn set_changeset_id(&mut self, val: Option<u32>) {
        self._changeset_id = val;
    }

    fn timestamp(&self) -> (r: &Option<TimestampFormat>) {
        &self._timestamp
    }

    fn set_timestamp(&mut self, val: Option<TimestampFormat>) {
        self._timestamp = val;
    }

    fn uid(&self) -> (r: Option<u32>) {
        self._uid
    }

    fn set_uid(&mut self, val: Option<u32>) {
        self._uid = val;
    }

    fn user(&self) -> (r: Option<&str>) {
        match &self._user {
            Some(name) => Some(name.as_str()),
            None => None,
        }
    }

    fn set_user(&mut self, val: Option<&str>) {
        self._user = match val {
            Some(name) => Some(name.to_owned()),
            None => None,
        };
    }

    fn tags(&self) -> (r: &Vec<(String, String)>) {
        &self._tags
    }

    fn tag(&self, key: &str) -> (r: Option<&str>) {
        tag_in(&self._tags, key)
    }

    fn set_tag(&mut self, key: &str, value: String) {
        set_tag_in(&mut self._tags, key, value);
    }

    fn unset_tag(&mut self, key: &str) {
        unset_tag_in(&mut self._tags, key);
    }

    fn object_type(&self) -> (r: OSMObjectType) {
        OSMObjectType::Relation
    }
}

impl Relation for ArcRelation {
    fn members(&self) -> (r: &Vec<(OSMObjectType, ObjId, String)>) {
        &self._members
    }

    fn set_members(&mut self, members: Vec<(OSMObjectType, ObjId, String)>) {
        self._members = members;
    }
}

impl OSMObjBase for ArcOSMObj {
    open spec fn obj(&self) -> ObjView {
        self@
    }

    fn id(&self) -> (r: ObjId) {
        match self {
            ArcOSMObj::Node(x) => x.id(),
            ArcOSMObj::Way(x) => x.id(),
            ArcOSMObj::Relation(x) => x.id(),
        }
    }

    fn set_id(&mut self, val: ObjId) {
        match self {
            ArcOSMObj::Node(x) => x.set_id(val),
            ArcOSMObj::Way(x) => x.set_id(val),
            ArcOSMObj::Relation(x) => x.set_id(val),
        }
    }

    fn version(&self) -> (r: Option<u32>) {
        match self {
            ArcOSMObj::Node(x) => x.version(),
            ArcOSMObj::Way(x) => x.version(),
            ArcOSMObj::Relation(x) => x.version(),
        }
    }

    fn set_version(&mut self, val: Option<u32>) {
        match self {
            ArcOSMObj::Node(x) => x.set_version(val),
            ArcOSMObj::Way(x) => x.set_version(val),
            ArcOSMObj::Relation(x) => x.set_version(val),
        }
    }

    fn deleted(&self) -> (r: bool) {
        match self {
            ArcOSMObj::Node(x) => x.deleted(),
            ArcOSMObj::Way(x) => x.deleted(),
            ArcOSMObj::Relation(x) => x.deleted(),
        }
    }

    fn set_deleted(&mut self, val: bool) {
        match self {
            ArcOSMObj::Node(x) => x.set_deleted(val),
            ArcOSMObj::Way(x) => x.set_deleted(val),
            ArcOSMObj::Relation(x) => x.set_deleted(val),
        }
    }

    fn changeset_id(&self) -> (r: Option<u32>) {
        match self {
            ArcOSMObj::Node(x) => x.changeset_id(),
            ArcOSMObj::Way(x) => x.changeset_id(),
            ArcOSMObj::Relation(x) => x.changeset_id(),
        }
    }

    fn set_changeset_id(&mut self, val: Option<u32>) {
        match self {
            ArcOSMObj::Node(x) => x.set_changeset_id(val),
            ArcOSMObj::Way(x) => x.set_changeset_id(val),
            ArcOSMObj::Relation(x) => x.set_changeset_id(val),
        }
    }

    fn timestamp(&self) -> (r: &Option<TimestampFormat>) {
        match self {
            ArcOSMObj::Node(x) => x.timestamp(),
            ArcOSMObj::Way(x) => x.timestamp(),
            ArcOSMObj::Relation(x) => x.timestamp(),
        }
    }

    fn set_timestamp(&mut self, val: Option<TimestampFormat>) {
        match self {
            ArcOSMObj::Node(x) => x.set_timestamp(val),
            ArcOSMObj::Way(x) => x.set_timestamp(val),
            ArcOSMObj::Relation(x) => x.set_timestamp(val),
        }
    }

    fn uid(&self) -> (r: Option<u32>) {
        match self {
            ArcOSMObj::Node(x) => x.uid(),
            ArcOSMObj::Way(x) => x.uid(),
            ArcOSMObj::Relation(x) => x.uid(),
        }
    }

    fn set_uid(&mut self, val: Option<u32>) {
        match self {
            ArcOSMObj::Node(x) => x.set_uid(val),
            ArcOSMObj::Way(x) => x.set_uid(val),
            ArcOSMObj::Relation(x) => x.set_uid(val),
        }
    }

    fn user(&self) -> (r: Option<&str>) {
        match self {
            ArcOSMObj::Node(x) => x.user(),
            ArcOSMObj::Way(x) => x.user(),
            ArcOSMObj::Relation(x) => x.user(),
        }
    }

    fn set_user(&mut self, val: Option<&str>) {
        match self {
            ArcOSMObj::Node(x) => x.set_user(val),
            ArcOSMObj::Way(x) => x.set_user(val),
            ArcOSMObj::Relation(x) => x.set_user(val),
        }
    }

    fn tags(&self) -> (r: &Vec<(String, String)>) {
        match self {
            ArcOSMObj::Node(x) => x.tags(),
            ArcOSMObj::Way(x) => x.tags(),
            ArcOSMObj::Relation(x) => x.tags(),
        }
    }

    fn num_tags(&self) -> (r: usize) {
        match self {
            ArcOSMObj::Node(x) => x._tags.len(),
            ArcOSMObj::Way(x) => x._tags.len(),
            ArcOSMObj::Relation(x) => x._tags.len(),
        }
    }

    fn untagged(&self) -> (r: bool) {
        match self {
            ArcOSMObj::Node(x) => x._tags.is_empty(),
            ArcOSMObj::Way(x) => x._tags.is_empty(),
            ArcOSMObj::Relation(x) => x._tags.is_empty(),
        }
    }

    fn tag(&self, key: &str) -> (r: Option<&str>) {
        match self {
            ArcOSMObj::Node(x) => x.tag(key),
            ArcOSMObj::Way(x) => x.tag(key),
            ArcOSMObj::Relation(x) => x.tag(key),
        }
    }

    fn set_tag(&mut self, key: &str, value: String) {
        match self {
            ArcOSMObj::Node(x) => x.set_tag(key, value),
            ArcOSMObj::Way(x) => x.set_tag(key, value),
            ArcOSMObj::Relation(x) => x.set_tag(key, value),
        }
    }

    fn unset_tag(&mut self, key: &str) {
        match self {
            ArcOSMObj::Node(x) => x.unset_tag(key),
            ArcOSMObj::Way(x) => x.unset_tag(key),
            ArcOSMObj::Relation(x) => x.unset_tag(key),
        }
    }

    fn object_type(&self) -> (r: OSMObjectType) {
        match self {
            ArcOSMObj::Node(_) => OSMObjectType::Node,
            ArcOSMObj::Way(_) => OSMObjectType::Way,
            ArcOSMObj::Relation(_) => OSMObjectType::Relation,
        }
    }
}

impl OSMObj for ArcOSMObj {
    type Node = ArcNode;

    type Way = ArcWay;

    type Relation = ArcRelation;

    fn into_node(self) -> (r: Option<ArcNode>)
        ensures
            r == (match self {
                ArcOSMObj::Node(n) => Some(n),
                _ => None,
            }),
    {
        if let ArcOSMObj::Node(n) = self {
            Some(n)
        } else {
            None
        }
    }

    fn into_way(self) -> (r: Option<ArcWay>)
        ensures
            r == (match self {
                ArcOSMObj::Way(w) => Some(w),
                _ => None,
            }),
    {
        if let ArcOSMObj::Way(w) = self {
            Some(w)
        } else {
            None
        }
    }

    fn into_relation(self) -> (r: Option<ArcRelation>)
        ensures
            r == (match self {
                ArcOSMObj::Relation(rel) => Some(rel),
                _ => None,
            }),
    {
        if let ArcOSMObj::Relation(rel) = self {
            Some(rel)
        } else {
            None
        }
    }

    fn as_node(&self) -> (r: Option<&ArcNode>)
        ensures
            r == (match self {
                ArcOSMObj::Node(n) => Some(n),
                _ => None,
            }),
    {
        if let ArcOSMObj::Node(n) = self {
            Some(n)
        } else {
            None
        }
    }

    fn as_way(&self) -> (r: Option<&ArcWay>)
        ensures
            r == (match self {
                ArcOSMObj::Way(w) => Some(w),
                _ => None,
            }),
    {
        if let ArcOSMObj::Way(w) = self {
            Some(w)
        } else {
            None
        }
    }

    fn as_relation(&self) -> (r: Option<&ArcRelation>)
        ensures
            r == (match self {
                ArcOSMObj::Relation(rel) => Some(rel),
                _ => None,
            }),
    {
        if let ArcOSMObj::Relation(rel) = self {
            Some(rel)
        } else {
            None
        }
    }

    fn as_node_mut(&mut self) -> (r: Option<&mut ArcNode>)
        ensures
            match r {
                Some(n) => *old(self) == ArcOSMObj::Node(*n) && *final(self) == ArcOSMObj::Node(
                    *final(n),
                ),
                None => *final(self) == *old(self),
            },
    {
        if let ArcOSMObj::Node(n) = self {
            Some(n)
        } else {
            None
        }
    }

    fn as_way_mut(&mut self) -> (r: Option<&mut ArcWay>)
        ensures
            match r {
                Some(w) => *old(self) == ArcOSMObj::Way(*w) && *final(self) == ArcOSMObj::Way(
                    *final(w),
                ),
                None => *final(self) == *old(self),
            },
    {
        if let ArcOSMObj::Way(w) = self {
            Some(w)
        } else {
            None
        }
    }

    fn as_relation_mut(&mut self) -> (r: Option<&mut ArcRelation>)
        ensures
            match r {
                Some(rel) => *old(self) == ArcOSMObj::Relation(*rel) && *final(self)
                    == ArcOSMObj::Relation(*final(rel)),
                None => *final(self) == *old(self),
            },
    {
        if let ArcOSMObj::Relation(rel) = self {
            Some(rel)
        } else {
            None
        }
    }
}

} // verus!
