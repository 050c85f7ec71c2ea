//! What nodes, ways and relations have in common, and what they hold.
use vstd::prelude::*;
use vstd::std_specs::convert::TryFromSpecImpl;
use vstd::string::StringExecFns;
use crate::ObjId;
use crate::coords::{Lat, Lon};
use crate::text::push_char;
use crate::timestamp::{timestamp_view, TimestampFormat, TimestampView};

verus! {

/// A Node, Way or Relation
#[derive(Clone, Copy, PartialEq, Eq, PartialOrd, Ord, Debug, Structural)]
pub enum OSMObjectType {
    Node,
    Way,
    Relation,
}

/// One tag: a key and its value.
pub type TagView = (Seq<char>, Seq<char>);

/// One member of a relation: its kind, its id and the role it plays.
pub type MemberView = (OSMObjectType, ObjId, Seq<char>);

/// What sets the three kinds of object apart.
pub enum PayloadView {
    /// A node has a position, unless it only holds tags or was deleted.
    Node(Option<(Lat, Lon)>),
    /// A way has the ids of its nodes, in the order of the path.
    Way(Seq<ObjId>),
    /// A relation has members, in order.
    Relation(Seq<MemberView>),
}

/// The mathematical content of an object: the metadata that all kinds share,
/// the tags, and the payload of its kind.
pub struct ObjView {
    pub id: ObjId,
    pub version: Option<u32>,
    pub deleted: bool,
    pub changeset_id: Option<u32>,
    pub timestamp: Option<TimestampView>,
    pub uid: Option<u32>,
    pub user: Option<Seq<char>>,
    pub tags: Seq<TagView>,
    pub payload: PayloadView,
}

/// The view of an optional string.
pub open spec fn string_view(s: Option<String>) -> Option<Seq<char>> {
    match s {
        Some(s) => Some(s@),
        None => None,
    }
}

/// The views of a list of tags.
pub open spec fn tag_views(tags: Seq<(String, String)>) -> Seq<TagView> {
    Seq::new(tags.len(), |i: int| (tags[i].0@, tags[i].1@))
}

/// The views of a list of members.
pub open spec fn member_views(members: Seq<(OSMObjectType, ObjId, String)>) -> Seq<MemberView> {
    Seq::new(members.len(), |i: int| (members[i].0, members[i].1, members[i].2@))
}

/// Whether two texts are the same.
pub fn str_eq(a: &str, b: &str) -> (r: bool)
    ensures
        r == (a@ == b@),
{
    let left: String = a.to_owned();
    let right: String = b.to_owned();
    left == right
}

/// The position of the first tag with the given key.
pub open spec fn tag_index(tags: Seq<TagView>, key: Seq<char>) -> Option<int>
    decreases tags.len(),
{
    if tags.len() == 0 {
        None
    } else {
        match tag_index(tags.drop_last(), key) {
            Some(i) => Some(i),
            None => if tags.last().0 == key {
                Some(tags.len() - 1)
            } else {
                None
            },
        }
    }
}

/// The position that `tag_index` gives holds the key, and no position
/// before it does; where it gives none, no tag has the key.
pub proof fn lemma_tag_index(tags: Seq<TagView>, key: Seq<char>)
    ensures
        match tag_index(tags, key) {
            Some(i) => 0 <= i < tags.len() && tags[i].0 == key && forall|j: int|
                0 <= j < i ==> (#[trigger] tags[j]).0 != key,
            None => forall|j: int| 0 <= j < tags.len() ==> (#[trigger] tags[j]).0 != key,
        },
    decreases tags.len(),
{
    if tags.len() > 0 {
        lemma_tag_index(tags.drop_last(), key);
        assert forall|j: int| 0 <= j < tags.len() - 1 implies tags.drop_last()[j] == tags[j] by {}
    }
}

/// The value of the first tag with the given key.
pub open spec fn spec_tag(tags: Seq<TagView>, key: Seq<char>) -> Option<Seq<char>> {
    match tag_index(tags, key) {
        Some(i) => Some(tags[i].1),
        None => None,
    }
}

/// The tags after a key was given a value: the first tag with that key is
/// replaced, and where there is none the tag is added at the end.
pub open spec fn spec_set_tag(tags: Seq<TagView>, key: Seq<char>, value: Seq<char>) -> Seq<
    TagView,
> {
    match tag_index(tags, key) {
        Some(i) => tags.update(i, (key, value)),
        None => tags.push((key, value)),
    }
}

/// The tags after the first tag with the given key was removed.
pub open spec fn spec_unset_tag(tags: Seq<TagView>, key: Seq<char>) -> Seq<TagView> {
    match tag_index(tags, key) {
        Some(i) => tags.remove(i),
        None => tags,
    }
}

/// After a key was given a value, the key has that value.
pub proof fn lemma_set_tag_then_tag(tags: Seq<TagView>, key: Seq<char>, value: Seq<char>)
    ensures
        spec_tag(spec_set_tag(tags, key, value), key) == Some(value),
{
    lemma_tag_index(tags, key);
    let after = spec_set_tag(tags, key, value);
    lemma_tag_index(after, key);
    match tag_index(tags, key) {
        Some(i) => {
            assert(after[i].0 == key);
            assert forall|j: int| 0 <= j < i implies (#[trigger] after[j]).0 != key by {
                assert(tags[j].0 != key);
            }
        },
        None => {
            assert(after[tags.len() as int].0 == key);
            assert forall|j: int| 0 <= j < tags.len() implies (#[trigger] after[j]).0 != key by {
                assert(tags[j].0 != key);
            }
        },
    }
}

/// Finds the first tag with the given key.
pub fn find_tag(tags: &Vec<(String, String)>, key: &str) -> (r: Option<usize>)
    ensures
        match r {
            Some(i) => i < tags@.len() && tag_index(tag_views(tags@), key@) == Some(i as int),
            None => tag_index(tag_views(tags@), key@) is None,
        },
{
    let ghost all = tag_views(tags@);
    let mut i: usize = 0;
    while i < tags.len()
        invariant
            i <= tags.len(),
            all == tag_views(tags@),
            tag_index(all.take(i as int), key@) is None,
        decreases tags.len() - i,
    {
        assert(all.take(i + 1).drop_last() =~= all.take(i as int));
        assert(all.take(i + 1).last() == all[i as int]);
        if str_eq(tags[i].0.as_str(), key) {
            proof {
                lemma_tag_index_found(all, key@, i + 1);
            }
            return Some(i);
        }
        i += 1;
    }
    assert(all.take(i as int) =~= all);
    None
}

proof fn lemma_tag_index_found(tags: Seq<TagView>, key: Seq<char>, n: int)
    requires
        0 <= n <= tags.len(),
        tag_index(tags.take(n), key) is Some,
    ensures
        tag_index(tags, key) == tag_index(tags.take(n), key),
    decreases tags.len() - n,
{
    if n < tags.len() {
        assert(tags.take(n + 1).drop_last() =~= tags.take(n));
        lemma_tag_index_found(tags, key, n + 1);
    } else {
        assert(tags.take(n) =~= tags);
    }
}

/// The value of the first tag with the given key.
pub fn tag_in<'a>(tags: &'a Vec<(String, String)>, key: &str) -> (r: Option<&'a str>)
    ensures
        match r {
            Some(value) => spec_tag(tag_views(tags@), key@) == Some(value@),
            None => spec_tag(tag_views(tags@), key@) is None,
        },
{
    match find_tag(tags, key) {
        Some(i) => Some(tags[i].1.as_str()),
        None => None,
    }
}

/// Gives a key a value: the first tag with that key is replaced, and where
/// there is none the tag is added at the end.
pub fn set_tag_in(tags: &mut Vec<(String, String)>, key: &str, value: String)
    ensures
        tag_views(final(tags)@) == spec_set_tag(tag_views(old(tags)@), key@, value@),
{
    let ghost before = tag_views(tags@);
    let entry: (String, String) = (key.to_owned(), value);
    let ghost entry_view = (entry.0@, entry.1@);
    match find_tag(tags, key) {
        None => {
            tags.push(entry);
            assert(tag_views(tags@) =~= before.push(entry_view));
        },
        Some(i) => {
            let _ = tags.remove(i);
            tags.insert(i, entry);
            assert(tag_views(tags@) =~= before.update(i as int, entry_view));
        },
    }
}

/// Removes the first tag with the given key.
pub fn unset_tag_in(tags: &mut Vec<(String, String)>, key: &str)
    ensures
        tag_views(final(tags)@) == spec_unset_tag(tag_views(old(tags)@), key@),
{
    let ghost before = tag_views(tags@);
    match find_tag(tags, key) {
        None => {},
        Some(i) => {
            let _ = tags.remove(i);
            assert(tag_views(tags@) =~= before.remove(i as int));
        },
    }
}

/// The basic metadata fields all OSM objects share
pub trait OSMObjBase: Sized {
    /// What the object holds.
    spec fn obj(&self) -> ObjView;

    /// The id of the object.
    fn id(&self) -> (r: ObjId)
        ensures
            r == self.obj().id,
    ;

    /// Sets the id of the object.
    fn set_id(&mut self, val: ObjId)
        ensures
            final(self).obj() == (ObjView { id: val, ..old(self).obj() }),
    ;

    /// The version of the object, where it is known.
    fn version(&self) -> (r: Option<u32>)
        ensures
            r == self.obj().version,
    ;

    /// Sets or unsets the version of the object.
    fn set_version(&mut self, val: Option<u32>)
        ensures
            final(self).obj() == (ObjView { version: val, ..old(self).obj() }),
    ;

    /// Whether the object is deleted, which is to say not visible.
    fn deleted(&self) -> (r: bool)
        ensures
            r == self.obj().deleted,
    ;

    /// Marks the object as deleted or as visible.
    fn set_deleted(&mut self, val: bool)
        ensures
            final(self).obj() == (ObjView { deleted: val, ..old(self).obj() }),
    ;

    /// The changeset that made this version of the object, where it is known.
    fn changeset_id(&self) -> (r: Option<u32>)
        ensures
            r == self.obj().changeset_id,
    ;

    /// Sets or unsets the changeset of the object.
    fn set_changeset_id(&mut self, val: Option<u32>)
        ensures
            final(self).obj() == (ObjView { changeset_id: val, ..old(self).obj() }),
    ;

    /// When this version of the object was made, where it is known.
    fn timestamp(&self) -> (r: &Option<TimestampFormat>)
        ensures
            timestamp_view(*r) == self.obj().timestamp,
    ;

    /// Sets or unsets the timestamp of the object.
    fn set_timestamp(&mut self, val: Option<TimestampFormat>)
        ensures
            final(self).obj() == (ObjView { timestamp: timestamp_view(val), ..old(self).obj() }),
    ;

    /// The id of the author of this version, where it is known.
    fn uid(&self) -> (r: Option<u32>)
        ensures
            r == self.obj().uid,
    ;

    /// Sets or unsets the id of the author.
    fn set_uid(&mut self, val: Option<u32>)
        ensures
            final(self).obj() == (ObjView { uid: val, ..old(self).obj() }),
    ;

    /// The name of the author of this version, where it is known.
    fn user(&self) -> (r: Option<&str>)
        ensures
            match r {
                Some(name) => self.obj().user == Some(name@),
                None => self.obj().user is None,
            },
    ;

    /// Sets or unsets the name of the author.
    fn set_user(&mut self, val: Option<&str>)
        ensures
            final(self).obj() == (ObjView {
                user: match val {
                    Some(name) => Some(name@),
                    None => None,
                },
                ..old(self).obj()
            }),
    ;

    /// The tags of the object, in their order.
    fn tags(&self) -> (r: &Vec<(String, String)>)
        ensures
            tag_views(r@) == self.obj().tags,
    ;

    /// The value of the first tag with the given key.
    fn tag(&self, key: &str) -> (r: Option<&str>)
        ensures
            match r {
                Some(value) => spec_tag(self.obj().tags, key@) == Some(value@),
                None => spec_tag(self.obj().tags, key@) is None,
            },
    ;

    /// Whether a tag has the given key.
    fn has_tag(&self, key: &str) -> (r: bool)
        ensures
            r == spec_tag(self.obj().tags, key@) is Some,
    {
        self.tag(key).is_some()
    }

    /// The number of tags.
    fn num_tags(&self) -> (r: usize)
        ensures
            r == self.obj().tags.len(),
    {
        self.tags().len()
    }

    /// True iff this object has tags
    fn tagged(&self) -> (r: bool)
        ensures
            r == (self.obj().tags.len() > 0),
    {
        !self.untagged()
    }

    /// True iff this object has no tags
    fn untagged(&self) -> (r: bool)
        ensures
            r == (self.obj().tags.len() == 0),
    {
        self.num_tags() == 0
    }

    /// Gives a key a value: the first tag with that key is replaced, and
    /// where there is none the tag is added at the end.
    fn set_tag(&mut self, key: &str, value: String)
        ensures
            final(self).obj() == (ObjView {
                tags: spec_set_tag(old(self).obj().tags, key@, value@),
                ..old(self).obj()
            }),
    ;

    /// Removes the first tag with the given key.
    fn unset_tag(&mut self, key: &str)
        ensures
            final(self).obj() == (ObjView {
                tags: spec_unset_tag(old(self).obj().tags, key@),
                ..old(self).obj()
            }),
    ;

    /// Forgets who made the object and in which changeset.
    fn strip_metadata(&mut self)
        ensures
            final(self).obj() == (ObjView {
                uid: None,
                user: None,
                changeset_id: None,
                ..old(self).obj()
            }),
    {
        self.set_uid(None);
        self.set_user(None);
        self.set_changeset_id(None);
    }

    /// The kind of the object.
    fn object_type(&self) -> (r: OSMObjectType)
        ensures
            r == kind_of(self.obj().payload),
    ;
}

/// The kind of object that a payload belongs to.
pub open spec fn kind_of(payload: PayloadView) -> OSMObjectType {
    match payload {
        PayloadView::Node(_) => OSMObjectType::Node,
        PayloadView::Way(_) => OSMObjectType::Way,
        PayloadView::Relation(_) => OSMObjectType::Relation,
    }
}

/// A Node
pub trait Node: OSMObjBase {
    /// Latitude & Longitude of the node (if it's set)
    fn lat_lon(&self) -> (r: Option<(Lat, Lon)>)
        ensures
            self.obj().payload == PayloadView::Node(r),
    ;

    /// True iff this node has latitude & longitude set
    fn has_lat_lon(&self) -> (r: bool)
        ensures
            self.obj().payload matches PayloadView::Node(position) && r == position is Some,
    {
        self.lat_lon().is_some()
    }

    /// Remove the lat & lon for this node
    fn unset_lat_lon(&mut self)
        ensures
            final(self).obj() == (ObjView { payload: PayloadView::Node(None), ..old(self).obj() }),
    {
        self.set_lat_lon_direct(None);
    }

    /// Directly set the lat & lon of the node.
    fn set_lat_lon_direct(&mut self, loc: Option<(Lat, Lon)>)
        ensures
            final(self).obj() == (ObjView { payload: PayloadView::Node(loc), ..old(self).obj() }),
    ;
}

/// Whether a path ends where it starts.
pub open spec fn spec_is_closed(nodes: Seq<ObjId>) -> bool {
    nodes.len() > 0 && nodes.first() == nodes.last()
}

/// The text of the key that tells whether a closed way is an area.
pub open spec fn area_key() -> Seq<char> {
    "area"@
}

/// The text of the value that says a closed way is not an area.
pub open spec fn area_no() -> Seq<char> {
    "no"@
}

/// Whether a way with these nodes and tags is an area: it is closed and not
/// tagged `area=no`.
pub open spec fn spec_is_area(nodes: Seq<ObjId>, tags: Seq<TagView>) -> bool {
    spec_is_closed(nodes) && spec_tag(tags, area_key()) != Some(area_no())
}

/// A Way
pub trait Way: OSMObjBase {
    /// The ids of the nodes of the way, in the order of the path.
    fn nodes(&self) -> (r: &[ObjId])
        ensures
            self.obj().payload == PayloadView::Way(r@),
    ;

    /// The number of nodes of the way.
    fn num_nodes(&self) -> (r: usize)
        ensures
            self.obj().payload matches PayloadView::Way(nodes) && r == nodes.len(),
    ;

    /// The id of the node at a position of the path, or `None` beyond its end.
    fn node(&self, idx: usize) -> (r: Option<ObjId>)
        ensures
            self.obj().payload matches PayloadView::Way(nodes) && r == (if idx < nodes.len() {
                Some(nodes[idx as int])
            } else {
                None
            }),
    ;

    /// Replaces the nodes of the way.
    fn set_nodes(&mut self, nodes: Vec<ObjId>)
        ensures
            final(self).obj() == (ObjView { payload: PayloadView::Way(nodes@), ..old(self).obj() }),
    ;

    /// A Way which begins and ends with the same Node is considered "closed".
    ///
    /// A closed way that also has an `area=yes` tag should be interpreted as an area.
    ///
    /// This method only compares Node ID's, and does no location based comparison.
    fn is_closed(&self) -> (r: bool)
        ensures
            self.obj().payload matches PayloadView::Way(nodes) && r == spec_is_closed(nodes),
    {
        let nodes = self.nodes();
        if nodes.len() == 0 {
            false
        } else {
            nodes[0] == nodes[nodes.len() - 1]
        }
    }

    /// When `is_area` is true, the Way should be interpreted as a 2-D shape rather than a 1-D
    /// linestring.
    fn is_area(&self) -> (r: bool)
        ensures
            self.obj().payload matches PayloadView::Way(nodes) && r == spec_is_area(
                nodes,
                self.obj().tags,
            ),
    {
        // Generally any closed way represents an area; the `area=yes` tag should also be
        // present, but sometimes it's `area=highway` or other things. In the interest of
        // accepting all plausible input, we assume it's an area unless explicitly marked
        // otherwise.
        let not_an_area: bool = match self.tag("area") {
            Some(value) => str_eq(value, "no"),
            None => false,
        };
        self.is_closed() && !not_an_area
    }
}

/// A Relation
pub trait Relation: OSMObjBase {
    /// The members of the relation, in order.
    fn members(&self) -> (r: &Vec<(OSMObjectType, ObjId, String)>)
        ensures
            self.obj().payload == PayloadView::Relation(member_views(r@)),
    ;

    /// Replaces the members of the relation.
    fn set_members(&mut self, members: Vec<(OSMObjectType, ObjId, String)>)
        ensures
            final(self).obj() == (ObjView {
                payload: PayloadView::Relation(member_views(members@)),
                ..old(self).obj()
            }),
    ;
}

/// Something which could be any one of the possible OSM objects
pub trait OSMObj: OSMObjBase {
    /// The type of the Node type
    type Node: Node;

    /// The type of the Way type
    type Way: Way;

    /// The type of the Relation type
    type Relation: Relation;

    /// The node that this object is, or `None` where it is none.
    fn into_node(self) -> (r: Option<Self::Node>)
        ensures
            match r {
                Some(node) => self.obj().payload is Node && node.obj() == self.obj(),
                None => !(self.obj().payload is Node),
            },
    ;

    /// The way that this object is, or `None` where it is none.
    fn into_way(self) -> (r: Option<Self::Way>)
        ensures
            match r {
                Some(way) => self.obj().payload is Way && way.obj() == self.obj(),
                None => !(self.obj().payload is Way),
            },
    ;

    /// The relation that this object is, or `None` where it is none.
    fn into_relation(self) -> (r: Option<Self::Relation>)
        ensures
            match r {
                Some(relation) => self.obj().payload is Relation && relation.obj() == self.obj(),
                None => !(self.obj().payload is Relation),
            },
    ;

    /// A reference to the node that this object is, or `None` where it is none.
    fn as_node(&self) -> (r: Option<&Self::Node>)
        ensures
            match r {
                Some(node) => self.obj().payload is Node && node.obj() == self.obj(),
                None => !(self.obj().payload is Node),
            },
    ;

    /// A reference to the way that this object is, or `None` where it is none.
    fn as_way(&self) -> (r: Option<&Self::Way>)
        ensures
            match r {
                Some(way) => self.obj().payload is Way && way.obj() == self.obj(),
                None => !(self.obj().payload is Way),
            },
    ;

    /// A reference to the relation that this object is, or `None` where it is none.
    fn as_relation(&self) -> (r: Option<&Self::Relation>)
        ensures
            match r {
                Some(relation) => self.obj().payload is Relation && relation.obj() == self.obj(),
                None => !(self.obj().payload is Relation),
            },
    ;

    /// A mutable reference to the node that this object is, or `None` where it is none.
    fn as_node_mut(&mut self) -> (r: Option<&mut Self::Node>)
        ensures
            match r {
                Some(node) => old(self).obj().payload is Node && node.obj() == old(self).obj()
                    && final(self).obj() == final(node).obj(),
                None => !(old(self).obj().payload is Node) && final(self).obj() == old(
                    self,
                ).obj(),
            },
    ;

    /// A mutable reference to the way that this object is, or `None` where it is none.
    fn as_way_mut(&mut self) -> (r: Option<&mut Self::Way>)
        ensures
            match r {
                Some(way) => old(self).obj().payload is Way && way.obj() == old(self).obj()
                    && final(self).obj() == final(way).obj(),
                None => !(old(self).obj().payload is Way) && final(self).obj() == old(self).obj(),
            },
    ;

    /// A mutable reference to the relation that this object is, or `None` where it is
    /// none.
    fn as_relation_mut(&mut self) -> (r: Option<&mut Self::Relation>)
        ensures
            match r {
                Some(relation) => old(self).obj().payload is Relation && relation.obj() == old(
                    self,
                ).obj() && final(self).obj() == final(relation).obj(),
                None => !(old(self).obj().payload is Relation) && final(self).obj() == old(
                    self,
                ).obj(),
            },
    ;

    /// Whether the object is a node.
    fn is_node(&self) -> (r: bool)
        ensures
            r == self.obj().payload is Node,
    {
        self.object_type() == OSMObjectType::Node
    }

    /// Whether the object is a way.
    fn is_way(&self) -> (r: bool)
        ensures
            r == self.obj().payload is Way,
    {
        self.object_type() == OSMObjectType::Way
    }

    /// Whether the object is a relation.
    fn is_relation(&self) -> (r: bool)
        ensures
            r == self.obj().payload is Relation,
    {
        self.object_type() == OSMObjectType::Relation
    }
}

/// The message of a text that names no kind of object.
pub open spec fn cannot_convert(text: Seq<char>) -> Seq<char> {
    "Cannot convert "@ + text + " to OSMObjectType"@
}

/// The kind that a letter stands for: `n`, `w` or `r`.
pub open spec fn spec_kind_of_char(c: char) -> Option<OSMObjectType> {
    if c == 'n' {
        Some(OSMObjectType::Node)
    } else if c == 'w' {
        Some(OSMObjectType::Way)
    } else if c == 'r' {
        Some(OSMObjectType::Relation)
    } else {
        None
    }
}

/// The kind that a word stands for: a letter, the full name, or `rel`.
pub open spec fn spec_kind_of_str(s: Seq<char>) -> Option<OSMObjectType> {
    if s == "n"@ || s == "node"@ {
        Some(OSMObjectType::Node)
    } else if s == "w"@ || s == "way"@ {
        Some(OSMObjectType::Way)
    } else if s == "r"@ || s == "relation"@ || s == "rel"@ {
        Some(OSMObjectType::Relation)
    } else {
        None
    }
}

impl OSMObjectType {
    /// The kind that a letter stands for.
    pub fn from_char(c: char) -> (r: Result<OSMObjectType, String>)
        ensures
            match spec_kind_of_char(c) {
                Some(kind) => r == Ok::<OSMObjectType, String>(kind),
                None => r matches Err(message) && message@ == cannot_convert(seq![c]),
            },
    {
        if c == 'n' {
            Ok(OSMObjectType::Node)
        } else if c == 'w' {
            Ok(OSMObjectType::Way)
        } else if c == 'r' {
            Ok(OSMObjectType::Relation)
        } else {
            let mut message: String = "Cannot convert ".to_owned();
            let ghost start = message@;
            push_char(&mut message, c);
            assert(message@ =~= start + seq![c]);
            message.append(" to OSMObjectType");
            Err(message)
        }
    }

    /// The kind that a word stands for.
    pub fn parse_kind(s: &str) -> (r: Result<OSMObjectType, String>)
        ensures
            match spec_kind_of_str(s@) {
                Some(kind) => r == Ok::<OSMObjectType, String>(kind),
                None => r matches Err(message) && message@ == cannot_convert(s@),
            },
    {
        if str_eq(s, "n") || str_eq(s, "node") {
            Ok(OSMObjectType::Node)
        } else if str_eq(s, "w") || str_eq(s, "way") {
            Ok(OSMObjectType::Way)
        } else if str_eq(s, "r") || str_eq(s, "relation") || str_eq(s, "rel") {
            Ok(OSMObjectType::Relation)
        } else {
            let mut message: String = "Cannot convert ".to_owned();
            message.append(s);
            message.append(" to OSMObjectType");
            Err(message)
        }
    }

    /// The letter of the kind: `n`, `w` or `r`.
    pub fn letter(&self) -> (r: char)
        ensures
            spec_kind_of_char(r) == Some(*self),
    {
        match self {
            OSMObjectType::Node => 'n',
            OSMObjectType::Way => 'w',
            OSMObjectType::Relation => 'r',
        }
    }

    /// The name of the kind: `node`, `way` or `relation`.
    pub fn name(&self) -> (r: &'static str)
        ensures
            r@ == (match self {
                OSMObjectType::Node => "node"@,
                OSMObjectType::Way => "way"@,
                OSMObjectType::Relation => "relation"@,
            }),
    {
        match self {
            OSMObjectType::Node => "node",
            OSMObjectType::Way => "way",
            OSMObjectType::Relation => "relation",
        }
    }
}

impl TryFrom<char> for OSMObjectType {
    type Error = String;

    /// The kind that a letter stands for: `n`, `w` or `r`. Any other
    /// character gives a message that names it.
    fn try_from(c: char) -> (r: Result<Self, String>)
        ensures
            match spec_kind_of_char(c) {
                Some(kind) => r == Ok::<OSMObjectType, String>(kind),
                None => r matches Err(message) && message@ == cannot_convert(seq![c]),
            },
    {
        OSMObjectType::from_char(c)
    }
}

impl TryFromSpecImpl<char> for OSMObjectType {
    open spec fn obeys_try_from_spec() -> bool {
        false
    }

    open spec fn try_from_spec(c: char) -> Result<Self, String> {
        match spec_kind_of_char(c) {
            Some(kind) => Ok(kind),
            None => Err(arbitrary()),
        }
    }
}

impl std::str::FromStr for OSMObjectType {
    type Err = String;

    /// The kind that a word stands for: a letter, the full name, or `rel`.
    /// Any other text gives a message that names it.
    fn from_str(s: &str) -> (r: Result<Self, String>)
        ensures
            match spec_kind_of_str(s@) {
                Some(kind) => r == Ok::<OSMObjectType, String>(kind),
                None => r matches Err(message) && message@ == cannot_convert(s@),
            },
    {
        OSMObjectType::parse_kind(s)
    }
}

} // verus!
