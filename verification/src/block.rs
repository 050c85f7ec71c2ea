//! Decoding the groups of a primitive block: dense nodes, ways and relations.
use vstd::prelude::*;
use crate::arc_types::{ArcOSMObj, ArcRelation, ArcWay, obj_views};
use crate::decode::{
    dense_nodes, pairs, resolve_tags, spec_decode_dense, spec_pairs, spec_resolve_tags,
    spec_unsigned, unsigned,
};
use crate::delta::{delta_decode_within, spec_delta_decode};
use crate::error::PbfError;
use crate::message::views;
use crate::objects::{member_views, MemberView, ObjView, OSMObjectType, PayloadView};
use crate::osmformat::{
    Info, PrimitiveBlock, PrimitiveBlockView, PrimitiveGroup, PrimitiveGroupView, Relation,
    RelationView, Way, WayView,
};
use crate::strings::{BlockStrings, spec_lookup, table_texts};
use crate::timestamp::{TimestampFormat, TimestampView};

verus! {

/// What is done with a relation member whose role is an entry of the string
/// table that is not UTF-8.
#[derive(Debug, Clone, Copy, PartialEq, Eq, Structural)]
pub enum RolePolicy {
    /// The member is left out of the relation; the others keep their order.
    DropMember,
    /// The relation, and with it the block, fails to decode.
    Reject,
}

/// The metadata that nodes, ways and relations share.
#[derive(Debug, Clone)]
pub struct Metadata {
    pub version: Option<u32>,
    pub deleted: bool,
    pub changeset_id: Option<u32>,
    pub timestamp: Option<TimestampFormat>,
    pub uid: Option<u32>,
    pub user: Option<String>,
}

/// What a `Metadata` holds.
pub struct MetadataView {
    pub version: Option<u32>,
    pub deleted: bool,
    pub changeset_id: Option<u32>,
    pub timestamp: Option<TimestampView>,
    pub uid: Option<u32>,
    pub user: Option<Seq<char>>,
}

impl View for Metadata {
    type V = MetadataView;

    open spec fn view(&self) -> MetadataView {
        MetadataView {
            version: self.version,
            deleted: self.deleted,
            changeset_id: self.changeset_id,
            timestamp: crate::timestamp::timestamp_view(self.timestamp),
            uid: self.uid,
            user: crate::objects::string_view(self.user),
        }
    }
}

/// An optional value of a signed field as the unsigned field of a record.
pub open spec fn spec_optional_unsigned(value: Option<i64>) -> Result<Option<u32>, PbfError> {
    match value {
        None => Ok(None),
        Some(v) => match spec_unsigned(v) {
            Err(e) => Err(e),
            Ok(u) => Ok(Some(u)),
        },
    }
}

/// Gives an optional value of a signed field the unsigned type of a record's
/// field.
pub fn optional_unsigned(value: Option<i64>) -> (r: Result<Option<u32>, PbfError>)
    ensures
        r == spec_optional_unsigned(value),
{
    match value {
        None => Ok(None),
        Some(v) => Ok(Some(unsigned(v)?)),
    }
}

/// A 32-bit optional value as a 64-bit one.
pub open spec fn spec_wide(value: Option<i32>) -> Option<i64> {
    match value {
        Some(v) => Some(v as i64),
        None => None,
    }
}

/// Widens an optional 32-bit value.
pub fn wide(value: Option<i32>) -> (r: Option<i64>)
    ensures
        r == spec_wide(value),
{
    match value {
        Some(v) => Some(v as i64),
        None => None,
    }
}

/// The name behind an optional index into the string table.
pub open spec fn spec_optional_lookup(table: Seq<Option<Seq<char>>>, index: Option<u32>) -> Result<
    Option<Seq<char>>,
    PbfError,
> {
    match index {
        None => Ok(None),
        Some(i) => match spec_lookup(table, i as int) {
            Err(e) => Err(e),
            Ok(text) => Ok(Some(text)),
        },
    }
}

/// The metadata of a way or a relation. A field that the record does not
/// carry stays unset, and a record without a visibility flag is visible.
pub open spec fn spec_metadata(info: Option<Info>, table: Seq<Option<Seq<char>>>) -> Result<
    MetadataView,
    PbfError,
> {
    match info {
        None => Ok(
            MetadataView {
                version: None,
                deleted: false,
                changeset_id: None,
                timestamp: None,
                uid: None,
                user: None,
            },
        ),
        Some(info) => {
            let version = spec_optional_unsigned(spec_wide(info.version));
            let changeset_id = spec_optional_unsigned(info.changeset);
            let uid = spec_optional_unsigned(spec_wide(info.uid));
            let user = spec_optional_lookup(table, info.user_sid);
            if version is Err {
                Err(version->Err_0)
            } else if changeset_id is Err {
                Err(changeset_id->Err_0)
            } else if uid is Err {
                Err(uid->Err_0)
            } else if user is Err {
                Err(user->Err_0)
            } else {
                Ok(
                    MetadataView {
                        version: version->Ok_0,
                        deleted: info.visible == Some(false),
                        changeset_id: changeset_id->Ok_0,
                        timestamp: match info.timestamp {
                            Some(t) => Some(TimestampView::EpochNunber(t)),
                            None => None,
                        },
                        uid: uid->Ok_0,
                        user: user->Ok_0,
                    },
                )
            }
        },
    }
}

/// Reads the metadata of a way or a relation.
pub fn metadata(info: &Option<Info>, stringtable: &BlockStrings) -> (r: Result<Metadata, PbfError>)
    ensures
        match r {
            Ok(m) => spec_metadata(*info, stringtable@) == Ok::<MetadataView, PbfError>(m@),
            Err(e) => spec_metadata(*info, stringtable@) == Err::<MetadataView, PbfError>(e),
        },
{
    match info {
        None => Ok(
            Metadata {
                version: None,
                deleted: false,
                changeset_id: None,
                timestamp: None,
                uid: None,
                user: None,
            },
        ),
        Some(info) => {
            let version = optional_unsigned(wide(info.version))?;
            let changeset_id = optional_unsigned(info.changeset)?;
            let uid = optional_unsigned(wide(info.uid))?;
            let user: Option<String> = match info.user_sid {
                None => None,
                Some(index) => Some(stringtable.lookup(index as i64)?),
            };
            let deleted: bool = match info.visible {
                Some(visible) => !visible,
                None => false,
            };
            let timestamp: Option<TimestampFormat> = match info.timestamp {
                Some(t) => Some(TimestampFormat::EpochNunber(t)),
                None => None,
            };
            Ok(Metadata { version, deleted, changeset_id, timestamp, uid, user })
        },
    }
}

/// The way that a record of the file stands for.
///
/// Keys and values are zipped into tags; the node references are delta-coded
/// from zero, so that the first is absolute.
pub open spec fn spec_decode_way(way: WayView, table: Seq<Option<Seq<char>>>) -> Result<
    ObjView,
    PbfError,
> {
    let tags = spec_resolve_tags(table, spec_pairs(way.keys, way.vals));
    let nodes = spec_delta_decode(way.refs, 0, i64::MIN as int, i64::MAX as int);
    let meta = spec_metadata(way.info, table);
    if way.keys.len() != way.vals.len() {
        Err(PbfError::ColumnLengthMismatch)
    } else if tags is Err {
        Err(tags->Err_0)
    } else if nodes is Err {
        Err(nodes->Err_0)
    } else if meta is Err {
        Err(meta->Err_0)
    } else {
        Ok(
            ObjView {
                id: way.id,
                version: meta->Ok_0.version,
                deleted: meta->Ok_0.deleted,
                changeset_id: meta->Ok_0.changeset_id,
                timestamp: meta->Ok_0.timestamp,
                uid: meta->Ok_0.uid,
                user: meta->Ok_0.user,
                tags: tags->Ok_0,
                payload: PayloadView::Way(nodes->Ok_0),
            },
        )
    }
}

/// Decodes one way.
pub fn decode_way(way: &Way, stringtable: &BlockStrings) -> (r: Result<ArcWay, PbfError>)
    ensures
        match r {
            Ok(w) => spec_decode_way(way@, stringtable@) == Ok::<ObjView, PbfError>(w@),
            Err(e) => spec_decode_way(way@, stringtable@) == Err::<ObjView, PbfError>(e),
        },
{
    let index_pairs = pairs(&way.keys, &way.vals)?;
    let tags = resolve_tags(stringtable, &index_pairs)?;
    let nodes = delta_decode_within(way.refs.as_slice(), 0, i64::MIN, i64::MAX)?;
    let meta = metadata(&way.info, stringtable)?;
    Ok(
        ArcWay {
            _id: way.id,
            _version: meta.version,
            _deleted: meta.deleted,
            _changeset_id: meta.changeset_id,
            _timestamp: meta.timestamp,
            _uid: meta.uid,
            _user: meta.user,
            _tags: tags,
            _nodes: nodes,
        },
    )
}

/// The kind of a relation member from its number in the file.
pub open spec fn spec_member_kind(kind: i32) -> Result<OSMObjectType, PbfError> {
    if kind == 0 {
        Ok(OSMObjectType::Node)
    } else if kind == 1 {
        Ok(OSMObjectType::Way)
    } else if kind == 2 {
        Ok(OSMObjectType::Relation)
    } else {
        Err(PbfError::InvalidMemberType)
    }
}

/// Reads the kind of a relation member.
pub fn member_kind(kind: i32) -> (r: Result<OSMObjectType, PbfError>)
    ensures
        r == spec_member_kind(kind),
{
    if kind == 0 {
        Ok(OSMObjectType::Node)
    } else if kind == 1 {
        Ok(OSMObjectType::Way)
    } else if kind == 2 {
        Ok(OSMObjectType::Relation)
    } else {
        Err(PbfError::InvalidMemberType)
    }
}

/// The first `n` members of a relation, built from the three parallel
/// columns position by position.
///
/// A role whose index lies outside the string table fails the relation. A
/// role whose entry is not UTF-8 fails it under `RolePolicy::Reject` and
/// leaves the member out under `RolePolicy::DropMember`.
pub open spec fn spec_members(
    kinds: Seq<i32>,
    ids: Seq<i64>,
    roles: Seq<i32>,
    table: Seq<Option<Seq<char>>>,
    policy: RolePolicy,
    n: nat,
) -> Result<Seq<MemberView>, PbfError>
    decreases n,
{
    if n == 0 {
        Ok(Seq::empty())
    } else {
        match spec_members(kinds, ids, roles, table, policy, (n - 1) as nat) {
            Err(e) => Err(e),
            Ok(earlier) => match spec_member_kind(kinds[n - 1]) {
                Err(e) => Err(e),
                Ok(kind) => match spec_lookup(table, roles[n - 1] as int) {
                    Ok(role) => Ok(earlier.push((kind, ids[n - 1], role))),
                    Err(e) => if e == PbfError::MalformedString && policy
                        == RolePolicy::DropMember {
                        Ok(earlier)
                    } else {
                        Err(e)
                    },
                },
            },
        }
    }
}

proof fn lemma_members_error(
    kinds: Seq<i32>,
    ids: Seq<i64>,
    roles: Seq<i32>,
    table: Seq<Option<Seq<char>>>,
    policy: RolePolicy,
    m: nat,
    n: nat,
)
    requires
        m <= n,
        spec_members(kinds, ids, roles, table, policy, m) is Err,
    ensures
        spec_members(kinds, ids, roles, table, policy, n) == spec_members(
            kinds,
            ids,
            roles,
            table,
            policy,
            m,
        ),
    decreases n - m,
{
    if m < n {
        lemma_members_error(kinds, ids, roles, table, policy, m, (n - 1) as nat);
    }
}

/// The members of a relation from its three parallel columns, which must
/// agree in length.
pub open spec fn spec_zip_members(
    kinds: Seq<i32>,
    ids: Seq<i64>,
    roles: Seq<i32>,
    table: Seq<Option<Seq<char>>>,
    policy: RolePolicy,
) -> Result<Seq<MemberView>, PbfError> {
    if kinds.len() != ids.len() || roles.len() != ids.len() {
        Err(PbfError::ColumnLengthMismatch)
    } else {
        spec_members(kinds, ids, roles, table, policy, ids.len())
    }
}

/// Builds the members of a relation from its three parallel columns.
pub fn members(
    kinds: &Vec<i32>,
    ids: &Vec<i64>,
    roles: &Vec<i32>,
    stringtable: &BlockStrings,
    policy: RolePolicy,
) -> (r: Result<Vec<(OSMObjectType, i64, String)>, PbfError>)
    ensures
        match r {
            Ok(out) => spec_zip_members(kinds@, ids@, roles@, stringtable@, policy) == Ok::<
                Seq<MemberView>,
                PbfError,
            >(member_views(out@)),
            Err(e) => spec_zip_members(kinds@, ids@, roles@, stringtable@, policy) == Err::<
                Seq<MemberView>,
                PbfError,
            >(e),
        },
{
    if kinds.len() != ids.len() || roles.len() != ids.len() {
        return Err(PbfError::ColumnLengthMismatch);
    }
    let mut out: Vec<(OSMObjectType, i64, String)> = Vec::new();
    let mut i: usize = 0;
    assert(member_views(out@) =~= Seq::<MemberView>::empty());
    while i < ids.len()
        invariant
            i <= ids.len(),
            kinds.len() == ids.len(),
            roles.len() == ids.len(),
            spec_members(kinds@, ids@, roles@, stringtable@, policy, i as nat) == Ok::<
                Seq<MemberView>,
                PbfError,
            >(member_views(out@)),
        decreases ids.len() - i,
    {
        let kind = match member_kind(kinds[i]) {
            Ok(kind) => kind,
            Err(e) => {
                proof {
                    lemma_members_error(
                        kinds@,
                        ids@,
                        roles@,
                        stringtable@,
                        policy,
                        (i + 1) as nat,
                        ids@.len(),
                    );
                }
                return Err(e);
            },
        };
        match stringtable.lookup(roles[i] as i64) {
            Ok(role) => {
                let ghost before = member_views(out@);
                let ghost entry = (kind, ids[i as int], role@);
                out.push((kind, ids[i], role));
                assert(member_views(out@) =~= before.push(entry));
            },
            Err(e) => {
                let tolerated: bool = match e {
                    PbfError::MalformedString => match policy {
                        RolePolicy::DropMember => true,
                        RolePolicy::Reject => false,
                    },
                    _ => false,
                };
                if !tolerated {
                    proof {
                        lemma_members_error(
                            kinds@,
                            ids@,
                            roles@,
                            stringtable@,
                            policy,
                            (i + 1) as nat,
                            ids@.len(),
                        );
                    }
                    return Err(e);
                }
            },
        }
        i += 1;
    }
    Ok(out)
}

/// The number of the first `n` members of a relation that
/// `RolePolicy::DropMember` leaves out: those whose role is an entry of the
/// string table that is not UTF-8.
pub open spec fn spec_dropped_members(roles: Seq<i32>, table: Seq<Option<Seq<char>>>, n: nat) -> nat
    decreases n,
{
    if n == 0 {
        0
    } else {
        spec_dropped_members(roles, table, (n - 1) as nat) + (if spec_lookup(
            table,
            roles[n - 1] as int,
        ) == Err::<Seq<char>, PbfError>(PbfError::MalformedString) {
            1nat
        } else {
            0nat
        })
    }
}

/// Counts the members of a relation that `RolePolicy::DropMember` leaves
/// out, so that a caller can report what was dropped.
pub fn dropped_members(relation: &Relation, stringtable: &BlockStrings) -> (r: usize)
    ensures
        r == spec_dropped_members(relation@.roles_sid, stringtable@, relation@.roles_sid.len()),
{
    let mut dropped: usize = 0;
    let mut i: usize = 0;
    while i < relation.roles_sid.len()
        invariant
            i <= relation.roles_sid.len(),
            dropped <= i,
            dropped == spec_dropped_members(relation@.roles_sid, stringtable@, i as nat),
        decreases relation.roles_sid.len() - i,
    {
        match stringtable.lookup(relation.roles_sid[i] as i64) {
            Err(PbfError::MalformedString) => {
                dropped += 1;
            },
            _ => {},
        }
        i += 1;
    }
    dropped
}

/// The relation that a record of the file stands for.
///
/// Keys and values are zipped into tags; the member ids are delta-coded from
/// zero; kinds, ids and roles are zipped into members.
pub open spec fn spec_decode_relation(
    relation: RelationView,
    table: Seq<Option<Seq<char>>>,
    policy: RolePolicy,
) -> Result<ObjView, PbfError> {
    let tags = spec_resolve_tags(table, spec_pairs(relation.keys, relation.vals));
    let ids = spec_delta_decode(relation.memids, 0, i64::MIN as int, i64::MAX as int);
    let meta = spec_metadata(relation.info, table);
    if relation.keys.len() != relation.vals.len() || relation.roles_sid.len()
        != relation.memids.len() || relation.types.len() != relation.memids.len() {
        Err(PbfError::ColumnLengthMismatch)
    } else if tags is Err {
        Err(tags->Err_0)
    } else if ids is Err {
        Err(ids->Err_0)
    } else {
        let members = spec_members(
            relation.types,
            ids->Ok_0,
            relation.roles_sid,
            table,
            policy,
            relation.memids.len(),
        );
        if members is Err {
            Err(members->Err_0)
        } else if meta is Err {
            Err(meta->Err_0)
        } else {
            Ok(
                ObjView {
                    id: relation.id,
                    version: meta->Ok_0.version,
                    deleted: meta->Ok_0.deleted,
                    changeset_id: meta->Ok_0.changeset_id,
                    timestamp: meta->Ok_0.timestamp,
                    uid: meta->Ok_0.uid,
                    user: meta->Ok_0.user,
                    tags: tags->Ok_0,
                    payload: PayloadView::Relation(members->Ok_0),
                },
            )
        }
    }
}

/// Decodes one relation.
pub fn decode_relation(relation: &Relation, stringtable: &BlockStrings, policy: RolePolicy) -> (r:
    Result<ArcRelation, PbfError>)
    ensures
        match r {
            Ok(rel) => spec_decode_relation(relation@, stringtable@, policy) == Ok::<
                ObjView,
                PbfError,
            >(rel@),
            Err(e) => spec_decode_relation(relation@, stringtable@, policy) == Err::<
                ObjView,
                PbfError,
            >(e),
        },
{
    if relation.keys.len() != relation.vals.len() || relation.roles_sid.len()
        != relation.memids.len() || relation.types.len() != relation.memids.len() {
        return Err(PbfError::ColumnLengthMismatch);
    }
    let index_pairs = pairs(&relation.keys, &relation.vals)?;
    let tags = resolve_tags(stringtable, &index_pairs)?;
    let ids = delta_decode_within(relation.memids.as_slice(), 0, i64::MIN, i64::MAX)?;
    let member_list = members(&relation.types, &ids, &relation.roles_sid, stringtable, policy)?;
    let meta = metadata(&relation.info, stringtable)?;
    Ok(
        ArcRelation {
            _id: relation.id,
            _version: meta.version,
            _deleted: meta.deleted,
            _changeset_id: meta.changeset_id,
            _timestamp: meta.timestamp,
            _uid: meta.uid,
            _user: meta.user,
            _tags: tags,
            _members: member_list,
        },
    )
}

/// The ways of a group, in order, or the error of the first that fails.
pub open spec fn spec_decode_ways(ways: Seq<WayView>, table: Seq<Option<Seq<char>>>) -> Result<
    Seq<ObjView>,
    PbfError,
>
    decreases ways.len(),
{
    if ways.len() == 0 {
        Ok(Seq::empty())
    } else {
        match spec_decode_ways(ways.drop_last(), table) {
            Err(e) => Err(e),
            Ok(earlier) => match spec_decode_way(ways.last(), table) {
                Err(e) => Err(e),
                Ok(way) => Ok(earlier.push(way)),
            },
        }
    }
}

proof fn lemma_decode_ways_error(ways: Seq<WayView>, table: Seq<Option<Seq<char>>>, n: int)
    requires
        0 <= n <= ways.len(),
        spec_decode_ways(ways.take(n), table) is Err,
    ensures
        spec_decode_ways(ways, table) == spec_decode_ways(ways.take(n), table),
    decreases ways.len() - n,
{
    if n < ways.len() {
        assert(ways.take(n + 1).drop_last() =~= ways.take(n));
        lemma_decode_ways_error(ways, table, n + 1);
    } else {
        assert(ways.take(n) =~= ways);
    }
}

/// The relations of a group, in order, or the error of the first that fails.
pub open spec fn spec_decode_relations(
    relations: Seq<RelationView>,
    table: Seq<Option<Seq<char>>>,
    policy: RolePolicy,
) -> Result<Seq<ObjView>, PbfError>
    decreases relations.len(),
{
    if relations.len() == 0 {
        Ok(Seq::empty())
    } else {
        match spec_decode_relations(relations.drop_last(), table, policy) {
            Err(e) => Err(e),
            Ok(earlier) => match spec_decode_relation(relations.last(), table, policy) {
                Err(e) => Err(e),
                Ok(relation) => Ok(earlier.push(relation)),
            },
        }
    }
}

proof fn lemma_decode_relations_error(
    relations: Seq<RelationView>,
    table: Seq<Option<Seq<char>>>,
    policy: RolePolicy,
    n: int,
)
    requires
        0 <= n <= relations.len(),
        spec_decode_relations(relations.take(n), table, policy) is Err,
    ensures
        spec_decode_relations(relations, table, policy) == spec_decode_relations(
            relations.take(n),
            table,
            policy,
        ),
    decreases relations.len() - n,
{
    if n < relations.len() {
        assert(relations.take(n + 1).drop_last() =~= relations.take(n));
        lemma_decode_relations_error(relations, table, policy, n + 1);
    } else {
        assert(relations.take(n) =~= relations);
    }
}

/// Decodes the ways of a group into a vector of their own.
pub fn ways_of_group(ways: &Vec<Way>, stringtable: &BlockStrings) -> (r: Result<
    Vec<ArcOSMObj>,
    PbfError,
>)
    ensures
        match r {
            Ok(out) => spec_decode_ways(views(ways@), stringtable@) == Ok::<
                Seq<ObjView>,
                PbfError,
            >(obj_views(out@)),
            Err(e) => spec_decode_ways(views(ways@), stringtable@) == Err::<
                Seq<ObjView>,
                PbfError,
            >(e),
        },
{
    let ghost all = views(ways@);
    let mut out: Vec<ArcOSMObj> = Vec::new();
    let mut i: usize = 0;
    assert(obj_views(out@) =~= Seq::<ObjView>::empty());
    while i < ways.len()
        invariant
            i <= ways.len(),
            all == views(ways@),
            spec_decode_ways(all.take(i as int), stringtable@) == Ok::<Seq<ObjView>, PbfError>(
                obj_views(out@),
            ),
        decreases ways.len() - i,
    {
        assert(all.take(i + 1).drop_last() =~= all.take(i as int));
        assert(all.take(i + 1).last() == ways[i as int]@);
        match decode_way(&ways[i], stringtable) {
            Ok(way) => {
                let ghost before = obj_views(out@);
                out.push(ArcOSMObj::Way(way));
                assert(obj_views(out@) =~= before.push(way@));
            },
            Err(e) => {
                proof {
                    lemma_decode_ways_error(all, stringtable@, i + 1);
                }
                return Err(e);
            },
        }
        i += 1;
    }
    assert(all.take(i as int) =~= all);
    Ok(out)
}

/// Decodes the relations of a group into a vector of their own.
pub fn relations_of_group(
    relations: &Vec<Relation>,
    stringtable: &BlockStrings,
    policy: RolePolicy,
) -> (r: Result<Vec<ArcOSMObj>, PbfError>)
    ensures
        match r {
            Ok(out) => spec_decode_relations(views(relations@), stringtable@, policy) == Ok::<
                Seq<ObjView>,
                PbfError,
            >(obj_views(out@)),
            Err(e) => spec_decode_relations(views(relations@), stringtable@, policy) == Err::<
                Seq<ObjView>,
                PbfError,
            >(e),
        },
{
    let ghost all = views(relations@);
    let mut out: Vec<ArcOSMObj> = Vec::new();
    let mut i: usize = 0;
    assert(obj_views(out@) =~= Seq::<ObjView>::empty());
    while i < relations.len()
        invariant
            i <= relations.len(),
            all == views(relations@),
            spec_decode_relations(all.take(i as int), stringtable@, policy) == Ok::<
                Seq<ObjView>,
                PbfError,
            >(obj_views(out@)),
        decreases relations.len() - i,
    {
        assert(all.take(i + 1).drop_last() =~= all.take(i as int));
        assert(all.take(i + 1).last() == relations[i as int]@);
        match decode_relation(&relations[i], stringtable, policy) {
            Ok(relation) => {
                let ghost before = obj_views(out@);
                out.push(ArcOSMObj::Relation(relation));
                assert(obj_views(out@) =~= before.push(relation@));
            },
            Err(e) => {
                proof {
                    lemma_decode_relations_error(all, stringtable@, policy, i + 1);
                }
                return Err(e);
            },
        }
        i += 1;
    }
    assert(all.take(i as int) =~= all);
    Ok(out)
}

/// Whether `after` is `before` with objects added at its end whose views are
/// `added`.
pub open spec fn appended(before: Seq<ArcOSMObj>, after: Seq<ArcOSMObj>, added: Seq<ObjView>) -> bool {
    &&& after.len() == before.len() + added.len()
    &&& after.take(before.len() as int) == before
    &&& obj_views(after.skip(before.len() as int)) == added
}

/// What decoding into `results` leaves there: the objects on success, and
/// what was there before on failure.
pub open spec fn decoded_into(
    outcome: Result<Seq<ObjView>, PbfError>,
    before: Seq<ArcOSMObj>,
    after: Seq<ArcOSMObj>,
    r: Result<(), PbfError>,
) -> bool {
    match outcome {
        Ok(added) => r is Ok && appended(before, after, added),
        Err(e) => r == Err::<(), PbfError>(e) && after == before,
    }
}

fn append_objs(results: &mut Vec<ArcOSMObj>, objs: Vec<ArcOSMObj>)
    ensures
        appended(old(results)@, final(results)@, obj_views(objs@)),
{
    let ghost before = results@;
    let ghost added = objs@;
    let mut objs = objs;
    results.append(&mut objs);
    assert(results@.take(before.len() as int) =~= before);
    assert(results@.skip(before.len() as int) =~= added);
}

/// The dense nodes of a group; a group without them has none.
pub open spec fn dense_of(group: PrimitiveGroupView) -> crate::osmformat::DenseNodesView {
    match group.dense {
        Some(dense) => dense,
        None => crate::osmformat::DenseNodesView {
            id: Seq::empty(),
            denseinfo: None,
            lat: Seq::empty(),
            lon: Seq::empty(),
            keys_vals: Seq::empty(),
        },
    }
}

/// Plain (non-dense) nodes are not decoded: a group that holds them fails,
/// so that no record is passed over in silence.
pub fn decode_nodes(
    _primitive_group: &PrimitiveGroup,
    _granularity: i32,
    _lat_offset: i64,
    _lon_offset: i64,
    _date_granularity: i32,
    _stringtable: &BlockStrings,
    _results: &mut Vec<ArcOSMObj>,
) -> (r: Result<(), PbfError>)
    ensures
        r == Err::<(), PbfError>(PbfError::LegacyNodes),
        final(_results)@ == old(_results)@,
{
    Err(PbfError::LegacyNodes)
}

/// Decodes the dense nodes of a group and adds them to `results`.
///
/// Ids, coordinates, dates, changesets, author ids and author names are
/// delta-coded columns that start from zero; versions are absolute. The
/// coordinates are scaled by the block's granularity and offsets, the dates
/// by its date granularity. On failure `results` is left as it was.
pub fn decode_dense_nodes(
    primitive_group: &PrimitiveGroup,
    granularity: i32,
    lat_offset: i64,
    lon_offset: i64,
    date_granularity: i32,
    stringtable: &BlockStrings,
    results: &mut Vec<ArcOSMObj>,
) -> (r: Result<(), PbfError>)
    ensures
        decoded_into(
            spec_decode_dense(
                dense_of(primitive_group@),
                granularity,
                lat_offset,
                lon_offset,
                date_granularity,
                stringtable@,
            ),
            old(results)@,
            final(results)@,
            r,
        ),
{
    match &primitive_group.dense {
        Some(dense) => {
            assert(dense_of(primitive_group@) == dense@);
            let nodes = dense_nodes(
                dense,
                granularity,
                lat_offset,
                lon_offset,
                date_granularity,
                stringtable,
            )?;
            append_objs(results, nodes);
            Ok(())
        },
        None => {
            proof {
                lemma_no_dense_nodes(
                    granularity,
                    lat_offset,
                    lon_offset,
                    date_granularity,
                    stringtable@,
                );
            }
            let nodes: Vec<ArcOSMObj> = Vec::new();
            assert(obj_views(nodes@) =~= Seq::<ObjView>::empty());
            append_objs(results, nodes);
            Ok(())
        },
    }
}

proof fn lemma_no_dense_nodes(
    granularity: i32,
    lat_offset: i64,
    lon_offset: i64,
    date_granularity: i32,
    table: Seq<Option<Seq<char>>>,
)
    ensures
        spec_decode_dense(
            crate::osmformat::DenseNodesView {
                id: Seq::empty(),
                denseinfo: None,
                lat: Seq::empty(),
                lon: Seq::empty(),
                keys_vals: Seq::empty(),
            },
            granularity,
            lat_offset,
            lon_offset,
            date_granularity,
            table,
        ) == Ok::<Seq<ObjView>, PbfError>(Seq::empty()),
{
    let dense = crate::osmformat::DenseNodesView {
        id: Seq::empty(),
        denseinfo: None,
        lat: Seq::empty(),
        lon: Seq::empty(),
        keys_vals: Seq::empty(),
    };
    assert(crate::decode::spec_widen(Seq::<i32>::empty()) =~= Seq::<i64>::empty());
    assert(crate::decode::spec_dense_columns(dense) is Ok);
}

/// Decodes the ways of a group and adds them to `results`. On failure
/// `results` is left as it was.
pub fn decode_ways(
    primitive_group: &PrimitiveGroup,
    _granularity: i32,
    _lat_offset: i64,
    _lon_offset: i64,
    _date_granularity: i32,
    stringtable: &BlockStrings,
    results: &mut Vec<ArcOSMObj>,
) -> (r: Result<(), PbfError>)
    ensures
        decoded_into(
            spec_decode_ways(primitive_group@.ways, stringtable@),
            old(results)@,
            final(results)@,
            r,
        ),
{
    let ways = ways_of_group(&primitive_group.ways, stringtable)?;
    append_objs(results, ways);
    Ok(())
}

/// Decodes the relations of a group and adds them to `results`. A member
/// whose role is an entry of the string table that is not UTF-8 is left out.
/// On failure `results` is left as it was.
pub fn decode_relations(
    primitive_group: &PrimitiveGroup,
    _granularity: i32,
    _lat_offset: i64,
    _lon_offset: i64,
    _date_granularity: i32,
    stringtable: &BlockStrings,
    results: &mut Vec<ArcOSMObj>,
) -> (r: Result<(), PbfError>)
    ensures
        decoded_into(
            spec_decode_relations(primitive_group@.relations, stringtable@, RolePolicy::DropMember),
            old(results)@,
            final(results)@,
            r,
        ),
{
    let relations = relations_of_group(
        &primitive_group.relations,
        stringtable,
        RolePolicy::DropMember,
    )?;
    append_objs(results, relations);
    Ok(())
}

/// The objects of one group. A group is read as the first kind of record it
/// holds: dense nodes, plain nodes (which fail), ways, relations. A group
/// that holds none of them fails.
pub open spec fn spec_decode_group(
    group: PrimitiveGroupView,
    granularity: i32,
    lat_offset: i64,
    lon_offset: i64,
    date_granularity: i32,
    table: Seq<Option<Seq<char>>>,
    policy: RolePolicy,
) -> Result<Seq<ObjView>, PbfError> {
    if group.dense is Some {
        spec_decode_dense(
            group.dense->Some_0,
            granularity,
            lat_offset,
            lon_offset,
            date_granularity,
            table,
        )
    } else if group.nodes.len() > 0 {
        Err(PbfError::LegacyNodes)
    } else if group.ways.len() > 0 {
        spec_decode_ways(group.ways, table)
    } else if group.relations.len() > 0 {
        spec_decode_relations(group.relations, table, policy)
    } else {
        Err(PbfError::EmptyGroup)
    }
}

/// Decodes one group into a vector of its own, with the given policy for
/// relation roles that are not UTF-8.
pub fn objs_of_group(
    primitive_group: &PrimitiveGroup,
    granularity: i32,
    lat_offset: i64,
    lon_offset: i64,
    date_granularity: i32,
    stringtable: &BlockStrings,
    policy: RolePolicy,
) -> (r: Result<Vec<ArcOSMObj>, PbfError>)
    ensures
        match r {
            Ok(objs) => spec_decode_group(
                primitive_group@,
                granularity,
                lat_offset,
                lon_offset,
                date_granularity,
                stringtable@,
                policy,
            ) == Ok::<Seq<ObjView>, PbfError>(obj_views(objs@)),
            Err(e) => spec_decode_group(
                primitive_group@,
                granularity,
                lat_offset,
                lon_offset,
                date_granularity,
                stringtable@,
                policy,
            ) == Err::<Seq<ObjView>, PbfError>(e),
        },
{
    match &primitive_group.dense {
        Some(dense) => dense_nodes(
            dense,
            granularity,
            lat_offset,
            lon_offset,
            date_granularity,
            stringtable,
        ),
        None => {
            if !primitive_group.get_nodes().is_empty() {
                Err(PbfError::LegacyNodes)
            } else if !primitive_group.get_ways().is_empty() {
                ways_of_group(&primitive_group.ways, stringtable)
            } else if !primitive_group.get_relations().is_empty() {
                relations_of_group(&primitive_group.relations, stringtable, policy)
            } else {
                Err(PbfError::EmptyGroup)
            }
        },
    }
}

/// Decodes one group and adds its objects to `results`. On failure
/// `results` is left as it was.
pub fn decode_primitive_group_to_objs(
    primitive_group: &PrimitiveGroup,
    granularity: i32,
    lat_offset: i64,
    lon_offset: i64,
    date_granularity: i32,
    stringtable: &BlockStrings,
    results: &mut Vec<ArcOSMObj>,
) -> (r: Result<(), PbfError>)
    ensures
        decoded_into(
            spec_decode_group(
                primitive_group@,
                granularity,
                lat_offset,
                lon_offset,
                date_granularity,
                stringtable@,
                RolePolicy::DropMember,
            ),
            old(results)@,
            final(results)@,
            r,
        ),
{
    let objs = objs_of_group(
        primitive_group,
        granularity,
        lat_offset,
        lon_offset,
        date_granularity,
        stringtable,
        RolePolicy::DropMember,
    )?;
    append_objs(results, objs);
    Ok(())
}

/// The objects of a list of groups: those of each group, in the order of the
/// groups, or the error of the first group that fails.
pub open spec fn spec_decode_groups(
    groups: Seq<PrimitiveGroupView>,
    granularity: i32,
    lat_offset: i64,
    lon_offset: i64,
    date_granularity: i32,
    table: Seq<Option<Seq<char>>>,
    policy: RolePolicy,
) -> Result<Seq<ObjView>, PbfError>
    decreases groups.len(),
{
    if groups.len() == 0 {
        Ok(Seq::empty())
    } else {
        match spec_decode_groups(
            groups.drop_last(),
            granularity,
            lat_offset,
            lon_offset,
            date_granularity,
            table,
            policy,
        ) {
            Err(e) => Err(e),
            Ok(earlier) => match spec_decode_group(
                groups.last(),
                granularity,
                lat_offset,
                lon_offset,
                date_granularity,
                table,
                policy,
            ) {
                Err(e) => Err(e),
                Ok(objs) => Ok(earlier + objs),
            },
        }
    }
}

proof fn lemma_decode_groups_error(
    groups: Seq<PrimitiveGroupView>,
    granularity: i32,
    lat_offset: i64,
    lon_offset: i64,
    date_granularity: i32,
    table: Seq<Option<Seq<char>>>,
    policy: RolePolicy,
    n: int,
)
    requires
        0 <= n <= groups.len(),
        spec_decode_groups(
            groups.take(n),
            granularity,
            lat_offset,
            lon_offset,
            date_granularity,
            table,
            policy,
        ) is Err,
    ensures
        spec_decode_groups(
            groups,
            granularity,
            lat_offset,
            lon_offset,
            date_granularity,
            table,
            policy,
        ) == spec_decode_groups(
            groups.take(n),
            granularity,
            lat_offset,
            lon_offset,
            date_granularity,
            table,
            policy,
        ),
    decreases groups.len() - n,
{
    if n < groups.len() {
        assert(groups.take(n + 1).drop_last() =~= groups.take(n));
        lemma_decode_groups_error(
            groups,
            granularity,
            lat_offset,
            lon_offset,
            date_granularity,
            table,
            policy,
            n + 1,
        );
    } else {
        assert(groups.take(n) =~= groups);
    }
}

/// The objects of a block: its string table is decoded, and its groups are
/// decoded in order with the block's own granularity and offsets, which hold
/// for this block alone.
pub open spec fn spec_decode_block(block: PrimitiveBlockView, policy: RolePolicy) -> Result<
    Seq<ObjView>,
    PbfError,
> {
    spec_decode_groups(
        block.primitivegroup,
        block.get_granularity(),
        block.get_lat_offset(),
        block.get_lon_offset(),
        block.get_date_granularity(),
        table_texts(block.stringtable),
        policy,
    )
}

/// Decodes a block with the given policy for relation roles that are not
/// UTF-8. One failing record fails the block: nothing of it is returned.
pub fn decode_block_with(block: PrimitiveBlock, policy: RolePolicy) -> (r: Result<
    Vec<ArcOSMObj>,
    PbfError,
>)
    ensures
        match r {
            Ok(objs) => spec_decode_block(block@, policy) == Ok::<Seq<ObjView>, PbfError>(
                obj_views(objs@),
            ),
            Err(e) => spec_decode_block(block@, policy) == Err::<Seq<ObjView>, PbfError>(e),
        },
{
    let stringtable = BlockStrings::new(block.stringtable.get_s());
    let granularity = block.get_granularity();
    let lat_offset = block.get_lat_offset();
    let lon_offset = block.get_lon_offset();
    let date_granularity = block.get_date_granularity();
    let groups = block.get_primitivegroup();
    let ghost all = views(groups@);
    let mut results: Vec<ArcOSMObj> = Vec::new();
    let mut i: usize = 0;
    assert(obj_views(results@) =~= Seq::<ObjView>::empty());
    while i < groups.len()
        invariant
            i <= groups.len(),
            all == views(groups@),
            all == block@.primitivegroup,
            granularity == block@.get_granularity(),
            lat_offset == block@.get_lat_offset(),
            lon_offset == block@.get_lon_offset(),
            date_granularity == block@.get_date_granularity(),
            stringtable@ == table_texts(block@.stringtable),
            spec_decode_groups(
                all.take(i as int),
                granularity,
                lat_offset,
                lon_offset,
                date_granularity,
                stringtable@,
                policy,
            ) == Ok::<Seq<ObjView>, PbfError>(obj_views(results@)),
        decreases groups.len() - i,
    {
        assert(all.take(i + 1).drop_last() =~= all.take(i as int));
        assert(all.take(i + 1).last() == groups[i as int]@);
        match objs_of_group(
            &groups[i],
            granularity,
            lat_offset,
            lon_offset,
            date_granularity,
            &stringtable,
            policy,
        ) {
            Ok(objs) => {
                let ghost before = results@;
                let ghost added = objs@;
                let mut objs = objs;
                results.append(&mut objs);
                assert(obj_views(results@) =~= obj_views(before) + obj_views(added));
            },
            Err(e) => {
                proof {
                    lemma_decode_groups_error(
                        all,
                        granularity,
                        lat_offset,
                        lon_offset,
                        date_granularity,
                        stringtable@,
                        policy,
                        i + 1,
                    );
                }
                return Err(e);
            },
        }
        i += 1;
    }
    assert(all.take(i as int) =~= all);
    Ok(results)
}

/// Decodes a block into its objects, in the order of its groups and of the
/// rows within each group. A relation member whose role is not UTF-8 is left
/// out; every other failure fails the block.
pub fn decode_block_to_objs(block: PrimitiveBlock) -> (r: Result<Vec<ArcOSMObj>, PbfError>)
    ensures
        match r {
            Ok(objs) => spec_decode_block(block@, RolePolicy::DropMember) == Ok::<
                Seq<ObjView>,
                PbfError,
            >(obj_views(objs@)),
            Err(e) => spec_decode_block(block@, RolePolicy::DropMember) == Err::<
                Seq<ObjView>,
                PbfError,
            >(e),
        },
{
    decode_block_with(block, RolePolicy::DropMember)
}

} // verus!
