use osmio::arc_types::{ArcNode, ArcOSMObj, ArcRelation, ArcWay};
use osmio::changesets::Changeset;
use osmio::coords::{Lat, Lon};
use osmio::objects::{Node, OSMObj, OSMObjBase, OSMObjectType, Relation, Way};
use osmio::timestamp::TimestampFormat;

fn node(id: i64) -> ArcNode {
    ArcNode {
        _id: id,
        _version: None,
        _deleted: false,
        _changeset_id: None,
        _timestamp: None,
        _uid: None,
        _user: None,
        _tags: vec![],
        _lat_lon: None,
    }
}

fn way(id: i64, nodes: &[i64]) -> ArcWay {
    ArcWay {
        _id: id,
        _version: None,
        _deleted: false,
        _changeset_id: None,
        _timestamp: None,
        _uid: None,
        _user: None,
        _tags: vec![],
        _nodes: nodes.to_vec(),
    }
}

fn relation(id: i64) -> ArcRelation {
    ArcRelation {
        _id: id,
        _version: None,
        _deleted: false,
        _changeset_id: None,
        _timestamp: None,
        _uid: None,
        _user: None,
        _tags: vec![],
        _members: vec![],
    }
}

#[test]
fn metadata_can_be_set_and_read() {
    let mut n = node(1);
    n.set_id(5);
    n.set_version(Some(3));
    n.set_deleted(true);
    n.set_changeset_id(Some(77));
    n.set_timestamp(Some(TimestampFormat::EpochNunber(9)));
    n.set_uid(Some(12));
    n.set_user(Some("dora"));
    assert_eq!(n.id(), 5);
    assert_eq!(n.version(), Some(3));
    assert!(n.deleted());
    assert_eq!(n.changeset_id(), Some(77));
    assert_eq!(n.timestamp(), &Some(TimestampFormat::EpochNunber(9)));
    assert_eq!(n.uid(), Some(12));
    assert_eq!(n.user(), Some("dora"));
    assert_eq!(n.object_type(), OSMObjectType::Node);

    n.strip_metadata();
    assert_eq!(n.uid(), None);
    assert_eq!(n.user(), None);
    assert_eq!(n.changeset_id(), None);
    assert_eq!(n.version(), Some(3));
    assert_eq!(n.id(), 5);
}

#[test]
fn tags_are_set_replaced_and_removed() {
    let mut w = way(1, &[]);
    assert!(w.untagged());
    assert!(!w.tagged());
    assert_eq!(w.tag("highway"), None);
    w.set_tag("highway", "primary".to_string());
    w.set_tag("name", "Main".to_string());
    w.set_tag("highway", "secondary".to_string());
    assert_eq!(w.num_tags(), 2);
    assert!(w.tagged());
    assert!(w.has_tag("name"));
    assert!(!w.has_tag("Name"));
    assert_eq!(w.tag("highway"), Some("secondary"));
    assert_eq!(
        w.tags(),
        &vec![
            ("highway".to_string(), "secondary".to_string()),
            ("name".to_string(), "Main".to_string()),
        ]
    );
    w.unset_tag("highway");
    assert_eq!(w.tags(), &vec![("name".to_string(), "Main".to_string())]);
    w.unset_tag("highway");
    assert_eq!(w.num_tags(), 1);
    w.unset_tag("name");
    assert!(w.untagged());
}

#[test]
fn the_first_of_two_equal_keys_counts() {
    let mut r = relation(1);
    r._tags = vec![
        ("k".to_string(), "first".to_string()),
        ("k".to_string(), "second".to_string()),
    ];
    assert_eq!(r.tag("k"), Some("first"));
    r.set_tag("k", "new".to_string());
    assert_eq!(r.tags()[0].1, "new");
    assert_eq!(r.tags()[1].1, "second");
    r.unset_tag("k");
    assert_eq!(r.tags(), &vec![("k".to_string(), "second".to_string())]);
}

#[test]
fn closed_ways_and_areas() {
    assert!(!way(1, &[]).is_closed());
    assert!(way(1, &[7]).is_closed());
    assert!(!way(1, &[1, 2, 3]).is_closed());
    assert!(!way(1, &[1, 2, 3]).is_area());
    let mut closed = way(1, &[1, 2, 3, 1]);
    assert!(closed.is_closed());
    assert!(closed.is_area());
    closed.set_tag("area", "yes".to_string());
    assert!(closed.is_area());
    closed.set_tag("area", "no".to_string());
    assert!(closed.is_closed());
    assert!(!closed.is_area());
    closed.set_tag("area", "highway".to_string());
    assert!(closed.is_area());
    let mut open = way(1, &[1, 2, 3]);
    open.set_tag("area", "yes".to_string());
    assert!(!open.is_area());
}

#[test]
fn payloads_can_be_set() {
    let mut n = node(1);
    assert!(!n.has_lat_lon());
    n.set_lat_lon_direct(Some((Lat::from_inner(12300000), Lon::from_inner(-5))));
    assert!(n.has_lat_lon());
    assert_eq!(n.lat_lon().unwrap().0.inner(), 12300000);
    assert_eq!(n.lat_lon().unwrap().1.inner(), -5);
    n.unset_lat_lon();
    assert_eq!(n.lat_lon(), None);

    let mut w = way(1, &[1, 2]);
    w.set_nodes(vec![5, 6, 7]);
    assert_eq!(w.nodes(), &[5, 6, 7]);
    assert_eq!(w.num_nodes(), 3);
    assert_eq!(w.node(0), Some(5));
    assert_eq!(w.node(3), None);

    let mut r = relation(1);
    r.set_members(vec![(OSMObjectType::Way, 4, "outer".to_string())]);
    assert_eq!(r.members(), &vec![(OSMObjectType::Way, 4, "outer".to_string())]);
    assert_eq!(r.object_type(), OSMObjectType::Relation);
}

#[test]
fn an_object_of_any_kind_answers_for_its_record() {
    let mut obj = ArcOSMObj::Way(way(3, &[1, 2]));
    assert!(obj.is_way() && !obj.is_node() && !obj.is_relation());
    assert_eq!(obj.id(), 3);
    obj.set_id(4);
    obj.set_version(Some(2));
    obj.set_deleted(true);
    obj.set_changeset_id(Some(8));
    obj.set_timestamp(Some(TimestampFormat::ISOString("2020-01-01T00:00:00Z".to_string())));
    obj.set_uid(Some(1));
    obj.set_user(Some("eve"));
    obj.set_tag("a", "b".to_string());
    assert_eq!(obj.id(), 4);
    assert_eq!(obj.version(), Some(2));
    assert!(obj.deleted());
    assert_eq!(obj.changeset_id(), Some(8));
    assert_eq!(obj.timestamp(), &Some(TimestampFormat::EpochNunber(1577836800)));
    assert_eq!(obj.uid(), Some(1));
    assert_eq!(obj.user(), Some("eve"));
    assert_eq!(obj.tag("a"), Some("b"));
    assert_eq!(obj.num_tags(), 1);
    assert!(obj.tagged());
    obj.as_way_mut().unwrap().set_nodes(vec![9]);
    assert_eq!(obj.as_way().unwrap().nodes(), &[9]);
    obj.unset_tag("a");
    assert!(obj.untagged());
    obj.strip_metadata();
    assert_eq!(obj.user(), None);
    let node = ArcOSMObj::Node(node(1));
    assert_eq!(node.object_type(), OSMObjectType::Node);
    let relation = ArcOSMObj::Relation(relation(2));
    assert_eq!(relation.object_type(), OSMObjectType::Relation);
    assert_ne!(node, relation);
}

#[test]
fn coordinates_keep_their_inner_value() {
    assert_eq!(Lat::from_inner(12345678).inner(), 12345678);
    assert_eq!(Lon::from_inner(-1).inner(), -1);
    assert!(Lat::from_inner(1) < Lat::from_inner(2));
    assert_eq!(osmio::COORD_PRECISION_NANOS, 100);
}

#[test]
fn changeset_tags() {
    let mut changeset = Changeset {
        id: 1,
        created: TimestampFormat::EpochNunber(0),
        closed: None,
        open: true,
        uid: Some(5),
        user: Some("fay".to_string()),
        tags: vec![("comment".to_string(), "fix".to_string())],
        num_changes: 3,
        comments_count: 0,
    };
    assert_eq!(changeset.tag("comment"), Some("fix"));
    assert_eq!(changeset.tag("source"), None);
    assert!(changeset.has_tag("comment"));
    assert!(!changeset.has_tag("source"));
    assert_eq!(changeset.num_tags(), 1);
    assert!(changeset.tagged());
    assert!(!changeset.untagged());
    changeset.tags_mut().push(("source".to_string(), "survey".to_string()));
    assert_eq!(changeset.num_tags(), 2);
    assert_eq!(changeset.tag("source"), Some("survey"));
    changeset.tags_mut().clear();
    assert!(changeset.untagged());
    changeset.tags_mut().push(("a".to_string(), "b".to_string()));
    assert_eq!(changeset.into_tags(), vec![("a".to_string(), "b".to_string())]);
}

#[test]
fn the_version_is_that_of_the_package() {
    assert_eq!(osmio::version(), "0.14.0");
}
