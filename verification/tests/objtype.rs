use osmio::objects::OSMObjectType;

#[test]
fn char_to_objtype() {
    assert_eq!(OSMObjectType::try_from('n'), Ok(OSMObjectType::Node));
    assert_eq!(OSMObjectType::try_from('w'), Ok(OSMObjectType::Way));
    assert_eq!(OSMObjectType::try_from('r'), Ok(OSMObjectType::Relation));
    assert!(OSMObjectType::try_from('x').is_err());
}

#[test]
fn string_to_objtype() {
    assert_eq!("n".parse(), Ok(OSMObjectType::Node));
    assert_eq!("node".parse(), Ok(OSMObjectType::Node));
    assert_eq!("w".parse(), Ok(OSMObjectType::Way));
    assert_eq!("way".parse(), Ok(OSMObjectType::Way));
    assert_eq!("r".parse(), Ok(OSMObjectType::Relation));
    assert_eq!("relation".parse(), Ok(OSMObjectType::Relation));
    assert_eq!("rel".parse(), Ok(OSMObjectType::Relation));

    assert!(" ".parse::<OSMObjectType>().is_err());
}

#[test]
fn objtype_error_messages() {
    assert_eq!(
        OSMObjectType::try_from('x'),
        Err("Cannot convert x to OSMObjectType".to_string())
    );
    assert_eq!(
        "nodes".parse::<OSMObjectType>(),
        Err("Cannot convert nodes to OSMObjectType".to_string())
    );
}

#[test]
fn objtype_letters_and_names() {
    assert_eq!(OSMObjectType::Node.letter(), 'n');
    assert_eq!(OSMObjectType::Way.letter(), 'w');
    assert_eq!(OSMObjectType::Relation.letter(), 'r');
    assert_eq!(OSMObjectType::Node.name(), "node");
    assert_eq!(OSMObjectType::Way.name(), "way");
    assert_eq!(OSMObjectType::Relation.name(), "relation");
    assert!(OSMObjectType::Node < OSMObjectType::Way);
    assert!(OSMObjectType::Way < OSMObjectType::Relation);
}
