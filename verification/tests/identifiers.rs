use tiny_firestore_odm::identifiers::{
    CollectionName, DocumentName, ParentDocumentOrRoot, ParseError, QualifyDocumentName,
    QualifyError,
};

#[test]
fn test_qualify() {
    let collection = CollectionName::new("my-project", "things");

    assert_eq!(
        "projects/my-project/databases/(default)/documents/things/blah",
        "blah".qualify(&collection).unwrap().name()
    );

    let doc = collection.document("mydoc");

    assert_eq!(
        "projects/my-project/databases/(default)/documents/things/mydoc",
        (&doc).qualify(&collection).unwrap().name()
    );
}

#[test]
fn test_subcollection() {
    let collection = CollectionName::new("my-project", "things");

    let subcollection = collection.subcollection("thing1", "apps");

    assert_eq!(
        "projects/my-project/databases/(default)/documents/things/thing1/apps",
        subcollection.name(),
    );
}

#[test]
fn test_fail_qualify() {
    let collection1 = CollectionName::new("my-project", "things");
    let collection2 = CollectionName::new("my-project", "stuff");
    let collection3 = CollectionName::new("my-other-project", "stuff");

    assert_eq!(
        QualifyError::CollectionMismatch(collection1.clone(), collection2.clone()),
        (&collection1.document("foobar"))
            .qualify(&collection2)
            .unwrap_err()
    );

    assert_eq!(
        QualifyError::ProjectMismatch("my-project".to_string(), "my-other-project".to_string()),
        (&collection1.document("foobar"))
            .qualify(&collection3)
            .unwrap_err()
    );
}

#[test]
fn identifiers_test_construct_document_name() {
    let collection = CollectionName::new("my-project", "things");

    assert_eq!(
        "projects/my-project/databases/(default)/documents/things",
        collection.name()
    );

    assert_eq!(
        "projects/my-project/databases/(default)/documents",
        collection.parent().name()
    );

    let doc1 = collection.document("thing1");

    assert_eq!(
        "projects/my-project/databases/(default)/documents/things/thing1",
        doc1.name()
    );
}

#[test]
fn test_construct_multi_part_collection_name() {
    let collection = CollectionName::new_with_path(
        "some-project",
        &[("people", "john"), ("items", "phone")],
        "apps",
    );

    assert_eq!(
        "projects/some-project/databases/(default)/documents/people/john/items/phone/apps",
        collection.name()
    );
}

#[test]
fn identifiers_test_parse_collection_name() {
    let name_to_parse = "projects/employee-directory/databases/(default)/documents/people";

    let expected = CollectionName::new_with_path("employee-directory", &[], "people");

    let result = CollectionName::parse(name_to_parse).unwrap();

    assert_eq!(expected, result);
}

#[test]
fn test_parse_multi_part_collection_name() {
    let name_to_parse =
        "projects/stuff/databases/(default)/documents/people/john/items/phone/apps";

    let expected = CollectionName::new_with_path(
        "stuff",
        &[("people", "john"), ("items", "phone")],
        "apps",
    );

    let result = CollectionName::parse(name_to_parse).unwrap();

    assert_eq!(expected, result);
}

#[test]
fn test_parse_multi_part_document_name() {
    let name_to_parse =
        "projects/stuff/databases/(default)/documents/people/john/items/phone/apps/clock";

    let expected = CollectionName::new_with_path(
        "stuff",
        &[("people", "john"), ("items", "phone")],
        "apps",
    )
    .document("clock");

    let result = DocumentName::parse(name_to_parse).unwrap();

    assert_eq!(expected, result);
}

#[test]
fn identifiers_test_fail_parse_collection_name() {
    assert_eq!(
        ParseError::TooFewParts(2),
        CollectionName::parse("projects/employee-directory").unwrap_err()
    );

    assert_eq!(
        ParseError::WrongNumberOfParts(7),
        CollectionName::parse(
            "projects/employee-directory/databases/(default)/documents/people/stuff"
        )
        .unwrap_err()
    );

    assert_eq!(
        ParseError::InvalidPart(0),
        CollectionName::parse("project/employee-directory/databases/(default)/documents/people")
            .unwrap_err()
    );

    assert_eq!(
        ParseError::InvalidPart(2),
        CollectionName::parse("projects/employee-directory/databa/(default)/documents/people")
            .unwrap_err()
    );

    assert_eq!(
        ParseError::InvalidPart(3),
        CollectionName::parse("projects/employee-directory/databases/default/documents/people")
            .unwrap_err()
    );

    assert_eq!(
        ParseError::InvalidPart(4),
        CollectionName::parse("projects/employee-directory/databases/(default)/stuff/people")
            .unwrap_err()
    );
}

#[test]
fn identifiers_test_parse_document_name() {
    let name_to_parse = "projects/employee-directory/databases/(default)/documents/people/jack";

    let expected = CollectionName::new("employee-directory", "people").document("jack");

    let result = DocumentName::parse(name_to_parse).unwrap();

    assert_eq!(expected, result);
}

#[test]
fn test_walk_to_root() {
    let name_to_parse =
        "projects/stuff/databases/(default)/documents/people/john/items/phone/apps/clock";

    let result = DocumentName::parse(name_to_parse).unwrap();

    assert_eq!(name_to_parse, &result.name());

    let result = result.collection().clone();

    assert_eq!(
        "projects/stuff/databases/(default)/documents/people/john/items/phone/apps",
        result.name()
    );

    let result = result.parent();

    assert_eq!(
        "projects/stuff/databases/(default)/documents/people/john/items/phone",
        result.name()
    );

    let result = result.parent().unwrap();

    assert_eq!(
        "projects/stuff/databases/(default)/documents/people/john/items",
        result.name()
    );

    let result = result.parent_collection().unwrap();

    assert_eq!(
        "projects/stuff/databases/(default)/documents/people",
        result.name()
    );

    let result = result.parent();

    assert_eq!(
        "projects/stuff/databases/(default)/documents",
        result.name()
    );
}

#[test]
fn test_walk_from_root() {
    let collection = CollectionName::new("my-project", "beers");

    assert_eq!(
        "projects/my-project/databases/(default)/documents/beers",
        collection.name()
    );
}

#[test]
fn root_parent_is_not_a_document() {
    let collection = CollectionName::new("a", "people");
    assert!(matches!(
        collection.parent(),
        ParentDocumentOrRoot::Root { project_id } if project_id == "a"
    ));
    assert_eq!(None, collection.parent_collection());
}
