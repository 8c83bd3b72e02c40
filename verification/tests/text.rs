use tiny_firestore_odm::decimal::decimal;
use tiny_firestore_odm::identifiers::{
    CollectionName, DocumentName, ParseError, QualifyDocumentName, QualifyError,
};
use tiny_firestore_odm::segments::{same_text, split_on_slash};

#[test]
fn split_keeps_empty_parts() {
    assert_eq!(vec![""], split_on_slash(""));
    assert_eq!(vec!["a"], split_on_slash("a"));
    assert_eq!(vec!["", ""], split_on_slash("/"));
    assert_eq!(vec!["a", "", "b", ""], split_on_slash("a//b/"));
    assert_eq!(vec!["é", "ü"], split_on_slash("é/ü"));
}

#[test]
fn same_text_compares_contents() {
    assert!(same_text("", ""));
    assert!(same_text("documents", "documents"));
    assert!(!same_text("documents", "document"));
    assert!(!same_text("documents", "documentz"));
    assert!(!same_text("é", "e"));
}

#[test]
fn decimal_writes_numbers() {
    assert_eq!("0", decimal(0));
    assert_eq!("7", decimal(7));
    assert_eq!("10", decimal(10));
    assert_eq!("4096", decimal(4096));
    assert_eq!(usize::MAX.to_string(), decimal(usize::MAX));
}

#[test]
fn parse_error_messages() {
    assert_eq!("Invalid part at index 4", ParseError::InvalidPart(4).message());
    assert_eq!(
        "Invalid number of parts 7",
        ParseError::WrongNumberOfParts(7).message()
    );
    assert_eq!(
        "Expected at least 6 parts, got 2",
        ParseError::TooFewParts(2).message()
    );
}

#[test]
fn qualify_error_messages() {
    let things = CollectionName::new("my-project", "things");
    let stuff = CollectionName::new("my-project", "stuff");
    let elsewhere = CollectionName::new("my-other-project", "stuff");
    assert_eq!(
        "Attempted to a collection-level operation with a document name from a different collection. This collection has the path projects/my-project/databases/(default)/documents/things, but attempted operation has the path projects/my-project/databases/(default)/documents/stuff",
        (&things.document("x")).qualify(&stuff).unwrap_err().message()
    );
    assert_eq!(
        "Attempted a collection-level operation with a document name from a different project. This collection has project my-project but attempted operation had project my-other-project",
        QualifyError::ProjectMismatch("my-project".to_string(), "my-other-project".to_string())
            .message()
    );
    assert_eq!(
        QualifyError::ProjectMismatch("my-project".to_string(), "my-other-project".to_string()),
        (&things.document("x")).qualify(&elsewhere).unwrap_err()
    );
}

#[test]
fn names_read_back() {
    let deep = CollectionName::new_with_path("p", &[("a", "1"), ("b", "2"), ("c", "3")], "leaf");
    assert_eq!(deep, CollectionName::parse(&deep.name()).unwrap());
    let document = deep.document("doc");
    assert_eq!(document, DocumentName::parse(&document.name()).unwrap());
    assert!(document.name().ends_with("/leaf/doc"));
    assert_eq!("doc", document.leaf_name());
    assert_eq!("leaf", deep.leaf_name());
}

#[test]
fn name_with_a_slash_in_a_part_does_not_read_back() {
    let odd = CollectionName::new("p", "a/b");
    assert_eq!(
        Err(ParseError::WrongNumberOfParts(7)),
        CollectionName::parse(&odd.name())
    );
}

#[test]
fn down_and_up_again() {
    let people = CollectionName::new("stuff", "people");
    let apps = people.subcollection("john", "apps");
    assert_eq!(Some(people.clone()), apps.parent().parent());
    assert_eq!(Some(people.clone()), apps.parent_collection());
    assert_eq!(None, people.parent_collection());
    assert_eq!(people.document("john").name(), apps.parent().name());
}

#[test]
fn bare_key_always_qualifies() {
    let apps = CollectionName::new("stuff", "people").subcollection("john", "apps");
    assert_eq!(Ok(apps.document("clock")), "clock".qualify(&apps));
    assert_eq!(Ok(apps.document("")), "".qualify(&apps));
}

#[test]
fn same_chain_in_another_project_is_a_project_mismatch() {
    let here = CollectionName::new_with_path("one", &[("a", "1")], "leaf");
    let there = CollectionName::new_with_path("two", &[("a", "1")], "leaf");
    assert_eq!(
        Err(QualifyError::ProjectMismatch("one".to_string(), "two".to_string())),
        (&here.document("d")).qualify(&there)
    );
    let other_chain = CollectionName::new_with_path("one", &[("a", "2")], "leaf");
    assert_eq!(
        Err(QualifyError::CollectionMismatch(here.clone(), other_chain.clone())),
        (&here.document("d")).qualify(&other_chain)
    );
}

#[test]
fn root_marker_alone_is_no_collection() {
    assert_eq!(
        Err(ParseError::WrongNumberOfParts(5)),
        CollectionName::parse("projects/a/databases/(default)/documents")
    );
    assert_eq!(
        Err(ParseError::TooFewParts(5)),
        DocumentName::parse("projects/a/databases/(default)/documents")
    );
    assert_eq!(
        "projects/a/databases/(default)/documents",
        CollectionName::new("a", "people").parent().name()
    );
}

#[test]
fn document_parse_errors() {
    assert_eq!(Err(ParseError::TooFewParts(1)), DocumentName::parse(""));
    assert_eq!(
        Err(ParseError::WrongNumberOfParts(6)),
        DocumentName::parse("projects/a/databases/(default)/documents/people")
    );
    assert_eq!(
        Err(ParseError::InvalidPart(3)),
        DocumentName::parse("projects/a/databases/default/documents/people/jack")
    );
    assert_eq!(
        Err(ParseError::InvalidPart(0)),
        DocumentName::parse("p/a/d/default/x/people/jack")
    );
}

#[test]
fn collection_parse_edges() {
    assert_eq!(Err(ParseError::TooFewParts(1)), CollectionName::parse(""));
    assert_eq!(Err(ParseError::TooFewParts(4)), CollectionName::parse("a/b/c/d"));
    assert_eq!(
        Ok(CollectionName::new("", "")),
        CollectionName::parse("projects//databases/(default)/documents/")
    );
    assert_eq!(
        Err(ParseError::InvalidPart(4)),
        CollectionName::parse("projects/a/databases/(default)/stuff/people")
    );
    assert_eq!(
        Ok(CollectionName::new("a", "people")),
        CollectionName::parse("projects/a/databases/(default)/documents/people")
    );
}

#[test]
fn equality_goes_by_parts_not_by_text() {
    let flat = CollectionName::new("p", "a/b/c");
    let nested = CollectionName::new_with_path("p", &[("a", "b")], "c");
    assert_eq!(flat.name(), nested.name());
    assert_ne!(flat, nested);
    assert_eq!(nested, nested.clone());
    assert_eq!(nested, CollectionName::new("p", "a").subcollection("b", "c"));
    assert_ne!(flat.document("d"), nested.document("d"));
    assert_ne!(nested.document("d"), nested.document("e"));
}
