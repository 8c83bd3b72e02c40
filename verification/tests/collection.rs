use tiny_firestore_odm::collection::{
    CreateRequest, DeleteRequest, GetRequest, Precondition, UpdateRequest, ALREADY_EXISTS,
};
use tiny_firestore_odm::identifiers::QualifyError;
use tiny_firestore_odm::list_response::{ListResponse, Step};
use tiny_firestore_odm::{Collection, CollectionName};

fn things() -> Collection {
    Collection::new(CollectionName::new("my-project", "things"))
}

const THING1: &str = "projects/my-project/databases/(default)/documents/things/thing1";

#[test]
fn collection_keeps_its_name() {
    assert_eq!(CollectionName::new("my-project", "things"), things().name());
    assert_eq!(
        "projects/my-project/databases/(default)/documents/things/thing1/apps",
        things().subcollection("thing1", "apps").name().name()
    );
}

#[test]
fn create_with_key_demands_absence() {
    let expected = UpdateRequest {
        name: THING1.to_string(),
        precondition: Precondition::MustNotExist,
    };
    assert_eq!(Ok(expected), things().create_with_key("thing1"));
    let expected = UpdateRequest {
        name: THING1.to_string(),
        precondition: Precondition::MustNotExist,
    };
    assert_eq!(Ok(expected), things().try_create("thing1"));
}

#[test]
fn upsert_demands_nothing_and_update_demands_presence() {
    assert_eq!(
        Ok(UpdateRequest {
            name: THING1.to_string(),
            precondition: Precondition::Unconditional,
        }),
        things().upsert("thing1")
    );
    assert_eq!(
        Ok(UpdateRequest {
            name: THING1.to_string(),
            precondition: Precondition::MustExist,
        }),
        things().update("thing1")
    );
}

#[test]
fn get_and_delete_go_to_the_qualified_name() {
    let document = things().name().document("thing1");
    assert_eq!(
        Ok(GetRequest {
            name: THING1.to_string()
        }),
        things().get(&document)
    );
    assert_eq!(
        Ok(DeleteRequest {
            name: THING1.to_string(),
            precondition: Precondition::MustExist,
        }),
        things().delete(&document)
    );
}

#[test]
fn create_goes_to_the_parent() {
    assert_eq!(
        CreateRequest {
            parent: "projects/my-project/databases/(default)/documents".to_string(),
            collection_id: "things".to_string(),
        },
        things().create()
    );
    assert_eq!(
        CreateRequest {
            parent: THING1.to_string(),
            collection_id: "apps".to_string(),
        },
        things().subcollection("thing1", "apps").create()
    );
}

#[test]
fn key_of_another_collection_is_refused_before_any_request() {
    let stuff = CollectionName::new("my-project", "stuff");
    let elsewhere = CollectionName::new("my-other-project", "things");
    assert_eq!(
        Err(QualifyError::CollectionMismatch(
            stuff.clone(),
            things().name()
        )),
        things().update(&stuff.document("x"))
    );
    assert_eq!(
        Err(QualifyError::ProjectMismatch(
            "my-other-project".to_string(),
            "my-project".to_string()
        )),
        things().delete(&elsewhere.document("x"))
    );
    assert!(things().get(&stuff.document("x")).is_err());
    assert!(things().upsert(&stuff.document("x")).is_err());
    assert!(things().create_with_key(&stuff.document("x")).is_err());
}

#[test]
fn created_tells_an_existing_document_from_a_failure() {
    assert_eq!(Ok(true), Collection::created(Ok(())));
    assert_eq!(Ok(false), Collection::created(Err(ALREADY_EXISTS)));
    assert_eq!(Ok(false), Collection::created(Err(6)));
    assert_eq!(Err(5), Collection::created(Err(5)));
    assert_eq!(Err(14), Collection::created(Err(14)));
}

#[test]
fn list_starts_at_the_first_page() {
    let mut listing: ListResponse<u8> = things().list();
    assert!(matches!(
        listing.poll_next(),
        Step::Fetch(request) if request.collection_id == "things" && request.page_token.is_empty()
    ));
}

#[test]
fn already_exists_is_the_status_code_of_the_transport() {
    assert_eq!(tonic::Code::AlreadyExists as i32, ALREADY_EXISTS);
    let status = tonic::Status::already_exists("there already");
    assert_eq!(
        Ok(false),
        Collection::created(Err(status.code() as i32))
    );
    let status = tonic::Status::not_found("nothing there");
    assert_eq!(
        Err(tonic::Code::NotFound as i32),
        Collection::created(Err(status.code() as i32))
    );
}
