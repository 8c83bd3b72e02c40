use firestore_serde::firestore::Document;
use std::collections::VecDeque;
use tiny_firestore_odm::identifiers::{CollectionName, ParseError};
use tiny_firestore_odm::list_response::{ListRequest, ListResponse, Phase, RawDocument, Step};
use tiny_firestore_odm::NamedDocument;

fn people() -> CollectionName {
    CollectionName::new("a", "people")
}

fn raw(key: &str, value: u32) -> RawDocument<u32> {
    RawDocument {
        name: format!("projects/a/databases/(default)/documents/people/{}", key),
        value,
    }
}

fn page(documents: Vec<RawDocument<u32>>) -> VecDeque<RawDocument<u32>> {
    documents.into_iter().collect()
}

/// Drives a listing against pages that are served in order, and returns the
/// values that came out and the requests that went out.
fn drain(
    mut listing: ListResponse<u32>,
    pages: Vec<(Vec<RawDocument<u32>>, &str)>,
) -> (Vec<(String, u32)>, Vec<ListRequest>, ListResponse<u32>) {
    let mut pages: VecDeque<(Vec<RawDocument<u32>>, &str)> = pages.into_iter().collect();
    let mut out = Vec::new();
    let mut requests = Vec::new();
    loop {
        match listing.poll_next() {
            Step::Item(document) => out.push((document.name.name(), document.value)),
            Step::Unnamed(e) => panic!("unnamed document: {:?}", e),
            Step::Fetch(request) => {
                requests.push(request);
                assert_eq!(Phase::AwaitingFetch, listing.phase());
                assert!(matches!(listing.poll_next(), Step::Pending));
                let (documents, token) = pages.pop_front().expect("a fetch beyond the last page");
                listing.page_arrived(page(documents), token.to_string());
            }
            Step::Pending => panic!("waiting without a request"),
            Step::Done => break,
            Step::Failed => panic!("failed"),
        }
    }
    (out, requests, listing)
}

#[test]
fn empty_collection_ends_after_one_fetch() {
    let (out, requests, mut listing) = drain(ListResponse::new(people()), vec![(vec![], "")]);
    assert!(out.is_empty());
    assert_eq!(1, requests.len());
    assert_eq!(Phase::Exhausted, listing.phase());
    for _ in 0..3 {
        assert!(matches!(listing.poll_next(), Step::Done));
    }
}

#[test]
fn first_request_names_parent_and_collection() {
    let mut listing: ListResponse<u32> = ListResponse::new(people());
    let step = listing.poll_next();
    let expected = ListRequest {
        parent: "projects/a/databases/(default)/documents".to_string(),
        collection_id: "people".to_string(),
        page_token: "".to_string(),
        page_size: 0,
        order_by: "".to_string(),
    };
    assert!(matches!(step, Step::Fetch(request) if request == expected));
}

#[test]
fn nested_collection_is_listed_under_its_document() {
    let apps = people().subcollection("john", "apps");
    let listing: ListResponse<u32> = ListResponse::new(apps);
    let request = listing.request();
    assert_eq!(
        "projects/a/databases/(default)/documents/people/john",
        request.parent
    );
    assert_eq!("apps", request.collection_id);
}

#[test]
fn three_pages_come_out_in_order_with_three_fetches() {
    let pages = vec![
        (vec![raw("k1", 1), raw("k2", 2)], "t1"),
        (vec![raw("k3", 3), raw("k4", 4)], "t2"),
        (vec![raw("k5", 5)], ""),
    ];
    let (out, requests, listing) = drain(ListResponse::new(people()), pages);
    let values: Vec<u32> = out.iter().map(|(_, v)| *v).collect();
    assert_eq!(vec![1, 2, 3, 4, 5], values);
    assert_eq!(
        "projects/a/databases/(default)/documents/people/k3",
        out[2].0
    );
    let tokens: Vec<&str> = requests.iter().map(|r| r.page_token.as_str()).collect();
    assert_eq!(vec!["", "t1", "t2"], tokens);
    assert_eq!(Phase::Exhausted, listing.phase());
}

#[test]
fn page_size_and_order_go_into_every_request() {
    let listing = ListResponse::new(people())
        .with_page_size(2)
        .with_order_by("name desc");
    let pages = vec![(vec![raw("k1", 1), raw("k2", 2)], "t1"), (vec![], "")];
    let (_, requests, _) = drain(listing, pages);
    assert_eq!(2, requests.len());
    for request in &requests {
        assert_eq!(2, request.page_size);
        assert_eq!("name desc", request.order_by);
        assert_eq!("people", request.collection_id);
    }
}

#[test]
fn no_fetch_is_outstanding_between_pages() {
    let mut listing: ListResponse<u32> = ListResponse::new(people());
    assert!(matches!(listing.poll_next(), Step::Fetch(_)));
    listing.page_arrived(page(vec![raw("k1", 1)]), "t1".to_string());
    assert_eq!(Phase::Draining, listing.phase());
    assert_eq!("t1", listing.request().page_token);
    drop(listing);
}

#[test]
fn last_page_is_handed_out_before_the_end() {
    let mut listing: ListResponse<u32> = ListResponse::new(people());
    assert!(matches!(listing.poll_next(), Step::Fetch(_)));
    listing.page_arrived(page(vec![raw("k1", 7)]), String::new());
    assert_eq!(Phase::Draining, listing.phase());
    let expected = NamedDocument {
        name: people().document("k1"),
        value: 7,
    };
    assert!(matches!(listing.poll_next(), Step::Item(document) if document == expected));
    assert_eq!(Phase::Exhausted, listing.phase());
    assert!(matches!(listing.poll_next(), Step::Done));
}

#[test]
fn failed_fetch_ends_the_listing() {
    let mut listing: ListResponse<u32> = ListResponse::new(people());
    assert!(matches!(listing.poll_next(), Step::Fetch(_)));
    listing.fetch_failed();
    assert_eq!(Phase::Failed, listing.phase());
    assert!(matches!(listing.poll_next(), Step::Failed));
    assert!(matches!(listing.poll_next(), Step::Failed));
    listing.page_arrived(page(vec![raw("k1", 1)]), "t".to_string());
    assert!(matches!(listing.poll_next(), Step::Failed));
}

#[test]
fn page_that_was_not_asked_for_is_dropped() {
    let mut listing: ListResponse<u32> = ListResponse::new(people());
    listing.page_arrived(page(vec![raw("k1", 1)]), "t".to_string());
    listing.fetch_failed();
    assert_eq!(Phase::Draining, listing.phase());
    assert!(
        matches!(listing.poll_next(), Step::Fetch(request) if request.page_token.is_empty())
    );
}

#[test]
fn document_with_a_bad_name_is_reported_and_skipped() {
    let mut listing: ListResponse<u32> = ListResponse::new(people());
    assert!(matches!(listing.poll_next(), Step::Fetch(_)));
    let bad = RawDocument {
        name: "projects/a/databases/(default)/documents/people".to_string(),
        value: 1,
    };
    listing.page_arrived(page(vec![bad, raw("k2", 2)]), String::new());
    assert!(matches!(
        listing.poll_next(),
        Step::Unnamed(ParseError::WrongNumberOfParts(6))
    ));
    assert!(matches!(listing.poll_next(), Step::Item(document) if document.value == 2));
    assert!(matches!(listing.poll_next(), Step::Done));
}

#[test]
fn get_page_names_every_document() {
    let named = ListResponse::get_page(page(vec![raw("k1", 1), raw("k2", 2)])).unwrap();
    assert_eq!(
        vec![
            NamedDocument {
                name: people().document("k1"),
                value: 1
            },
            NamedDocument {
                name: people().document("k2"),
                value: 2
            },
        ],
        named
    );
    let none: Vec<NamedDocument<u32>> = ListResponse::get_page(VecDeque::new()).unwrap();
    assert!(none.is_empty());
}

#[test]
fn get_page_refuses_a_page_with_a_bad_name() {
    let bad = RawDocument {
        name: "projects/a/databases/(default)/stuff/people/k".to_string(),
        value: 3,
    };
    let worse = RawDocument {
        name: "k".to_string(),
        value: 4,
    };
    assert_eq!(
        ParseError::InvalidPart(4),
        ListResponse::get_page(page(vec![raw("k1", 1), bad, worse])).unwrap_err()
    );
}

#[test]
fn documents_of_the_store_pass_through_unchanged() {
    let mut stored = Document::default();
    stored.name = "projects/a/databases/(default)/documents/people/jack".to_string();
    let mut listing: ListResponse<Document> = ListResponse::new(people());
    assert!(matches!(listing.poll_next(), Step::Fetch(_)));
    let raw = RawDocument {
        name: stored.name.clone(),
        value: stored.clone(),
    };
    listing.page_arrived(VecDeque::from(vec![raw]), String::new());
    let expected = NamedDocument {
        name: people().document("jack"),
        value: stored,
    };
    assert!(matches!(listing.poll_next(), Step::Item(document) if document == expected));
    assert!(matches!(listing.poll_next(), Step::Done));
}
