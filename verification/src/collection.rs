//! The requests that the operations on a collection send.
//!
//! A [`Collection`] knows the name of a collection and says, for each
//! operation on it, which request goes to the server: under which document
//! name, and with which demand on whether the document exists already. It
//! sends nothing itself.

use crate::identifiers::{
    CollectionName, CollectionPath, DocumentPath, QualifyDocumentName, QualifyError,
    QualifyMismatch,
};
use crate::list_response::{ListResponse, Listing};
use vstd::prelude::*;

verus! {

/// The status code with which the server refuses to write a document that
/// must not exist yet and does.
pub const ALREADY_EXISTS: i32 = 6;

/// What a write demands of the document as the server holds it.
#[derive(Debug, Clone, Copy, PartialEq, Eq, Structural)]
pub enum Precondition {
    /// The write goes through whether the document exists or not.
    Unconditional,
    /// The write goes through only if the document exists.
    MustExist,
    /// The write goes through only if the document does not exist.
    MustNotExist,
}

/// The request to write a document under a name.
#[derive(Debug, PartialEq, Eq)]
pub struct UpdateRequest {
    /// The full name of the document.
    pub name: String,
    pub precondition: Precondition,
}

/// The request to add a document under a name that the server picks.
#[derive(Debug, PartialEq, Eq)]
pub struct CreateRequest {
    /// The name of what the collection lies in.
    pub parent: String,
    /// The short name of the collection.
    pub collection_id: String,
}

/// The request to read a document.
#[derive(Debug, PartialEq, Eq)]
pub struct GetRequest {
    /// The full name of the document.
    pub name: String,
}

/// The request to delete a document.
#[derive(Debug, PartialEq, Eq)]
pub struct DeleteRequest {
    /// The full name of the document.
    pub name: String,
    pub precondition: Precondition,
}

/// The model of a request that goes to one document: the document's full
/// name, and what is demanded of the document.
pub struct DocumentRequest {
    pub name: Seq<char>,
    pub precondition: Precondition,
}

/// The model of a [`CreateRequest`].
pub struct NewDocumentRequest {
    pub parent: Seq<char>,
    pub collection_id: Seq<char>,
}

impl View for UpdateRequest {
    type V = DocumentRequest;

    open spec fn view(&self) -> DocumentRequest {
        DocumentRequest { name: self.name@, precondition: self.precondition }
    }
}

impl View for DeleteRequest {
    type V = DocumentRequest;

    open spec fn view(&self) -> DocumentRequest {
        DocumentRequest { name: self.name@, precondition: self.precondition }
    }
}

impl View for GetRequest {
    type V = DocumentRequest;

    open spec fn view(&self) -> DocumentRequest {
        DocumentRequest { name: self.name@, precondition: Precondition::Unconditional }
    }
}

impl View for CreateRequest {
    type V = NewDocumentRequest;

    open spec fn view(&self) -> NewDocumentRequest {
        NewDocumentRequest { parent: self.parent@, collection_id: self.collection_id@ }
    }
}

/// The request that goes to the document that a key was qualified to, or
/// why the key does not name a document of the collection.
pub open spec fn request_for(
    qualified: Result<DocumentPath, QualifyMismatch>,
    precondition: Precondition,
) -> Result<DocumentRequest, QualifyMismatch> {
    match qualified {
        Ok(document) => Ok(DocumentRequest { name: document.name(), precondition }),
        Err(e) => Err(e),
    }
}

/// The model of a request of type `R`, or of the failure to make one.
pub open spec fn request_view<R: View>(request: Result<R, QualifyError>) -> Result<
    R::V,
    QualifyMismatch,
> {
    match request {
        Ok(r) => Ok(r@),
        Err(e) => Err(e@),
    }
}

/// What an attempt to create a document came to, from what the server
/// answered: `Ok(())`, or the status code of its refusal. The document was
/// created, or it was there already, or the attempt failed with that code.
pub open spec fn creation(answer: Result<(), i32>) -> Result<bool, i32> {
    match answer {
        Ok(_) => Ok(true),
        Err(code) => if code == ALREADY_EXISTS {
            Ok(false)
        } else {
            Err(code)
        },
    }
}

/// A collection of documents in a Firestore database.
pub struct Collection {
    name: CollectionName,
}

impl View for Collection {
    type V = CollectionPath;

    closed spec fn view(&self) -> CollectionPath {
        self.name@
    }
}

impl Collection {
    /// The collection of the given name.
    pub fn new(name: CollectionName) -> (collection: Collection)
        ensures
            collection@ == name@,
    {
        Collection { name }
    }

    /// A listing of all documents of the collection.
    pub fn list<D>(&self) -> (listing: ListResponse<D>)
        ensures
            listing@ == Listing::<D>::fresh(self@),
    {
        ListResponse::new(self.name.clone())
    }

    /// The name of the collection.
    pub fn name(&self) -> (name: CollectionName)
        ensures
            name@ == self@,
    {
        self.name.clone()
    }

    /// The collection `collection` under the document `name` of this
    /// collection.
    pub fn subcollection(&self, name: &str, collection: &str) -> (nested: Collection)
        ensures
            nested@ == self@.subcollection(name@, collection@),
    {
        Collection { name: self.name.subcollection(name, collection) }
    }

    /// The request that writes the document `key` of this collection.
    fn write<K: QualifyDocumentName>(&self, key: K, precondition: Precondition) -> (request:
        Result<UpdateRequest, QualifyError>)
        ensures
            request_view(request) == request_for(key.qualified(self@), precondition),
    {
        match key.qualify(&self.name) {
            Ok(document) => Ok(UpdateRequest { name: document.name(), precondition }),
            Err(e) => Err(e),
        }
    }

    /// The request that creates a document under `key`: a write that goes
    /// through only if no document of that name exists.
    pub fn create_with_key<K: QualifyDocumentName>(&self, key: K) -> (request: Result<
        UpdateRequest,
        QualifyError,
    >)
        ensures
            request_view(request) == request_for(
                key.qualified(self@),
                Precondition::MustNotExist,
            ),
    {
        self.write(key, Precondition::MustNotExist)
    }

    /// The request that creates a document under `key`, as
    /// `create_with_key` makes it. What the attempt came to is told from the
    /// server's answer by `created`.
    pub fn try_create<K: QualifyDocumentName>(&self, key: K) -> (request: Result<
        UpdateRequest,
        QualifyError,
    >)
        ensures
            request_view(request) == request_for(
                key.qualified(self@),
                Precondition::MustNotExist,
            ),
    {
        self.write(key, Precondition::MustNotExist)
    }

    /// What an attempt to create a document came to, from the server's
    /// answer: `Ok(true)` where the document was created, `Ok(false)` where
    /// the server refused because the document exists already, and the
    /// status code of any other refusal as the error.
    pub fn created(answer: Result<(), i32>) -> (outcome: Result<bool, i32>)
        ensures
            outcome == creation(answer),
    {
        match answer {
            Ok(_) => Ok(true),
            Err(code) => if code == ALREADY_EXISTS {
                Ok(false)
            } else {
                Err(code)
            },
        }
    }

    /// The request that adds a document to this collection under a name
    /// that the server picks.
    pub fn create(&self) -> (request: CreateRequest)
        ensures
            request@ == (NewDocumentRequest {
                parent: self@.parent().name(),
                collection_id: self@.collection,
            }),
    {
        CreateRequest {
            parent: self.name.parent().name(),
            collection_id: self.name.leaf_name(),
        }
    }

    /// The request that writes the document `key`, whether it exists or
    /// not.
    pub fn upsert<K: QualifyDocumentName>(&self, key: K) -> (request: Result<
        UpdateRequest,
        QualifyError,
    >)
        ensures
            request_view(request) == request_for(
                key.qualified(self@),
                Precondition::Unconditional,
            ),
    {
        self.write(key, Precondition::Unconditional)
    }

    /// The request that overwrites the document `key`: a write that goes
    /// through only if the document exists.
    pub fn update<K: QualifyDocumentName>(&self, key: K) -> (request: Result<
        UpdateRequest,
        QualifyError,
    >)
        ensures
            request_view(request) == request_for(key.qualified(self@), Precondition::MustExist),
    {
        self.write(key, Precondition::MustExist)
    }

    /// The request that reads the document `key`.
    pub fn get<K: QualifyDocumentName>(&self, key: K) -> (request: Result<
        GetRequest,
        QualifyError,
    >)
        ensures
            request_view(request) == request_for(
                key.qualified(self@),
                Precondition::Unconditional,
            ),
    {
        match key.qualify(&self.name) {
            Ok(document) => Ok(GetRequest { name: document.name() }),
            Err(e) => Err(e),
        }
    }

    /// The request that deletes the document `key`; it goes through only if
    /// the document exists.
    pub fn delete<K: QualifyDocumentName>(&self, key: K) -> (request: Result<
        DeleteRequest,
        QualifyError,
    >)
        ensures
            request_view(request) == request_for(key.qualified(self@), Precondition::MustExist),
    {
        match key.qualify(&self.name) {
            Ok(document) => Ok(
                DeleteRequest { name: document.name(), precondition: Precondition::MustExist },
            ),
            Err(e) => Err(e),
        }
    }
}

} // verus!
