//! Names of Firestore collections and documents, the requests that the
//! operations on a collection send, and the paging logic of a document
//! listing.

pub mod collection;
pub mod decimal;
pub mod identifiers;
pub mod list_response;
pub mod qualified_document_name;
pub mod segments;

pub use collection::Collection;
pub use identifiers::{CollectionName, DocumentName, QualifyDocumentName};

use identifiers::DocumentPath;
use vstd::prelude::*;

verus! {

/// A document's content together with the fully-qualified name of the
/// document.
#[derive(Hash, PartialEq, Debug, Eq)]
pub struct NamedDocument<T> {
    pub name: DocumentName,
    pub value: T,
}

/// The model of a [`NamedDocument`].
pub struct NamedItem<T> {
    pub name: DocumentPath,
    pub value: T,
}

impl<T> View for NamedDocument<T> {
    type V = NamedItem<T>;

    open spec fn view(&self) -> NamedItem<T> {
        NamedItem { name: self.name@, value: self.value }
    }
}

} // verus!
