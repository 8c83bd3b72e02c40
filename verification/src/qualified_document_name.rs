//! Names of top-level collections and of their documents.
//!
//! This is the flat form of a name: a project, one collection directly under
//! the root, and for a document its short name. A name of this form has
//! exactly six parts, that of a document seven.

use crate::decimal::{decimal, digits};
use crate::identifiers::{
    first_bad_marker, lemma_markers_slash_free, push_segment, root_name, root_segments,
};
use crate::segments::{
    join, lemma_join_push, lemma_split_join, lemma_split_parts, same_text, slash_free, split,
    split_on_slash, texts,
};
use vstd::prelude::*;
use vstd::string::*;

verus! {

/// Why a string is not the name of a top-level collection or of one of its
/// documents.
#[derive(Debug, PartialEq, Eq, Structural)]
pub enum ParseError {
    /// The string does not have as many slash-separated parts as the name
    /// asked for has. Holds the number of parts found.
    WrongNumberOfParts(usize),
    /// A part that must be a fixed word is another. Holds the index of the
    /// first such part.
    InvalidPart(usize),
}

impl ParseError {
    /// What the error says: its name, and its number in brackets.
    pub open spec fn message_text(self) -> Seq<char> {
        match self {
            ParseError::WrongNumberOfParts(parts) => "WrongNumberOfParts("@ + digits(parts as nat)
                + ")"@,
            ParseError::InvalidPart(part) => "InvalidPart("@ + digits(part as nat) + ")"@,
        }
    }

    /// What the error says.
    pub fn message(&self) -> (text: String)
        ensures
            text@ == self.message_text(),
    {
        match self {
            ParseError::WrongNumberOfParts(parts) => {
                let mut text = "WrongNumberOfParts(".to_owned();
                text.append(decimal(*parts).as_str());
                text.append(")");
                text
            },
            ParseError::InvalidPart(part) => {
                let mut text = "InvalidPart(".to_owned();
                text.append(decimal(*part).as_str());
                text.append(")");
                text
            },
        }
    }
}

/// The model of a top-level collection's name.
pub struct QualifiedCollectionPath {
    pub project_id: Seq<char>,
    pub collection: Seq<char>,
}

/// The model of the name of a document of a top-level collection.
pub struct QualifiedDocumentPath {
    pub collection: QualifiedCollectionPath,
    pub name: Seq<char>,
}

impl QualifiedCollectionPath {
    /// The parts of the name, in order.
    pub open spec fn segments(self) -> Seq<Seq<char>> {
        root_segments(self.project_id).push(self.collection)
    }

    /// The name as text.
    pub open spec fn name(self) -> Seq<char> {
        join(self.segments())
    }

    /// The name of the root that the collection lies under.
    pub open spec fn parent_name(self) -> Seq<char> {
        join(root_segments(self.project_id))
    }

    /// Neither the project nor the collection holds a `/`.
    pub open spec fn well_formed(self) -> bool {
        slash_free(self.project_id) && slash_free(self.collection)
    }

    /// What the first `n` of `parts` are as a collection's name, where `n`
    /// must be six; `found` is the number that a wrong `n` is reported with.
    pub open spec fn from_segments(parts: Seq<Seq<char>>, found: nat) -> Result<
        QualifiedCollectionPath,
        ParseError,
    > {
        if parts.len() != 6 {
            Err(ParseError::WrongNumberOfParts(found as usize))
        } else if let Some(index) = first_bad_marker(parts) {
            Err(ParseError::InvalidPart(index))
        } else {
            Ok(QualifiedCollectionPath { project_id: parts[1], collection: parts[5] })
        }
    }

    /// What a text is as a collection's name.
    pub open spec fn parse(text: Seq<char>) -> Result<QualifiedCollectionPath, ParseError> {
        Self::from_segments(split(text), split(text).len())
    }
}

impl QualifiedDocumentPath {
    /// The parts of the name, in order.
    pub open spec fn segments(self) -> Seq<Seq<char>> {
        self.collection.segments().push(self.name)
    }

    /// The name as text.
    pub open spec fn name(self) -> Seq<char> {
        join(self.segments())
    }

    /// No part that the path was made from holds a `/`.
    pub open spec fn well_formed(self) -> bool {
        self.collection.well_formed() && slash_free(self.name)
    }

    /// What a text is as a document's name: its parts but the last as a
    /// collection's name, and the last as the document's own. The number in
    /// the error counts the parts of the whole text.
    pub open spec fn parse(text: Seq<char>) -> Result<QualifiedDocumentPath, ParseError> {
        let parts = split(text);
        match QualifiedCollectionPath::from_segments(parts.drop_last(), parts.len()) {
            Ok(collection) => Ok(QualifiedDocumentPath { collection, name: parts.last() }),
            Err(e) => Err(e),
        }
    }
}

/// The name of a collection directly under the root of a database.
#[derive(Hash, Debug, PartialEq, Eq)]
pub struct QualifiedCollectionName {
    project_id: String,
    collection: String,
}

impl View for QualifiedCollectionName {
    type V = QualifiedCollectionPath;

    closed spec fn view(&self) -> QualifiedCollectionPath {
        QualifiedCollectionPath { project_id: self.project_id@, collection: self.collection@ }
    }
}

/// The name of a document of a top-level collection.
#[derive(Hash, Debug, PartialEq, Eq)]
pub struct QualifiedDocumentName {
    collection: QualifiedCollectionName,
    name: String,
}

impl View for QualifiedDocumentName {
    type V = QualifiedDocumentPath;

    closed spec fn view(&self) -> QualifiedDocumentPath {
        QualifiedDocumentPath { collection: self.collection@, name: self.name@ }
    }
}

impl Clone for QualifiedCollectionName {
    fn clone(&self) -> (copy: Self)
        ensures
            copy@ == self@,
    {
        QualifiedCollectionName {
            project_id: self.project_id.clone(),
            collection: self.collection.clone(),
        }
    }
}

impl Clone for QualifiedDocumentName {
    fn clone(&self) -> (copy: Self)
        ensures
            copy@ == self@,
    {
        QualifiedDocumentName { collection: self.collection.clone(), name: self.name.clone() }
    }
}

/// The model of what parsing a collection's name gave.
pub open spec fn parsed_collection(parsed: Result<QualifiedCollectionName, ParseError>) -> Result<
    QualifiedCollectionPath,
    ParseError,
> {
    match parsed {
        Ok(collection) => Ok(collection@),
        Err(e) => Err(e),
    }
}

/// The model of what parsing a document's name gave.
pub open spec fn parsed_document(parsed: Result<QualifiedDocumentName, ParseError>) -> Result<
    QualifiedDocumentPath,
    ParseError,
> {
    match parsed {
        Ok(document) => Ok(document@),
        Err(e) => Err(e),
    }
}

/// Reads the first `n` of `parts` as a collection's name; a wrong `n` is
/// reported as `found`.
fn collection_from_parts(parts: &Vec<String>, n: usize, found: usize) -> (parsed: Result<
    QualifiedCollectionName,
    ParseError,
>)
    requires
        n <= parts.len(),
    ensures
        parsed_collection(parsed) == QualifiedCollectionPath::from_segments(
            texts(parts@).take(n as int),
            found as nat,
        ),
{
    if n != 6 {
        return Err(ParseError::WrongNumberOfParts(found));
    }
    if !same_text(parts[0].as_str(), "projects") {
        return Err(ParseError::InvalidPart(0));
    }
    if !same_text(parts[2].as_str(), "databases") {
        return Err(ParseError::InvalidPart(2));
    }
    if !same_text(parts[3].as_str(), "(default)") {
        return Err(ParseError::InvalidPart(3));
    }
    if !same_text(parts[4].as_str(), "documents") {
        return Err(ParseError::InvalidPart(4));
    }
    Ok(QualifiedCollectionName { project_id: parts[1].clone(), collection: parts[5].clone() })
}

impl QualifiedCollectionName {
    /// The name of the collection `collection` of the project `project_id`.
    pub fn new(project_id: &str, collection: &str) -> (made: QualifiedCollectionName)
        ensures
            made@ == (QualifiedCollectionPath {
                project_id: project_id@,
                collection: collection@,
            }),
    {
        QualifiedCollectionName {
            project_id: project_id.to_owned(),
            collection: collection.to_owned(),
        }
    }

    /// The name of the document `name` of this collection.
    pub fn document(&self, name: &str) -> (made: QualifiedDocumentName)
        ensures
            made@ == (QualifiedDocumentPath { collection: self@, name: name@ }),
    {
        QualifiedDocumentName { collection: self.clone(), name: name.to_owned() }
    }

    /// The fully-qualified name of this collection as a string.
    pub fn name(&self) -> (name: String)
        ensures
            name@ == self@.name(),
    {
        let mut name = root_name(self.project_id.as_str());
        push_segment(&mut name, self.collection.as_str());
        proof {
            lemma_join_push(root_segments(self@.project_id), self@.collection);
        }
        name
    }

    /// The name of the root that this collection lies under.
    pub fn parent_name(&self) -> (name: String)
        ensures
            name@ == self@.parent_name(),
    {
        root_name(self.project_id.as_str())
    }

    /// Reads a collection's name from a slash-delimited string.
    pub fn parse(name: &str) -> (parsed: Result<QualifiedCollectionName, ParseError>)
        ensures
            parsed_collection(parsed) == QualifiedCollectionPath::parse(name@),
    {
        let parts = split_on_slash(name);
        assert(texts(parts@).take(parts.len() as int) =~= texts(parts@));
        collection_from_parts(&parts, parts.len(), parts.len())
    }
}

impl QualifiedDocumentName {
    /// The fully-qualified name of this document as a string.
    pub fn name(&self) -> (name: String)
        ensures
            name@ == self@.name(),
    {
        let mut name = self.collection.name();
        push_segment(&mut name, self.name.as_str());
        proof {
            lemma_join_push(self@.collection.segments(), self@.name);
        }
        name
    }

    /// Reads a document's name from a slash-delimited string.
    pub fn parse(name: &str) -> (parsed: Result<QualifiedDocumentName, ParseError>)
        ensures
            parsed_document(parsed) == QualifiedDocumentPath::parse(name@),
    {
        let parts = split_on_slash(name);
        let n = parts.len();
        proof {
            lemma_split_parts(name@);
            assert(texts(parts@).take(n - 1) =~= texts(parts@).drop_last());
        }
        match collection_from_parts(&parts, n - 1, n) {
            Ok(collection) => Ok(QualifiedDocumentName { collection, name: parts[n - 1].clone() }),
            Err(e) => Err(e),
        }
    }
}

/// A value that stands for the full name of a document.
pub trait QualifyDocumentName {
    /// What `qualify` gives.
    spec fn qualified(&self, path: Seq<char>) -> QualifiedDocumentPath;

    /// The full name that `self` stands for; `path` is the name of the
    /// collection that is asked about.
    fn qualify(&self, path: &str) -> (qualified: QualifiedDocumentName)
        ensures
            qualified@ == self.qualified(path@),
    ;
}

/// A full name stands for itself, whatever the collection asked about.
impl QualifyDocumentName for &QualifiedDocumentName {
    open spec fn qualified(&self, path: Seq<char>) -> QualifiedDocumentPath {
        self@
    }

    fn qualify(&self, path: &str) -> (qualified: QualifiedDocumentName) {
        (*self).clone()
    }
}

/// Reading the name of a well-formed collection path gives the path back.
pub proof fn lemma_collection_name_parses(path: QualifiedCollectionPath)
    requires
        path.well_formed(),
    ensures
        QualifiedCollectionPath::parse(path.name()) == Ok::<QualifiedCollectionPath, ParseError>(
            path,
        ),
{
    lemma_markers_slash_free();
    lemma_split_join(path.segments());
}

/// Reading the name of a well-formed document path gives the path back.
pub proof fn lemma_document_name_parses(path: QualifiedDocumentPath)
    requires
        path.well_formed(),
    ensures
        QualifiedDocumentPath::parse(path.name()) == Ok::<QualifiedDocumentPath, ParseError>(
            path,
        ),
{
    lemma_markers_slash_free();
    lemma_split_join(path.segments());
    assert(path.segments().drop_last() =~= path.collection.segments());
}

} // verus!
