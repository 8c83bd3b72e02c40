//! Fully-qualified names of Firestore collections and documents.
//!
//! A name is held as its parts: the project, the chain of (collection,
//! document) pairs above it, and its own leaf. The model of a name is a
//! [`CollectionPath`] or a [`DocumentPath`]; what a name looks like as text
//! is said once, over the model, by `segments` and `name`.

use crate::decimal::{decimal, digits};
use crate::segments::{
    all_slash_free, join, lemma_join_push, lemma_join_split, lemma_split_join, same_text,
    slash_free, split, split_on_slash, texts, SEPARATOR,
};
use vstd::prelude::*;
use vstd::std_specs::cmp::PartialEqSpecImpl;
use vstd::string::*;

verus! {

/// Why a string is not the name of a collection or of a document.
#[derive(Debug, PartialEq, Eq, Structural)]
pub enum ParseError {
    /// The string has too few slash-separated parts to hold the fixed ones.
    /// Holds the number of parts found.
    TooFewParts(usize),
    /// The number of parts does not fit what was asked for: a collection has
    /// an even number of parts, a document an odd one. Holds the number of
    /// parts found.
    WrongNumberOfParts(usize),
    /// A part that must be a fixed word is another. Holds the index of the
    /// first such part.
    InvalidPart(usize),
}

impl ParseError {
    /// What the error says, in words.
    pub open spec fn message_text(self) -> Seq<char> {
        match self {
            ParseError::InvalidPart(part) => "Invalid part at index "@ + digits(part as nat),
            ParseError::WrongNumberOfParts(parts) => "Invalid number of parts "@ + digits(
                parts as nat,
            ),
            ParseError::TooFewParts(parts) => "Expected at least 6 parts, got "@ + digits(
                parts as nat,
            ),
        }
    }

    /// What the error says, in words.
    pub fn message(&self) -> (text: String)
        ensures
            text@ == self.message_text(),
    {
        match self {
            ParseError::InvalidPart(part) => {
                let mut text = "Invalid part at index ".to_owned();
                text.append(decimal(*part).as_str());
                text
            },
            ParseError::WrongNumberOfParts(parts) => {
                let mut text = "Invalid number of parts ".to_owned();
                text.append(decimal(*parts).as_str());
                text
            },
            ParseError::TooFewParts(parts) => {
                let mut text = "Expected at least 6 parts, got ".to_owned();
                text.append(decimal(*parts).as_str());
                text
            },
        }
    }
}

/// The model of a collection's name.
pub struct CollectionPath {
    /// The project that the database belongs to.
    pub project_id: Seq<char>,
    /// The (collection, document) pairs above the collection, outermost first.
    pub parent_path: Seq<(Seq<char>, Seq<char>)>,
    /// The collection's own short name.
    pub collection: Seq<char>,
}

/// The model of a document's name.
pub struct DocumentPath {
    /// The collection that holds the document.
    pub collection: CollectionPath,
    /// The document's own short name.
    pub name: Seq<char>,
}

/// The model of what a collection lies in.
pub enum ParentPath {
    /// The collection is a top-level one of the project's database.
    Root { project_id: Seq<char> },
    /// The collection is nested under a document.
    ParentDocument { document: DocumentPath },
}

/// The five parts that every name starts with.
pub open spec fn root_segments(project_id: Seq<char>) -> Seq<Seq<char>> {
    seq!["projects"@, project_id, "databases"@, "(default)"@, "documents"@]
}

/// A chain of pairs as parts: collection, document, collection, document, ...
pub open spec fn chain_segments(chain: Seq<(Seq<char>, Seq<char>)>) -> Seq<Seq<char>> {
    Seq::new(
        2 * chain.len(),
        |i: int|
            if i % 2 == 0 {
                chain[i / 2].0
            } else {
                chain[i / 2].1
            },
    )
}

/// The chain that the parts from index 5 on spell, taken two by two.
pub open spec fn chain_of_segments(parts: Seq<Seq<char>>, depth: nat) -> Seq<
    (Seq<char>, Seq<char>),
> {
    Seq::new(depth, |d: int| (parts[5 + 2 * d], parts[6 + 2 * d]))
}

/// The index of the first of the four fixed parts that is not the word it
/// must be, if there is one.
pub open spec fn first_bad_marker(parts: Seq<Seq<char>>) -> Option<usize>
    recommends
        parts.len() >= 5,
{
    if parts[0] != "projects"@ {
        Some(0usize)
    } else if parts[2] != "databases"@ {
        Some(2usize)
    } else if parts[3] != "(default)"@ {
        Some(3usize)
    } else if parts[4] != "documents"@ {
        Some(4usize)
    } else {
        None
    }
}

impl CollectionPath {
    /// A collection directly under the root of `project_id`'s database.
    pub open spec fn top_level(project_id: Seq<char>, collection: Seq<char>) -> CollectionPath {
        CollectionPath { project_id, parent_path: Seq::empty(), collection }
    }

    /// The collection `collection` under the document `name` of this
    /// collection.
    pub open spec fn subcollection(self, name: Seq<char>, collection: Seq<char>) -> CollectionPath {
        CollectionPath {
            project_id: self.project_id,
            parent_path: self.parent_path.push((self.collection, name)),
            collection,
        }
    }

    /// The document `name` of this collection.
    pub open spec fn document(self, name: Seq<char>) -> DocumentPath {
        DocumentPath { collection: self, name }
    }

    /// What this collection lies in: the document that the last pair of its
    /// chain names, or the root where the chain is empty.
    pub open spec fn parent(self) -> ParentPath {
        if self.parent_path.len() > 0 {
            ParentPath::ParentDocument {
                document: DocumentPath {
                    collection: CollectionPath {
                        project_id: self.project_id,
                        parent_path: self.parent_path.drop_last(),
                        collection: self.parent_path.last().0,
                    },
                    name: self.parent_path.last().1,
                },
            }
        } else {
            ParentPath::Root { project_id: self.project_id }
        }
    }

    /// The collection of the document that this collection is nested under.
    pub open spec fn parent_collection(self) -> Option<CollectionPath> {
        self.parent().parent()
    }

    /// The parts of the name, in order.
    pub open spec fn segments(self) -> Seq<Seq<char>> {
        root_segments(self.project_id) + chain_segments(self.parent_path) + seq![self.collection]
    }

    /// The name as text.
    pub open spec fn name(self) -> Seq<char> {
        join(self.segments())
    }

    /// No part that the path was made from holds a `/`. Only such a path can
    /// be read back from its name.
    pub open spec fn well_formed(self) -> bool {
        &&& slash_free(self.project_id)
        &&& slash_free(self.collection)
        &&& forall|i: int|
            #![trigger self.parent_path[i]]
            0 <= i < self.parent_path.len() ==> slash_free(self.parent_path[i].0) && slash_free(
                self.parent_path[i].1,
            )
    }

    /// What a list of parts is as a collection's name. It needs at least five
    /// parts and an even number of them, and the four fixed words in their
    /// places; the first demand that fails gives the error.
    pub open spec fn from_segments(parts: Seq<Seq<char>>) -> Result<CollectionPath, ParseError> {
        let n = parts.len();
        if n < 5 {
            Err(ParseError::TooFewParts(n as usize))
        } else if n % 2 != 0 {
            Err(ParseError::WrongNumberOfParts(n as usize))
        } else if let Some(index) = first_bad_marker(parts) {
            Err(ParseError::InvalidPart(index))
        } else {
            Ok(
                CollectionPath {
                    project_id: parts[1],
                    parent_path: chain_of_segments(parts, ((n - 6) / 2) as nat),
                    collection: parts.last(),
                },
            )
        }
    }

    /// What a text is as a collection's name.
    pub open spec fn parse(text: Seq<char>) -> Result<CollectionPath, ParseError> {
        Self::from_segments(split(text))
    }
}

impl DocumentPath {
    /// The parts of the name, in order.
    pub open spec fn segments(self) -> Seq<Seq<char>> {
        self.collection.segments().push(self.name)
    }

    /// The name as text.
    pub open spec fn name(self) -> Seq<char> {
        join(self.segments())
    }

    /// No part that the path was made from holds a `/`.
    pub open spec fn well_formed(self) -> bool {
        self.collection.well_formed() && slash_free(self.name)
    }

    /// What a list of parts is as a document's name: all parts but the last
    /// as a collection's name, and the last as the document's own. It needs
    /// at least six parts and an odd number of them; the numbers in the
    /// errors count the parts of the whole list.
    pub open spec fn from_segments(parts: Seq<Seq<char>>) -> Result<DocumentPath, ParseError> {
        let n = parts.len();
        if n < 6 {
            Err(ParseError::TooFewParts(n as usize))
        } else if n % 2 == 0 {
            Err(ParseError::WrongNumberOfParts(n as usize))
        } else {
            match CollectionPath::from_segments(parts.drop_last()) {
                Ok(collection) => Ok(DocumentPath { collection, name: parts.last() }),
                Err(e) => Err(e),
            }
        }
    }

    /// What a text is as a document's name.
    pub open spec fn parse(text: Seq<char>) -> Result<DocumentPath, ParseError> {
        Self::from_segments(split(text))
    }
}

impl ParentPath {
    /// The name as text, as the API takes it for a `parent` parameter.
    pub open spec fn name(self) -> Seq<char> {
        match self {
            ParentPath::Root { project_id } => join(root_segments(project_id)),
            ParentPath::ParentDocument { document } => document.name(),
        }
    }

    /// The collection above, where there is one.
    pub open spec fn parent(self) -> Option<CollectionPath> {
        match self {
            ParentPath::Root { .. } => None,
            ParentPath::ParentDocument { document } => Some(document.collection),
        }
    }
}

/// The model of a chain of string pairs.
pub open spec fn chain_view(chain: Seq<(String, String)>) -> Seq<(Seq<char>, Seq<char>)> {
    chain.map_values(|p: (String, String)| (p.0@, p.1@))
}

/// The model of a chain of borrowed string pairs.
pub open spec fn borrowed_chain_view(chain: Seq<(&str, &str)>) -> Seq<(Seq<char>, Seq<char>)> {
    chain.map_values(|p: (&str, &str)| (p.0@, p.1@))
}

/// The fully-qualified name of a collection.
#[derive(Debug, Hash, Eq)]
pub struct CollectionName {
    project_id: String,
    /// The (collection, document) pairs above this collection.
    parent_path: Vec<(String, String)>,
    /// The short name of the collection itself.
    collection: String,
}

impl View for CollectionName {
    type V = CollectionPath;

    closed spec fn view(&self) -> CollectionPath {
        CollectionPath {
            project_id: self.project_id@,
            parent_path: chain_view(self.parent_path@),
            collection: self.collection@,
        }
    }
}

/// The fully-qualified name of a document.
#[derive(Debug, Hash, Eq)]
pub struct DocumentName {
    collection: CollectionName,
    name: String,
}

impl View for DocumentName {
    type V = DocumentPath;

    closed spec fn view(&self) -> DocumentPath {
        DocumentPath { collection: self.collection@, name: self.name@ }
    }
}

/// What a collection lies in: a document, or the root of the database.
pub enum ParentDocumentOrRoot {
    /// The root of the database of `project_id`.
    Root { project_id: String },
    /// The document that the collection is nested under.
    ParentDocument { document: DocumentName },
}

impl View for ParentDocumentOrRoot {
    type V = ParentPath;

    open spec fn view(&self) -> ParentPath {
        match self {
            ParentDocumentOrRoot::Root { project_id } => ParentPath::Root {
                project_id: project_id@,
            },
            ParentDocumentOrRoot::ParentDocument { document } => ParentPath::ParentDocument {
                document: document@,
            },
        }
    }
}

/// The model of what parsing a collection's name gave.
pub open spec fn parsed_collection(parsed: Result<CollectionName, ParseError>) -> Result<
    CollectionPath,
    ParseError,
> {
    match parsed {
        Ok(collection) => Ok(collection@),
        Err(e) => Err(e),
    }
}

/// The model of what parsing a document's name gave.
pub open spec fn parsed_document(parsed: Result<DocumentName, ParseError>) -> Result<
    DocumentPath,
    ParseError,
> {
    match parsed {
        Ok(document) => Ok(document@),
        Err(e) => Err(e),
    }
}

/// The model of a collection that may be absent.
pub open spec fn optional_collection(collection: Option<CollectionName>) -> Option<CollectionPath> {
    match collection {
        Some(c) => Some(c@),
        None => None,
    }
}

/// A copy of a chain of pairs.
fn copy_chain(chain: &Vec<(String, String)>, len: usize) -> (copy: Vec<(String, String)>)
    requires
        len <= chain.len(),
    ensures
        chain_view(copy@) == chain_view(chain@).take(len as int),
{
    let mut copy: Vec<(String, String)> = Vec::new();
    let mut i: usize = 0;
    while i < len
        invariant
            i <= len <= chain.len(),
            copy.len() == i,
            chain_view(copy@) == chain_view(chain@).take(i as int),
        decreases len - i,
    {
        let pair = (chain[i].0.clone(), chain[i].1.clone());
        proof {
            let grown = chain_view(copy@.push(pair));
            let wanted = chain_view(chain@).take(i + 1);
            assert forall|j: int| 0 <= j < grown.len() implies grown[j] == wanted[j] by {
                if j < i {
                    assert(grown[j] == chain_view(copy@)[j]);
                    assert(wanted[j] == chain_view(chain@).take(i as int)[j]);
                }
            }
            assert(grown =~= wanted);
        }
        copy.push(pair);
        i = i + 1;
    }
    copy
}

/// Whether two chains of pairs hold the same texts.
fn same_chain(a: &Vec<(String, String)>, b: &Vec<(String, String)>) -> (same: bool)
    ensures
        same == (chain_view(a@) == chain_view(b@)),
{
    if a.len() != b.len() {
        assert(chain_view(a@).len() != chain_view(b@).len());
        return false;
    }
    let mut i: usize = 0;
    while i < a.len()
        invariant
            i <= a.len(),
            a.len() == b.len(),
            forall|j: int| 0 <= j < i ==> chain_view(a@)[j] == chain_view(b@)[j],
        decreases a.len() - i,
    {
        if a[i].0 != b[i].0 || a[i].1 != b[i].1 {
            assert(chain_view(a@)[i as int] != chain_view(b@)[i as int]);
            return false;
        }
        i = i + 1;
    }
    assert(chain_view(a@) =~= chain_view(b@));
    true
}

/// Writes a separator and then `part` behind `name`.
pub(crate) fn push_segment(name: &mut String, part: &str)
    ensures
        final(name)@ == old(name)@ + seq![SEPARATOR] + part@,
{
    proof {
        reveal_strlit("/");
        assert("/"@ =~= seq![SEPARATOR]);
    }
    name.append("/");
    name.append(part);
}

/// The name of the root of a project's database.
pub(crate) fn root_name(project_id: &str) -> (name: String)
    ensures
        name@ == join(root_segments(project_id@)),
{
    let mut name = "projects".to_owned();
    push_segment(&mut name, project_id);
    push_segment(&mut name, "databases");
    push_segment(&mut name, "(default)");
    push_segment(&mut name, "documents");
    proof {
        let one = seq!["projects"@];
        let two = one.push(project_id@);
        let three = two.push("databases"@);
        let four = three.push("(default)"@);
        assert(join(one) == "projects"@);
        lemma_join_push(one, project_id@);
        lemma_join_push(two, "databases"@);
        lemma_join_push(three, "(default)"@);
        lemma_join_push(four, "documents"@);
        assert(four.push("documents"@) =~= root_segments(project_id@));
    }
    name
}

/// The chain of a longer prefix, as parts: that of the prefix one shorter,
/// and the two parts of the pair that came to it.
proof fn lemma_chain_segments_take(chain: Seq<(Seq<char>, Seq<char>)>, i: int)
    requires
        0 <= i < chain.len(),
    ensures
        chain_segments(chain.take(i + 1)) == chain_segments(chain.take(i)).push(chain[i].0).push(
            chain[i].1,
        ),
{
    let longer = chain_segments(chain.take(i + 1));
    let shorter = chain_segments(chain.take(i)).push(chain[i].0).push(chain[i].1);
    assert(longer.len() == shorter.len());
    assert forall|j: int| 0 <= j < longer.len() implies longer[j] == shorter[j] by {
        if j < 2 * i {
            assert(chain.take(i + 1)[j / 2] == chain.take(i)[j / 2]);
        } else {
            assert(chain.take(i + 1)[j / 2] == chain[i]);
        }
    }
    assert(longer =~= shorter);
}

/// Reads the first `n` of `parts` as a collection's name.
fn collection_from_parts(parts: &Vec<String>, n: usize) -> (parsed: Result<
    CollectionName,
    ParseError,
>)
    requires
        n <= parts.len(),
    ensures
        parsed_collection(parsed) == CollectionPath::from_segments(texts(parts@).take(n as int)),
{
    let ghost segments = texts(parts@).take(n as int);
    if n < 5 {
        return Err(ParseError::TooFewParts(n));
    }
    if n % 2 != 0 {
        return Err(ParseError::WrongNumberOfParts(n));
    }
    if !same_text(parts[0].as_str(), "projects") {
        return Err(ParseError::InvalidPart(0));
    }
    if !same_text(parts[2].as_str(), "databases") {
        return Err(ParseError::InvalidPart(2));
    }
    if !same_text(parts[3].as_str(), "(default)") {
        return Err(ParseError::InvalidPart(3));
    }
    if !same_text(parts[4].as_str(), "documents") {
        return Err(ParseError::InvalidPart(4));
    }
    let depth = (n - 6) / 2;
    let mut parent_path: Vec<(String, String)> = Vec::new();
    let mut d: usize = 0;
    while d < depth
        invariant
            d <= depth,
            6 + 2 * depth == n <= parts.len(),
            parent_path.len() == d,
            segments == texts(parts@).take(n as int),
            chain_view(parent_path@) == chain_of_segments(segments, d as nat),
        decreases depth - d,
    {
        let pair = (parts[5 + 2 * d].clone(), parts[6 + 2 * d].clone());
        proof {
            let grown = chain_view(parent_path@.push(pair));
            let wanted = chain_of_segments(segments, (d + 1) as nat);
            assert forall|j: int| 0 <= j < grown.len() implies grown[j] == wanted[j] by {
                if j < d {
                    assert(grown[j] == chain_view(parent_path@)[j]);
                    assert(wanted[j] == chain_of_segments(segments, d as nat)[j]);
                } else {
                    assert(segments[5 + 2 * d] == parts@[5 + 2 * d]@);
                    assert(segments[6 + 2 * d] == parts@[6 + 2 * d]@);
                }
            }
            assert(grown =~= wanted);
        }
        parent_path.push(pair);
        d = d + 1;
    }
    Ok(
        CollectionName {
            project_id: parts[1].clone(),
            parent_path,
            collection: parts[n - 1].clone(),
        },
    )
}

impl CollectionName {
    /// The name of a top-level collection: one directly under the root.
    pub fn new(project_id: &str, collection: &str) -> (made: CollectionName)
        ensures
            made@ == CollectionPath::top_level(project_id@, collection@),
    {
        let parent_path: Vec<(String, String)> = Vec::new();
        assert(chain_view(parent_path@) =~= Seq::empty());
        CollectionName {
            project_id: project_id.to_owned(),
            parent_path,
            collection: collection.to_owned(),
        }
    }

    /// The name of a collection nested under the documents that `path`
    /// names, outermost first.
    pub fn new_with_path(project_id: &str, path: &[(&str, &str)], collection: &str) -> (made:
        CollectionName)
        ensures
            made@ == (CollectionPath {
                project_id: project_id@,
                parent_path: borrowed_chain_view(path@),
                collection: collection@,
            }),
    {
        let mut parent_path: Vec<(String, String)> = Vec::new();
        let mut i: usize = 0;
        while i < path.len()
            invariant
                i <= path.len(),
                parent_path.len() == i,
                chain_view(parent_path@) == borrowed_chain_view(path@).take(i as int),
            decreases path.len() - i,
        {
            let pair = (path[i].0.to_owned(), path[i].1.to_owned());
            proof {
                assert(chain_view(parent_path@.push(pair)) =~= borrowed_chain_view(path@).take(
                    i + 1,
                ));
            }
            parent_path.push(pair);
            i = i + 1;
        }
        assert(borrowed_chain_view(path@).take(path.len() as int) =~= borrowed_chain_view(path@));
        CollectionName {
            project_id: project_id.to_owned(),
            parent_path,
            collection: collection.to_owned(),
        }
    }

    /// The name of the collection `collection` under the document `name` of
    /// this collection.
    pub fn subcollection(&self, name: &str, collection: &str) -> (made: CollectionName)
        ensures
            made@ == self@.subcollection(name@, collection@),
    {
        let mut parent_path = copy_chain(&self.parent_path, self.parent_path.len());
        let pair = (self.collection.clone(), name.to_owned());
        proof {
            assert(chain_view(self.parent_path@).take(self.parent_path.len() as int) =~= chain_view(
                self.parent_path@,
            ));
            assert(chain_view(parent_path@.push(pair)) =~= chain_view(self.parent_path@).push(
                (self.collection@, name@),
            ));
        }
        parent_path.push(pair);
        CollectionName {
            project_id: self.project_id.clone(),
            parent_path,
            collection: collection.to_owned(),
        }
    }

    /// What this collection lies in: a document, or the root.
    pub fn parent(&self) -> (parent: ParentDocumentOrRoot)
        ensures
            parent@ == self@.parent(),
    {
        let n = self.parent_path.len();
        if n > 0 {
            let parent_path = copy_chain(&self.parent_path, n - 1);
            assert(chain_view(self.parent_path@).take(n - 1) =~= chain_view(
                self.parent_path@,
            ).drop_last());
            let last = &self.parent_path[n - 1];
            ParentDocumentOrRoot::ParentDocument {
                document: DocumentName {
                    collection: CollectionName {
                        project_id: self.project_id.clone(),
                        parent_path,
                        collection: last.0.clone(),
                    },
                    name: last.1.clone(),
                },
            }
        } else {
            ParentDocumentOrRoot::Root { project_id: self.project_id.clone() }
        }
    }

    /// The collection of the document that this collection is nested under;
    /// `None` for a top-level collection.
    pub fn parent_collection(&self) -> (parent: Option<CollectionName>)
        ensures
            optional_collection(parent) == self@.parent_collection(),
    {
        self.parent().parent()
    }

    /// The name of the document `name` of this collection.
    pub fn document(&self, name: &str) -> (made: DocumentName)
        ensures
            made@ == self@.document(name@),
    {
        DocumentName { collection: self.clone(), name: name.to_owned() }
    }

    /// The short name of this collection, without what lies above it.
    pub fn leaf_name(&self) -> (leaf: String)
        ensures
            leaf@ == self@.collection,
    {
        self.collection.clone()
    }

    /// The fully-qualified name of this collection as a string.
    pub fn name(&self) -> (name: String)
        ensures
            name@ == self@.name(),
    {
        let mut name = root_name(self.project_id.as_str());
        let ghost root = root_segments(self@.project_id);
        let ghost chain = self@.parent_path;
        let mut i: usize = 0;
        proof {
            assert(root + chain_segments(chain.take(0)) =~= root);
        }
        while i < self.parent_path.len()
            invariant
                i <= self.parent_path.len(),
                root == root_segments(self@.project_id),
                chain == chain_view(self.parent_path@),
                name@ == join(root + chain_segments(chain.take(i as int))),
            decreases self.parent_path.len() - i,
        {
            let ghost before = root + chain_segments(chain.take(i as int));
            push_segment(&mut name, self.parent_path[i].0.as_str());
            push_segment(&mut name, self.parent_path[i].1.as_str());
            proof {
                lemma_join_push(before, chain[i as int].0);
                lemma_join_push(before.push(chain[i as int].0), chain[i as int].1);
                lemma_chain_segments_take(chain, i as int);
                assert(before.push(chain[i as int].0).push(chain[i as int].1) =~= root
                    + chain_segments(chain.take(i + 1)));
            }
            i = i + 1;
        }
        push_segment(&mut name, self.collection.as_str());
        proof {
            assert(chain.take(i as int) =~= chain);
            lemma_join_push(root + chain_segments(chain), self@.collection);
            assert((root + chain_segments(chain)).push(self@.collection) =~= self@.segments());
        }
        name
    }

    /// Reads a collection's name from a slash-delimited string.
    pub fn parse(name: &str) -> (parsed: Result<CollectionName, ParseError>)
        ensures
            parsed_collection(parsed) == CollectionPath::parse(name@),
    {
        let parts = split_on_slash(name);
        assert(texts(parts@).take(parts.len() as int) =~= texts(parts@));
        collection_from_parts(&parts, parts.len())
    }
}

impl DocumentName {
    /// The collection that holds the document.
    pub fn collection(&self) -> (collection: &CollectionName)
        ensures
            collection@ == self@.collection,
    {
        &self.collection
    }

    /// The fully-qualified name of this document as a string.
    pub fn name(&self) -> (name: String)
        ensures
            name@ == self@.name(),
    {
        let mut name = self.collection.name();
        push_segment(&mut name, self.name.as_str());
        proof {
            lemma_join_push(self@.collection.segments(), self@.name);
        }
        name
    }

    /// The short name of this document, without the collection it lies in.
    pub fn leaf_name(&self) -> (leaf: &str)
        ensures
            leaf@ == self@.name,
    {
        self.name.as_str()
    }

    /// Reads a document's name from a slash-delimited string.
    pub fn parse(name: &str) -> (parsed: Result<DocumentName, ParseError>)
        ensures
            parsed_document(parsed) == DocumentPath::parse(name@),
    {
        let parts = split_on_slash(name);
        let n = parts.len();
        if n < 6 {
            return Err(ParseError::TooFewParts(n));
        }
        if n % 2 == 0 {
            return Err(ParseError::WrongNumberOfParts(n));
        }
        assert(texts(parts@).take(n - 1) =~= texts(parts@).drop_last());
        match collection_from_parts(&parts, n - 1) {
            Ok(collection) => Ok(DocumentName { collection, name: parts[n - 1].clone() }),
            Err(e) => Err(e),
        }
    }
}

impl ParentDocumentOrRoot {
    /// The name as a string, as the API takes it for a `parent` parameter.
    pub fn name(&self) -> (name: String)
        ensures
            name@ == self@.name(),
    {
        match self {
            ParentDocumentOrRoot::Root { project_id } => root_name(project_id.as_str()),
            ParentDocumentOrRoot::ParentDocument { document } => document.name(),
        }
    }

    /// The collection above, where this is a document.
    pub fn parent(&self) -> (parent: Option<CollectionName>)
        ensures
            optional_collection(parent) == self@.parent(),
    {
        match self {
            ParentDocumentOrRoot::Root { .. } => None,
            ParentDocumentOrRoot::ParentDocument { document } => Some(document.collection.clone()),
        }
    }
}

impl Clone for CollectionName {
    fn clone(&self) -> (copy: Self)
        ensures
            copy@ == self@,
    {
        let parent_path = copy_chain(&self.parent_path, self.parent_path.len());
        assert(chain_view(self.parent_path@).take(self.parent_path.len() as int) =~= chain_view(
            self.parent_path@,
        ));
        CollectionName {
            project_id: self.project_id.clone(),
            parent_path,
            collection: self.collection.clone(),
        }
    }
}

impl PartialEq for CollectionName {
    fn eq(&self, other: &Self) -> (same: bool) {
        self.project_id == other.project_id && self.collection == other.collection && same_chain(
            &self.parent_path,
            &other.parent_path,
        )
    }
}

/// Two names are equal exactly where they have the same project, the same
/// chain and the same leaf.
impl PartialEqSpecImpl for CollectionName {
    open spec fn obeys_eq_spec() -> bool {
        true
    }

    open spec fn eq_spec(&self, other: &Self) -> bool {
        self@ == other@
    }
}

impl Clone for DocumentName {
    fn clone(&self) -> (copy: Self)
        ensures
            copy@ == self@,
    {
        DocumentName { collection: self.collection.clone(), name: self.name.clone() }
    }
}

impl PartialEq for DocumentName {
    fn eq(&self, other: &Self) -> (same: bool) {
        self.name == other.name && self.collection == other.collection
    }
}

/// Two names are equal exactly where they name the same document of the same
/// collection.
impl PartialEqSpecImpl for DocumentName {
    open spec fn obeys_eq_spec() -> bool {
        true
    }

    open spec fn eq_spec(&self, other: &Self) -> bool {
        self@ == other@
    }
}

/// Why a document's name cannot stand for a document of a given collection.
#[derive(Debug, PartialEq)]
pub enum QualifyError {
    /// The document lies in another project. Holds the document's project,
    /// then the collection's.
    ProjectMismatch(String, String),
    /// The document lies in another collection of the same project. Holds
    /// the document's collection, then the collection that was given.
    CollectionMismatch(CollectionName, CollectionName),
}

/// The model of a [`QualifyError`].
pub enum QualifyMismatch {
    /// The two projects: the document's, then the collection's.
    Project(Seq<char>, Seq<char>),
    /// The two collections: the document's, then the one that was given.
    Collection(CollectionPath, CollectionPath),
}

impl View for QualifyError {
    type V = QualifyMismatch;

    open spec fn view(&self) -> QualifyMismatch {
        match self {
            QualifyError::ProjectMismatch(document, collection) => QualifyMismatch::Project(
                document@,
                collection@,
            ),
            QualifyError::CollectionMismatch(document, collection) => QualifyMismatch::Collection(
                document@,
                collection@,
            ),
        }
    }
}

impl QualifyMismatch {
    /// What the error says, in words.
    pub open spec fn message_text(self) -> Seq<char> {
        match self {
            QualifyMismatch::Project(document, collection) =>
                "Attempted a collection-level operation with a document name from a different project. This collection has project "@
                + document + " but attempted operation had project "@ + collection,
            QualifyMismatch::Collection(document, collection) =>
                "Attempted to a collection-level operation with a document name from a different collection. This collection has the path "@
                + document.name() + ", but attempted operation has the path "@ + collection.name(),
        }
    }
}

impl QualifyError {
    /// What the error says, in words.
    pub fn message(&self) -> (text: String)
        ensures
            text@ == self@.message_text(),
    {
        match self {
            QualifyError::ProjectMismatch(document, collection) => {
                let mut text =
                    "Attempted a collection-level operation with a document name from a different project. This collection has project ".to_owned();
                text.append(document.as_str());
                text.append(" but attempted operation had project ");
                text.append(collection.as_str());
                text
            },
            QualifyError::CollectionMismatch(document, collection) => {
                let mut text =
                    "Attempted to a collection-level operation with a document name from a different collection. This collection has the path ".to_owned();
                text.append(document.name().as_str());
                text.append(", but attempted operation has the path ");
                text.append(collection.name().as_str());
                text
            },
        }
    }
}

/// The model of what qualifying a name gave.
pub open spec fn qualified_view(qualified: Result<DocumentName, QualifyError>) -> Result<
    DocumentPath,
    QualifyMismatch,
> {
    match qualified {
        Ok(document) => Ok(document@),
        Err(e) => Err(e@),
    }
}

/// A full document name taken as a document of `parent`. It stands where its
/// collection is `parent`; a different project is reported before a
/// different collection.
pub open spec fn qualify_document(document: DocumentPath, parent: CollectionPath) -> Result<
    DocumentPath,
    QualifyMismatch,
> {
    if document.collection.project_id != parent.project_id {
        Err(QualifyMismatch::Project(document.collection.project_id, parent.project_id))
    } else if document.collection != parent {
        Err(QualifyMismatch::Collection(document.collection, parent))
    } else {
        Ok(document)
    }
}

/// A value that can be turned into the full name of a document of a
/// collection: a short key, or a full name that is checked against the
/// collection.
pub trait QualifyDocumentName {
    /// What `qualify` gives for `parent`.
    spec fn qualified(&self, parent: CollectionPath) -> Result<DocumentPath, QualifyMismatch>;

    /// The full name that `self` stands for among the documents of `parent`.
    fn qualify(&self, parent: &CollectionName) -> (qualified: Result<DocumentName, QualifyError>)
        ensures
            qualified_view(qualified) == self.qualified(parent@),
    ;
}

/// A short key always names a document of the collection.
impl QualifyDocumentName for &str {
    open spec fn qualified(&self, parent: CollectionPath) -> Result<DocumentPath, QualifyMismatch> {
        Ok(parent.document(self@))
    }

    fn qualify(&self, parent: &CollectionName) -> (qualified: Result<DocumentName, QualifyError>) {
        Ok(parent.document(self))
    }
}

/// A full name stands only for a document of its own collection.
impl QualifyDocumentName for &DocumentName {
    open spec fn qualified(&self, parent: CollectionPath) -> Result<DocumentPath, QualifyMismatch> {
        qualify_document(self@, parent)
    }

    fn qualify(&self, parent: &CollectionName) -> (qualified: Result<DocumentName, QualifyError>) {
        if self.collection.project_id != parent.project_id {
            return Err(
                QualifyError::ProjectMismatch(
                    self.collection.project_id.clone(),
                    parent.project_id.clone(),
                ),
            );
        }
        if self.collection != *parent {
            return Err(QualifyError::CollectionMismatch(self.collection.clone(), parent.clone()));
        }
        Ok((*self).clone())
    }
}

/// The fixed words of a name hold no `/`.
pub proof fn lemma_markers_slash_free()
    ensures
        slash_free("projects"@),
        slash_free("databases"@),
        slash_free("(default)"@),
        slash_free("documents"@),
{
    reveal_strlit("projects");
    reveal_strlit("databases");
    reveal_strlit("(default)");
    reveal_strlit("documents");
}

/// The parts of a well-formed path hold no `/`.
proof fn lemma_segments_slash_free(path: CollectionPath)
    requires
        path.well_formed(),
    ensures
        all_slash_free(path.segments()),
{
    lemma_markers_slash_free();
    let parts = path.segments();
    assert(parts.len() == 6 + 2 * path.parent_path.len());
    assert forall|i: int| 0 <= i < parts.len() implies slash_free(#[trigger] parts[i]) by {
        if 5 <= i < parts.len() - 1 {
            let pair = path.parent_path[(i - 5) / 2];
            assert(slash_free(pair.0) && slash_free(pair.1));
            assert(parts[i] == chain_segments(path.parent_path)[i - 5]);
        }
    }
}

/// A list of parts that reads as a collection's name is that name's parts.
proof fn lemma_segments_of_parsed(parts: Seq<Seq<char>>, path: CollectionPath)
    requires
        CollectionPath::from_segments(parts) == Ok::<CollectionPath, ParseError>(path),
    ensures
        path.segments() == parts,
{
    let made = path.segments();
    assert(made.len() == parts.len());
    assert forall|i: int| 0 <= i < parts.len() implies made[i] == parts[i] by {
        if 5 <= i < parts.len() - 1 {
            assert(made[i] == chain_segments(path.parent_path)[i - 5]);
        }
    }
    assert(made =~= parts);
}

/// The parts of a collection's name read as that collection.
proof fn lemma_parsed_of_segments(path: CollectionPath)
    ensures
        CollectionPath::from_segments(path.segments()) == Ok::<CollectionPath, ParseError>(path),
{
    let parts = path.segments();
    let depth = path.parent_path.len();
    assert(parts.len() == 6 + 2 * depth);
    let chain = chain_of_segments(parts, depth);
    assert forall|d: int| 0 <= d < depth implies chain[d] == path.parent_path[d] by {
        assert(parts[5 + 2 * d] == chain_segments(path.parent_path)[2 * d]);
        assert(parts[6 + 2 * d] == chain_segments(path.parent_path)[2 * d + 1]);
    }
    assert(chain =~= path.parent_path);
}

/// Two collection paths with the same parts, in order, are the same path.
pub proof fn lemma_same_segments_same_path(a: CollectionPath, b: CollectionPath)
    requires
        a.segments() == b.segments(),
    ensures
        a == b,
{
    lemma_parsed_of_segments(a);
    lemma_parsed_of_segments(b);
}

/// Reading the name of a well-formed collection path gives the path back.
pub proof fn lemma_collection_name_parses(path: CollectionPath)
    requires
        path.well_formed(),
    ensures
        CollectionPath::parse(path.name()) == Ok::<CollectionPath, ParseError>(path),
{
    lemma_segments_slash_free(path);
    lemma_split_join(path.segments());
    lemma_parsed_of_segments(path);
}

/// A text that reads as a collection's name is the name of the collection
/// that was read.
pub proof fn lemma_parsed_collection_name(text: Seq<char>, path: CollectionPath)
    requires
        CollectionPath::parse(text) == Ok::<CollectionPath, ParseError>(path),
    ensures
        path.name() == text,
{
    lemma_segments_of_parsed(split(text), path);
    lemma_join_split(text);
}

/// Reading the name of a well-formed document path gives the path back.
pub proof fn lemma_document_name_parses(path: DocumentPath)
    requires
        path.well_formed(),
    ensures
        DocumentPath::parse(path.name()) == Ok::<DocumentPath, ParseError>(path),
{
    let parts = path.segments();
    lemma_segments_slash_free(path.collection);
    assert(all_slash_free(parts)) by {
        assert forall|i: int| 0 <= i < parts.len() implies slash_free(#[trigger] parts[i]) by {
            if i < parts.len() - 1 {
                assert(parts[i] == path.collection.segments()[i]);
            }
        }
    }
    lemma_split_join(parts);
    assert(parts.drop_last() =~= path.collection.segments());
    lemma_parsed_of_segments(path.collection);
}

/// A text that reads as a document's name is the name of the document that
/// was read.
pub proof fn lemma_parsed_document_name(text: Seq<char>, path: DocumentPath)
    requires
        DocumentPath::parse(text) == Ok::<DocumentPath, ParseError>(path),
    ensures
        path.name() == text,
{
    let parts = split(text);
    lemma_segments_of_parsed(parts.drop_last(), path.collection);
    assert(path.segments() =~= parts);
    lemma_join_split(text);
}

/// The name of a document ends with a `/`, the short name of its collection,
/// a `/` and its own short name; before them stands what the collection
/// lies in.
pub proof fn lemma_document_name_ends_with_leaves(path: DocumentPath)
    ensures
        path.name() == path.collection.name() + seq![SEPARATOR] + path.name,
        path.collection.name() == path.collection.parent().name() + seq![SEPARATOR]
            + path.collection.collection,
{
    let collection = path.collection;
    lemma_join_push(collection.segments(), path.name);
    let above = root_segments(collection.project_id) + chain_segments(collection.parent_path);
    lemma_join_push(above, collection.collection);
    assert(above.push(collection.collection) =~= collection.segments());
    if collection.parent_path.len() > 0 {
        let document = collection.parent()->document;
        assert(document.segments() =~= above) by {
            let made = document.segments();
            assert(made.len() == above.len());
            assert forall|i: int| 0 <= i < above.len() implies made[i] == above[i] by {
                if 5 <= i < above.len() - 2 {
                    assert(made[i] == chain_segments(document.collection.parent_path)[i - 5]);
                    assert(above[i] == chain_segments(collection.parent_path)[i - 5]);
                } else if 5 <= i {
                    assert(above[i] == chain_segments(collection.parent_path)[i - 5]);
                }
            }
        }
    } else {
        assert(above =~= root_segments(collection.project_id));
    }
}

/// Going down into a subcollection and up twice leads back: the parent of
/// `path.subcollection(document, child)` is the document `document` of
/// `path`, and the collection above that is `path` itself.
pub proof fn lemma_subcollection_parent(
    path: CollectionPath,
    document: Seq<char>,
    child: Seq<char>,
)
    ensures
        path.subcollection(document, child).parent() == (ParentPath::ParentDocument {
            document: path.document(document),
        }),
        path.subcollection(document, child).parent().parent() == Some(path),
        path.subcollection(document, child).parent_collection() == Some(path),
{
    let pair = (path.collection, document);
    assert(path.parent_path.push(pair).drop_last() =~= path.parent_path);
}

/// A top-level collection lies under the root of its project. The name of
/// that root is the five fixed parts alone; it names no collection, for
/// want of a leaf.
pub proof fn lemma_root_is_no_collection(project_id: Seq<char>, collection: Seq<char>)
    requires
        slash_free(project_id),
    ensures
        CollectionPath::top_level(project_id, collection).parent() == (ParentPath::Root {
            project_id,
        }),
        CollectionPath::top_level(project_id, collection).parent_collection()
            == None::<CollectionPath>,
        CollectionPath::parse((ParentPath::Root { project_id }).name()) == Err::<
            CollectionPath,
            ParseError,
        >(ParseError::WrongNumberOfParts(5)),
{
    lemma_markers_slash_free();
    lemma_split_join(root_segments(project_id));
}

/// Going up shortens the chain by one pair, so a walk to the root ends.
pub proof fn lemma_parent_is_shorter(path: CollectionPath)
    ensures
        match path.parent_collection() {
            Some(above) => above.parent_path.len() + 1 == path.parent_path.len()
                && above.project_id == path.project_id,
            None => path.parent_path.len() == 0,
        },
{
}

/// A short key names a document of whatever collection it is qualified
/// with.
pub proof fn lemma_qualify_key(key: &str, parent: CollectionPath)
    ensures
        key.qualified(parent) == Ok::<DocumentPath, QualifyMismatch>(parent.document(key@)),
{
}

/// A document of the collection itself qualifies as it is. One of another
/// project fails with the two projects, whatever its chain; one of another
/// collection of the same project fails with the two collections.
pub proof fn lemma_qualify_document(document: &DocumentName, parent: CollectionPath)
    ensures
        document@.collection == parent ==> document.qualified(parent) == Ok::<
            DocumentPath,
            QualifyMismatch,
        >(document@),
        document@.collection.project_id != parent.project_id ==> document.qualified(parent) == Err::<
            DocumentPath,
            QualifyMismatch,
        >(QualifyMismatch::Project(document@.collection.project_id, parent.project_id)),
        document@.collection.project_id == parent.project_id && document@.collection != parent
            ==> document.qualified(parent) == Err::<DocumentPath, QualifyMismatch>(
            QualifyMismatch::Collection(document@.collection, parent),
        ),
{
}

} // verus!
