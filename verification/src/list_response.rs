//! The listing of a collection, page by page.
//!
//! A [`ListResponse`] holds what a listing has got so far and decides what
//! comes next: hand out a buffered document, ask for a page, wait for the
//! page that was asked for, or end. It sends nothing itself. Whoever drives
//! it sends the request of a [`Step::Fetch`] and reports what came back with
//! [`ListResponse::page_arrived`] or [`ListResponse::fetch_failed`].

use crate::identifiers::{
    CollectionName, CollectionPath, DocumentName, DocumentPath, ParseError,
};
use crate::{NamedDocument, NamedItem};
use std::collections::VecDeque;
use vstd::prelude::*;

verus! {

/// A document as the server sent it: its full name as text, and its content.
pub struct RawDocument<D> {
    pub name: String,
    pub value: D,
}

/// The model of a [`RawDocument`].
pub struct RawItem<D> {
    pub name: Seq<char>,
    pub value: D,
}

impl<D> View for RawDocument<D> {
    type V = RawItem<D>;

    open spec fn view(&self) -> RawItem<D> {
        RawItem { name: self.name@, value: self.value }
    }
}

/// The models of the documents of a page.
pub open spec fn raw_items<D>(documents: Seq<RawDocument<D>>) -> Seq<RawItem<D>> {
    documents.map_values(|d: RawDocument<D>| d@)
}

/// The request for one page of a listing.
#[derive(Debug, PartialEq, Eq)]
pub struct ListRequest {
    /// The name of what the collection lies in.
    pub parent: String,
    /// The short name of the collection.
    pub collection_id: String,
    /// The token that the page before came with; empty for the first page.
    pub page_token: String,
    /// The most documents that the page may hold; 0 leaves it to the server.
    pub page_size: u32,
    /// The order of the documents; empty leaves it open.
    pub order_by: String,
}

/// The model of a [`ListRequest`].
pub struct PageRequest {
    pub parent: Seq<char>,
    pub collection_id: Seq<char>,
    pub page_token: Seq<char>,
    pub page_size: u32,
    pub order_by: Seq<char>,
}

impl View for ListRequest {
    type V = PageRequest;

    open spec fn view(&self) -> PageRequest {
        PageRequest {
            parent: self.parent@,
            collection_id: self.collection_id@,
            page_token: self.page_token@,
            page_size: self.page_size,
            order_by: self.order_by@,
        }
    }
}

/// What a listing does next.
pub enum Step<D> {
    /// The next document of the listing.
    Item(NamedDocument<D>),
    /// The next document came under a name that is not a document's name.
    /// It was taken off the buffer; the listing goes on behind it.
    Unnamed(ParseError),
    /// The buffer is empty and more may follow: this request is to be sent.
    /// The listing now waits for its answer.
    Fetch(ListRequest),
    /// A request is under way; there is nothing to do but wait for it.
    Pending,
    /// The listing is at its end.
    Done,
    /// A request failed. The listing gives nothing more.
    Failed,
}

/// The model of a [`Step`].
pub enum Move<D> {
    Item(NamedItem<D>),
    Unnamed(ParseError),
    Fetch(PageRequest),
    Pending,
    Done,
    Failed,
}

impl<D> View for Step<D> {
    type V = Move<D>;

    open spec fn view(&self) -> Move<D> {
        match self {
            Step::Item(document) => Move::Item(document@),
            Step::Unnamed(e) => Move::Unnamed(*e),
            Step::Fetch(request) => Move::Fetch(request@),
            Step::Pending => Move::Pending,
            Step::Done => Move::Done,
            Step::Failed => Move::Failed,
        }
    }
}

/// Where a listing stands.
#[derive(Debug, Clone, Copy, PartialEq, Eq, Structural)]
pub enum Phase {
    /// Documents are handed out of the buffer; when it is empty, the next
    /// step asks for a page.
    Draining,
    /// A page was asked for and has not come yet.
    AwaitingFetch,
    /// The last page has come and the buffer is empty.
    Exhausted,
    /// A request failed.
    Failed,
}

/// The model of a [`ListResponse`].
pub struct Listing<D> {
    /// The collection that is listed.
    pub collection: CollectionPath,
    /// The token that the last page came with, while more pages follow.
    pub page_token: Option<Seq<char>>,
    /// The documents that came and were not handed out yet, oldest first.
    pub items: Seq<RawItem<D>>,
    /// The last page has come.
    pub depleted: bool,
    /// A request is under way.
    pub awaiting: bool,
    /// A request failed.
    pub failed: bool,
    pub page_size: u32,
    pub order_by: Seq<char>,
}

impl<D> Listing<D> {
    /// A listing of `collection` that has not asked for anything yet.
    pub open spec fn fresh(collection: CollectionPath) -> Listing<D> {
        Listing {
            collection,
            page_token: None,
            items: Seq::empty(),
            depleted: false,
            awaiting: false,
            failed: false,
            page_size: 0,
            order_by: Seq::empty(),
        }
    }

    /// What holds of every listing that was made by `fresh` and the moves
    /// below: while a request is under way the buffer is empty and the
    /// listing has neither ended nor failed; a failed listing holds
    /// nothing; a listing whose last page has come holds no token; and a
    /// token that is held is not empty.
    pub open spec fn well_formed(self) -> bool {
        &&& self.awaiting ==> self.items.len() == 0 && !self.depleted && !self.failed
        &&& self.failed ==> self.items.len() == 0
        &&& self.depleted ==> self.page_token is None
        &&& self.page_token matches Some(token) ==> token.len() > 0
    }

    /// Where the listing stands.
    pub open spec fn phase(self) -> Phase {
        if self.items.len() > 0 {
            Phase::Draining
        } else if self.failed {
            Phase::Failed
        } else if self.depleted {
            Phase::Exhausted
        } else if self.awaiting {
            Phase::AwaitingFetch
        } else {
            Phase::Draining
        }
    }

    /// The request for the page that comes next.
    pub open spec fn request(self) -> PageRequest {
        PageRequest {
            parent: self.collection.parent().name(),
            collection_id: self.collection.collection,
            page_token: match self.page_token {
                Some(token) => token,
                None => Seq::empty(),
            },
            page_size: self.page_size,
            order_by: self.order_by,
        }
    }

    /// What a raw document is handed out as.
    pub open spec fn named(item: RawItem<D>) -> Move<D> {
        match DocumentPath::parse(item.name) {
            Ok(name) => Move::Item(NamedItem { name, value: item.value }),
            Err(e) => Move::Unnamed(e),
        }
    }

    /// What the listing does next: the oldest buffered document first; with
    /// an empty buffer it reports a failure or its end, waits for the
    /// request under way, or asks for the next page.
    pub open spec fn step(self) -> Move<D> {
        if self.items.len() > 0 {
            Self::named(self.items[0])
        } else if self.failed {
            Move::Failed
        } else if self.depleted {
            Move::Done
        } else if self.awaiting {
            Move::Pending
        } else {
            Move::Fetch(self.request())
        }
    }

    /// The listing after its next step: the document that was handed out
    /// has left the buffer, or the request that was asked for is under
    /// way; otherwise nothing has changed.
    pub open spec fn after_step(self) -> Listing<D> {
        if self.items.len() > 0 {
            Listing { items: self.items.drop_first(), ..self }
        } else if self.failed || self.depleted || self.awaiting {
            self
        } else {
            Listing { awaiting: true, ..self }
        }
    }

    /// The listing after a page has come. The page fills the buffer and no
    /// request is under way any more; an empty token says that it was the
    /// last page, another one is kept for the next request. A page that
    /// was not waited for is dropped.
    pub open spec fn after_page(
        self,
        items: Seq<RawItem<D>>,
        next_page_token: Seq<char>,
    ) -> Listing<D> {
        if !self.awaiting {
            self
        } else if next_page_token.len() == 0 {
            Listing { items, awaiting: false, depleted: true, page_token: None, ..self }
        } else {
            Listing { items, awaiting: false, page_token: Some(next_page_token), ..self }
        }
    }

    /// The listing after the request under way has failed: it has failed
    /// for good, and forgets its token. A failure that was not waited for
    /// changes nothing.
    pub open spec fn after_failure(self) -> Listing<D> {
        if !self.awaiting {
            self
        } else {
            Listing { awaiting: false, failed: true, page_token: None, ..self }
        }
    }

    /// The listing after `n` steps.
    pub open spec fn after_steps(self, n: nat) -> Listing<D>
        decreases n,
    {
        if n == 0 {
            self
        } else {
            self.after_step().after_steps((n - 1) as nat)
        }
    }
}

/// The models of named documents.
pub open spec fn named_items<D>(documents: Seq<NamedDocument<D>>) -> Seq<NamedItem<D>> {
    documents.map_values(|d: NamedDocument<D>| d@)
}

/// The documents of `items` under their names, where each name is a
/// document's name.
pub open spec fn all_named<D>(items: Seq<RawItem<D>>, named: Seq<NamedItem<D>>) -> bool {
    &&& named.len() == items.len()
    &&& forall|i: int|
        #![trigger named[i]]
        0 <= i < items.len() ==> DocumentPath::parse(items[i].name) == Ok::<
            DocumentPath,
            ParseError,
        >(named[i].name) && named[i].value == items[i].value
}

/// Some name of `items` is not a document's name, and `e` is what the first
/// such name lacks.
pub open spec fn first_unnamed<D>(items: Seq<RawItem<D>>, e: ParseError) -> bool {
    exists|i: int|
        #![trigger items[i]]
        {
            &&& 0 <= i < items.len()
            &&& DocumentPath::parse(items[i].name) == Err::<DocumentPath, ParseError>(e)
            &&& forall|j: int|
                #![trigger items[j]]
                0 <= j < i ==> DocumentPath::parse(items[j].name) is Ok
        }
}

/// A raw document under its name, or why its name is not a document's.
fn name_document<D>(raw: RawDocument<D>) -> (named: Result<NamedDocument<D>, ParseError>)
    ensures
        match named {
            Ok(document) => Listing::<D>::named(raw@) == Move::Item(document@),
            Err(e) => Listing::<D>::named(raw@) == Move::<D>::Unnamed(e),
        },
{
    match DocumentName::parse(raw.name.as_str()) {
        Ok(name) => Ok(NamedDocument { name, value: raw.value }),
        Err(e) => Err(e),
    }
}

/// The documents that a listing of a collection gives, fetched page by page
/// as they are asked for.
pub struct ListResponse<D> {
    /// The collection that is listed.
    collection: CollectionName,
    /// The token that the last page came with, while more pages follow.
    page_token: Option<String>,
    /// The documents that came and were not handed out yet.
    items: VecDeque<RawDocument<D>>,
    /// True once the last page has come. The buffer may still hold
    /// documents then.
    depleted: bool,
    /// True while a request is under way.
    awaiting: bool,
    /// True once a request has failed.
    failed: bool,
    page_size: u32,
    order_by: String,
}

impl<D> View for ListResponse<D> {
    type V = Listing<D>;

    closed spec fn view(&self) -> Listing<D> {
        Listing {
            collection: self.collection@,
            page_token: match self.page_token {
                Some(token) => Some(token@),
                None => None,
            },
            items: raw_items(self.items@),
            depleted: self.depleted,
            awaiting: self.awaiting,
            failed: self.failed,
            page_size: self.page_size,
            order_by: self.order_by@,
        }
    }
}

impl<D> ListResponse<D> {
    /// A listing of `collection`. Nothing is asked of the server before the
    /// first step.
    pub fn new(collection: CollectionName) -> (listing: ListResponse<D>)
        ensures
            listing@ == Listing::<D>::fresh(collection@),
    {
        let items: VecDeque<RawDocument<D>> = VecDeque::new();
        assert(raw_items(items@) =~= Seq::empty());
        ListResponse {
            collection,
            page_token: None,
            items,
            depleted: false,
            awaiting: false,
            failed: false,
            page_size: 0,
            order_by: String::new(),
        }
    }

    /// The same listing with pages of at most `page_size` documents; 0
    /// leaves the size to the server.
    pub fn with_page_size(self, page_size: u32) -> (listing: ListResponse<D>)
        ensures
            listing@ == (Listing { page_size, ..self@ }),
    {
        ListResponse { page_size, ..self }
    }

    /// The same listing with its documents ordered by `order_by`.
    pub fn with_order_by(self, order_by: &str) -> (listing: ListResponse<D>)
        ensures
            listing@ == (Listing { order_by: order_by@, ..self@ }),
    {
        ListResponse { order_by: order_by.to_owned(), ..self }
    }

    /// Where the listing stands.
    pub fn phase(&self) -> (phase: Phase)
        ensures
            phase == self@.phase(),
    {
        if self.items.len() > 0 {
            Phase::Draining
        } else if self.failed {
            Phase::Failed
        } else if self.depleted {
            Phase::Exhausted
        } else if self.awaiting {
            Phase::AwaitingFetch
        } else {
            Phase::Draining
        }
    }

    /// The request for the page that comes next: the first page of a new
    /// listing, later the page that the held token points at.
    pub fn request(&self) -> (request: ListRequest)
        ensures
            request@ == self@.request(),
    {
        ListRequest {
            parent: self.collection.parent().name(),
            collection_id: self.collection.leaf_name(),
            page_token: match &self.page_token {
                Some(token) => token.clone(),
                None => String::new(),
            },
            page_size: self.page_size,
            order_by: self.order_by.clone(),
        }
    }

    /// Takes the next step of the listing and says what it is.
    pub fn poll_next(&mut self) -> (step: Step<D>)
        ensures
            step@ == old(self)@.step(),
            final(self)@ == old(self)@.after_step(),
    {
        match self.items.pop_front() {
            Some(raw) => {
                proof {
                    assert(raw_items(self.items@) =~= raw_items(old(self).items@).drop_first());
                }
                match name_document(raw) {
                    Ok(document) => Step::Item(document),
                    Err(e) => Step::Unnamed(e),
                }
            },
            None => {
                if self.failed {
                    Step::Failed
                } else if self.depleted {
                    Step::Done
                } else if self.awaiting {
                    Step::Pending
                } else {
                    let request = self.request();
                    self.awaiting = true;
                    Step::Fetch(request)
                }
            },
        }
    }

    /// Takes in the page that the request under way was answered with.
    pub fn page_arrived(&mut self, items: VecDeque<RawDocument<D>>, next_page_token: String)
        ensures
            final(self)@ == old(self)@.after_page(raw_items(items@), next_page_token@),
    {
        if !self.awaiting {
            return ;
        }
        self.awaiting = false;
        self.items = items;
        if next_page_token.as_str().is_empty() {
            self.depleted = true;
            self.page_token = None;
        } else {
            self.page_token = Some(next_page_token);
        }
    }

    /// The documents of one page under their names, in the order in which
    /// they came. Where a name is not a document's name, the page as a whole
    /// is refused, with what the first such name lacks.
    pub fn get_page(documents: VecDeque<RawDocument<D>>) -> (page: Result<
        Vec<NamedDocument<D>>,
        ParseError,
    >)
        ensures
            match page {
                Ok(named) => all_named(raw_items(documents@), named_items(named@)),
                Err(e) => first_unnamed(raw_items(documents@), e),
            },
    {
        let mut rest = documents;
        let ghost items = raw_items(documents@);
        let mut named: Vec<NamedDocument<D>> = Vec::new();
        proof {
            assert(items.skip(0) =~= items);
        }
        while rest.len() > 0
            invariant
                items == raw_items(documents@),
                named.len() + rest.len() == items.len(),
                raw_items(rest@) == items.skip(named.len() as int),
                all_named(items.take(named.len() as int), named_items(named@)),
            decreases rest.len(),
        {
            let ghost at = named.len() as int;
            let ghost before = rest@;
            let raw = rest.pop_front().unwrap();
            proof {
                lemma_raw_items_rest(before, rest@, items, at);
            }
            match name_document(raw) {
                Ok(document) => {
                    proof {
                        lemma_all_named_push(items, named_items(named@), at, document@);
                        assert(named_items(named@.push(document)) =~= named_items(named@).push(
                            document@,
                        ));
                    }
                    named.push(document);
                },
                Err(e) => {
                    proof {
                        lemma_first_unnamed_at(items, named_items(named@), at, e);
                    }
                    return Err(e);
                },
            }
        }
        proof {
            assert(items.take(items.len() as int) =~= items);
        }
        Ok(named)
    }

    /// Takes in that the request under way has failed.
    pub fn fetch_failed(&mut self)
        ensures
            final(self)@ == old(self)@.after_failure(),
    {
        if !self.awaiting {
            return ;
        }
        self.awaiting = false;
        self.failed = true;
        self.page_token = None;
    }
}

/// What is left of a page once its first document has been taken off.
proof fn lemma_raw_items_rest<D>(
    before: Seq<RawDocument<D>>,
    after: Seq<RawDocument<D>>,
    items: Seq<RawItem<D>>,
    at: int,
)
    requires
        before.len() > 0,
        after == before.subrange(1, before.len() as int),
        0 <= at,
        at + before.len() == items.len(),
        raw_items(before) == items.skip(at),
    ensures
        at < items.len(),
        items[at] == before[0]@,
        raw_items(after) == items.skip(at + 1),
{
    let raw = raw_items(before);
    assert(raw.len() == before.len());
    assert(raw[0] == before[0]@);
    assert(items.skip(at).len() == items.len() - at);
    assert(items.skip(at)[0] == items[at]);
    let rest = raw_items(after);
    let wanted = items.skip(at + 1);
    assert(rest.len() == after.len());
    assert(rest.len() == wanted.len());
    assert forall|k: int| 0 <= k < rest.len() implies rest[k] == wanted[k] by {
        assert(rest[k] == after[k]@);
        assert(after[k] == before[k + 1]);
        assert(raw[k + 1] == before[k + 1]@);
        assert(items.skip(at)[k + 1] == items[at + k + 1]);
        assert(wanted[k] == items[at + 1 + k]);
    }
    assert(rest =~= wanted);
}

/// One more document of a page has got its name.
proof fn lemma_all_named_push<D>(
    items: Seq<RawItem<D>>,
    named: Seq<NamedItem<D>>,
    at: int,
    next: NamedItem<D>,
)
    requires
        0 <= at < items.len(),
        all_named(items.take(at), named),
        DocumentPath::parse(items[at].name) == Ok::<DocumentPath, ParseError>(next.name),
        next.value == items[at].value,
    ensures
        all_named(items.take(at + 1), named.push(next)),
{
    let grown = named.push(next);
    let front = items.take(at + 1);
    assert forall|i: int| #![trigger grown[i]] 0 <= i < front.len() implies DocumentPath::parse(
        front[i].name,
    ) == Ok::<DocumentPath, ParseError>(grown[i].name) && grown[i].value == front[i].value by {
        if i < at {
            assert(grown[i] == named[i]);
            assert(front[i] == items.take(at)[i]);
        }
    }
}

/// The document at `at` is the first of its page without a name.
proof fn lemma_first_unnamed_at<D>(
    items: Seq<RawItem<D>>,
    named: Seq<NamedItem<D>>,
    at: int,
    e: ParseError,
)
    requires
        0 <= at < items.len(),
        all_named(items.take(at), named),
        DocumentPath::parse(items[at].name) == Err::<DocumentPath, ParseError>(e),
    ensures
        first_unnamed(items, e),
{
    assert forall|j: int| #![trigger items[j]] 0 <= j < at implies DocumentPath::parse(
        items[j].name,
    ) is Ok by {
        assert(items[j] == items.take(at)[j]);
        assert(DocumentPath::parse(items.take(at)[j].name) == Ok::<DocumentPath, ParseError>(
            named[j].name,
        ));
    }
    assert(0 <= at < items.len() && DocumentPath::parse(items[at].name) == Err::<
        DocumentPath,
        ParseError,
    >(e));
}

/// A new listing is well formed, and every move keeps a listing so.
pub proof fn lemma_moves_keep_well_formed<D>(
    listing: Listing<D>,
    items: Seq<RawItem<D>>,
    next_page_token: Seq<char>,
)
    requires
        listing.well_formed(),
    ensures
        Listing::<D>::fresh(listing.collection).well_formed(),
        listing.after_step().well_formed(),
        listing.after_page(items, next_page_token).well_formed(),
        listing.after_failure().well_formed(),
{
}

/// No second request goes out while one is under way: the step of a
/// waiting listing is to wait, and it changes nothing.
pub proof fn lemma_one_request_at_a_time<D>(listing: Listing<D>)
    requires
        listing.well_formed(),
        listing.awaiting,
    ensures
        listing.phase() == Phase::AwaitingFetch,
        listing.step() == Move::<D>::Pending,
        listing.after_step() == listing,
{
}

/// Once a page has come, no request is under way, whatever the page held,
/// and none is while the buffer is handed out.
pub proof fn lemma_no_request_while_draining<D>(
    listing: Listing<D>,
    items: Seq<RawItem<D>>,
    next_page_token: Seq<char>,
    n: nat,
)
    requires
        listing.well_formed(),
        n <= listing.after_page(items, next_page_token).items.len(),
    ensures
        !listing.after_page(items, next_page_token).after_steps(n).awaiting,
{
    lemma_drain(listing.after_page(items, next_page_token), n);
}

/// Steps of a listing that holds documents and waits for nothing hand them
/// out oldest first: after `n` steps the first `n` documents have left the
/// buffer and nothing else has changed, and step `i` of them hands out
/// document `i`.
pub proof fn lemma_drain<D>(listing: Listing<D>, n: nat)
    requires
        n <= listing.items.len(),
    ensures
        listing.after_steps(n) == (Listing { items: listing.items.skip(n as int), ..listing }),
        forall|i: nat|
            i < n ==> (#[trigger] listing.after_steps(i)).step() == Listing::<D>::named(
                listing.items[i as int],
            ),
    decreases n,
{
    if n == 0 {
        assert(listing.items.skip(0) =~= listing.items);
    } else {
        let next = listing.after_step();
        lemma_drain(next, (n - 1) as nat);
        assert(next.items.skip(n - 1) =~= listing.items.skip(n as int));
        assert forall|i: nat| i < n implies (#[trigger] listing.after_steps(i)).step()
            == Listing::<D>::named(listing.items[i as int]) by {
            if i > 0 {
                let j = (i - 1) as nat;
                assert(listing.after_steps(i) == next.after_steps(j));
                assert(next.items[j as int] == listing.items[i as int]);
            }
        }
    }
}

/// After a page with a token, the documents of the page come first, in
/// the order of the page; the step behind them asks for the next page with
/// that token, for the same collection and with the same page size and
/// order.
pub proof fn lemma_next_page_follows<D>(
    listing: Listing<D>,
    items: Seq<RawItem<D>>,
    next_page_token: Seq<char>,
)
    requires
        listing.well_formed(),
        listing.awaiting,
        next_page_token.len() > 0,
    ensures
        ({
            let drained = listing.after_page(items, next_page_token).after_steps(items.len());
            &&& drained.items.len() == 0
            &&& drained.step() == Move::<D>::Fetch(
                PageRequest { page_token: next_page_token, ..listing.request() },
            )
            &&& drained.after_step().awaiting
        }),
{
    lemma_drain(listing.after_page(items, next_page_token), items.len());
}

/// After a page with an empty token, the documents of the page come
/// first; then the listing is at its end, says so at every further step,
/// and asks for nothing more. So a collection without documents ends at
/// the step behind its first and only request.
pub proof fn lemma_last_page_ends<D>(listing: Listing<D>, items: Seq<RawItem<D>>, more: nat)
    requires
        listing.well_formed(),
        listing.awaiting,
    ensures
        ({
            let drained = listing.after_page(items, Seq::empty()).after_steps(items.len());
            &&& drained.phase() == Phase::Exhausted
            &&& drained.after_steps(more) == drained
            &&& drained.after_steps(more).step() == Move::<D>::Done
        }),
{
    let drained = listing.after_page(items, Seq::empty()).after_steps(items.len());
    lemma_drain(listing.after_page(items, Seq::empty()), items.len());
    lemma_settled(drained, more);
}

/// A listing that has ended or failed stays as it is at every step.
pub proof fn lemma_settled<D>(listing: Listing<D>, n: nat)
    requires
        listing.phase() == Phase::Exhausted || listing.phase() == Phase::Failed,
    ensures
        listing.after_steps(n) == listing,
        listing.phase() == Phase::Exhausted ==> listing.step() == Move::<D>::Done,
        listing.phase() == Phase::Failed ==> listing.step() == Move::<D>::Failed,
    decreases n,
{
    if n > 0 {
        lemma_settled(listing, (n - 1) as nat);
    }
}

/// A failed request ends the listing: it holds nothing, reports the
/// failure at every further step, and asks for nothing more.
pub proof fn lemma_failure_is_final<D>(listing: Listing<D>, more: nat)
    requires
        listing.well_formed(),
        listing.awaiting,
    ensures
        listing.after_failure().phase() == Phase::Failed,
        listing.after_failure().items.len() == 0,
        listing.after_failure().after_steps(more) == listing.after_failure(),
        listing.after_failure().after_steps(more).step() == Move::<D>::Failed,
{
    lemma_settled(listing.after_failure(), more);
}

/// The first step of a new listing asks for the first page: for the
/// collection's parent and short name, without a token.
pub proof fn lemma_first_step_fetches<D>(collection: CollectionPath)
    ensures
        Listing::<D>::fresh(collection).step() == Move::<D>::Fetch(
            PageRequest {
                parent: collection.parent().name(),
                collection_id: collection.collection,
                page_token: Seq::empty(),
                page_size: 0,
                order_by: Seq::empty(),
            },
        ),
        Listing::<D>::fresh(collection).after_step().awaiting,
{
}

/// A page as a server answers with it: its documents, and the token for
/// the page behind it, empty on the last page.
pub struct Page<D> {
    pub items: Seq<RawItem<D>>,
    pub next_page_token: Seq<char>,
}

/// What a listing came to when it was run against a server: what it handed
/// out, which requests it sent, and how it was left.
pub struct Run<D> {
    /// The documents that were handed out, each as the step that did so.
    pub moves: Seq<Move<D>>,
    /// The requests in the order in which they went out.
    pub requests: Seq<PageRequest>,
    /// The listing as it was left.
    pub end: Listing<D>,
}

/// The pages of one listing on a server: there is at least one, every page
/// but the last comes with a token, and the last comes without.
pub open spec fn one_listing<D>(pages: Seq<Page<D>>) -> bool {
    &&& pages.len() >= 1
    &&& pages.last().next_page_token.len() == 0
    &&& forall|i: int| 0 <= i < pages.len() - 1 ==> (#[trigger] pages[i]).next_page_token.len() > 0
}

/// The documents of all pages, in order.
pub open spec fn all_items<D>(pages: Seq<Page<D>>) -> Seq<RawItem<D>>
    decreases pages.len(),
{
    if pages.len() == 0 {
        Seq::empty()
    } else {
        pages[0].items + all_items(pages.drop_first())
    }
}

/// The steps that hand out `items`, in order.
pub open spec fn handed_out<D>(items: Seq<RawItem<D>>) -> Seq<Move<D>> {
    items.map_values(|item: RawItem<D>| Listing::<D>::named(item))
}

/// The requests for `pages` one after the other, where `first` asks for the
/// first of them: each later one is `first` with the token that the page
/// before came with.
pub open spec fn requests_for<D>(first: PageRequest, pages: Seq<Page<D>>) -> Seq<PageRequest> {
    Seq::new(
        pages.len(),
        |i: int|
            if i == 0 {
                first
            } else {
                PageRequest { page_token: pages[i - 1].next_page_token, ..first }
            },
    )
}

impl<D> Listing<D> {
    /// The listing run to its end against a server that answers each
    /// request at once, with the pages of `pages` in order. The run takes
    /// step after step; it stops where a step says that the listing has
    /// ended or failed, or where a request finds no page left.
    pub open spec fn run(self, pages: Seq<Page<D>>) -> Run<D>
        decreases pages.len(), self.items.len(),
    {
        match self.step() {
            Move::Fetch(request) => {
                if pages.len() == 0 {
                    Run { moves: Seq::empty(), requests: seq![request], end: self.after_step() }
                } else {
                    let rest = self.after_step().after_page(
                        pages[0].items,
                        pages[0].next_page_token,
                    ).run(pages.drop_first());
                    Run { requests: seq![request] + rest.requests, ..rest }
                }
            },
            Move::Pending | Move::Done | Move::Failed => Run {
                moves: Seq::empty(),
                requests: Seq::empty(),
                end: self,
            },
            handed => {
                if self.items.len() > 0 {
                    let rest = self.after_step().run(pages);
                    Run { moves: seq![handed] + rest.moves, ..rest }
                } else {
                    Run { moves: Seq::empty(), requests: Seq::empty(), end: self }
                }
            },
        }
    }
}

/// A run first hands out what the buffer holds, and then goes on as from
/// the empty buffer.
proof fn lemma_run_drains_first<D>(listing: Listing<D>, pages: Seq<Page<D>>)
    requires
        !listing.awaiting,
    ensures
        ({
            let emptied = Listing { items: Seq::empty(), ..listing };
            &&& listing.run(pages).moves == handed_out(listing.items) + emptied.run(pages).moves
            &&& listing.run(pages).requests == emptied.run(pages).requests
            &&& listing.run(pages).end == emptied.run(pages).end
        }),
    decreases listing.items.len(),
{
    let emptied = Listing { items: Seq::empty(), ..listing };
    if listing.items.len() == 0 {
        assert(listing.items =~= Seq::empty());
        assert(handed_out(listing.items) + emptied.run(pages).moves =~= emptied.run(pages).moves);
    } else {
        let next = listing.after_step();
        lemma_run_drains_first(next, pages);
        assert(Listing { items: Seq::empty(), ..next } == emptied);
        assert(handed_out(listing.items) =~= seq![listing.step()] + handed_out(next.items));
        assert(listing.run(pages).moves =~= handed_out(listing.items) + emptied.run(pages).moves);
    }
}

/// A listing that is run against the pages of one listing hands out every
/// document of every page, in the order of the pages and within each page
/// in the page's order. It sends exactly one request for each page: the
/// first as the listing stands, each later one with the token of the page
/// before. It ends exhausted. So a collection without documents, which is
/// one empty page, ends after one request and hands out nothing.
pub proof fn lemma_run_lists_every_page<D>(listing: Listing<D>, pages: Seq<Page<D>>)
    requires
        listing.well_formed(),
        listing.items.len() == 0,
        !listing.awaiting && !listing.depleted && !listing.failed,
        one_listing(pages),
    ensures
        listing.run(pages).moves == handed_out(all_items(pages)),
        listing.run(pages).requests == requests_for(listing.request(), pages),
        listing.run(pages).end.phase() == Phase::Exhausted,
    decreases pages.len(),
{
    let first = pages[0];
    let later = pages.drop_first();
    let arrived = listing.after_step().after_page(first.items, first.next_page_token);
    let emptied = Listing { items: Seq::empty(), ..arrived };
    lemma_run_drains_first(arrived, later);
    let run = listing.run(pages);
    assert(run.moves == arrived.run(later).moves);
    assert(run.requests == seq![listing.request()] + arrived.run(later).requests);
    if pages.len() == 1 {
        assert(first == pages.last());
        assert(all_items(later) =~= Seq::empty());
        assert(all_items(pages) =~= first.items);
        assert(emptied.run(later).moves =~= Seq::empty());
        assert(run.moves =~= handed_out(all_items(pages)));
        assert(run.requests =~= requests_for(listing.request(), pages));
    } else {
        assert(one_listing(later)) by {
            assert(later.last() == pages.last());
            assert forall|i: int| 0 <= i < later.len() - 1 implies (#[trigger] later[i])
                .next_page_token.len() > 0 by {
                assert(later[i] == pages[i + 1]);
            }
        }
        lemma_run_lists_every_page(emptied, later);
        assert(handed_out(all_items(pages)) =~= handed_out(first.items) + handed_out(
            all_items(later),
        ));
        assert(run.moves =~= handed_out(all_items(pages)));
        let wanted = requests_for(listing.request(), pages);
        let got = seq![listing.request()] + requests_for(emptied.request(), later);
        assert(got.len() == wanted.len());
        assert forall|i: int| 0 <= i < wanted.len() implies got[i] == wanted[i] by {
            if i == 1 {
                assert(emptied.request() == PageRequest {
                    page_token: first.next_page_token,
                    ..listing.request()
                });
            } else if i > 1 {
                assert(later[i - 2] == pages[i - 1]);
            }
        }
        assert(run.requests =~= wanted);
    }
}

} // verus!
