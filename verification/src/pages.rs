//! Cursor pagination: which address to fetch next, and what an answer does to
//! the traversal.
//!
//! The traversal never sends anything. Its owner asks for the pending address,
//! fetches it, and hands the outcome to `next`, which yields the item of this
//! round trip and moves the cursor.

use crate::client::{endpoint, ApiClient, ClientView};
use crate::document::{
    as_str, as_u32, field, field_of, has_field, has_key, is_array, json_elements, json_text,
    json_unsigned, len, narrowed,
};
use crate::error::{is_other_error, ApiError};
use json::JsonValue;
use vstd::prelude::*;
use vstd::string::*;

verus! {

/// How a document stands to the shape of a page of a resource.
#[derive(Debug, Clone, Copy)]
pub enum PageShape {
    /// The document has no entry under the resource's name.
    Missing,
    /// The entry is not an array.
    NotArray,
    /// The entry is an array without elements.
    Empty,
    /// The entry is an array with at least one element.
    Valid,
}

/// The shape of a document as a page of `resource`.
pub open spec fn page_shape(doc: JsonValue, resource: Seq<char>) -> PageShape {
    if !has_field(doc, resource) {
        PageShape::Missing
    } else {
        match json_elements(field_of(doc, resource)) {
            None => PageShape::NotArray,
            Some(items) => if items.len() == 0 {
                PageShape::Empty
            } else {
                PageShape::Valid
            },
        }
    }
}

/// The records that a page of `resource` carries, in the order of the page;
/// none where the document has another shape.
pub open spec fn page_records(doc: JsonValue, resource: Seq<char>) -> Seq<JsonValue> {
    if has_field(doc, resource) {
        match json_elements(field_of(doc, resource)) {
            Some(items) => items,
            None => Seq::empty(),
        }
    } else {
        Seq::empty()
    }
}

/// The total number of items that a page announces under `count`.
pub open spec fn page_count(doc: JsonValue) -> Option<u32> {
    if has_field(doc, "count"@) {
        narrowed(json_unsigned(field_of(doc, "count"@)))
    } else {
        None
    }
}

/// The address of the following page that a page names under `next_page`;
/// `None` where the entry is absent, null or no string.
pub open spec fn page_next(doc: JsonValue) -> Option<Seq<char>> {
    if has_field(doc, "next_page"@) {
        json_text(field_of(doc, "next_page"@))
    } else {
        None
    }
}

/// The text of the error for a document of the given shape.
pub open spec fn shape_message(shape: PageShape, resource: Seq<char>) -> Seq<char> {
    match shape {
        PageShape::Missing => resource + " not found in response"@,
        PageShape::NotArray => resource + " is not an array"@,
        PageShape::Empty => resource + " is empty array"@,
        PageShape::Valid => Seq::empty(),
    }
}

/// The text of the error of a traversal of the tickets for a document of the
/// given shape.
pub open spec fn ticket_message(shape: PageShape) -> Seq<char> {
    match shape {
        PageShape::Missing => "Tickets elt not found"@,
        PageShape::NotArray => "Tickets are not array"@,
        PageShape::Empty => "Tickets len is 0"@,
        PageShape::Valid => Seq::empty(),
    }
}

/// Finds the shape of a document as a page of `resource`, and counts the
/// records that it carries.
pub fn inspect_page(doc: &JsonValue, resource: &str) -> (r: (PageShape, usize))
    ensures
        r.0 == page_shape(*doc, resource@),
        r.1 == page_records(*doc, resource@).len(),
{
    if !has_key(doc, resource) {
        return (PageShape::Missing, 0);
    }
    let entry = field(doc, resource);
    if !is_array(entry) {
        return (PageShape::NotArray, 0);
    }
    let n = len(entry);
    if n == 0 {
        (PageShape::Empty, 0)
    } else {
        (PageShape::Valid, n)
    }
}

/// Writes the text of the error for a document of the given shape.
pub fn shape_text(shape: PageShape, resource: &str) -> (r: String)
    ensures
        r@ == shape_message(shape, resource@),
{
    let mut text = String::from_str(resource);
    match shape {
        PageShape::Missing => text.append(" not found in response"),
        PageShape::NotArray => text.append(" is not an array"),
        PageShape::Empty => text.append(" is empty array"),
        PageShape::Valid => {
            text = String::new();
        },
    }
    text
}

/// Writes the text of the error of a traversal of the tickets.
pub fn ticket_text(shape: PageShape) -> (r: String)
    ensures
        r@ == ticket_message(shape),
{
    match shape {
        PageShape::Missing => String::from_str("Tickets elt not found"),
        PageShape::NotArray => String::from_str("Tickets are not array"),
        PageShape::Empty => String::from_str("Tickets len is 0"),
        PageShape::Valid => String::new(),
    }
}

/// Checks that a document is a page of `resource` and counts its records.
///
/// A document without the resource's entry, with an entry that is no array, or
/// with an empty array is refused with an `OtherError` that says which.
pub fn validate_page(doc: &JsonValue, resource: &str) -> (r: Result<usize, ApiError>)
    ensures
        page_shape(*doc, resource@) is Valid ==> r is Ok,
        r matches Ok(n) ==> (n > 0 && n == page_records(*doc, resource@).len()),
        !(page_shape(*doc, resource@) is Valid) ==> is_other_error(
            r,
            shape_message(page_shape(*doc, resource@), resource@),
        ),
{
    let (shape, n) = inspect_page(doc, resource);
    match shape {
        PageShape::Valid => Ok(n),
        _ => Err(ApiError::OtherError(shape_text(shape, resource))),
    }
}

/// Reads the total number of items that a page announces under `count`.
pub fn read_count(doc: &JsonValue) -> (r: Option<u32>)
    ensures
        r == page_count(*doc),
{
    as_u32(field(doc, "count"))
}

/// Reads the address of the following page.
pub fn read_next_page(doc: &JsonValue) -> (r: Option<String>)
    ensures
        r is Some == page_next(*doc) is Some,
        r matches Some(link) ==> page_next(*doc) == Some(link@),
{
    match as_str(field(doc, "next_page")) {
        Some(link) => Some(String::from_str(link)),
        None => None,
    }
}

/// The state of a traversal.
pub struct CursorView {
    /// The tenant whose API is traversed.
    pub client: ClientView,
    /// The resource: the last segment of the first address and the key of the
    /// records in every page.
    pub method: Seq<char>,
    /// Pages accepted so far.
    pub page: nat,
    /// The address that the last accepted page named as the following one.
    pub next_page_link: Option<Seq<char>>,
    /// The last page has been accepted.
    pub finished: bool,
    /// The number of records of the first accepted page.
    pub known_page_size: Option<nat>,
    /// The total that the first accepted page announced.
    pub total_size: Option<nat>,
}

impl CursorView {
    /// The state before the first fetch.
    pub open spec fn start(client: ClientView, method: Seq<char>) -> CursorView {
        CursorView {
            client,
            method,
            page: 0,
            next_page_link: None,
            finished: false,
            known_page_size: None,
            total_size: None,
        }
    }

    /// The address of the next fetch.
    pub open spec fn target(self) -> Seq<char> {
        match self.next_page_link {
            Some(link) => link,
            None => endpoint(self.client.domain, self.method),
        }
    }

    /// The state after a valid page has been accepted. Page size and total are
    /// recorded once, from the first accepted page, and kept from then on.
    pub open spec fn after_page(self, doc: JsonValue) -> CursorView {
        CursorView {
            page: if self.page < u32::MAX {
                self.page + 1
            } else {
                self.page
            },
            next_page_link: page_next(doc),
            finished: page_next(doc) is None,
            known_page_size: if self.known_page_size is None {
                Some(page_records(doc, self.method).len())
            } else {
                self.known_page_size
            },
            total_size: if self.known_page_size is None {
                match page_count(doc) {
                    Some(total) => Some(total as nat),
                    None => None,
                }
            } else {
                self.total_size
            },
            ..self
        }
    }

    /// The outcome of a fetch moves the cursor.
    pub open spec fn accepts(self, response: Result<JsonValue, ApiError>) -> bool {
        &&& !self.finished
        &&& response is Ok
        &&& page_shape(response->Ok_0, self.method) is Valid
    }

    /// The state after one round trip. Only a valid page moves the cursor: a
    /// failed fetch or a document of another shape leaves it where it was, so
    /// that the same address is fetched again.
    pub open spec fn step(self, response: Result<JsonValue, ApiError>) -> CursorView {
        if self.accepts(response) {
            self.after_page(response->Ok_0)
        } else {
            self
        }
    }

    /// What one round trip yields: nothing once the traversal has finished,
    /// the error of a failed fetch, a shape error with the text that `wording`
    /// gives for a document that is no page, and the page itself otherwise.
    pub open spec fn yields_saying(
        self,
        response: Result<JsonValue, ApiError>,
        item: Option<Result<JsonValue, ApiError>>,
        wording: spec_fn(PageShape) -> Seq<char>,
    ) -> bool {
        if self.finished {
            item is None
        } else {
            match response {
                Err(e) => item == Some(Err::<JsonValue, ApiError>(e)),
                Ok(doc) => if page_shape(doc, self.method) is Valid {
                    item == Some(Ok::<JsonValue, ApiError>(doc))
                } else {
                    item matches Some(r) && is_other_error(r, wording(page_shape(doc, self.method)))
                },
            }
        }
    }

    /// What one round trip of a traversal of any resource yields.
    pub open spec fn yields(
        self,
        response: Result<JsonValue, ApiError>,
        item: Option<Result<JsonValue, ApiError>>,
    ) -> bool {
        self.yields_saying(response, item, |shape: PageShape| shape_message(shape, self.method))
    }
}

/// A forward-only traversal of the pages of one resource.
pub struct ZendeskPageIterator<'a> {
    client: &'a ApiClient,
    method: String,
    page: u32,
    next_page_link: Option<String>,
    finished: bool,
    known_page_size: Option<usize>,
    total_size: Option<u32>,
}

impl<'a> View for ZendeskPageIterator<'a> {
    type V = CursorView;

    closed spec fn view(&self) -> CursorView {
        CursorView {
            client: self.client@,
            method: self.method@,
            page: self.page as nat,
            next_page_link: match self.next_page_link {
                Some(link) => Some(link@),
                None => None,
            },
            finished: self.finished,
            known_page_size: match self.known_page_size {
                Some(size) => Some(size as nat),
                None => None,
            },
            total_size: match self.total_size {
                Some(total) => Some(total as nat),
                None => None,
            },
        }
    }
}

impl<'a> ZendeskPageIterator<'a> {
    #[verifier::type_invariant]
    spec fn page_size_is_positive(self) -> bool {
        self.known_page_size matches Some(size) ==> size > 0
    }

    pub fn new(client: &'a ApiClient, method: &str) -> (r: Self)
        ensures
            r@ == CursorView::start(client@, method@),
    {
        ZendeskPageIterator {
            client,
            method: String::from_str(method),
            page: 0,
            next_page_link: None,
            finished: false,
            known_page_size: None,
            total_size: None,
        }
    }

    /// The address to fetch next; `None` once the traversal has finished.
    pub fn pending_url(&self) -> (r: Option<String>)
        ensures
            r is None == self@.finished,
            r matches Some(url) ==> url@ == self@.target(),
    {
        if self.finished {
            return None;
        }
        match &self.next_page_link {
            Some(link) => Some(link.clone()),
            None => Some(self.client.make_url(self.method.as_str())),
        }
    }

    /// Moves the cursor past a valid page with `size` records.
    fn accept(&mut self, page: &JsonValue, size: usize)
        requires
            !old(self)@.finished,
            size > 0,
            size == page_records(*page, old(self)@.method).len(),
        ensures
            final(self)@ == old(self)@.after_page(*page),
    {
        proof {
            use_type_invariant(&*self);
        }
        if self.known_page_size.is_none() {
            self.known_page_size = Some(size);
            self.total_size = read_count(page);
        }
        if self.page < u32::MAX {
            self.page += 1;
        }
        self.next_page_link = read_next_page(page);
        if self.next_page_link.is_none() {
            self.finished = true;
        }
    }

    /// Takes the outcome of fetching the pending address and yields the item of
    /// this round trip.
    pub fn next(&mut self, response: Result<JsonValue, ApiError>) -> (item: Option<
        Result<JsonValue, ApiError>,
    >)
        ensures
            final(self)@ == old(self)@.step(response),
            old(self)@.yields(response, item),
    {
        if self.finished {
            return None;
        }
        match response {
            Ok(val) => {
                let (shape, size) = inspect_page(&val, self.method.as_str());
                match shape {
                    PageShape::Valid => {
                        self.accept(&val, size);
                        Some(Ok(val))
                    },
                    _ => Some(Err(ApiError::OtherError(shape_text(shape, self.method.as_str())))),
                }
            },
            Err(e) => Some(Err(e)),
        }
    }

    /// An estimate of the number of round trips that remain: the quotient of
    /// the announced total by the size of the first page, and one more. Before
    /// the first page, or where no total was announced, nothing is known.
    pub fn size_hint(&self) -> (r: (usize, Option<usize>))
        ensures
            r == size_estimate(self@.known_page_size, self@.total_size),
    {
        proof {
            use_type_invariant(self);
        }
        match (self.known_page_size, self.total_size) {
            (Some(ps), Some(tt)) => {
                let size = (tt as usize) / ps;
                (size, size.checked_add(1))
            },
            _ => (0, None),
        }
    }

    /// Pages accepted so far.
    pub fn page(&self) -> (r: u32)
        ensures
            r == self@.page,
    {
        self.page
    }

    /// Whether the last page has been accepted.
    pub fn is_finished(&self) -> (r: bool)
        ensures
            r == self@.finished,
    {
        self.finished
    }

    /// The number of records of the first accepted page.
    pub fn known_page_size(&self) -> (r: Option<usize>)
        ensures
            r is Some == self@.known_page_size is Some,
            r matches Some(size) ==> self@.known_page_size == Some(size as nat),
    {
        self.known_page_size
    }

    /// The total that the first accepted page announced.
    pub fn total_size(&self) -> (r: Option<u32>)
        ensures
            r is Some == self@.total_size is Some,
            r matches Some(total) ==> self@.total_size == Some(total as nat),
    {
        self.total_size
    }
}

/// The estimate of the remaining round trips from the recorded page size and
/// total: a lower bound, and an upper bound where one is known and `usize` can
/// hold it.
pub open spec fn size_estimate(page_size: Option<nat>, total: Option<nat>) -> (usize, Option<usize>) {
    match (page_size, total) {
        (Some(ps), Some(tt)) if ps > 0 => (
            (tt / ps) as usize,
            if tt / ps + 1 <= usize::MAX {
                Some((tt / ps + 1) as usize)
            } else {
                None
            },
        ),
        _ => (0, None),
    }
}

/// A forward-only traversal of the pages of the tickets.
pub struct TicketIterator<'a> {
    pages: ZendeskPageIterator<'a>,
}

impl<'a> View for TicketIterator<'a> {
    type V = CursorView;

    closed spec fn view(&self) -> CursorView {
        self.pages@
    }
}

impl<'a> TicketIterator<'a> {
    pub fn new(client: &'a ApiClient) -> (r: Self)
        ensures
            r@ == CursorView::start(client@, "tickets"@),
    {
        TicketIterator { pages: ZendeskPageIterator::new(client, "tickets") }
    }

    /// The address to fetch next; `None` once the traversal has finished.
    pub fn pending_url(&self) -> (r: Option<String>)
        ensures
            r is None == self@.finished,
            r matches Some(url) ==> url@ == self@.target(),
    {
        self.pages.pending_url()
    }

    /// Takes the outcome of fetching the pending address and yields the item of
    /// this round trip. The traversal moves as that of any resource does; its
    /// shape errors have a wording of their own.
    pub fn next(&mut self, response: Result<JsonValue, ApiError>) -> (item: Option<
        Result<JsonValue, ApiError>,
    >)
        ensures
            final(self)@ == old(self)@.step(response),
            old(self)@.yields_saying(response, item, |shape: PageShape| ticket_message(shape)),
    {
        if self.pages.finished {
            return None;
        }
        match response {
            Ok(val) => {
                let (shape, size) = inspect_page(&val, self.pages.method.as_str());
                match shape {
                    PageShape::Valid => {
                        self.pages.accept(&val, size);
                        Some(Ok(val))
                    },
                    _ => Some(Err(ApiError::OtherError(ticket_text(shape)))),
                }
            },
            Err(e) => Some(Err(e)),
        }
    }

    /// An estimate of the number of round trips that remain.
    pub fn size_hint(&self) -> (r: (usize, Option<usize>))
        ensures
            r == size_estimate(self@.known_page_size, self@.total_size),
    {
        self.pages.size_hint()
    }

    /// The traversal itself, for what it has recorded.
    pub fn pages(&self) -> (r: &ZendeskPageIterator<'a>)
        ensures
            r@ == self@,
    {
        &self.pages
    }
}

/// The state after a run of round trips, given their outcomes in order.
pub open spec fn walk(cursor: CursorView, responses: Seq<Result<JsonValue, ApiError>>) -> CursorView
    decreases responses.len(),
{
    if responses.len() == 0 {
        cursor
    } else {
        walk(cursor, responses.drop_last()).step(responses.last())
    }
}

/// The answers of a server that serves the given pages without a failure.
pub open spec fn served(docs: Seq<JsonValue>) -> Seq<Result<JsonValue, ApiError>> {
    Seq::new(docs.len(), |i: int| Ok::<JsonValue, ApiError>(docs[i]))
}

/// The pages of a finite, well-behaved server: at least one page, each of them
/// a valid page of the resource, each but the last naming a following page, and
/// the last naming none.
pub open spec fn well_behaved(docs: Seq<JsonValue>, resource: Seq<char>) -> bool {
    &&& docs.len() > 0
    &&& forall|i: int| 0 <= i < docs.len() ==> page_shape(#[trigger] docs[i], resource) is Valid
    &&& forall|i: int| 0 <= i < docs.len() - 1 ==> page_next(#[trigger] docs[i]) is Some
    &&& page_next(docs.last()) is None
}

/// A walk over one more outcome is a walk followed by a step.
pub proof fn lemma_walk_push(
    cursor: CursorView,
    responses: Seq<Result<JsonValue, ApiError>>,
    response: Result<JsonValue, ApiError>,
)
    ensures
        walk(cursor, responses.push(response)) == walk(cursor, responses).step(response),
{
    assert(responses.push(response).drop_last() =~= responses);
}

/// Once the last page has been accepted the traversal is exhausted: whatever
/// is handed to it, it yields nothing and stays as it is.
pub proof fn lemma_finished_is_final(cursor: CursorView, responses: Seq<Result<JsonValue, ApiError>>)
    requires
        cursor.finished,
    ensures
        walk(cursor, responses) == cursor,
        forall|response: Result<JsonValue, ApiError>| #[trigger] cursor.yields(response, None),
    decreases responses.len(),
{
    if responses.len() > 0 {
        lemma_finished_is_final(cursor, responses.drop_last());
    }
}

/// A failed fetch and a document that is no page leave the cursor where it
/// was, and do not end the traversal: the same address is due again.
pub proof fn lemma_failure_keeps_cursor(cursor: CursorView, response: Result<JsonValue, ApiError>)
    requires
        !cursor.finished,
        response matches Ok(doc) ==> !(page_shape(doc, cursor.method) is Valid),
    ensures
        cursor.step(response) == cursor,
        !cursor.step(response).finished,
        cursor.step(response).target() == cursor.target(),
{
}

/// Against a finite, well-behaved server the traversal yields every page, in
/// order, each fetched from the address that the page before it named, and is
/// exhausted exactly when the last page has been yielded: neither earlier nor
/// later. Stated of the state after the first `k` pages.
pub proof fn lemma_traversal_yields_every_page(
    client: ClientView,
    resource: Seq<char>,
    docs: Seq<JsonValue>,
    k: int,
)
    requires
        well_behaved(docs, resource),
        0 <= k <= docs.len(),
    ensures
        ({
            let cursor = walk(CursorView::start(client, resource), served(docs).take(k));
            &&& cursor.finished == (k == docs.len())
            &&& cursor.client == client
            &&& cursor.method == resource
            &&& cursor.page == if k <= u32::MAX { k } else { u32::MAX as int }
            &&& k < docs.len() ==> cursor.target() == if k == 0 {
                endpoint(client.domain, resource)
            } else {
                page_next(docs[k - 1]).unwrap()
            }
            &&& k < docs.len() ==> cursor.yields(
                served(docs)[k],
                Some(Ok::<JsonValue, ApiError>(docs[k])),
            )
            &&& k > 0 ==> cursor.known_page_size == Some(page_records(docs[0], resource).len())
        }),
    decreases k,
{
    let answers = served(docs);
    if k == 0 {
        assert(answers.take(0) =~= Seq::empty());
    } else {
        lemma_traversal_yields_every_page(client, resource, docs, k - 1);
        let before = walk(CursorView::start(client, resource), answers.take(k - 1));
        assert(answers.take(k) =~= answers.take(k - 1).push(answers[k - 1]));
        lemma_walk_push(CursorView::start(client, resource), answers.take(k - 1), answers[k - 1]);
        assert(before.accepts(answers[k - 1]));
        if k == docs.len() {
            assert(docs[k - 1] == docs.last());
        }
    }
}

/// Page size and total are recorded once: after the first accepted page no
/// later outcome alters them, whatever the length of a later page.
pub proof fn lemma_bookkeeping_is_permanent(
    cursor: CursorView,
    responses: Seq<Result<JsonValue, ApiError>>,
)
    requires
        cursor.known_page_size is Some,
    ensures
        walk(cursor, responses).known_page_size == cursor.known_page_size,
        walk(cursor, responses).total_size == cursor.total_size,
    decreases responses.len(),
{
    if responses.len() > 0 {
        lemma_bookkeeping_is_permanent(cursor, responses.drop_last());
    }
}

/// The first accepted page decides the bookkeeping: its length is the page
/// size, and the total that it announces is the total.
pub proof fn lemma_first_page_sets_bookkeeping(cursor: CursorView, doc: JsonValue)
    requires
        cursor.known_page_size is None,
        cursor.accepts(Ok(doc)),
    ensures
        cursor.step(Ok(doc)).known_page_size == Some(page_records(doc, cursor.method).len()),
        cursor.step(Ok(doc)).total_size == match page_count(doc) {
            Some(total) => Some(total as nat),
            None => None,
        },
{
}

} // verus!
