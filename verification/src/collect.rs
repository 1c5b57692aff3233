//! Flattening the pages of a traversal into one collection.
//!
//! A failed round trip is passed over, not fatal. Because a traversal fetches
//! the same address again after a failure, a collector that passed over every
//! failure could go on for ever against a page that keeps failing: it therefore
//! gives up once more than a set number of round trips in a row have failed.

use crate::client::{ApiClient, ClientView};
use crate::document::{duplicate, element, field, is_array, json_elements, len};
use crate::error::ApiError;
use crate::pages::{
    lemma_traversal_yields_every_page, page_records, served, walk, well_behaved, CursorView,
    ZendeskPageIterator,
};
use json::JsonValue;
use vstd::prelude::*;

verus! {

/// The state of a collector.
pub struct CollectorView {
    /// The records gathered so far, in the order of their arrival.
    pub records: Seq<JsonValue>,
    /// How many failures in a row are passed over.
    pub max_consecutive_errors: nat,
    /// How many more failures in a row will be passed over.
    pub tolerance_left: nat,
    /// One failure too many has arrived.
    pub stopped: bool,
}

impl CollectorView {
    /// The state before the first item.
    pub open spec fn start(max_consecutive_errors: nat) -> CollectorView {
        CollectorView {
            records: Seq::empty(),
            max_consecutive_errors,
            tolerance_left: max_consecutive_errors,
            stopped: false,
        }
    }

    /// The state after a page: its records follow those gathered before, in
    /// the order of the page, and the count of failures starts anew.
    pub open spec fn with_page(self, doc: JsonValue, resource: Seq<char>) -> CollectorView {
        CollectorView {
            records: self.records + page_records(doc, resource),
            tolerance_left: self.max_consecutive_errors,
            ..self
        }
    }

    /// The state after a failure: one less is passed over, and the collector
    /// stops where none was left.
    pub open spec fn with_failure(self) -> CollectorView {
        if self.tolerance_left == 0 {
            CollectorView { stopped: true, ..self }
        } else {
            CollectorView { tolerance_left: (self.tolerance_left - 1) as nat, ..self }
        }
    }

    /// The state after one item of a traversal. A stopped collector takes
    /// nothing more.
    pub open spec fn absorb(self, item: Result<JsonValue, ApiError>, resource: Seq<char>) -> CollectorView {
        if self.stopped {
            self
        } else {
            match item {
                Ok(doc) => self.with_page(doc, resource),
                Err(_) => self.with_failure(),
            }
        }
    }
}

/// Gathers the records of the pages of a traversal.
pub struct Collector {
    records: Vec<JsonValue>,
    max_consecutive_errors: usize,
    tolerance_left: usize,
    stopped: bool,
}

impl View for Collector {
    type V = CollectorView;

    closed spec fn view(&self) -> CollectorView {
        CollectorView {
            records: self.records@,
            max_consecutive_errors: self.max_consecutive_errors as nat,
            tolerance_left: self.tolerance_left as nat,
            stopped: self.stopped,
        }
    }
}

impl Collector {
    /// A collector that passes over up to `max_consecutive_errors` failures in
    /// a row and stops at the next.
    pub fn new(max_consecutive_errors: usize) -> (r: Self)
        ensures
            r@ == CollectorView::start(max_consecutive_errors as nat),
    {
        Collector {
            records: Vec::new(),
            max_consecutive_errors,
            tolerance_left: max_consecutive_errors,
            stopped: false,
        }
    }

    /// Takes one item of a traversal of `resource` and says whether to go on.
    pub fn absorb(&mut self, item: &Result<JsonValue, ApiError>, resource: &str) -> (go_on: bool)
        ensures
            final(self)@ == old(self)@.absorb(*item, resource@),
            go_on == !final(self)@.stopped,
    {
        if self.stopped {
            return false;
        }
        match item {
            Ok(doc) => {
                let entry = field(doc, resource);
                let n = if is_array(entry) {
                    len(entry)
                } else {
                    0
                };
                let ghost before = self.records@;
                let mut i: usize = 0;
                while i < n
                    invariant
                        i <= n,
                        json_elements(*entry) matches Some(items) ==> n == items.len(),
                        json_elements(*entry) is None ==> n == 0,
                        self.records@ == before + page_records(*doc, resource@).take(i as int),
                        page_records(*doc, resource@) == match json_elements(*entry) {
                            Some(items) => items,
                            None => Seq::empty(),
                        },
                        self.max_consecutive_errors == old(self).max_consecutive_errors,
                        self.tolerance_left == old(self).tolerance_left,
                        self.stopped == old(self).stopped,
                    decreases n - i,
                {
                    self.records.push(duplicate(element(entry, i)));
                    proof {
                        let records = page_records(*doc, resource@);
                        assert(records.take(i + 1) =~= records.take(i as int).push(records[i as int]));
                    }
                    i += 1;
                }
                proof {
                    let records = page_records(*doc, resource@);
                    assert(records.take(n as int) =~= records);
                }
                self.tolerance_left = self.max_consecutive_errors;
                true
            },
            Err(_) => {
                if self.tolerance_left == 0 {
                    self.stopped = true;
                    false
                } else {
                    self.tolerance_left -= 1;
                    true
                }
            },
        }
    }

    /// Whether one failure too many has arrived.
    pub fn is_stopped(&self) -> (r: bool)
        ensures
            r == self@.stopped,
    {
        self.stopped
    }

    /// The records gathered so far.
    pub fn records(&self) -> (r: &Vec<JsonValue>)
        ensures
            r@ == self@.records,
    {
        &self.records
    }

    /// Hands out the records gathered.
    pub fn into_records(self) -> (r: Vec<JsonValue>)
        ensures
            r@ == self@.records,
    {
        self.records
    }
}

/// A traversal together with the collector that drains it.
pub struct ExportView {
    pub cursor: CursorView,
    pub collector: CollectorView,
}

impl ExportView {
    /// The state before the first fetch.
    pub open spec fn start(client: ClientView, resource: Seq<char>, max_consecutive_errors: nat) -> ExportView {
        ExportView {
            cursor: CursorView::start(client, resource),
            collector: CollectorView::start(max_consecutive_errors),
        }
    }

    /// Another round trip is due: the traversal has not finished and the
    /// collector has not given up.
    pub open spec fn live(self) -> bool {
        !self.cursor.finished && !self.collector.stopped
    }

    /// The state after one round trip. A valid page moves the cursor and its
    /// records are gathered; anything else counts as a failure.
    pub open spec fn round(self, response: Result<JsonValue, ApiError>) -> ExportView {
        if !self.live() {
            self
        } else if self.cursor.accepts(response) {
            ExportView {
                cursor: self.cursor.step(response),
                collector: self.collector.with_page(response->Ok_0, self.cursor.method),
            }
        } else {
            ExportView { cursor: self.cursor, collector: self.collector.with_failure() }
        }
    }

    /// The state after the round trips whose outcomes are given, in order.
    /// Outcomes that arrive when no round trip is due are ignored.
    pub open spec fn run(self, responses: Seq<Result<JsonValue, ApiError>>) -> ExportView
        decreases responses.len(),
    {
        if responses.len() == 0 {
            self
        } else {
            self.run(responses.drop_last()).round(responses.last())
        }
    }
}

/// The pages of a sequence joined into one, in order.
pub open spec fn joined(pages: Seq<Seq<JsonValue>>) -> Seq<JsonValue>
    decreases pages.len(),
{
    if pages.len() == 0 {
        Seq::empty()
    } else {
        joined(pages.drop_last()) + pages.last()
    }
}

/// The position in the joined sequence at which page `i` begins.
pub open spec fn offset(pages: Seq<Seq<JsonValue>>, i: int) -> int
    decreases i,
{
    if i <= 0 {
        0
    } else {
        offset(pages, i - 1) + pages[i - 1].len()
    }
}

/// The records of each page of a resource.
pub open spec fn records_of(docs: Seq<JsonValue>, resource: Seq<char>) -> Seq<Seq<JsonValue>> {
    Seq::new(docs.len(), |i: int| page_records(docs[i], resource))
}

impl ApiClient {
    /// Collects the records of `object` from the outcomes of the round trips of
    /// one traversal, given in the order in which they arrived.
    ///
    /// Failures are passed over; after more than `max_consecutive_errors` of
    /// them in a row the collection ends with what was gathered.
    pub fn get_all_pages(
        &self,
        object: &str,
        responses: Vec<Result<JsonValue, ApiError>>,
        max_consecutive_errors: usize,
    ) -> (objects: Vec<JsonValue>)
        ensures
            objects@ == ExportView::start(self@, object@, max_consecutive_errors as nat).run(
                responses@,
            ).collector.records,
    {
        let mut pages = ZendeskPageIterator::new(self, object);
        let mut collector = Collector::new(max_consecutive_errors);
        let ghost all = responses@;
        let ghost begin = ExportView::start(self@, object@, max_consecutive_errors as nat);
        for response in it: responses.into_iter()
            invariant
                it.seq() == all,
                begin.cursor.method == object@,
                (ExportView { cursor: pages@, collector: collector@ }) == begin.run(
                    all.take(it.index() as int),
                ),
        {
            proof {
                let k = it.index() as int;
                assert(all.take(k + 1).drop_last() =~= all.take(k));
                lemma_run_keeps_resource(begin, all.take(k));
            }
            if !collector.is_stopped() {
                match pages.next(response) {
                    Some(item) => {
                        collector.absorb(&item, object);
                    },
                    None => {},
                }
            }
        }
        proof {
            assert(all.take(all.len() as int) =~= all);
        }
        collector.into_records()
    }
}

/// A run never changes the resource that is traversed.
pub proof fn lemma_run_keeps_resource(state: ExportView, responses: Seq<Result<JsonValue, ApiError>>)
    ensures
        state.run(responses).cursor.method == state.cursor.method,
        state.run(responses).cursor.client == state.cursor.client,
    decreases responses.len(),
{
    if responses.len() > 0 {
        lemma_run_keeps_resource(state, responses.drop_last());
    }
}

/// Where a page begins depends on the pages before it alone.
proof fn lemma_offset_of_prefix(pages: Seq<Seq<JsonValue>>, n: int, i: int)
    requires
        0 <= i <= n <= pages.len(),
    ensures
        offset(pages.take(n), i) == offset(pages, i),
    decreases i,
{
    if i > 0 {
        lemma_offset_of_prefix(pages, n, i - 1);
    }
}

/// The joined sequence is as long as its pages together.
pub proof fn lemma_joined_len(pages: Seq<Seq<JsonValue>>)
    ensures
        joined(pages).len() == offset(pages, pages.len() as int),
    decreases pages.len(),
{
    if pages.len() > 0 {
        let n = pages.len() - 1;
        lemma_joined_len(pages.drop_last());
        assert(pages.drop_last() =~= pages.take(n));
        lemma_offset_of_prefix(pages, n, n);
    }
}

/// A later page begins where the earlier one has ended, or after that.
pub proof fn lemma_pages_do_not_overlap(pages: Seq<Seq<JsonValue>>, i: int, j: int)
    requires
        0 <= i < j <= pages.len(),
    ensures
        0 <= offset(pages, i),
        offset(pages, i) + pages[i].len() <= offset(pages, j),
    decreases j,
{
    if i > 0 {
        lemma_pages_do_not_overlap(pages, 0, i);
    }
    if j > i + 1 {
        lemma_pages_do_not_overlap(pages, i, j - 1);
    }
}

/// Joining keeps the order between pages and within a page: record `j` of
/// page `i` stands at the position of that page's beginning plus `j`, so it
/// precedes every later record of its page and every record of a later page.
pub proof fn lemma_joined_keeps_order(pages: Seq<Seq<JsonValue>>, i: int, j: int)
    requires
        0 <= i < pages.len(),
        0 <= j < pages[i].len(),
    ensures
        0 <= offset(pages, i) + j < joined(pages).len(),
        joined(pages)[offset(pages, i) + j] == pages[i][j],
    decreases pages.len(),
{
    let n = pages.len() - 1;
    let front = pages.drop_last();
    assert(front =~= pages.take(n));
    lemma_joined_len(front);
    lemma_offset_of_prefix(pages, n, n);
    if i == n {
        lemma_pages_do_not_overlap(pages, i, i + 1);
    } else {
        lemma_joined_keeps_order(front, i, j);
        lemma_offset_of_prefix(pages, n, i);
    }
}

/// What has been gathered stays, at the front and in its order, whatever
/// arrives later.
pub proof fn lemma_collection_only_grows(state: ExportView, responses: Seq<Result<JsonValue, ApiError>>)
    ensures
        state.collector.records.is_prefix_of(state.run(responses).collector.records),
    decreases responses.len(),
{
    if responses.len() > 0 {
        lemma_collection_only_grows(state, responses.drop_last());
    }
}

/// The collection is bounded against a page that keeps failing: while nothing
/// is accepted neither the cursor nor the records change, each failure uses
/// up one of the failures that are passed over, and the next one stops the
/// collector.
pub proof fn lemma_failures_use_up_tolerance(state: ExportView, responses: Seq<Result<JsonValue, ApiError>>)
    requires
        state.live(),
        forall|i: int| 0 <= i < responses.len() ==> !state.cursor.accepts(#[trigger] responses[i]),
    ensures
        ({
            let end = state.run(responses);
            &&& end.cursor == state.cursor
            &&& end.collector.records == state.collector.records
            &&& end.collector.stopped == (responses.len() > state.collector.tolerance_left)
            &&& !end.collector.stopped ==> end.collector.tolerance_left
                == state.collector.tolerance_left - responses.len()
        }),
    decreases responses.len(),
{
    if responses.len() > 0 {
        lemma_failures_use_up_tolerance(state, responses.drop_last());
    }
}

/// Against a finite, well-behaved server the collection is the records of
/// every page, joined in the order in which the pages were served, and the
/// traversal is finished without the collector having given up.
pub proof fn lemma_collects_every_page_in_order(
    client: ClientView,
    resource: Seq<char>,
    docs: Seq<JsonValue>,
    max_consecutive_errors: nat,
)
    requires
        well_behaved(docs, resource),
    ensures
        ({
            let end = ExportView::start(client, resource, max_consecutive_errors).run(served(docs));
            &&& end.collector.records == joined(records_of(docs, resource))
            &&& end.cursor.finished
            &&& !end.collector.stopped
        }),
{
    lemma_collects_first_pages(client, resource, docs, max_consecutive_errors, docs.len() as int);
    assert(served(docs).take(docs.len() as int) =~= served(docs));
    assert(records_of(docs, resource).take(docs.len() as int) =~= records_of(docs, resource));
}

/// The state of the collection after the first `k` pages of a finite,
/// well-behaved server.
pub proof fn lemma_collects_first_pages(
    client: ClientView,
    resource: Seq<char>,
    docs: Seq<JsonValue>,
    max_consecutive_errors: nat,
    k: int,
)
    requires
        well_behaved(docs, resource),
        0 <= k <= docs.len(),
    ensures
        ({
            let begin = ExportView::start(client, resource, max_consecutive_errors);
            let state = begin.run(served(docs).take(k));
            &&& state.cursor == walk(begin.cursor, served(docs).take(k))
            &&& state.collector.records == joined(records_of(docs, resource).take(k))
            &&& state.collector.tolerance_left == max_consecutive_errors
            &&& state.collector.max_consecutive_errors == max_consecutive_errors
            &&& state.cursor.finished == (k == docs.len())
            &&& !state.collector.stopped
        }),
    decreases k,
{
    let begin = ExportView::start(client, resource, max_consecutive_errors);
    let answers = served(docs);
    let pages = records_of(docs, resource);
    lemma_traversal_yields_every_page(client, resource, docs, k);
    if k == 0 {
        assert(answers.take(0) =~= Seq::empty());
        assert(pages.take(0) =~= Seq::empty());
    } else {
        lemma_collects_first_pages(client, resource, docs, max_consecutive_errors, k - 1);
        lemma_traversal_yields_every_page(client, resource, docs, k - 1);
        assert(answers.take(k).drop_last() =~= answers.take(k - 1));
        assert(answers.take(k).last() == answers[k - 1]);
        assert(pages.take(k).drop_last() =~= pages.take(k - 1));
        assert(pages.take(k).last() == page_records(docs[k - 1], resource));
        let before = begin.run(answers.take(k - 1));
        assert(before.cursor.accepts(answers[k - 1]));
    }
}

} // verus!
