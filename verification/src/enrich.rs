//! Enrichment: one secondary document per record, fetched under rate-limit
//! backoff and attached to the record.
//!
//! The module decides; it neither fetches nor waits. For each record its owner
//! asks for the request, sends it, hands the outcome to `settle` and does what
//! the step says, until the step is to attach or to give up. Records are
//! independent of each other, so any number of them may be under way at once.

use crate::client::{comments_path, endpoint, basic_auth, ApiClient, HttpRequest};
use crate::document::{
    as_u64, field, field_of, has_field, insert, is_object_only, json_fields, json_unsigned,
};
use crate::error::ApiError;
use json::JsonValue;
use vstd::prelude::*;
use vstd::string::*;

verus! {

/// The text of one decimal digit.
pub open spec fn digit_text(d: nat) -> Seq<char> {
    if d == 0 {
        "0"@
    } else if d == 1 {
        "1"@
    } else if d == 2 {
        "2"@
    } else if d == 3 {
        "3"@
    } else if d == 4 {
        "4"@
    } else if d == 5 {
        "5"@
    } else if d == 6 {
        "6"@
    } else if d == 7 {
        "7"@
    } else if d == 8 {
        "8"@
    } else {
        "9"@
    }
}

/// The decimal text of a number, without leading zeros.
pub open spec fn decimal(n: nat) -> Seq<char>
    decreases n,
{
    if n < 10 {
        digit_text(n)
    } else {
        decimal(n / 10) + digit_text(n % 10)
    }
}

fn digit_str(d: u64) -> (r: &'static str)
    requires
        d < 10,
    ensures
        r@ == digit_text(d as nat),
{
    if d == 0 {
        "0"
    } else if d == 1 {
        "1"
    } else if d == 2 {
        "2"
    } else if d == 3 {
        "3"
    } else if d == 4 {
        "4"
    } else if d == 5 {
        "5"
    } else if d == 6 {
        "6"
    } else if d == 7 {
        "7"
    } else if d == 8 {
        "8"
    } else {
        "9"
    }
}

/// Writes a number in decimal.
pub fn decimal_string(n: u64) -> (r: String)
    ensures
        r@ == decimal(n as nat),
    decreases n,
{
    if n < 10 {
        String::from_str(digit_str(n))
    } else {
        let mut text = decimal_string(n / 10);
        text.append(digit_str(n % 10));
        text
    }
}

/// The id of a record: the unsigned integer under `id`, if there is one.
pub open spec fn id_of(record: JsonValue) -> Option<u64> {
    if has_field(record, "id"@) {
        json_unsigned(field_of(record, "id"@))
    } else {
        None
    }
}

/// Reads the id of a record. A record without an entry `id`, or with one that
/// is no unsigned integer, has none.
pub fn record_id(record: &JsonValue) -> (r: Option<u64>)
    ensures
        r == id_of(*record),
{
    as_u64(field(record, "id"))
}

/// The record as it is once the payload has been attached: the payload stands
/// under `comments`, in place of what stood there, and every other entry is
/// as before.
pub open spec fn enriched(before: JsonValue, payload: JsonValue, after: JsonValue) -> bool {
    &&& is_object_only(after)
    &&& json_fields(after) == Some(json_fields(before).unwrap().insert("comments"@, payload))
}

/// Attaches a payload to a record under `comments` and says whether it did.
/// A record that is no JSON object is left as it is.
pub fn attach(record: &mut JsonValue, payload: JsonValue) -> (attached: bool)
    ensures
        attached == (json_fields(*old(record)) is Some),
        attached ==> enriched(*old(record), payload, *final(record)),
        !attached ==> *final(record) == *old(record),
{
    match insert(record, "comments", payload) {
        Ok(_) => true,
        Err(_) => false,
    }
}

/// Record `i` as it is once the payloads have been gathered: enriched where a
/// payload was fetched for it and it is a JSON object, and as before otherwise.
pub open spec fn gathered_at(
    before: Seq<JsonValue>,
    payloads: Seq<Option<JsonValue>>,
    after: Seq<JsonValue>,
    i: int,
) -> bool {
    if i < payloads.len() && payloads[i] is Some && json_fields(before[i]) is Some {
        enriched(before[i], payloads[i].unwrap(), after[i])
    } else {
        after[i] == before[i]
    }
}

/// Attaches to each record the payload that was fetched for it: payload `i`
/// goes to record `i` and to no other. A record without a payload is left as
/// it is, and payloads beyond the last record are dropped.
pub fn attach_all(records: &mut Vec<JsonValue>, payloads: Vec<Option<JsonValue>>)
    ensures
        final(records)@.len() == old(records)@.len(),
        forall|i: int|
            0 <= i < old(records)@.len() ==> gathered_at(
                old(records)@,
                payloads@,
                final(records)@,
                i,
            ),
{
    let ghost before = records@;
    let ghost all = payloads@;
    let n = records.len();
    let fetched = payloads.len();
    let mut i: usize = 0;
    for payload in it: payloads.into_iter()
        invariant
            it.seq() == all,
            all.len() == fetched,
            n == before.len(),
            records@.len() == n,
            i == it.index(),
            forall|j: int| 0 <= j < n && j < i ==> gathered_at(before, all, records@, j),
            forall|j: int| i <= j < n ==> records@[j] == before[j],
    {
        let ghost earlier = records@;
        if i < n {
            match payload {
                Some(doc) => {
                    attach(&mut records[i], doc);
                },
                None => {},
            }
        }
        proof {
            assert forall|j: int| 0 <= j < n && j < i + 1 implies gathered_at(
                before,
                all,
                records@,
                j,
            ) by {
                if j < i {
                    assert(gathered_at(before, all, earlier, j));
                    assert(records@[j] == earlier[j]);
                }
            }
        }
        i += 1;
    }
}

/// What to do about a record after one fetch.
#[derive(Debug)]
pub enum EnrichStep {
    /// The fetch succeeded: attach the document, the record is done.
    Attach(JsonValue),
    /// The service limits the rate: wait this many seconds, then fetch again.
    RetryAfter(u64),
    /// The fetch failed otherwise: fetch again.
    Retry,
    /// The attempts are used up: leave the record as it is, with this error.
    GiveUp(ApiError),
}

/// The settings of an enrichment.
pub struct EnricherView {
    /// How many records are under way at once.
    pub workers: nat,
    /// The wait, in seconds, before a fetch that was refused for the rate is
    /// made again.
    pub backoff_secs: u64,
    /// After how many failed fetches a record is given up; `None` for never.
    pub max_attempts: Option<u32>,
}

impl EnricherView {
    /// The attempts are used up once as many fetches have been made as are
    /// allowed.
    pub open spec fn exhausted(self, attempts_made: u32) -> bool {
        self.max_attempts matches Some(most) && attempts_made >= most
    }

    /// What to do after the fetch number `attempts_made` of a record has had
    /// the given outcome. A record is done only when a fetch has succeeded.
    pub open spec fn decide(self, attempts_made: u32, outcome: Result<JsonValue, ApiError>) -> EnrichStep {
        match outcome {
            Ok(doc) => EnrichStep::Attach(doc),
            Err(e) => if self.exhausted(attempts_made) {
                EnrichStep::GiveUp(e)
            } else if e.is_rate_limited() {
                EnrichStep::RetryAfter(self.backoff_secs)
            } else {
                EnrichStep::Retry
            },
        }
    }
}

/// Enriches records with their comments.
pub struct Enricher {
    workers: usize,
    backoff_secs: u64,
    max_attempts: Option<u32>,
}

impl View for Enricher {
    type V = EnricherView;

    closed spec fn view(&self) -> EnricherView {
        EnricherView {
            workers: self.workers as nat,
            backoff_secs: self.backoff_secs,
            max_attempts: self.max_attempts,
        }
    }
}

impl Enricher {
    #[verifier::type_invariant]
    spec fn has_a_worker(self) -> bool {
        self.workers >= 1
    }

    /// An enrichment with the given number of workers and backoff, in which a
    /// record is fetched until it succeeds. A pool has at least one worker:
    /// where none is asked for, one is kept.
    pub fn new(workers: usize, backoff_secs: u64) -> (r: Self)
        ensures
            r@ == (EnricherView {
                workers: if workers == 0 {
                    1
                } else {
                    workers as nat
                },
                backoff_secs,
                max_attempts: None,
            }),
    {
        let workers = if workers == 0 {
            1
        } else {
            workers
        };
        Enricher { workers, backoff_secs, max_attempts: None }
    }

    /// The same enrichment, in which a record is given up after `max_attempts`
    /// failed fetches.
    pub fn with_max_attempts(self, max_attempts: u32) -> (r: Self)
        ensures
            r@ == (EnricherView { max_attempts: Some(max_attempts), ..self@ }),
    {
        proof {
            use_type_invariant(&self);
        }
        Enricher {
            workers: self.workers,
            backoff_secs: self.backoff_secs,
            max_attempts: Some(max_attempts),
        }
    }

    /// How many records are under way at once: at least one.
    pub fn workers(&self) -> (r: usize)
        ensures
            r == self@.workers,
            r >= 1,
    {
        proof {
            use_type_invariant(self);
        }
        self.workers
    }

    /// The wait, in seconds, before a rate-limited fetch is made again.
    pub fn backoff_secs(&self) -> (r: u64)
        ensures
            r == self@.backoff_secs,
    {
        self.backoff_secs
    }

    /// The request for the comments of a record; `None` for a record without a
    /// usable id, which is skipped.
    pub fn plan(&self, client: &ApiClient, record: &JsonValue) -> (r: Option<HttpRequest>)
        requires
            client.can_authorize(),
        ensures
            r is Some == id_of(*record) is Some,
            r matches Some(request) ==> (request.url@ == endpoint(
                client@.domain,
                comments_path(decimal(id_of(*record).unwrap() as nat)),
            ) && request.authorization@ == basic_auth(client@.login, client@.password)),
    {
        match record_id(record) {
            Some(id) => {
                let text = decimal_string(id);
                Some(client.get_comments(text.as_str()))
            },
            None => None,
        }
    }

    /// Decides what to do after the fetch number `attempts_made` of a record
    /// has had the given outcome.
    pub fn settle(&self, attempts_made: u32, outcome: Result<JsonValue, ApiError>) -> (step: EnrichStep)
        ensures
            step == self@.decide(attempts_made, outcome),
    {
        match outcome {
            Ok(doc) => EnrichStep::Attach(doc),
            Err(e) => {
                let exhausted = match self.max_attempts {
                    Some(most) => attempts_made >= most,
                    None => false,
                };
                if exhausted {
                    EnrichStep::GiveUp(e)
                } else if e.is_rate_limited() {
                    EnrichStep::RetryAfter(self.backoff_secs)
                } else {
                    EnrichStep::Retry
                }
            },
        }
    }
}

} // verus!
