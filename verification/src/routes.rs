//! The request handlers: validation, repository invocation, and response
//! shaping for the create, lookup and liveness operations.
//!
//! A handler never reaches the store on unparseable or incomplete input, and
//! the caller is told nothing about why a write failed: every create failure
//! is the same empty bad-request reply, and every read failure other than
//! not-found is the same empty internal-error reply. The underlying failure
//! detail stays in the outcome value so the surrounding server can log it;
//! discarding it at this boundary is a deliberate choice.

use vstd::prelude::*;
use crate::form::{FormData, Info, parse_form, parse_query};
use crate::store::{Store, Subscription, SubscriptionV, dec_digits, first_match, subscription_json};

verus! {

/// The shape of an HTTP response: a status code, a body, and whether the
/// body is JSON.
pub struct Reply {
    pub status: u16,
    pub body: String,
    pub content_type_json: bool,
}

/// The three mutually exclusive outcomes of a lookup against the storage
/// collaborator. `Failure` keeps the underlying cause for the operator's
/// log; the caller never sees it.
pub enum LookupOutcome {
    Found(Subscription),
    NotFound,
    Failure(String),
}

/// The outcome of a create against the storage collaborator. `Failure`
/// keeps the underlying cause for the operator's log; the caller never sees
/// it.
pub enum CreateOutcome {
    Done,
    Failure(String),
}

/// The liveness probe: always a 200 with an empty body, whatever the state
/// of anything else. It reads and writes nothing, so any number of calls
/// observe the same reply.
pub fn health_check() -> (r: Reply)
    ensures
        r.status == 200,
        r.body@.len() == 0,
        !r.content_type_json,
{
    Reply { status: 200, body: String::new(), content_type_json: false }
}

/// The reply for a lookup outcome: a found row is a 200 whose body is the
/// row's JSON object, no row is an empty 404, and any other failure is an
/// empty 500.
pub fn lookup_reply(o: &LookupOutcome) -> (r: Reply)
    ensures
        match o {
            LookupOutcome::Found(s) => r.status == 200 && r.body@ == subscription_json(s@)
                && r.content_type_json,
            LookupOutcome::NotFound => r.status == 404 && r.body@.len() == 0
                && !r.content_type_json,
            LookupOutcome::Failure(_) => r.status == 500 && r.body@.len() == 0
                && !r.content_type_json,
        },
{
    match o {
        LookupOutcome::Found(s) => Reply {
            status: 200,
            body: s.to_json(),
            content_type_json: true,
        },
        LookupOutcome::NotFound => Reply {
            status: 404,
            body: String::new(),
            content_type_json: false,
        },
        LookupOutcome::Failure(_) => Reply {
            status: 500,
            body: String::new(),
            content_type_json: false,
        },
    }
}

/// The client-input failure reply: missing or malformed input is an empty
/// 400, issued before the repository is ever reached.
pub fn parse_failure_reply() -> (r: Reply)
    ensures
        r.status == 400,
        r.body@.len() == 0,
        !r.content_type_json,
{
    Reply { status: 400, body: String::new(), content_type_json: false }
}

/// The reply for a create outcome: success is an empty 200; any write
/// failure, whatever its cause, is the same empty 400.
pub fn create_reply(o: &CreateOutcome) -> (r: Reply)
    ensures
        match o {
            CreateOutcome::Done => r.status == 200 && r.body@.len() == 0 && !r.content_type_json,
            CreateOutcome::Failure(_) => r.status == 400 && r.body@.len() == 0
                && !r.content_type_json,
        },
{
    match o {
        CreateOutcome::Done => Reply { status: 200, body: String::new(), content_type_json: false },
        CreateOutcome::Failure(_) => Reply {
            status: 400,
            body: String::new(),
            content_type_json: false,
        },
    }
}

/// The create operation against the in-memory store. A body that does not
/// parse is an empty 400 and the store is untouched; a valid body appends
/// exactly one row with the submitted email and user name and is an empty
/// 200.
pub fn subscribe(store: &mut Store, body: &str, subscribed_at: &str) -> (r: Reply)
    requires
        old(store).wf(),
        old(store)@.len() < u64::MAX,
    ensures
        final (store).wf(),
        parse_form(body@) is None ==> r.status == 400 && r.body@.len() == 0 && final (store)@
            == old(store)@,
        parse_form(body@) is Some ==> r.status == 200 && r.body@.len() == 0 && final (store)@
            == old(store)@.push(
            SubscriptionV {
                id: dec_digits(old(store)@.len()),
                email: parse_form(body@).unwrap().0,
                user_name: parse_form(body@).unwrap().1,
                subscribed_at: subscribed_at@,
            },
        ),
        !r.content_type_json,
{
    match FormData::parse(body) {
        None => parse_failure_reply(),
        Some(f) => {
            store.create(f.email.as_str(), f.user_name.as_str(), subscribed_at);
            Reply { status: 200, body: String::new(), content_type_json: false }
        },
    }
}

/// The lookup operation against the in-memory store. A query without a
/// well-formed `email` parameter is an empty 400; a query whose email has a
/// matching row is a 200 whose body is the JSON of the first such row; a
/// query with no matching row is an empty 404.
pub fn get_subscription(store: &Store, query: &str) -> (r: Reply)
    ensures
        parse_query(query@) is None ==> r.status == 400 && r.body@.len() == 0
            && !r.content_type_json,
        parse_query(query@) is Some ==> ({
            let e = parse_query(query@).unwrap();
            if exists|j: int| 0 <= j < store@.len() && store@[j].email == e {
                r.status == 200 && r.content_type_json && r.body@ == subscription_json(
                    store@.index(first_match(store@, e)),
                ) && store@.index(first_match(store@, e)).email == e
            } else {
                r.status == 404 && r.body@.len() == 0 && !r.content_type_json
            }
        }),
{
    match Info::parse(query) {
        None => parse_failure_reply(),
        Some(info) => {
            proof {
                crate::store::lemma_first_match(store@, info.email@);
            }
            match store.find_by_email(info.email.as_str()) {
                Some(s) => Reply { status: 200, body: s.to_json(), content_type_json: true },
                None => Reply { status: 404, body: String::new(), content_type_json: false },
            }
        },
    }
}

} // verus!
