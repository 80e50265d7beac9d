//! Endpoints that ask the store more than once run as flows. A flow is in a
//! state, asks for one thing at a time, and goes on with what came back.

use vstd::prelude::*;

use crate::assertion::FederatedVerdict;
use crate::json::JsonValue;
use crate::jwk::{Jwk, JwkView};
use crate::problem;
use crate::problem::{ApiError, ApiErrorView};
use crate::revocation::Reply;
use crate::sig::SigError;
use crate::storage::{Found, StorageError, Write, WriteView};

verus! {

/// What a flow asks for.
pub enum Action {
    /// The value of a key.
    Get(String),
    /// The record of an agent that a key has.
    GetAgent(String),
    /// The record of a subscription that a key has.
    GetSubscription(String),
    /// The value of a key, which is removed.
    Take(String),
    /// A value to be stored where nothing stands yet.
    Claim(Write),
    /// A value to be stored.
    Put(Write),
    /// A count to be raised by one.
    Count(String),
    /// A value to be put at the end of a list, of which the newest `max` stay.
    Push { key: String, value: Vec<u8>, max: usize },
    /// A key to be deleted.
    Delete(String),
    /// The keys that begin with a prefix.
    List(String),
    /// The verdict on an assertion that a key is enrolled with.
    Judge { assertion: String, durable: Jwk },
    /// The key of a resource, a cached one where `fresh` does not ask for a
    /// fetch.
    FindKey { iss: String, dwk: String, kid: String, fresh: bool },
    /// The JSON document at a URL.
    Fetch(String),
    /// A body to be sent to a URL, with headers.
    Post { url: String, body: Vec<u8>, headers: Vec<(String, String)> },
}

/// The same, as mathematics has it.
pub enum ActionView {
    Get(Seq<char>),
    GetAgent(Seq<char>),
    GetSubscription(Seq<char>),
    Take(Seq<char>),
    Claim(WriteView),
    Put(WriteView),
    Count(Seq<char>),
    Push { key: Seq<char>, value: Seq<u8>, max: usize },
    Delete(Seq<char>),
    List(Seq<char>),
    Judge { assertion: Seq<char>, durable: JwkView },
    FindKey { iss: Seq<char>, dwk: Seq<char>, kid: Seq<char>, fresh: bool },
    Fetch(Seq<char>),
    Post { url: Seq<char>, body: Seq<u8>, headers: Seq<(Seq<char>, Seq<char>)> },
}

impl Action {
    /// What is asked for.
    pub open spec fn view(&self) -> ActionView {
        match self {
            Action::Get(k) => ActionView::Get(k@),
            Action::GetAgent(k) => ActionView::GetAgent(k@),
            Action::GetSubscription(k) => ActionView::GetSubscription(k@),
            Action::Take(k) => ActionView::Take(k@),
            Action::Claim(w) => ActionView::Claim(w@),
            Action::Put(w) => ActionView::Put(w@),
            Action::Count(k) => ActionView::Count(k@),
            Action::Push { key, value, max } => ActionView::Push {
                key: key@,
                value: value@,
                max: *max,
            },
            Action::Delete(k) => ActionView::Delete(k@),
            Action::List(p) => ActionView::List(p@),
            Action::Judge { assertion, durable } => ActionView::Judge {
                assertion: assertion@,
                durable: durable@,
            },
            Action::FindKey { iss, dwk, kid, fresh } => ActionView::FindKey {
                iss: iss@,
                dwk: dwk@,
                kid: kid@,
                fresh: *fresh,
            },
            Action::Fetch(u) => ActionView::Fetch(u@),
            Action::Post { url, body, headers } => ActionView::Post {
                url: url@,
                body: body@,
                headers: problem::headers_view(headers@),
            },
        }
    }
}

/// What came back.
pub enum Event {
    /// A value, where there is one.
    Value(Option<Vec<u8>>),
    /// A record, where there is one.
    Record(Option<Found>),
    /// Whether a value was stored where nothing stood yet.
    Fresh(bool),
    /// It was done.
    Done,
    /// What a count is now.
    Counted(i64),
    /// Keys.
    Keys(Vec<String>),
    /// A verdict, or why an assertion is refused.
    Verdict(Result<FederatedVerdict, String>),
    /// A key, and whether it was cached, or why there is none.
    Key(Result<(Jwk, bool), SigError>),
    /// A document, or why there is none.
    Document(Result<JsonValue, String>),
    /// What a request that was sent came to.
    Replied(Reply),
    /// The store failed.
    Failed(StorageError),
}

/// What is answered where something else came back than was asked for.
pub open spec fn out_of_turn() -> ApiErrorView {
    problem::server_error("unexpected reply"@)
}

/// The answer where a flow cannot go on: the store failed, or something else
/// came back than was asked for.
pub open spec fn stopped(ev: Event) -> ApiErrorView {
    match ev {
        Event::Failed(e) => problem::server_error("storage error: "@ + e.0@),
        _ => out_of_turn(),
    }
}

/// Ends a flow that cannot go on.
pub fn stop(ev: &Event) -> (r: ApiError)
    ensures
        r@ == stopped(*ev),
{
    match ev {
        Event::Failed(e) => ApiError::from_storage(e),
        _ => ApiError::server_error("unexpected reply"),
    }
}

} // verus!
