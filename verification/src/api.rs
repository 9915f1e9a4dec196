//! What the query surface answers: status codes and bodies for the outcomes
//! of a storage call, and the lower bound of a query by time.

use vstd::prelude::*;
use crate::database::{DatabaseError, DatabaseErrorView};
use crate::sensor::Timestamp;

verus! {

/// An answer to a query: the status code and the body.
#[derive(Debug)]
pub struct HttpReply {
    pub status: u16,
    pub body: String,
}

/// Mathematical content of an [`HttpReply`].
pub struct HttpReplyView {
    pub status: u16,
    pub body: Seq<char>,
}

impl View for HttpReply {
    type V = HttpReplyView;

    open spec fn view(&self) -> HttpReplyView {
        HttpReplyView { status: self.status, body: self.body@ }
    }
}

/// The answer that goes with a storage failure: a busy store is reported as
/// unavailable, a missing item as not found with an empty object, and
/// anything else as a server error, with storage's own words where there are
/// any.
pub open spec fn failure_reply(err: DatabaseErrorView) -> HttpReplyView {
    match err {
        DatabaseErrorView::Busy => HttpReplyView {
            status: 503,
            body: "Database connection failed"@,
        },
        DatabaseErrorView::NotFound => HttpReplyView { status: 404, body: "{}"@ },
        DatabaseErrorView::Other(message) => HttpReplyView { status: 500, body: message },
        DatabaseErrorView::Conflict => HttpReplyView { status: 500, body: "Unknown error"@ },
    }
}

/// Answers a query whose storage call failed.
pub fn map_database_error_to_http(err: DatabaseError) -> (reply: HttpReply)
    ensures
        reply@ == failure_reply(err@),
{
    match err {
        DatabaseError::Busy => HttpReply {
            status: 503,
            body: "Database connection failed".to_owned(),
        },
        DatabaseError::NotFound => HttpReply { status: 404, body: "{}".to_owned() },
        DatabaseError::Other(message) => HttpReply { status: 500, body: message },
        DatabaseError::Conflict => HttpReply { status: 500, body: "Unknown error".to_owned() },
    }
}

/// The answer to the liveness query.
pub fn status() -> (reply: HttpReply)
    ensures
        reply@ == (HttpReplyView { status: 200, body: "Server is up and running!"@ }),
{
    HttpReply { status: 200, body: "Server is up and running!".to_owned() }
}

/// The answer to a query for a page that does not exist.
pub fn not_found() -> (reply: HttpReply)
    ensures
        reply@ == (HttpReplyView {
            status: 404,
            body: "<html><head><title>Not found</title><body><h1>404</h1></html>"@,
        }),
{
    HttpReply {
        status: 404,
        body: "<html><head><title>Not found</title><body><h1>404</h1></html>".to_owned(),
    }
}

/// The number of milliseconds by which the bound of a query by time lies
/// after the instant that was asked for.
pub const QUERY_BOUND_SHIFT_MILLIS: i64 = 1;

/// The instant that lies `millis` milliseconds after the given one, as
/// `chrono` computes it, or `None` where `chrono` cannot represent the given
/// instant, the amount, or the later instant.
pub uninterp spec fn instant_plus_millis(secs: i64, nanos: u32, millis: i64) -> Option<(i64, u32)>;

/// Adds milliseconds to an instant with `chrono`: the instant is made with
/// `DateTime::from_timestamp`, the amount with `TimeDelta::try_milliseconds`,
/// the sum with `DateTime::checked_add_signed`, and the result is read back
/// with `timestamp` and `timestamp_subsec_nanos`. Outside a leap second,
/// which `chrono` writes with a nanosecond count of a thousand million or
/// more, and for an amount that is not negative, the result lies exactly
/// that many milliseconds later and is itself outside a leap second.
#[verifier::external_body]
fn chrono_add_milliseconds(secs: i64, nanos: u32, millis: i64) -> (later: Option<(i64, u32)>)
    ensures
        later == instant_plus_millis(secs, nanos, millis),
        nanos < 1_000_000_000 && 0 <= millis ==> (later matches Some((later_secs, later_nanos))
            ==> later_nanos < 1_000_000_000 && later_secs * 1_000_000_000 + later_nanos == secs
            * 1_000_000_000 + nanos + millis * 1_000_000),
{
    let start = chrono::DateTime::from_timestamp(secs, nanos)?;
    let end = start.checked_add_signed(chrono::TimeDelta::try_milliseconds(millis)?)?;
    Some((end.timestamp(), end.timestamp_subsec_nanos()))
}

/// The bound that a query for the readings after `after` hands to storage.
pub open spec fn query_bound(after: Timestamp) -> Option<Timestamp> {
    match instant_plus_millis(after.secs, after.nanos, QUERY_BOUND_SHIFT_MILLIS) {
        Some((secs, nanos)) => Some(Timestamp { secs, nanos }),
        None => None,
    }
}

/// Gives the bound for a query by time that came with a time zone: the
/// instant [`QUERY_BOUND_SHIFT_MILLIS`] after the one asked for. There is no
/// bound where the calendar cannot hold the instant.
pub fn sensor_readings_after_time_utc(after: Timestamp) -> (bound: Option<Timestamp>)
    ensures
        bound == query_bound(after),
        after.nanos < 1_000_000_000 ==> (bound matches Some(later) ==> later.nanos < 1_000_000_000
            && later.total_nanos() == after.total_nanos() + 1_000_000),
{
    match chrono_add_milliseconds(after.secs, after.nanos, QUERY_BOUND_SHIFT_MILLIS) {
        Some((secs, nanos)) => Some(Timestamp { secs, nanos }),
        None => None,
    }
}

} // verus!
