//! One request: what its fetch yields, how it waits for another's, and what it is answered.
use crate::content::{bytes_of, no_bytes, CacheError, CacheResult};
use bytes::Bytes;
use hyper::HeaderMap;
use std::sync::Arc;
use vstd::prelude::*;

verus! {

/// How long a fetched resource stays fresh, in nanoseconds.
pub const TIME_TO_LIVE: u64 = 30_000_000_000;

/// The status code of an answer that carries a resource.
pub const OK: u16 = 200;

/// The status code where the backend gave none.
pub const INTERNAL_SERVER_ERROR: u16 = 500;

/// The result of a fetch that brought `data` and `headers` at the time `now`.
pub fn fetched(data: Bytes, headers: Arc<HeaderMap>, now: u64) -> (result: CacheResult)
    requires
        now + TIME_TO_LIVE <= u64::MAX,
    ensures
        result == CacheResult::Ok((data, headers, (now + TIME_TO_LIVE) as u64)),
        result == CacheResult::Ok((data, headers, (now + 30_000_000_000) as u64)),
{
    Ok((data, headers, now + TIME_TO_LIVE))
}

/// The result of a fetch that failed for the reason `description`, maybe with a status code.
pub fn fetch_failed(description: String, status: Option<u16>) -> (result: CacheResult)
    ensures
        result == CacheResult::Err(
            CacheError::Fetch(
                description,
                match status {
                    Some(code) => code,
                    None => INTERNAL_SERVER_ERROR,
                },
            ),
        ),
        status is None ==> result == CacheResult::Err(CacheError::Fetch(description, 500)),
{
    let code = match status {
        Some(code) => code,
        None => INTERNAL_SERVER_ERROR,
    };
    Err(CacheError::Fetch(description, code))
}

/// What a request that waits for another's fetch has seen.
pub enum WaitEvent {
    /// It looked at the channel, which held this.
    Checked(Option<CacheResult>),
    /// The channel has changed since it looked.
    Changed,
    /// The channel is closed.
    Closed,
}

/// What a request that waits for another's fetch does next.
pub enum WaitStep {
    /// It is done, with this result.
    Done(CacheResult),
    /// It waits until the channel changes or is closed.
    Await,
    /// It looks at the channel.
    Check,
}

impl WaitEvent {
    /// The step that follows the event.
    pub open spec fn step(self) -> WaitStep {
        match self {
            WaitEvent::Checked(Some(result)) => WaitStep::Done(result),
            WaitEvent::Checked(None) => WaitStep::Await,
            WaitEvent::Changed => WaitStep::Check,
            WaitEvent::Closed => WaitStep::Done(Err(CacheError::Unknown)),
        }
    }
}

/// Decides what a waiting request does next.
pub fn wait_step(event: WaitEvent) -> (step: WaitStep)
    ensures
        step == event.step(),
        match event {
            WaitEvent::Checked(Some(result)) => step == WaitStep::Done(result),
            WaitEvent::Checked(None) => step == WaitStep::Await,
            WaitEvent::Changed => step == WaitStep::Check,
            WaitEvent::Closed => step == WaitStep::Done(CacheResult::Err(CacheError::Unknown)),
        },
{
    match event {
        WaitEvent::Checked(Some(result)) => WaitStep::Done(result),
        WaitEvent::Checked(None) => WaitStep::Await,
        WaitEvent::Changed => WaitStep::Check,
        WaitEvent::Closed => WaitStep::Done(Err(CacheError::Unknown)),
    }
}

/// An HTTP answer.
pub struct Reply {
    /// The status code
    pub status: u16,
    /// The headers; none to leave them as they are in a new answer
    pub headers: Option<Arc<HeaderMap>>,
    /// The body
    pub body: Bytes,
}

/// Whether `status` is a number that can stand in an answer.
pub open spec fn is_status_code(status: u16) -> bool {
    100 <= status < 1000
}

/// The answer to a request whose resource came out as `result`.
pub fn respond(result: CacheResult) -> (reply: Reply)
    requires
        result matches Err(CacheError::Fetch(_, status)) ==> is_status_code(status),
    ensures
        is_status_code(reply.status),
        match result {
            Ok(content) => {
                &&& reply.status == OK
                &&& reply.headers == Some(content.1)
                &&& reply.body == content.0
            },
            Err(error) => {
                &&& reply.status == match error {
                    CacheError::Fetch(_, status) => status,
                    CacheError::Unknown => INTERNAL_SERVER_ERROR,
                }
                &&& reply.headers is None
                &&& bytes_of(reply.body) == Seq::<u8>::empty()
            },
        },
        result is Ok ==> reply.status == 200,
        result matches Err(CacheError::Unknown) ==> reply.status == 500,
{
    match result {
        Ok((data, headers, _)) => Reply { status: OK, headers: Some(headers), body: data },
        Err(CacheError::Fetch(_, status)) => Reply { status, headers: None, body: no_bytes() },
        Err(CacheError::Unknown) => Reply {
            status: INTERNAL_SERVER_ERROR,
            headers: None,
            body: no_bytes(),
        },
    }
}

} // verus!
