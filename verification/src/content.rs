//! What the cache hands around: response bodies, response headers, and the result of a fetch.
use bytes::Bytes;
use hyper::HeaderMap;
use std::sync::Arc;
use vstd::prelude::*;

verus! {

/// `bytes::Bytes`, a shared, immutable buffer of bytes.
#[verifier::external_type_specification]
#[verifier::external_body]
pub struct ExBytes(bytes::Bytes);

/// `hyper::header::HeaderValue`, the value type of a header map.
#[verifier::external_type_specification]
#[verifier::external_body]
pub struct ExHeaderValue(hyper::header::HeaderValue);

/// `hyper::HeaderMap`. Headers are carried from the backend to the client and never read here.
#[verifier::external_type_specification]
#[verifier::external_body]
#[verifier::reject_recursive_types(T)]
pub struct ExHeaderMap<T>(hyper::HeaderMap<T>);

/// The bytes that a buffer holds, in order.
pub uninterp spec fn bytes_of(buffer: Bytes) -> Seq<u8>;

/// `Bytes::len`: the number of bytes in the buffer.
#[verifier::external_body]
pub(crate) fn byte_count(buffer: &Bytes) -> (count: usize)
    ensures
        count == bytes_of(*buffer).len(),
{
    buffer.len()
}

/// `Bytes::clone`: another handle on the same bytes.
#[verifier::external_body]
pub(crate) fn share_bytes(buffer: &Bytes) -> (copy: Bytes)
    ensures
        bytes_of(copy) == bytes_of(*buffer),
{
    buffer.clone()
}

/// `Bytes::new`: a buffer without bytes.
#[verifier::external_body]
pub(crate) fn no_bytes() -> (buffer: Bytes)
    ensures
        bytes_of(buffer) == Seq::<u8>::empty(),
{
    Bytes::new()
}

/// `Arc::clone`: another pointer to the same headers.
#[verifier::external_body]
pub(crate) fn share_headers(headers: &Arc<HeaderMap>) -> (copy: Arc<HeaderMap>)
    ensures
        copy == *headers,
{
    Arc::clone(headers)
}

/// Why a resource cannot be served.
#[derive(Debug)]
pub enum CacheError {
    /// The fetch from the backend failed: what the client library said, and the HTTP status code
    /// to answer with.
    Fetch(String, u16),
    /// The fetch went away without a result.
    Unknown,
}

impl Clone for CacheError {
    fn clone(&self) -> (copy: CacheError)
        ensures
            copy == *self,
    {
        match self {
            CacheError::Fetch(description, status) => CacheError::Fetch(
                description.clone(),
                *status,
            ),
            CacheError::Unknown => CacheError::Unknown,
        }
    }
}

impl CacheError {
    /// The error's text for logs and users.
    pub fn message(&self) -> (text: String)
        ensures
            text@ == match self {
                CacheError::Fetch(_, _) => "failed to fetch resource"@,
                CacheError::Unknown => "unexpected error"@,
            },
    {
        match self {
            CacheError::Fetch(_, _) => "failed to fetch resource".to_owned(),
            CacheError::Unknown => "unexpected error".to_owned(),
        }
    }
}

/// A fetched resource: its body, its headers and the clock reading at which it expires; or why
/// there is none.
///
/// Clock readings are nanoseconds on a clock that never goes backwards.
pub type CacheResult = Result<(Bytes, Arc<HeaderMap>, u64), CacheError>;

} // verus!
