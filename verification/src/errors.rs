use vstd::prelude::*;

verus! {

/// The closed set of failure kinds a page fetch can produce.
///
/// The index client never recovers from a failure itself: every failure is
/// handed unchanged to the pagination driver, which stops the run for the
/// current target and keeps whatever was accumulated before it.
#[derive(Debug, PartialEq, Eq)]
pub enum FetchError {
    /// The HTTP round trip failed before a complete response body was
    /// obtained (connection refused, timeout, DNS or TLS failure).
    Transport(String),
    /// The response body is not valid JSON, or does not match the required
    /// page schema.
    Decode(String),
    /// The target, collection and path could not be combined with the base
    /// endpoint into a valid URL.
    MalformedRequest(String),
}

} // verus!
