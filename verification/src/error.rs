use vstd::prelude::*;

verus! {

/// Why a single provider's search produced no records.
#[derive(Clone, Copy, Debug, PartialEq, Eq, Structural)]
pub enum SearchError {
    /// The transport failed before a full response arrived.
    Network,
    /// The response body is not a list under the backend's schema.
    Parse,
    /// The body is a non-empty list, yet no entry of it yields a record.
    Decode,
    /// The backend answered with an explicit error.
    BackendRejected,
    /// The provider did not answer before its deadline.
    Timeout,
    /// The caller withdrew the search while the provider was in flight.
    Cancelled,
}

} // verus!
