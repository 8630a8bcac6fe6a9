use vstd::prelude::*;

verus! {

/// Typed failures of the load-balancing core and of request forwarding.
///
/// Every per-request failure is represented here and returned to the caller;
/// no operation of the core panics on a missing backend or a dead connection.
#[derive(Clone, Copy, Debug, PartialEq, Eq, Structural)]
pub enum LoadBalancerError {
    /// A backend address could not be parsed at registration time.
    InvalidAddress,
    /// Adding a server would collide with a live key; with monotonic key
    /// allocation this arises only once the key space is exhausted.
    AlreadyExists,
    /// Removal named a key that no live entry carries.
    NotFound,
    /// Selection was attempted against zero live backends.
    Empty,
    /// Forwarding could not obtain a backend to send to.
    NoBackendAvailable,
    /// The selected server's address cannot be used for an outbound connection.
    InvalidBackendAddress,
    /// The outbound connect failed.
    BackendUnreachable,
    /// The outbound send or receive failed mid-flight.
    BackendCommunicationError,
}

} // verus!
