//! The error taxonomy shared by the federation API client, the gateway
//! registry and the payment operations.

use vstd::prelude::*;

verus! {

/// Why a federation request or a registry operation did not produce a value.
///
/// `Timeout`, `NoConsensus` and `PeerUnreachable` are retryable transport or
/// agreement failures; `Unauthorized` needs a new credential;
/// `MethodNotFound` marks a guardian that does not recognize an endpoint yet,
/// which callers may treat as a soft signal rather than a hard failure;
/// `NoGatewaysAvailable` is surfaced when the registry is empty and is not
/// retried automatically.
#[derive(Clone, Copy, Debug, PartialEq, Eq, Structural)]
pub enum ApiError {
    /// Fewer guardians than the quorum needs responded within the bounded wait.
    Timeout,
    /// All reachable guardians responded, but no quorum agreed on one value.
    NoConsensus,
    /// The single guardian a request was addressed to did not respond.
    PeerUnreachable,
    /// The admin credential was rejected by the guardian.
    Unauthorized,
    /// Every counted guardian answered that it does not recognize the endpoint.
    MethodNotFound,
    /// The gateway registry holds no gateway to select.
    NoGatewaysAvailable,
}

impl ApiError {
    /// Whether a caller may retry the same request unchanged and hope for a
    /// different outcome.
    pub fn is_retryable(&self) -> (r: bool)
        ensures
            r == (*self == ApiError::Timeout || *self == ApiError::NoConsensus
                || *self == ApiError::PeerUnreachable),
    {
        match self {
            ApiError::Timeout => true,
            ApiError::NoConsensus => true,
            ApiError::PeerUnreachable => true,
            ApiError::Unauthorized => false,
            ApiError::MethodNotFound => false,
            ApiError::NoGatewaysAvailable => false,
        }
    }
}

} // verus!
