//! Typed wallet queries against the federation: which delivery policy each
//! endpoint uses, and the compatibility handling of consensus versions.
//!
//! The three delivery policies encode three distinct trust models — the
//! federation agrees, one guardian's local view, the caller's own guardian
//! under authentication — and every endpoint is fixed to exactly one of
//! them; mixing them up would be a correctness bug, so the assignment is a
//! stated contract, not a convention.

use vstd::prelude::*;

use crate::errors::ApiError;

verus! {

/// A (major, minor) consensus version of one module.
#[derive(Clone, Copy, Debug, PartialEq, Eq, Structural)]
pub struct ConsensusVersion {
    pub major: u32,
    pub minor: u32,
}

/// The version a guardian is assumed to run when it does not yet recognize
/// the version endpoint at all.
pub open spec fn fallback_consensus_version() -> ConsensusVersion {
    ConsensusVersion { major: 2, minor: 0 }
}

/// Whether `a` is an older version than `b`.
pub open spec fn version_lt(a: ConsensusVersion, b: ConsensusVersion) -> bool {
    a.major < b.major || (a.major == b.major && a.minor < b.minor)
}

impl ConsensusVersion {
    /// Whether this version is at least `floor`: what a client asks
    /// before it relies on an endpoint that the floor version introduced.
    pub fn meets_floor(&self, floor: &ConsensusVersion) -> (r: bool)
        ensures
            r == !version_lt(*self, *floor),
    {
        if self.major != floor.major {
            self.major > floor.major
        } else {
            self.minor >= floor.minor
        }
    }
}

/// Soften a version probe against older guardians: a federation that does
/// not recognize the version endpoint is running the fallback version, so
/// that answer replaces the typed "endpoint not recognized" error; every
/// other outcome passes through verbatim.
pub fn resolve_module_consensus_version(fetched: Result<ConsensusVersion, ApiError>) -> (r: Result<
    ConsensusVersion,
    ApiError,
>)
    ensures
        fetched == Err::<ConsensusVersion, ApiError>(ApiError::MethodNotFound) ==> r == Ok::<
            ConsensusVersion,
            ApiError,
        >(fallback_consensus_version()),
        fetched != Err::<ConsensusVersion, ApiError>(ApiError::MethodNotFound) ==> r == fetched,
{
    match fetched {
        Err(ApiError::MethodNotFound) => Ok(ConsensusVersion { major: 2, minor: 0 }),
        other => other,
    }
}

/// The delivery policy of a request: which trust model its answer carries.
#[derive(Clone, Copy, Debug, PartialEq, Eq, Structural)]
pub enum RequestPolicy {
    /// Broadcast to all guardians; accept only a quorum-agreed answer.
    Consensus,
    /// Ask one named guardian; accept its local view, labeled as such.
    SinglePeer,
    /// Ask the caller's own guardian under an admin credential.
    Admin,
}

/// The wallet endpoints a client queries.
#[derive(Clone, Copy, Debug, PartialEq, Eq, Structural)]
pub enum WalletEndpoint {
    /// The wallet module's consensus version.
    ModuleConsensusVersion,
    /// The block count the federation agreed on.
    BlockCount,
    /// The fee quote for an on-chain peg-out.
    PegOutFees,
    /// Which Bitcoin backend kind one guardian runs (diagnostic).
    BitcoinRpcKind,
    /// One guardian's Bitcoin backend configuration (operator-only).
    BitcoinRpcConfig,
    /// The federation-agreed wallet summary.
    WalletSummary,
}

/// The trust model each endpoint's answer requires.  Safety-relevant values
/// — versions, the block count time-sensitive contracts depend on, fee
/// quotes, the wallet summary — demand federation agreement; the backend
/// kind is a diagnostic read of one guardian; the backend configuration is
/// an operator read of the caller's own guardian.
pub open spec fn endpoint_policy(e: WalletEndpoint) -> RequestPolicy {
    match e {
        WalletEndpoint::ModuleConsensusVersion => RequestPolicy::Consensus,
        WalletEndpoint::BlockCount => RequestPolicy::Consensus,
        WalletEndpoint::PegOutFees => RequestPolicy::Consensus,
        WalletEndpoint::BitcoinRpcKind => RequestPolicy::SinglePeer,
        WalletEndpoint::BitcoinRpcConfig => RequestPolicy::Admin,
        WalletEndpoint::WalletSummary => RequestPolicy::Consensus,
    }
}

/// The delivery policy a wallet endpoint is dispatched under.
pub fn request_policy(e: WalletEndpoint) -> (r: RequestPolicy)
    ensures
        r == endpoint_policy(e),
{
    match e {
        WalletEndpoint::ModuleConsensusVersion => RequestPolicy::Consensus,
        WalletEndpoint::BlockCount => RequestPolicy::Consensus,
        WalletEndpoint::PegOutFees => RequestPolicy::Consensus,
        WalletEndpoint::BitcoinRpcKind => RequestPolicy::SinglePeer,
        WalletEndpoint::BitcoinRpcConfig => RequestPolicy::Admin,
        WalletEndpoint::WalletSummary => RequestPolicy::Consensus,
    }
}

} // verus!
