use lnv2_core::consensus::{
    request_admin, request_current_consensus, request_single_peer_federation, PeerResponse,
};
use lnv2_core::errors::ApiError;
use lnv2_core::wallet::{
    request_policy, resolve_module_consensus_version, ConsensusVersion, RequestPolicy,
    WalletEndpoint,
};

fn value(bytes: &[u8]) -> PeerResponse {
    PeerResponse::Value(bytes.to_vec())
}

#[test]
fn quorum_of_identical_answers_is_accepted() {
    // n = 4, t = 1: three byte-identical answers out of four are a quorum.
    let responses = vec![value(b"abc"), value(b"abc"), value(b"abc"), value(b"xyz")];
    assert_eq!(request_current_consensus(&responses, 1), Ok(b"abc".to_vec()));
}

#[test]
fn unanimous_answers_are_accepted() {
    let responses = vec![value(b"42"), value(b"42"), value(b"42"), value(b"42")];
    assert_eq!(request_current_consensus(&responses, 1), Ok(b"42".to_vec()));
}

#[test]
fn conflicting_answers_yield_no_consensus() {
    let responses = vec![value(b"a"), value(b"a"), value(b"b"), value(b"b")];
    assert_eq!(
        request_current_consensus(&responses, 1),
        Err(ApiError::NoConsensus)
    );
}

#[test]
fn too_few_responders_yield_timeout() {
    let responses = vec![
        value(b"a"),
        value(b"a"),
        PeerResponse::Unreachable,
        PeerResponse::Unreachable,
    ];
    assert_eq!(
        request_current_consensus(&responses, 1),
        Err(ApiError::Timeout)
    );
}

#[test]
fn stale_guardians_are_excluded_not_counted_as_conflict() {
    // One stale guardian answers "method not found"; the other three agree.
    // The stale answer is excluded from the quorum count, so the quorum of
    // three still stands.
    let responses = vec![
        value(b"fee=7"),
        PeerResponse::MethodNotFound,
        value(b"fee=7"),
        value(b"fee=7"),
    ];
    assert_eq!(
        request_current_consensus(&responses, 1),
        Ok(b"fee=7".to_vec())
    );
}

#[test]
fn all_stale_guardians_yield_method_not_found() {
    let responses = vec![
        PeerResponse::MethodNotFound,
        PeerResponse::MethodNotFound,
        PeerResponse::MethodNotFound,
        PeerResponse::MethodNotFound,
    ];
    assert_eq!(
        request_current_consensus(&responses, 1),
        Err(ApiError::MethodNotFound)
    );
}

#[test]
fn single_peer_request_reads_that_peer_alone() {
    let responses = vec![value(b"bitcoind"), PeerResponse::Unreachable];
    assert_eq!(
        request_single_peer_federation(&responses, 0),
        Ok(b"bitcoind".to_vec())
    );
    assert_eq!(
        request_single_peer_federation(&responses, 1),
        Err(ApiError::PeerUnreachable)
    );
}

#[test]
fn admin_request_requires_the_credential() {
    let answer = value(b"rpc-config");
    assert_eq!(request_admin(&answer, true), Ok(b"rpc-config".to_vec()));
    assert_eq!(request_admin(&answer, false), Err(ApiError::Unauthorized));
    assert_eq!(
        request_admin(&PeerResponse::Unreachable, true),
        Err(ApiError::PeerUnreachable)
    );
}

#[test]
fn retryable_errors_are_exactly_the_transport_ones() {
    assert!(ApiError::Timeout.is_retryable());
    assert!(ApiError::NoConsensus.is_retryable());
    assert!(ApiError::PeerUnreachable.is_retryable());
    assert!(!ApiError::Unauthorized.is_retryable());
    assert!(!ApiError::MethodNotFound.is_retryable());
    assert!(!ApiError::NoGatewaysAvailable.is_retryable());
}

#[test]
fn version_probe_falls_back_on_old_guardians() {
    let fallback = resolve_module_consensus_version(Err(ApiError::MethodNotFound));
    assert_eq!(fallback, Ok(ConsensusVersion { major: 2, minor: 0 }));

    let current = ConsensusVersion { major: 2, minor: 2 };
    assert_eq!(resolve_module_consensus_version(Ok(current)), Ok(current));
    assert_eq!(
        resolve_module_consensus_version(Err(ApiError::Timeout)),
        Err(ApiError::Timeout)
    );
}

#[test]
fn version_floor_gate() {
    let floor = ConsensusVersion { major: 2, minor: 0 };
    assert!(ConsensusVersion { major: 2, minor: 0 }.meets_floor(&floor));
    assert!(ConsensusVersion { major: 2, minor: 1 }.meets_floor(&floor));
    assert!(ConsensusVersion { major: 3, minor: 0 }.meets_floor(&floor));
    assert!(!ConsensusVersion { major: 1, minor: 9 }.meets_floor(&floor));
    assert!(!ConsensusVersion { major: 2, minor: 0 }
        .meets_floor(&ConsensusVersion { major: 2, minor: 1 }));
}

#[test]
fn each_endpoint_uses_its_trust_model() {
    assert_eq!(
        request_policy(WalletEndpoint::ModuleConsensusVersion),
        RequestPolicy::Consensus
    );
    assert_eq!(
        request_policy(WalletEndpoint::BlockCount),
        RequestPolicy::Consensus
    );
    assert_eq!(
        request_policy(WalletEndpoint::PegOutFees),
        RequestPolicy::Consensus
    );
    assert_eq!(
        request_policy(WalletEndpoint::BitcoinRpcKind),
        RequestPolicy::SinglePeer
    );
    assert_eq!(
        request_policy(WalletEndpoint::BitcoinRpcConfig),
        RequestPolicy::Admin
    );
    assert_eq!(
        request_policy(WalletEndpoint::WalletSummary),
        RequestPolicy::Consensus
    );
}
