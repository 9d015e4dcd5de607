//! Aggregation of guardian responses into one trusted answer.
//!
//! A logical request is delivered under one of three trust models: broadcast
//! to every guardian and reduce to a quorum-agreed value, ask a single named
//! guardian and accept its local view, or ask the caller's own guardian under
//! an admin credential.  The reduction step works on the canonical byte form
//! of each answer: a quorum of `n - t` byte-identical answers is required
//! before a consensus value is trusted.

use vstd::prelude::*;

use crate::errors::ApiError;

verus! {

/// What one guardian answered to a broadcast request, after the bounded wait.
pub enum PeerResponse {
    /// The guardian answered with the canonical byte form of a value.
    Value(Vec<u8>),
    /// The guardian does not recognize the endpoint (a stale guardian); this
    /// is excluded from the quorum count, never treated as a conflicting vote.
    MethodNotFound,
    /// The guardian did not answer within the bounded wait.
    Unreachable,
}

/// Whether a response is a vote for the value `v`.
pub open spec fn is_vote_for(r: PeerResponse, v: Seq<u8>) -> bool {
    match r {
        PeerResponse::Value(w) => w@ == v,
        _ => false,
    }
}

/// How many guardians voted for exactly the value `v`.
pub open spec fn vote_count(rs: Seq<PeerResponse>, v: Seq<u8>) -> nat
    decreases rs.len(),
{
    if rs.len() == 0 {
        0
    } else {
        vote_count(rs.drop_last(), v) + if is_vote_for(rs.last(), v) {
            1nat
        } else {
            0nat
        }
    }
}

/// How many guardians answered at all (with a value or a typed refusal).
pub open spec fn responded_count(rs: Seq<PeerResponse>) -> nat
    decreases rs.len(),
{
    if rs.len() == 0 {
        0
    } else {
        responded_count(rs.drop_last()) + if rs.last() is Unreachable {
            0nat
        } else {
            1nat
        }
    }
}

/// Every guardian that answered at all answered "endpoint not recognized".
pub open spec fn all_responders_unrecognized(rs: Seq<PeerResponse>) -> bool {
    forall|i: int| 0 <= i < rs.len() ==> !(#[trigger] rs[i] is Unreachable) ==> rs[i] is MethodNotFound
}

/// Some value reached the quorum of `q` identical votes.
pub open spec fn has_quorum_value(rs: Seq<PeerResponse>, q: nat) -> bool {
    exists|v: Seq<u8>| #[trigger] vote_count(rs, v) >= q
}

proof fn lemma_vote_count_take_step(rs: Seq<PeerResponse>, v: Seq<u8>, j: int)
    requires
        0 <= j < rs.len(),
    ensures
        vote_count(rs.take(j + 1), v) == vote_count(rs.take(j), v) + if is_vote_for(rs[j], v) {
            1int
        } else {
            0int
        },
{
    assert(rs.take(j + 1).drop_last() =~= rs.take(j));
    assert(rs.take(j + 1).last() == rs[j]);
}

proof fn lemma_responded_count_take_step(rs: Seq<PeerResponse>, j: int)
    requires
        0 <= j < rs.len(),
    ensures
        responded_count(rs.take(j + 1)) == responded_count(rs.take(j)) + if rs[j] is Unreachable {
            0int
        } else {
            1int
        },
{
    assert(rs.take(j + 1).drop_last() =~= rs.take(j));
    assert(rs.take(j + 1).last() == rs[j]);
}

/// A positive vote count names at least one response that cast the vote.
proof fn lemma_vote_has_witness(rs: Seq<PeerResponse>, v: Seq<u8>)
    requires
        vote_count(rs, v) > 0,
    ensures
        exists|i: int| 0 <= i < rs.len() && is_vote_for(#[trigger] rs[i], v),
    decreases rs.len(),
{
    if is_vote_for(rs.last(), v) {
        assert(is_vote_for(rs[rs.len() - 1], v));
    } else {
        lemma_vote_has_witness(rs.drop_last(), v);
        let i = choose|i: int| 0 <= i < rs.drop_last().len() && is_vote_for(
            #[trigger] rs.drop_last()[i],
            v,
        );
        assert(rs.drop_last()[i] == rs[i]);
    }
}

/// No value can gather more votes than there are responders.
proof fn lemma_vote_count_le_responded(rs: Seq<PeerResponse>, v: Seq<u8>)
    ensures
        vote_count(rs, v) <= responded_count(rs),
    decreases rs.len(),
{
    if rs.len() > 0 {
        lemma_vote_count_le_responded(rs.drop_last(), v);
    }
}

/// Two values that each reach a majority quorum are the same value: with
/// `n == 3 * t + 1` guardians and quorum `q == n - t == 2 * t + 1`, two
/// distinct quorums would need more votes than there are guardians, since
/// each guardian casts at most one vote.  This is what makes a consensus
/// answer deterministic for a fixed response snapshot.
pub proof fn lemma_quorum_value_unique(rs: Seq<PeerResponse>, q: nat, v: Seq<u8>, w: Seq<u8>)
    requires
        2 * q > rs.len(),
        vote_count(rs, v) >= q,
        vote_count(rs, w) >= q,
    ensures
        v == w,
{
    if v != w {
        lemma_vote_counts_disjoint(rs, v, w);
    }
}

/// Votes for two distinct values together never exceed the response count.
proof fn lemma_vote_counts_disjoint(rs: Seq<PeerResponse>, v: Seq<u8>, w: Seq<u8>)
    requires
        v != w,
    ensures
        vote_count(rs, v) + vote_count(rs, w) <= rs.len(),
    decreases rs.len(),
{
    if rs.len() > 0 {
        lemma_vote_counts_disjoint(rs.drop_last(), v, w);
    }
}

/// Byte-wise equality of two canonical answers, proved against the views.
pub fn bytes_eq(a: &Vec<u8>, b: &Vec<u8>) -> (r: bool)
    ensures
        r == (a@ == b@),
{
    if a.len() != b.len() {
        assert(a@ != b@);
        return false;
    }
    let n = a.len();
    let mut i: usize = 0;
    while i < n
        invariant
            n == a.len() == b.len(),
            0 <= i <= n,
            forall|k: int| 0 <= k < i ==> a@[k] == b@[k],
        decreases n - i,
    {
        if a[i] != b[i] {
            return false;
        }
        i += 1;
    }
    assert(a@ =~= b@);
    true
}

/// A fresh copy of a canonical byte answer.
pub fn copy_bytes(a: &Vec<u8>) -> (r: Vec<u8>)
    ensures
        r@ == a@,
{
    let mut r: Vec<u8> = Vec::new();
    let n = a.len();
    let mut i: usize = 0;
    while i < n
        invariant
            n == a.len(),
            0 <= i <= n,
            r@ == a@.take(i as int),
        decreases n - i,
    {
        r.push(a[i]);
        assert(a@.take(i + 1) =~= a@.take(i as int).push(a@[i as int]));
        i += 1;
    }
    assert(a@.take(n as int) =~= a@);
    r
}

/// Broadcast-and-reduce delivery: accept a value only when at least
/// `n - t` guardians answered with byte-identical canonical forms.
///
/// The outcome is pinned down exactly:
/// - `Ok(v)` iff some value reached the quorum, and then `v` is that value;
/// - `Err(Timeout)` iff fewer guardians than the quorum answered at all;
/// - `Err(MethodNotFound)` iff enough guardians answered but every one of
///   them answered "endpoint not recognized" (a caller probing an endpoint
///   against older guardians may substitute a default value on this error);
/// - `Err(NoConsensus)` iff enough guardians answered, at least one with a
///   value, and no value reached the quorum.
pub fn request_current_consensus(responses: &Vec<PeerResponse>, threshold: usize) -> (r: Result<
    Vec<u8>,
    ApiError,
>)
    requires
        responses@.len() == 3 * threshold + 1,
    ensures
        ({
            let q = (responses@.len() - threshold) as nat;
            &&& (r is Ok <==> has_quorum_value(responses@, q))
            &&& (r matches Ok(v) ==> vote_count(responses@, v@) >= q)
            &&& (r == Err::<Vec<u8>, ApiError>(ApiError::Timeout) <==> responded_count(responses@)
                < q)
            &&& (r == Err::<Vec<u8>, ApiError>(ApiError::MethodNotFound) <==> responded_count(
                responses@,
            ) >= q && all_responders_unrecognized(responses@))
            &&& (r == Err::<Vec<u8>, ApiError>(ApiError::NoConsensus) <==> responded_count(
                responses@,
            ) >= q && !all_responders_unrecognized(responses@) && !has_quorum_value(responses@, q))
            &&& (r is Err ==> (r matches Err(e) && (e == ApiError::Timeout || e
                == ApiError::MethodNotFound || e == ApiError::NoConsensus)))
        }),
{
    let n = responses.len();
    let q = n - threshold;
    let ghost rs = responses@;

    let mut responded: usize = 0;
    let mut i: usize = 0;
    while i < n
        invariant
            n == responses@.len(),
            responses@ == rs,
            0 <= i <= n,
            responded == responded_count(rs.take(i as int)),
            responded <= i,
        decreases n - i,
    {
        proof {
            lemma_responded_count_take_step(rs, i as int);
        }
        match &responses[i] {
            PeerResponse::Unreachable => {},
            _ => {
                responded += 1;
            },
        }
        i += 1;
    }
    assert(rs.take(n as int) =~= rs);

    if responded < q {
        proof {
            if has_quorum_value(rs, q as nat) {
                let v = choose|v: Seq<u8>| #[trigger] vote_count(rs, v) >= q;
                lemma_vote_count_le_responded(rs, v);
            }
        }
        return Err(ApiError::Timeout);
    }

    let mut saw_value = false;
    let mut i: usize = 0;
    while i < n
        invariant
            n == responses@.len(),
            responses@ == rs,
            n == 3 * threshold + 1,
            q == n - threshold,
            responded_count(rs) >= q,
            0 <= i <= n,
            saw_value == exists|k: int| 0 <= k < i && rs[k] is Value,
            forall|k: int|
                0 <= k < i ==> (#[trigger] rs[k] matches PeerResponse::Value(w) ==> vote_count(
                    rs,
                    w@,
                ) < q),
        decreases n - i,
    {
        match &responses[i] {
            PeerResponse::Value(v) => {
                saw_value = true;
                let mut count: usize = 0;
                let mut j: usize = 0;
                while j < n
                    invariant
                        n == responses@.len(),
                        responses@ == rs,
                        0 <= j <= n,
                        i < n,
                        responses@[i as int] matches PeerResponse::Value(w) && w@ == v@,
                        count == vote_count(rs.take(j as int), v@),
                        count <= j,
                    decreases n - j,
                {
                    proof {
                        lemma_vote_count_take_step(rs, v@, j as int);
                    }
                    match &responses[j] {
                        PeerResponse::Value(w) => {
                            if bytes_eq(v, w) {
                                count += 1;
                            }
                        },
                        _ => {},
                    }
                    j += 1;
                }
                assert(rs.take(n as int) =~= rs);
                if count >= q {
                    proof {
                        assert(vote_count(rs, v@) >= q);
                        assert(rs[i as int] is Value);
                        assert(!(rs[i as int] is Unreachable) && !(rs[i as int] is MethodNotFound));
                        assert(!all_responders_unrecognized(rs));
                    }
                    let out = copy_bytes(v);
                    return Ok(out);
                }
                assert(rs[i as int] is Value);
            },
            _ => {},
        }
        i += 1;
    }

    proof {
        if has_quorum_value(rs, q as nat) {
            let v = choose|v: Seq<u8>| #[trigger] vote_count(rs, v) >= q;
            assert(q >= 1);
            lemma_vote_has_witness(rs, v);
            let k = choose|k: int| 0 <= k < rs.len() && is_vote_for(#[trigger] rs[k], v);
            assert(rs[k] matches PeerResponse::Value(w) && w@ == v);
            assert(false);
        }
    }

    if saw_value {
        Err(ApiError::NoConsensus)
    } else {
        assert(all_responders_unrecognized(rs)) by {
            assert forall|k: int| 0 <= k < rs.len() && !(#[trigger] rs[k] is Unreachable) implies rs[k] is MethodNotFound by {
                if rs[k] is Value {
                    assert(exists|m: int| 0 <= m < n && rs[m] is Value);
                }
            }
        }
        Err(ApiError::MethodNotFound)
    }
}

/// Single-guardian delivery: the named guardian's local answer, accepted
/// without any federation-wide guarantee.  `Ok` iff that guardian answered
/// with a value; a typed "endpoint not recognized" refusal and silence are
/// both surfaced as errors.
pub fn request_single_peer_federation(responses: &Vec<PeerResponse>, peer: usize) -> (r: Result<
    Vec<u8>,
    ApiError,
>)
    requires
        peer < responses@.len(),
    ensures
        r is Ok <==> responses@[peer as int] is Value,
        r matches Ok(v) ==> (responses@[peer as int] matches PeerResponse::Value(w) && v@ == w@),
        r == Err::<Vec<u8>, ApiError>(ApiError::MethodNotFound) <==> responses@[peer as int] is MethodNotFound,
        r == Err::<Vec<u8>, ApiError>(ApiError::PeerUnreachable) <==> responses@[peer as int] is Unreachable,
{
    match &responses[peer] {
        PeerResponse::Value(v) => Ok(copy_bytes(v)),
        PeerResponse::MethodNotFound => Err(ApiError::MethodNotFound),
        PeerResponse::Unreachable => Err(ApiError::PeerUnreachable),
    }
}

/// Authenticated delivery to the caller's own guardian: the answer is
/// accepted only under a valid admin credential.  `Err(Unauthorized)` iff
/// the credential was rejected, whatever the guardian would have answered.
pub fn request_admin(response: &PeerResponse, credential_accepted: bool) -> (r: Result<
    Vec<u8>,
    ApiError,
>)
    ensures
        r == Err::<Vec<u8>, ApiError>(ApiError::Unauthorized) <==> !credential_accepted,
        credential_accepted ==> (r is Ok <==> *response is Value),
        r matches Ok(v) ==> (*response matches PeerResponse::Value(w) && v@ == w@),
        credential_accepted ==> (r == Err::<Vec<u8>, ApiError>(ApiError::MethodNotFound)
            <==> *response is MethodNotFound),
        credential_accepted ==> (r == Err::<Vec<u8>, ApiError>(ApiError::PeerUnreachable)
            <==> *response is Unreachable),
{
    if !credential_accepted {
        return Err(ApiError::Unauthorized);
    }
    match response {
        PeerResponse::Value(v) => Ok(copy_bytes(v)),
        PeerResponse::MethodNotFound => Err(ApiError::MethodNotFound),
        PeerResponse::Unreachable => Err(ApiError::PeerUnreachable),
    }
}

} // verus!
