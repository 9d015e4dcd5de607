//! The payment lifecycle state machines.
//!
//! A send operation moves `Created -> Funded -> {Success | Refunded |
//! Failure}`; a receive operation moves `Created -> Funded -> Claimed`, or
//! `Created -> Expired` when the invoice expires unfunded.  Transitions are
//! driven by observed events (a gateway response, a federation event, an
//! expiry) and are monotone: a terminal state absorbs every further event,
//! and nothing is reversible except the explicit refund path of a send.

use vstd::prelude::*;

verus! {

/// The states of an outbound payment through a gateway.
#[derive(Clone, Copy, Debug, PartialEq, Eq, Structural)]
pub enum SendState {
    /// The operation exists; no funds are locked yet.
    Created,
    /// The gateway accepted the invoice and the client's funds are locked
    /// under federation consensus.
    Funded,
    /// Terminal: the gateway proved completion and claimed the locked funds.
    Success,
    /// Terminal: the payment could not complete (or its lock expired) and
    /// the client reclaimed its funds.
    Refunded,
    /// Terminal: an unrecoverable local or protocol error; no funds
    /// movement guarantee was resolved and the caller must intervene.
    Failure,
}

/// What a send operation can observe.
#[derive(Clone, Copy, Debug, PartialEq, Eq, Structural)]
pub enum SendEvent {
    /// The gateway accepted the invoice; funds were locked under consensus.
    FundsLocked,
    /// The gateway proved payment completion.
    PaymentCompleted,
    /// The gateway reported that it cannot complete the payment.
    PaymentRejected,
    /// The contract's time lock ran out without a completion proof.  For a
    /// hold invoice this is the only deadline: the operation stays funded
    /// until the invoice's own expiry, never any shorter wait.
    LockExpired,
    /// An unrecoverable local or protocol error.
    ProtocolFault,
}

/// The terminal outcomes of a send operation, as reported to a waiting
/// caller.  Refusal and refund are valid results, never exceptions.
#[derive(Clone, Copy, Debug, PartialEq, Eq, Structural)]
pub enum FinalSendOperationState {
    Success,
    Refunded,
    Failure,
}

/// The states of an inbound payment through a gateway.
#[derive(Clone, Copy, Debug, PartialEq, Eq, Structural)]
pub enum ReceiveState {
    /// The invoice has been issued; nothing was received yet.
    Created,
    /// The gateway forwarded the incoming payment; the funds are escrowed
    /// under federation consensus.
    Funded,
    /// Terminal: the client swept the escrowed funds into its balance.
    Claimed,
    /// Terminal: the invoice expired before any payment arrived.
    Expired,
}

/// What a receive operation can observe.
#[derive(Clone, Copy, Debug, PartialEq, Eq, Structural)]
pub enum ReceiveEvent {
    /// The gateway forwarded the incoming payment into federation escrow.
    PaymentReceived,
    /// The client swept the escrowed funds.
    FundsClaimed,
    /// The invoice's expiry passed.
    InvoiceExpired,
}

/// The terminal outcomes of a receive operation.
#[derive(Clone, Copy, Debug, PartialEq, Eq, Structural)]
pub enum FinalReceiveOperationState {
    Claimed,
    Expired,
}

/// The send transition relation.  A terminal state absorbs every event; a
/// refund is reachable both from `Funded` and directly from `Created`, so a
/// payment no gateway ever accepted can still be refunded; a stray
/// completion before funding is ignored rather than trusted.
pub open spec fn send_step_spec(s: SendState, e: SendEvent) -> SendState {
    match s {
        SendState::Created => match e {
            SendEvent::FundsLocked => SendState::Funded,
            SendEvent::PaymentCompleted => SendState::Created,
            SendEvent::PaymentRejected => SendState::Refunded,
            SendEvent::LockExpired => SendState::Refunded,
            SendEvent::ProtocolFault => SendState::Failure,
        },
        SendState::Funded => match e {
            SendEvent::FundsLocked => SendState::Funded,
            SendEvent::PaymentCompleted => SendState::Success,
            SendEvent::PaymentRejected => SendState::Refunded,
            SendEvent::LockExpired => SendState::Refunded,
            SendEvent::ProtocolFault => SendState::Failure,
        },
        _ => s,
    }
}

/// The terminal outcome a send state maps to, if it is terminal.
pub open spec fn send_final_spec(s: SendState) -> Option<FinalSendOperationState> {
    match s {
        SendState::Success => Some(FinalSendOperationState::Success),
        SendState::Refunded => Some(FinalSendOperationState::Refunded),
        SendState::Failure => Some(FinalSendOperationState::Failure),
        _ => None,
    }
}

/// How far through its lifecycle a send state is; transitions never
/// decrease it.
pub open spec fn send_rank(s: SendState) -> int {
    match s {
        SendState::Created => 0,
        SendState::Funded => 1,
        _ => 2,
    }
}

/// One send transition, executable form.
pub fn send_step(s: SendState, e: SendEvent) -> (r: SendState)
    ensures
        r == send_step_spec(s, e),
{
    match s {
        SendState::Created => match e {
            SendEvent::FundsLocked => SendState::Funded,
            SendEvent::PaymentCompleted => SendState::Created,
            SendEvent::PaymentRejected => SendState::Refunded,
            SendEvent::LockExpired => SendState::Refunded,
            SendEvent::ProtocolFault => SendState::Failure,
        },
        SendState::Funded => match e {
            SendEvent::FundsLocked => SendState::Funded,
            SendEvent::PaymentCompleted => SendState::Success,
            SendEvent::PaymentRejected => SendState::Refunded,
            SendEvent::LockExpired => SendState::Refunded,
            SendEvent::ProtocolFault => SendState::Failure,
        },
        _ => s,
    }
}

/// The terminal outcome of a send state, if any, executable form.
pub fn send_final(s: SendState) -> (r: Option<FinalSendOperationState>)
    ensures
        r == send_final_spec(s),
{
    match s {
        SendState::Success => Some(FinalSendOperationState::Success),
        SendState::Refunded => Some(FinalSendOperationState::Refunded),
        SendState::Failure => Some(FinalSendOperationState::Failure),
        _ => None,
    }
}

/// The state a send operation reaches after observing `es` in order.
pub open spec fn send_run(s: SendState, es: Seq<SendEvent>) -> SendState
    decreases es.len(),
{
    if es.len() == 0 {
        s
    } else {
        send_run(send_step_spec(s, es[0]), es.drop_first())
    }
}

/// The receive transition relation.  An expiry in `Funded` changes nothing:
/// the payment arrived before the deadline and the claim still proceeds; a
/// claim in `Created` changes nothing: there is no escrow to sweep yet.
pub open spec fn receive_step_spec(s: ReceiveState, e: ReceiveEvent) -> ReceiveState {
    match s {
        ReceiveState::Created => match e {
            ReceiveEvent::PaymentReceived => ReceiveState::Funded,
            ReceiveEvent::FundsClaimed => ReceiveState::Created,
            ReceiveEvent::InvoiceExpired => ReceiveState::Expired,
        },
        ReceiveState::Funded => match e {
            ReceiveEvent::PaymentReceived => ReceiveState::Funded,
            ReceiveEvent::FundsClaimed => ReceiveState::Claimed,
            ReceiveEvent::InvoiceExpired => ReceiveState::Funded,
        },
        _ => s,
    }
}

/// The terminal outcome a receive state maps to, if it is terminal.
pub open spec fn receive_final_spec(s: ReceiveState) -> Option<FinalReceiveOperationState> {
    match s {
        ReceiveState::Claimed => Some(FinalReceiveOperationState::Claimed),
        ReceiveState::Expired => Some(FinalReceiveOperationState::Expired),
        _ => None,
    }
}

/// How far through its lifecycle a receive state is.
pub open spec fn receive_rank(s: ReceiveState) -> int {
    match s {
        ReceiveState::Created => 0,
        ReceiveState::Funded => 1,
        _ => 2,
    }
}

/// One receive transition, executable form.
pub fn receive_step(s: ReceiveState, e: ReceiveEvent) -> (r: ReceiveState)
    ensures
        r == receive_step_spec(s, e),
{
    match s {
        ReceiveState::Created => match e {
            ReceiveEvent::PaymentReceived => ReceiveState::Funded,
            ReceiveEvent::FundsClaimed => ReceiveState::Created,
            ReceiveEvent::InvoiceExpired => ReceiveState::Expired,
        },
        ReceiveState::Funded => match e {
            ReceiveEvent::PaymentReceived => ReceiveState::Funded,
            ReceiveEvent::FundsClaimed => ReceiveState::Claimed,
            ReceiveEvent::InvoiceExpired => ReceiveState::Funded,
        },
        _ => s,
    }
}

/// The terminal outcome of a receive state, if any, executable form.
pub fn receive_final(s: ReceiveState) -> (r: Option<FinalReceiveOperationState>)
    ensures
        r == receive_final_spec(s),
{
    match s {
        ReceiveState::Claimed => Some(FinalReceiveOperationState::Claimed),
        ReceiveState::Expired => Some(FinalReceiveOperationState::Expired),
        _ => None,
    }
}

/// The state a receive operation reaches after observing `es` in order.
pub open spec fn receive_run(s: ReceiveState, es: Seq<ReceiveEvent>) -> ReceiveState
    decreases es.len(),
{
    if es.len() == 0 {
        s
    } else {
        receive_run(receive_step_spec(s, es[0]), es.drop_first())
    }
}

/// Law: lifecycle progress is monotone.  No event moves an operation
/// backwards, and a terminal state absorbs every event — which is why a
/// repeated await of a finished operation reports the same terminal value
/// to every caller, and why no transition is reversible.
pub proof fn lemma_steps_monotone(s: SendState, e: SendEvent, t: ReceiveState, f: ReceiveEvent)
    ensures
        send_rank(send_step_spec(s, e)) >= send_rank(s),
        send_final_spec(s) is Some ==> send_step_spec(s, e) == s,
        receive_rank(receive_step_spec(t, f)) >= receive_rank(t),
        receive_final_spec(t) is Some ==> receive_step_spec(t, f) == t,
{
}

/// Law: a terminal state is stable under any further sequence of events, so
/// the terminal outcome of an operation is decided exactly once.
pub proof fn lemma_terminal_stable(s: SendState, es: Seq<SendEvent>)
    requires
        send_final_spec(s) is Some,
    ensures
        send_run(s, es) == s,
    decreases es.len(),
{
    if es.len() > 0 {
        lemma_terminal_stable(s, es.drop_first());
    }
}

/// Law: a terminal receive state is likewise stable under any events.
pub proof fn lemma_receive_terminal_stable(s: ReceiveState, es: Seq<ReceiveEvent>)
    requires
        receive_final_spec(s) is Some,
    ensures
        receive_run(s, es) == s,
    decreases es.len(),
{
    if es.len() > 0 {
        lemma_receive_terminal_stable(s, es.drop_first());
    }
}

/// Law: a send operation never reports `Success` unless its gateway proved
/// completion — no event history without a `PaymentCompleted` event reaches
/// the `Success` state.
pub proof fn lemma_no_success_without_completion(s: SendState, es: Seq<SendEvent>)
    requires
        s != SendState::Success,
        forall|i: int| 0 <= i < es.len() ==> #[trigger] es[i] != SendEvent::PaymentCompleted,
    ensures
        send_run(s, es) != SendState::Success,
    decreases es.len(),
{
    if es.len() > 0 {
        assert(es[0] != SendEvent::PaymentCompleted);
        assert(forall|i: int|
            0 <= i < es.drop_first().len() ==> #[trigger] es.drop_first()[i] == es[i + 1]);
        lemma_no_success_without_completion(send_step_spec(s, es[0]), es.drop_first());
    }
}

/// Law: a payment its gateway cannot complete is refunded.  When every
/// observed event is a funding, a rejection or a lock expiry — the history
/// of a gateway that accepts but never completes, or never accepts at all —
/// the operation never reaches `Success` or `Failure`; and once a rejection
/// or an expiry has been observed it rests in `Refunded`, not in any
/// pending state.
pub proof fn lemma_refund_on_failure(s: SendState, es: Seq<SendEvent>)
    requires
        s == SendState::Created || s == SendState::Funded || s == SendState::Refunded,
        forall|i: int|
            0 <= i < es.len() ==> (#[trigger] es[i] == SendEvent::FundsLocked || es[i]
                == SendEvent::PaymentRejected || es[i] == SendEvent::LockExpired),
    ensures
        ({
            let r = send_run(s, es);
            &&& (r == SendState::Created || r == SendState::Funded || r == SendState::Refunded)
            &&& ((exists|i: int|
                0 <= i < es.len() && (#[trigger] es[i] == SendEvent::PaymentRejected || es[i]
                    == SendEvent::LockExpired)) ==> r == SendState::Refunded)
            &&& (s == SendState::Refunded ==> r == SendState::Refunded)
        }),
    decreases es.len(),
{
    if es.len() > 0 {
        let s1 = send_step_spec(s, es[0]);
        assert(es[0] == SendEvent::FundsLocked || es[0] == SendEvent::PaymentRejected || es[0]
            == SendEvent::LockExpired);
        assert(forall|i: int|
            0 <= i < es.drop_first().len() ==> #[trigger] es.drop_first()[i] == es[i + 1]);
        lemma_refund_on_failure(s1, es.drop_first());
        if exists|i: int|
            0 <= i < es.len() && (#[trigger] es[i] == SendEvent::PaymentRejected || es[i]
                == SendEvent::LockExpired) {
            let i = choose|i: int|
                0 <= i < es.len() && (#[trigger] es[i] == SendEvent::PaymentRejected || es[i]
                    == SendEvent::LockExpired);
            if i == 0 {
                assert(s1 == SendState::Refunded);
            } else {
                assert(es.drop_first()[i - 1] == es[i]);
            }
        }
    }
}

/// Law: the happy path of an outbound payment.  Once the gateway accepts
/// and funds are locked, and the gateway then proves completion, the
/// operation reaches `Success` whatever is observed afterwards.
pub proof fn lemma_send_success_path(es: Seq<SendEvent>)
    requires
        es.len() >= 2,
        es[0] == SendEvent::FundsLocked,
        es[1] == SendEvent::PaymentCompleted,
    ensures
        send_run(SendState::Created, es) == SendState::Success,
{
    let tail = es.drop_first();
    assert(tail[0] == es[1]);
    assert(send_run(SendState::Created, es) == send_run(SendState::Funded, tail));
    assert(send_run(SendState::Funded, tail) == send_run(SendState::Success, tail.drop_first()));
    lemma_terminal_stable(SendState::Success, tail.drop_first());
}

/// Law: the happy path of an inbound payment.  Once the gateway forwards
/// the incoming payment into escrow and the client sweeps it, the operation
/// reaches `Claimed` whatever is observed afterwards.
pub proof fn lemma_receive_claim_path(es: Seq<ReceiveEvent>)
    requires
        es.len() >= 2,
        es[0] == ReceiveEvent::PaymentReceived,
        es[1] == ReceiveEvent::FundsClaimed,
    ensures
        receive_run(ReceiveState::Created, es) == ReceiveState::Claimed,
{
    let tail = es.drop_first();
    assert(tail[0] == es[1]);
    assert(receive_run(ReceiveState::Created, es) == receive_run(ReceiveState::Funded, tail));
    assert(receive_run(ReceiveState::Funded, tail) == receive_run(
        ReceiveState::Claimed,
        tail.drop_first(),
    ));
    lemma_receive_terminal_stable(ReceiveState::Claimed, tail.drop_first());
}

/// Law: a receive operation is never claimed before its payment arrived —
/// no event history without a `PaymentReceived` event reaches `Claimed`.
pub proof fn lemma_no_claim_without_payment(s: ReceiveState, es: Seq<ReceiveEvent>)
    requires
        s == ReceiveState::Created || s == ReceiveState::Expired,
        forall|i: int| 0 <= i < es.len() ==> #[trigger] es[i] != ReceiveEvent::PaymentReceived,
    ensures
        receive_run(s, es) != ReceiveState::Claimed,
    decreases es.len(),
{
    if es.len() > 0 {
        assert(forall|i: int|
            0 <= i < es.drop_first().len() ==> #[trigger] es.drop_first()[i] == es[i + 1]);
        lemma_no_claim_without_payment(receive_step_spec(s, es[0]), es.drop_first());
    }
}

/// Law: the round trip of a circular payment.  A receive operation issues
/// an invoice; a send operation pays it through some gateway.  The escrow
/// forwarding on the receive side is observed only because the Lightning
/// payment settled, that is after the send side's completion proof: when
/// the send history reaches `Success` on the happy path and the receive
/// history then records the forwarded payment and the sweep, the send
/// operation ends in `Success` and the receive operation ends in `Claimed`
/// — each exactly once, by terminal stability.
pub proof fn lemma_round_trip(send_es: Seq<SendEvent>, recv_es: Seq<ReceiveEvent>)
    requires
        send_es.len() >= 2,
        send_es[0] == SendEvent::FundsLocked,
        send_es[1] == SendEvent::PaymentCompleted,
        recv_es.len() >= 2,
        recv_es[0] == ReceiveEvent::PaymentReceived,
        recv_es[1] == ReceiveEvent::FundsClaimed,
    ensures
        send_run(SendState::Created, send_es) == SendState::Success,
        receive_run(ReceiveState::Created, recv_es) == ReceiveState::Claimed,
        send_final_spec(send_run(SendState::Created, send_es)) == Some(
            FinalSendOperationState::Success,
        ),
        receive_final_spec(receive_run(ReceiveState::Created, recv_es)) == Some(
            FinalReceiveOperationState::Claimed,
        ),
{
    lemma_send_success_path(send_es);
    lemma_receive_claim_path(recv_es);
}

} // verus!

