use lnv2_core::client::PaymentClient;
use lnv2_core::gateway::Gateway;
use lnv2_core::invoice::Invoice;
use lnv2_core::operation::{decode_operation_id, encode_operation_id, OperationId};
use lnv2_core::payment::{
    send_step, receive_step, FinalReceiveOperationState, FinalSendOperationState, ReceiveEvent,
    ReceiveState, SendEvent, SendState,
};

fn gw(addr: &str) -> Gateway {
    Gateway { addr: addr.to_string() }
}

#[test]
fn send_happy_path_reaches_success() {
    let s = SendState::Created;
    let s = send_step(s, SendEvent::FundsLocked);
    assert_eq!(s, SendState::Funded);
    let s = send_step(s, SendEvent::PaymentCompleted);
    assert_eq!(s, SendState::Success);
    // Terminal states absorb everything that arrives late.
    assert_eq!(send_step(s, SendEvent::LockExpired), SendState::Success);
    assert_eq!(send_step(s, SendEvent::PaymentRejected), SendState::Success);
}

#[test]
fn rejected_payment_is_refunded_even_unfunded() {
    // A payment no gateway ever accepted still reaches the refund, straight
    // from the created state.
    assert_eq!(
        send_step(SendState::Created, SendEvent::PaymentRejected),
        SendState::Refunded
    );
    // A funded payment whose lock expires is refunded, never stuck.
    let s = send_step(SendState::Created, SendEvent::FundsLocked);
    assert_eq!(send_step(s, SendEvent::LockExpired), SendState::Refunded);
    // And the refund is terminal: a late completion proof changes nothing.
    let r = send_step(s, SendEvent::PaymentRejected);
    assert_eq!(send_step(r, SendEvent::PaymentCompleted), SendState::Refunded);
}

#[test]
fn protocol_fault_is_a_distinct_terminal_failure() {
    assert_eq!(
        send_step(SendState::Created, SendEvent::ProtocolFault),
        SendState::Failure
    );
    assert_eq!(
        send_step(SendState::Funded, SendEvent::ProtocolFault),
        SendState::Failure
    );
    assert_eq!(
        send_step(SendState::Failure, SendEvent::PaymentCompleted),
        SendState::Failure
    );
}

#[test]
fn receive_expires_only_while_unfunded() {
    assert_eq!(
        receive_step(ReceiveState::Created, ReceiveEvent::InvoiceExpired),
        ReceiveState::Expired
    );
    // A payment that arrived before the expiry keeps its claim alive.
    let s = receive_step(ReceiveState::Created, ReceiveEvent::PaymentReceived);
    assert_eq!(s, ReceiveState::Funded);
    assert_eq!(
        receive_step(s, ReceiveEvent::InvoiceExpired),
        ReceiveState::Funded
    );
    assert_eq!(
        receive_step(s, ReceiveEvent::FundsClaimed),
        ReceiveState::Claimed
    );
}

#[test]
fn circular_payment_succeeds_and_is_claimed() {
    // One client instance issues the invoice through gateway A; another
    // client pays it through gateway B.
    let gateway_a = gw("https://gw-a.example");
    let gateway_b = gw("https://gw-b.example");

    let mut receiver = PaymentClient::new();
    let (invoice, receive_op) = receiver.receive(1_000_000, &gateway_a);
    assert_eq!(invoice.amount, 1_000_000);
    assert_eq!(invoice.gateway_hint, "https://gw-a.example");

    let mut sender = PaymentClient::new();
    let send_op = sender.send(&invoice, &gateway_b);

    // Nothing is final while the payment is in flight.
    assert_eq!(sender.await_send(&send_op), None);
    assert_eq!(receiver.await_receive(&receive_op), None);

    // Gateway B accepts and the funds are locked, then the payment settles.
    assert!(sender.handle_send_event(&send_op, SendEvent::FundsLocked));
    assert!(sender.handle_send_event(&send_op, SendEvent::PaymentCompleted));
    assert_eq!(
        sender.await_send(&send_op),
        Some(FinalSendOperationState::Success)
    );

    // The settled payment reaches gateway A, which forwards it into escrow;
    // the receiver sweeps it.
    assert!(receiver.handle_receive_event(&receive_op, ReceiveEvent::PaymentReceived));
    assert!(receiver.handle_receive_event(&receive_op, ReceiveEvent::FundsClaimed));
    assert_eq!(
        receiver.await_receive(&receive_op),
        Some(FinalReceiveOperationState::Claimed)
    );

    // Awaiting again reports the same terminal outcomes.
    assert_eq!(
        sender.await_send(&send_op),
        Some(FinalSendOperationState::Success)
    );
    assert_eq!(
        receiver.await_receive(&receive_op),
        Some(FinalReceiveOperationState::Claimed)
    );
}

#[test]
fn refund_scenario_without_a_route() {
    // The receiving side never registered a route, so the gateway accepts
    // and locks funds but can only report failure; the sender is refunded,
    // never successful and never left pending.
    let mut sender = PaymentClient::new();
    let invoice = Invoice {
        amount: 1_000_000,
        payment_hash: vec![9u8; 32],
        expiry_secs: 86400,
        gateway_hint: "https://gw-b.example".to_string(),
    };
    let send_op = sender.send(&invoice, &gw("https://gw-a.example"));
    assert!(sender.handle_send_event(&send_op, SendEvent::FundsLocked));
    assert_eq!(sender.await_send(&send_op), None);
    assert!(sender.handle_send_event(&send_op, SendEvent::PaymentRejected));
    assert_eq!(
        sender.await_send(&send_op),
        Some(FinalSendOperationState::Refunded)
    );
    // A late completion claim cannot overturn the refund.
    assert!(sender.handle_send_event(&send_op, SendEvent::PaymentCompleted));
    assert_eq!(
        sender.await_send(&send_op),
        Some(FinalSendOperationState::Refunded)
    );
}

#[test]
fn resubmitting_a_payment_is_a_safe_retry() {
    let mut sender = PaymentClient::new();
    let invoice = Invoice {
        amount: 2_500,
        payment_hash: vec![3u8; 32],
        expiry_secs: 86400,
        gateway_hint: "https://gw-a.example".to_string(),
    };
    let first = sender.send(&invoice, &gw("https://gw-a.example"));
    assert!(sender.handle_send_event(&first, SendEvent::FundsLocked));
    // The same payment submitted again maps to the same operation and does
    // not reset or duplicate it.
    let second = sender.send(&invoice, &gw("https://gw-a.example"));
    assert_eq!(first.bytes, second.bytes);
    assert!(sender.handle_send_event(&second, SendEvent::PaymentCompleted));
    assert_eq!(
        sender.await_send(&first),
        Some(FinalSendOperationState::Success)
    );
}

#[test]
fn send_and_receive_of_one_invoice_are_distinct_operations() {
    let gateway = gw("https://gw-a.example");
    let mut client = PaymentClient::new();
    let (invoice, receive_op) = client.receive(42_000, &gateway);
    let send_op = client.send(&invoice, &gateway);
    assert_ne!(send_op.bytes, receive_op.bytes);
    // Each operation answers only the await of its own kind.
    assert_eq!(client.await_send(&receive_op), None);
    assert_eq!(client.await_receive(&send_op), None);
}

#[test]
fn operation_id_text_is_fixed_width_hex() {
    let id = OperationId { bytes: (0u8..32).collect() };
    let text = encode_operation_id(&id);
    assert_eq!(text.len(), 64);
    assert_eq!(
        text,
        "000102030405060708090a0b0c0d0e0f101112131415161718191a1b1c1d1e1f"
    );
}

#[test]
fn operation_id_round_trips_through_its_text() {
    let id = OperationId { bytes: (0u8..32).rev().collect() };
    let text = encode_operation_id(&id);
    let back = decode_operation_id(&text).expect("valid encoding");
    assert_eq!(back.bytes, id.bytes);
    assert_eq!(encode_operation_id(&back), text);
}

#[test]
fn malformed_operation_id_text_is_rejected() {
    // Too short.
    assert!(decode_operation_id("0a1b").is_none());
    // Right width, but an uppercase digit: the encoding is lowercase only.
    let mut text = "0".repeat(63);
    text.push('A');
    assert!(decode_operation_id(&text).is_none());
    // Right width, but not hexadecimal at all.
    let text = "z".repeat(64);
    assert!(decode_operation_id(&text).is_none());
}

#[test]
fn issued_invoices_get_distinct_payment_hashes() {
    let gateway = gw("https://gw-a.example");
    let mut client = PaymentClient::new();
    let (first, first_op) = client.receive(1_000, &gateway);
    let (second, second_op) = client.receive(1_000, &gateway);
    assert_ne!(first.payment_hash, second.payment_hash);
    assert_ne!(first_op.bytes, second_op.bytes);
}
