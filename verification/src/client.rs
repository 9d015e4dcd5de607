//! One client's payment operations, tracked to their terminal states.
//!
//! A client owns the operations it created, keyed by their content-derived
//! identifiers.  Creating the same operation again is a safe retry that
//! returns the existing identifier instead of double-executing; awaiting an
//! operation is an idempotent read that reports the terminal state exactly
//! as the state machine reached it, to every caller alike.

use vstd::prelude::*;

use crate::gateway::Gateway;
use crate::invoice::{Invoice, PAYMENT_HASH_LEN};
use crate::operation::{derive_operation_id, derived_id, OperationId, OperationKind};
use crate::payment::{
    receive_final_spec, receive_step, receive_step_spec, send_final_spec, send_step,
    send_step_spec, FinalReceiveOperationState, FinalSendOperationState, ReceiveState, SendState,
};

verus! {

/// How long an issued invoice stays payable, in seconds.
pub const DEFAULT_INVOICE_EXPIRY_SECS: u64 = 86400;

/// Where one tracked operation stands in its lifecycle.
pub enum OperationStatus {
    Send(SendState),
    Receive(ReceiveState),
}

/// One payment operation owned by this client.
pub struct ClientOperation {
    /// The content-derived identifier the operation is tracked under.
    pub id: OperationId,
    /// The address of the gateway the operation goes through.
    pub gateway_addr: String,
    /// The operation's current state.
    pub status: OperationStatus,
}

/// Whether some operation in `ops` is tracked under the identifier bytes
/// `id`.
pub open spec fn contains_op(ops: Seq<ClientOperation>, id: Seq<u8>) -> bool {
    exists|i: int| 0 <= i < ops.len() && (#[trigger] ops[i]).id.bytes@ == id
}

/// The little-endian bytes of `e`, `k` bytes long.
pub open spec fn le_bytes(e: nat, k: nat) -> Seq<u8>
    decreases k,
{
    if k == 0 {
        Seq::empty()
    } else {
        seq![(e % 256) as u8] + le_bytes(e / 256, (k - 1) as nat)
    }
}

/// The payment hash an invoice is issued under, derived from the client's
/// entropy counter: leading zero padding and the counter's bytes.  The
/// counter stands in for the preimage entropy the Lightning collaborator
/// supplies; deriving it locally keeps distinct invoices on distinct
/// hashes.
pub open spec fn entropy_hash(e: u64) -> Seq<u8> {
    Seq::new(24, |i: int| 0u8) + le_bytes(e as nat, 8)
}

/// Build the payment hash for the entropy value `e`.
fn build_entropy_hash(e: u64) -> (r: Vec<u8>)
    ensures
        r@ == entropy_hash(e),
        r@.len() == PAYMENT_HASH_LEN,
{
    let mut h: Vec<u8> = Vec::new();
    let mut k: usize = 0;
    while k < 24
        invariant
            0 <= k <= 24,
            h@ =~= Seq::new(k as nat, |i: int| 0u8),
        decreases 24 - k,
    {
        h.push(0);
        proof {
            assert(h@ =~= Seq::new((k + 1) as nat, |i: int| 0u8));
        }
        k += 1;
    }
    let ghost zeros = Seq::new(24, |i: int| 0u8);
    let mut cur: u64 = e;
    let mut k: usize = 0;
    while k < 8
        invariant
            0 <= k <= 8,
            h@.len() == 24 + k,
            zeros + le_bytes(e as nat, 8) =~= h@ + le_bytes(cur as nat, (8 - k) as nat),
        decreases 8 - k,
    {
        let ghost h_before = h@;
        let b = (cur % 256) as u8;
        h.push(b);
        proof {
            assert(le_bytes(cur as nat, (8 - k) as nat) == seq![(cur as nat % 256) as u8]
                + le_bytes(cur as nat / 256, (8 - k - 1) as nat));
            assert((cur / 256) as nat == cur as nat / 256);
            assert(b == (cur as nat % 256) as u8);
            assert(h@ + le_bytes((cur / 256) as nat, (8 - (k + 1)) as nat) =~= h_before
                + le_bytes(cur as nat, (8 - k) as nat)) by {
                assert(h@ =~= h_before + seq![b]);
            }
        }
        cur = cur / 256;
        k += 1;
    }
    proof {
        assert(le_bytes(cur as nat, 0) == Seq::<u8>::empty());
        assert(h@ =~= h@ + le_bytes(cur as nat, 0));
        assert(h@ =~= entropy_hash(e));
        assert(le_bytes(e as nat, 8).len() == 8) by {
            lemma_le_bytes_len(e as nat, 8);
        }
    }
    h
}

proof fn lemma_le_bytes_len(e: nat, k: nat)
    ensures
        le_bytes(e, k).len() == k,
    decreases k,
{
    if k > 0 {
        lemma_le_bytes_len(e / 256, (k - 1) as nat);
    }
}

/// One client's operation table and entropy source.
pub struct PaymentClient {
    /// Every operation this client created, each under a distinct id.
    pub operations: Vec<ClientOperation>,
    /// The counter fresh payment hashes are derived from.
    pub next_entropy: u64,
}

impl PaymentClient {
    /// Identifiers are well formed and pairwise distinct.
    pub open spec fn wf(&self) -> bool {
        &&& forall|i: int|
            0 <= i < self.operations@.len() ==> (#[trigger] self.operations@[i]).id.wf()
        &&& forall|i: int, j: int|
            0 <= i < j < self.operations@.len() ==> (#[trigger] self.operations@[i]).id.bytes@ != (
            #[trigger] self.operations@[j]).id.bytes@
    }

    /// A client with no operations yet.
    pub fn new() -> (r: PaymentClient)
        ensures
            r.wf(),
            r.operations@.len() == 0,
            r.next_entropy == 0,
    {
        PaymentClient { operations: Vec::new(), next_entropy: 0 }
    }

    /// The position of the operation tracked under `id`, if any.
    pub fn find_operation(&self, id: &OperationId) -> (r: Option<usize>)
        ensures
            match r {
                Some(i) => i < self.operations@.len() && self.operations@[i as int].id.bytes@
                    == id.bytes@,
                None => !contains_op(self.operations@, id.bytes@),
            },
    {
        let n = self.operations.len();
        let mut i: usize = 0;
        while i < n
            invariant
                n == self.operations@.len(),
                0 <= i <= n,
                forall|k: int|
                    0 <= k < i ==> (#[trigger] self.operations@[k]).id.bytes@ != id.bytes@,
            decreases n - i,
        {
            if crate::operation::operation_id_eq(&self.operations[i].id, id) {
                return Some(i);
            }
            i += 1;
        }
        None
    }

    /// Start an outbound payment of `invoice` through `gateway`.  The
    /// operation's identifier is derived from the invoice's payment hash;
    /// when the same payment is submitted again the existing operation is
    /// returned untouched — a retry can never double-execute.
    pub fn send(&mut self, invoice: &Invoice, gateway: &Gateway) -> (r: OperationId)
        requires
            old(self).wf(),
            invoice.wf(),
        ensures
            final(self).wf(),
            final(self).next_entropy == old(self).next_entropy,
            r.wf(),
            r.bytes@ == derived_id(OperationKind::Send, invoice.payment_hash@),
            contains_op(old(self).operations@, r.bytes@) ==> final(self).operations@ == old(
                self,
            ).operations@,
            !contains_op(old(self).operations@, r.bytes@) ==> {
                let ops = final(self).operations@;
                &&& ops.len() == old(self).operations@.len() + 1
                &&& ops.subrange(0, old(self).operations@.len() as int) == old(self).operations@
                &&& ops.last().id.bytes@ == r.bytes@
                &&& ops.last().gateway_addr@ == gateway@
                &&& ops.last().status == OperationStatus::Send(SendState::Created)
            },
            contains_op(final(self).operations@, r.bytes@),
    {
        let id = derive_operation_id(OperationKind::Send, &invoice.payment_hash);
        match self.find_operation(&id) {
            Some(_) => {
                proof {
                    assert(contains_op(self.operations@, id.bytes@));
                }
                let out = derive_operation_id(OperationKind::Send, &invoice.payment_hash);
                out
            },
            None => {
                let ghost old_ops = self.operations@;
                let out = derive_operation_id(OperationKind::Send, &invoice.payment_hash);
                let op = ClientOperation {
                    id,
                    gateway_addr: gateway.addr.clone(),
                    status: OperationStatus::Send(SendState::Created),
                };
                self.operations.push(op);
                proof {
                    assert(self.operations@.subrange(0, old_ops.len() as int) =~= old_ops);
                    assert(self.operations@[old_ops.len() as int].id.bytes@ == out.bytes@);
                }
                out
            },
        }
    }

    /// Issue an invoice for `amount` against `gateway` and start the
    /// inbound operation that waits for it to be paid.  The invoice carries
    /// the gateway's address as its routing hint, so selection can route a
    /// payment of it back through the issuing gateway.
    pub fn receive(&mut self, amount: u64, gateway: &Gateway) -> (r: (Invoice, OperationId))
        requires
            old(self).wf(),
            old(self).next_entropy < u64::MAX,
        ensures
            final(self).wf(),
            final(self).next_entropy == old(self).next_entropy + 1,
            r.0.wf(),
            r.0.amount == amount,
            r.0.gateway_hint@ == gateway@,
            r.0.expiry_secs == DEFAULT_INVOICE_EXPIRY_SECS,
            r.0.payment_hash@ == entropy_hash(old(self).next_entropy),
            r.1.wf(),
            r.1.bytes@ == derived_id(OperationKind::Receive, r.0.payment_hash@),
            contains_op(old(self).operations@, r.1.bytes@) ==> final(self).operations@ == old(
                self,
            ).operations@,
            !contains_op(old(self).operations@, r.1.bytes@) ==> {
                let ops = final(self).operations@;
                &&& ops.len() == old(self).operations@.len() + 1
                &&& ops.subrange(0, old(self).operations@.len() as int) == old(self).operations@
                &&& ops.last().id.bytes@ == r.1.bytes@
                &&& ops.last().gateway_addr@ == gateway@
                &&& ops.last().status == OperationStatus::Receive(ReceiveState::Created)
            },
            contains_op(final(self).operations@, r.1.bytes@),
    {
        let hash = build_entropy_hash(self.next_entropy);
        self.next_entropy = self.next_entropy + 1;
        let id = derive_operation_id(OperationKind::Receive, &hash);
        let invoice = Invoice {
            amount,
            payment_hash: crate::consensus::copy_bytes(&hash),
            expiry_secs: DEFAULT_INVOICE_EXPIRY_SECS,
            gateway_hint: gateway.addr.clone(),
        };
        let out = derive_operation_id(OperationKind::Receive, &hash);
        match self.find_operation(&id) {
            Some(_) => {
                proof {
                    assert(contains_op(self.operations@, id.bytes@));
                }
                (invoice, out)
            },
            None => {
                let ghost old_ops = self.operations@;
                let op = ClientOperation {
                    id,
                    gateway_addr: gateway.addr.clone(),
                    status: OperationStatus::Receive(ReceiveState::Created),
                };
                self.operations.push(op);
                proof {
                    assert(self.operations@.subrange(0, old_ops.len() as int) =~= old_ops);
                    assert(self.operations@[old_ops.len() as int].id.bytes@ == out.bytes@);
                }
                (invoice, out)
            },
        }
    }

    /// Apply an observed event to the send operation tracked under `id`.
    /// Returns whether such an operation exists; every other operation is
    /// left untouched, and the matched one moves exactly one transition.
    pub fn handle_send_event(&mut self, id: &OperationId, event: crate::payment::SendEvent) -> (r:
        bool)
        requires
            old(self).wf(),
        ensures
            final(self).wf(),
            final(self).next_entropy == old(self).next_entropy,
            final(self).operations@.len() == old(self).operations@.len(),
            r == exists|i: int|
                0 <= i < old(self).operations@.len() && (#[trigger] old(
                    self,
                ).operations@[i]).id.bytes@ == id.bytes@ && old(
                    self,
                ).operations@[i].status matches OperationStatus::Send(_),
            forall|k: int|
                0 <= k < old(self).operations@.len() && (#[trigger] old(
                    self,
                ).operations@[k]).id.bytes@ != id.bytes@ ==> final(self).operations@[k] == old(
                    self,
                ).operations@[k],
            forall|k: int|
                0 <= k < old(self).operations@.len() && (#[trigger] old(
                    self,
                ).operations@[k]).id.bytes@ == id.bytes@ ==> {
                    let ops = final(self).operations@;
                    &&& ops[k].id == old(self).operations@[k].id
                    &&& ops[k].gateway_addr == old(self).operations@[k].gateway_addr
                    &&& (match old(self).operations@[k].status {
                        OperationStatus::Send(s) => ops[k].status == OperationStatus::Send(
                            send_step_spec(s, event),
                        ),
                        OperationStatus::Receive(_) => ops[k] == old(self).operations@[k],
                    })
                },
    {
        match self.find_operation(id) {
            None => false,
            Some(i) => {
                let next = match &self.operations[i].status {
                    OperationStatus::Send(s) => OperationStatus::Send(send_step(*s, event)),
                    OperationStatus::Receive(_) => {
                        return false;
                    },
                };
                let is_send = match &self.operations[i].status {
                    OperationStatus::Send(_) => true,
                    OperationStatus::Receive(_) => false,
                };
                self.operations[i].status = next;
                proof {
                    assert(is_send);
                }
                true
            },
        }
    }

    /// Apply an observed event to the receive operation tracked under `id`,
    /// symmetrically to the send case.
    pub fn handle_receive_event(
        &mut self,
        id: &OperationId,
        event: crate::payment::ReceiveEvent,
    ) -> (r: bool)
        requires
            old(self).wf(),
        ensures
            final(self).wf(),
            final(self).next_entropy == old(self).next_entropy,
            final(self).operations@.len() == old(self).operations@.len(),
            r == exists|i: int|
                0 <= i < old(self).operations@.len() && (#[trigger] old(
                    self,
                ).operations@[i]).id.bytes@ == id.bytes@ && old(
                    self,
                ).operations@[i].status matches OperationStatus::Receive(_),
            forall|k: int|
                0 <= k < old(self).operations@.len() && (#[trigger] old(
                    self,
                ).operations@[k]).id.bytes@ != id.bytes@ ==> final(self).operations@[k] == old(
                    self,
                ).operations@[k],
            forall|k: int|
                0 <= k < old(self).operations@.len() && (#[trigger] old(
                    self,
                ).operations@[k]).id.bytes@ == id.bytes@ ==> {
                    let ops = final(self).operations@;
                    &&& ops[k].id == old(self).operations@[k].id
                    &&& ops[k].gateway_addr == old(self).operations@[k].gateway_addr
                    &&& (match old(self).operations@[k].status {
                        OperationStatus::Receive(s) => ops[k].status == OperationStatus::Receive(
                            receive_step_spec(s, event),
                        ),
                        OperationStatus::Send(_) => ops[k] == old(self).operations@[k],
                    })
                },
    {
        match self.find_operation(id) {
            None => false,
            Some(i) => {
                let next = match &self.operations[i].status {
                    OperationStatus::Receive(s) => OperationStatus::Receive(
                        receive_step(*s, event),
                    ),
                    OperationStatus::Send(_) => {
                        return false;
                    },
                };
                self.operations[i].status = next;
                true
            },
        }
    }

    /// The terminal outcome of the send operation tracked under `id`, once
    /// it has one.  `None` while the operation is still pending, and for an
    /// identifier that names no send operation of this client.  The read
    /// consumes nothing: callers may await concurrently and repeatedly, and
    /// every await of a finished operation reports the same outcome.
    pub fn await_send(&self, id: &OperationId) -> (r: Option<FinalSendOperationState>)
        requires
            self.wf(),
        ensures
            r is Some <==> exists|i: int|
                0 <= i < self.operations@.len() && (#[trigger] self.operations@[i]).id.bytes@
                    == id.bytes@ && (self.operations@[i].status matches OperationStatus::Send(s)
                    && send_final_spec(s) is Some),
            r matches Some(f) ==> exists|i: int|
                0 <= i < self.operations@.len() && (#[trigger] self.operations@[i]).id.bytes@
                    == id.bytes@ && (self.operations@[i].status matches OperationStatus::Send(s)
                    && send_final_spec(s) == Some(f)),
    {
        match self.find_operation(id) {
            None => None,
            Some(i) => match &self.operations[i].status {
                OperationStatus::Send(s) => {
                    let f = crate::payment::send_final(*s);
                    proof {
                        if f is Some {
                            assert(self.operations@[i as int].id.bytes@ == id.bytes@);
                        }
                    }
                    f
                },
                OperationStatus::Receive(_) => None,
            },
        }
    }

    /// The terminal outcome of the receive operation tracked under `id`,
    /// with the same idempotent-read contract as the send case.
    pub fn await_receive(&self, id: &OperationId) -> (r: Option<FinalReceiveOperationState>)
        requires
            self.wf(),
        ensures
            r is Some <==> exists|i: int|
                0 <= i < self.operations@.len() && (#[trigger] self.operations@[i]).id.bytes@
                    == id.bytes@ && (self.operations@[i].status matches OperationStatus::Receive(s)
                    && receive_final_spec(s) is Some),
            r matches Some(f) ==> exists|i: int|
                0 <= i < self.operations@.len() && (#[trigger] self.operations@[i]).id.bytes@
                    == id.bytes@ && (self.operations@[i].status matches OperationStatus::Receive(s)
                    && receive_final_spec(s) == Some(f)),
    {
        match self.find_operation(id) {
            None => None,
            Some(i) => match &self.operations[i].status {
                OperationStatus::Receive(s) => {
                    let f = crate::payment::receive_final(*s);
                    proof {
                        if f is Some {
                            assert(self.operations@[i as int].id.bytes@ == id.bytes@);
                        }
                    }
                    f
                },
                OperationStatus::Send(_) => None,
            },
        }
    }
}

} // verus!
