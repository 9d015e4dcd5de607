//! Lightning invoices as the payment logic reads them.
//!
//! An invoice is immutable once issued.  The fields here are the ones the
//! client's routing and payment logic depends on: the amount, the payment
//! hash the settlement is keyed by, the expiry, and the routing hint naming
//! the gateway the invoice was issued against.

use vstd::prelude::*;

verus! {

/// The fixed width of a Lightning payment hash, in bytes.
pub const PAYMENT_HASH_LEN: usize = 32;

/// A Lightning payment request, immutable once issued.
pub struct Invoice {
    /// The invoiced amount, in the federation's base unit.
    pub amount: u64,
    /// The payment hash the settlement is keyed by; always 32 bytes.
    pub payment_hash: Vec<u8>,
    /// Seconds until the invoice can no longer be paid.
    pub expiry_secs: u64,
    /// Routing hint: the address of the gateway the invoice was issued
    /// against, so a payment can be routed back through the same liquidity.
    pub gateway_hint: String,
}

impl Invoice {
    /// A structurally sound invoice: its payment hash has the fixed width.
    pub open spec fn wf(&self) -> bool {
        self.payment_hash@.len() == PAYMENT_HASH_LEN
    }
}

} // verus!
