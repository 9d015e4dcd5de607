//! Client-side core of a federated Lightning wallet: quorum aggregation of
//! guardian responses, a per-guardian gateway registry with a federation-wide
//! consensus view, invoice routing, and the payment lifecycle state machines
//! for outbound (send) and inbound (receive) Lightning payments.

use vstd::prelude::*;

pub mod client;
pub mod consensus;
pub mod errors;
pub mod federation;
pub mod gateway;
pub mod invoice;
pub mod operation;
pub mod payment;
pub mod wallet;
