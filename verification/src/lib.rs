//! A pooled-contribution payout ledger.
//!
//! Participants deposit funds into a shared pool. Once a configured
//! participant quota is reached, the longest-waiting participant may request
//! a payout; a privileged operator approves it, which pays the pool total to
//! that participant and advances a FIFO queue. The ledger rolls into a new
//! cycle once every queued participant of the prior cycle has been paid.
//!
//! The ledger itself is a pure state machine: the caller identity, the value
//! moved with a contribution, and the outcome of the outward value transfer
//! are supplied by the host environment as explicit arguments. Every
//! operation is a single atomic state transition with a full contract.

pub mod ledger;
pub mod laws;

pub use crate::ledger::AccountId;
pub use crate::ledger::Approval;
pub use crate::ledger::Balance;
pub use crate::ledger::Error;
pub use crate::ledger::Raiser;
pub use crate::ledger::Transfer;
