//! Conditional custody of value between parties: a crowdfunding pool, a
//! milestone- or time-based escrow, and a peer-to-peer transfer with an
//! optional escrow phase. Each contract is a deterministic state machine over
//! a record owned by its instance; identity checks, the ledger clock, storage
//! and event transport are supplied by the host around it.

pub mod contributions;
pub mod crowdfunding;
pub mod escrow;
pub mod ledger;
pub mod p2p;
pub mod party;

pub use party::Party;
