//! A single-authority score ledger: one authority records signed scores per
//! address, and anyone may read the authority or a score. Scores are keyed
//! by a bare address.

pub mod addr;
pub mod error;
pub mod state;
pub mod msg;
pub mod contract;
pub mod laws;
