//! Verified accounting and lifecycle logic for a single real-world-asset vault.

pub mod books;
pub mod factory;
pub mod laws;
pub mod ledger;
pub mod math;
pub mod types;
pub mod vault;
