//! The swap instruction of a two-asset constant-product pool: pricing with a
//! fee, the slippage bound, and the two transfers that settle a swap, which
//! happen together or not at all.

pub mod curve;
pub mod error;
pub mod ledger;
pub mod pool;
pub mod swap;
