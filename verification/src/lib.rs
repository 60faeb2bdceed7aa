//! Remote clock monitor: decodes raw clock-account notifications into
//! structured snapshots and republishes a deduplicated, strictly increasing
//! sequence of wall-clock timestamps.

pub mod codec;
pub mod filter;
pub mod session;
