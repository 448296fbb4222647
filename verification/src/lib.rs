//! Search engine for profitable transaction interleavings on constant-product
//! automated market makers: mempool deduplication, sandwich and arbitrage
//! opportunity search, candidate simulation, and authenticated bundle
//! submission envelopes.

pub mod amm;
pub mod arbitrage;
pub mod auxiliary;
pub mod calldata;
pub mod dedup;
pub mod encode;
pub mod engine;
pub mod bundle;
pub mod relay;
pub mod simulator;
pub mod sandwich;
pub mod types;
pub mod u256;
