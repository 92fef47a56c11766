//! Resolves a point in time to the latest chain slot whose block time is at or
//! before it.
//!
//! The search is a state machine: [`resolver::Resolver`] names the next
//! request to put to the chain and takes the answer as an event. Whoever
//! drives it performs the requests; [`fixture::SimChain`] does so against a
//! chain held in memory. [`replay`] says what a chain makes of a resolution,
//! and [`laws`] and [`walks`] what holds of it. [`gateway`] reads the replies
//! of an RPC endpoint.

pub mod config;
pub mod timeline;
pub mod tiebreak;
pub mod probe;
pub mod resolver;
pub mod replay;
pub mod laws;
pub mod walks;
pub mod fixture;
pub mod gateway;
