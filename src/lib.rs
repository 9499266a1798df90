//! Binary (YES/NO) consensus for small peer groups, in the style of a hashgraph.
//!
//! Every vote is a signed record that points back to earlier votes by hash, so any
//! peer can check the whole voting history of a proposal. The crate holds the
//! consensus engine: the vote codec and validators, the tally, the per-proposal
//! session state machine, the per-scope registry with its bounded cache, and the
//! configuration rules. Transport, signing keys, timers and event delivery stay
//! with the caller.

pub mod codec;
pub mod error;
pub mod types;
pub mod utils;
pub mod session;
pub mod scope_config;
pub mod storage;
pub mod service;
pub mod invariants;
pub mod scope;
pub mod events;
