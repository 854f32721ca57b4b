//! A periodic lottery settlement engine.
//!
//! The crate manages a registry of numbered draws, each with a betting
//! window gated by an external block clock, a pseudo-random winning number,
//! and a deterministic distribution of bet proceeds and jackpot at close.
//! Every operation takes an explicit execution context (caller identity and
//! clock reading) and returns a typed outcome; operations that pay out
//! return the list of asset-transfer intents for the host to execute.

pub mod errors;
pub mod state;
pub mod random;
pub mod engine;
pub mod laws;
