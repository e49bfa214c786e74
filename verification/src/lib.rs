//! Interaction core of a single-page client application: a counter demo, an
//! "infinite" image browser backed by a look-ahead batch prefetch pipeline,
//! and a small collection of mini-games (rock-paper-scissors, number
//! guessing, memory-card matching) behind a hash-based router.
//!
//! The library holds the stateful interaction core only: the state machines
//! that turn discrete user intents into deterministic state transitions.
//! Rendering, DOM access and process bootstrap are external collaborators
//! that consume the state snapshots this crate produces.

pub mod container;
pub mod gallery;
pub mod games;
pub mod parse;
pub mod rng;
pub mod route;
pub mod strutil;
