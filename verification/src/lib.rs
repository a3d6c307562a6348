//! Core of a live-preview markup editor: debounced re-parse scheduling,
//! staleness-gated installation of parse results, and the mapping from a
//! flat token stream to renderable nodes.
//!
//! The host shell owns the input surface, the timer facility and the
//! tokenizer for the markup grammar; this crate owns the state machine that
//! decides when a re-parse result is still relevant and how its tokens
//! become rendered nodes.

pub mod render;
pub mod session;
pub mod token;
