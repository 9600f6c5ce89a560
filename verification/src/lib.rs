//! A hybrid decision engine that routes a natural-language request to exactly
//! one callable tool, trying an on-device inference backend, a deterministic
//! keyword heuristic, and a remote cloud backend in strict priority order.
//!
//! Untrusted model output is validated and confidence-gated at each step, so
//! that only well-formed, text-grounded tool invocations execute.

pub mod auto_mechanic;
pub mod cloud;
pub mod engine;
pub mod heuristic;
pub mod mac_troubleshoot;
pub mod registry;
pub mod reports;
pub mod schema;
pub mod text;
pub mod validate;
