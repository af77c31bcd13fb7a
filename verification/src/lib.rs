//! A verified core for an HTTP reverse proxy with dynamic route interception.
//!
//! The crate has three parts: a rule store mapping route patterns to
//! interception actions with longest segment-aligned prefix lookup, a
//! control-plane command handler that mutates the store, and a forwarding
//! planner that reconstructs an outbound request and relays an upstream
//! response with transport-framing headers removed.

pub mod control;
pub mod forward;
pub mod store;
