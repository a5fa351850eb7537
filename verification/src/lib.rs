//! A small forwarding HTTP proxy engine: a lifecycle state machine with a
//! command channel, a traffic filter with allow/deny polarity, a request log,
//! and the per-request dispatch rules (forward, CONNECT tunnel, block).
//!
//! The engine itself is pure: all socket work is done by a thin runner that
//! feeds lifecycle events and request methods and URIs into the types
//! defined here, and executes the plans they return.

pub mod dispatch;
pub mod filter;
pub mod logger;
pub mod proxy;
pub mod text;
pub mod uri;
