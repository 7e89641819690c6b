//! A verified call-center dispatch engine.
//!
//! Synthetic calls are generated with a department derived from the call id,
//! queued, matched in FIFO order to available agents of the same department,
//! and matched agents are periodically returned to the available pool.

pub mod dispatch;
pub mod domain;
pub mod laws;
mod rng;
