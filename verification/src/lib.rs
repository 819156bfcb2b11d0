//! A composition framework for chained packet-processing stages.
//!
//! Elements transform packets one at a time; links compose an element with an
//! upstream lazy sequence, either synchronously (zero buffering) or through a
//! capacity-bounded queue that decouples production from consumption and
//! provides backpressure.

pub mod api;
pub mod utils;
