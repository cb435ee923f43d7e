//! A single-flight memoization cell.
//!
//! A `Thunky` coordinates many callers around one possibly expensive
//! producer: the producer runs at most once per successful result, concurrent
//! callers of an in-flight round are coalesced into one producer invocation,
//! and a failed round resets the cell so the next caller retries.
//!
//! The cell itself is a pure state machine over plain values: `run` tells the
//! caller whether to launch the producer, and `cache` hands back the queued
//! completions to notify. A driver that owns the producer and the completion
//! callbacks runs that loop around the cell.

pub mod cell;
pub mod laws;
pub mod model;
pub mod trace;

pub use cell::Action;
pub use cell::Thunky;
pub use model::Model;
pub use model::Phase;
