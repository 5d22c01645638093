//! A bounded first-in, first-out queue over storage that is allocated once.
//!
//! [`RingBuffer`] keeps its elements in a fixed block of slots and walks two
//! indices round it. Every operation is total: a push onto a full buffer hands
//! the value back, a pop from an empty one returns `None`.
//!
//! The contracts speak of a buffer through its view, the sequence of queued
//! elements from oldest to newest, and through its capacity. The functions in
//! [`model`] say what one push or pop does to that sequence; [`laws`] proves
//! what follows for whole runs of operations.

pub mod buffer;
pub mod iter;
pub mod laws;
pub mod model;

pub use buffer::RingBuffer;
pub use iter::IntoIter;
