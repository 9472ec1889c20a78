//! Size-aware concatenation of two producers of items.
//!
//! An [`ExactChain`] yields every item of a first producer and then every item
//! of a second one. It combines the size estimates of the two, and reports an
//! exact remaining length whenever both of them can.
//!
//! - [`producer`] holds the interface of a producer and its two refinements,
//!   fused and exact.
//! - [`sources`] holds producers to start from.
//! - [`chain`] holds the chain itself and the method that builds it.
//! - [`laws`] holds what is proved of a chain over any number of pulls.

pub mod producer;
pub mod sources;
pub mod chain;
pub mod laws;

pub use chain::{combine_size_hints, ExactChain, IteratorExt};
pub use producer::{ExactProducer, FusedProducer, Producer};
pub use sources::{repeat, Repeat};
