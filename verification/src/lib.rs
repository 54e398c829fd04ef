//! Utilities for code that consumes an ordered, one-pass source of values:
//! a bounded lookahead buffer over an iterator, an iterator that yields
//! nothing, and the grouping of a slice into runs of equivalent neighbours.

pub mod buffer;
pub mod empty;
pub mod equivalence_class;
pub mod lookahead;
