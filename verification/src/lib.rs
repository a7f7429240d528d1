//! A growable array that manages its own slot storage: an owned block of
//! slots, a doubling growth policy, positional insertion and removal, and a
//! double-ended consuming iterator.
pub mod array;
pub mod growth;
pub mod iter;
pub mod laws;
pub mod marker;
pub mod nondet;
pub mod raw;
