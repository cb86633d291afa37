//! The calls and events of single modules of the node, declared by hand.

pub mod contracts;
