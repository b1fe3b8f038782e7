//! What the operations of the library are for, said of their inputs and results alone.
//!
//! Each law relates a result to its inputs by their elements: the texts, numbers and positions that
//! a caller sees. Together the laws of an operation determine its result for every input.

pub mod conducting;
pub mod counting;
pub mod fields;
pub mod granting;
pub mod replicating;
pub mod writing;
