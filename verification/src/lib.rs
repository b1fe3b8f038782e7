//! Bootstrapping a fleet by delegation: what a replica may be granted, what is sent to it, and in
//! which order.
//!
//! A holder of a capability chain delegates a weaker capability to each node that it sets up, and
//! that node does the same for the next. The modules [`abilities`], [`caveats`] and [`delegation`]
//! say what is delegated, [`trust`] proves that privilege only shrinks down the tree,
//! [`replication`] decides the steps of setting up one node, and [`conduct`] proves what those
//! steps come to.

pub mod abilities;
pub mod capability;
pub mod caveats;
pub mod clock;
pub mod conduct;
pub mod delegation;
pub mod hexadecimal;
pub mod laws;
pub mod node_id;
pub mod replication;
pub mod seeding;
pub mod text;
pub mod trust;
pub mod wire;
