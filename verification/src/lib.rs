//! Decision core of a consensus node: it turns the commits of a DAG consensus engine into a
//! gap-free, totally ordered stream of blocks for an execution engine, and keeps a node's epoch,
//! mode and synchronisation state consistent while it does so.
//!
//! Everything in this crate is free of I/O. Clocks, sockets, files and the consensus engine are
//! driven by the surrounding application, which feeds events in and carries actions out.

pub mod chunks;
pub mod clock;
pub mod consensus;
pub mod deps;
pub mod lex;
pub mod network;
pub mod node;
pub mod sorting;
pub mod text;
