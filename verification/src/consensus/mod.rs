//! From commits of the consensus engine to blocks of the execution engine.

pub mod checkpoint;
pub mod commit_processor;
pub mod subdag;
pub mod tx_recycler;
