//! Processing commits in order.

pub mod epoch;
pub mod executor;
pub mod lag_monitor;
pub mod processor;
