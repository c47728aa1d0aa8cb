//! Waiting lines: the bounded FIFO queue of a single station, and the shared
//! pool that rebalances queue lengths across stations.

pub mod regular;
pub mod shared;
