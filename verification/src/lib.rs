//! A discrete-event simulation kernel for queueing networks.
//!
//! A network is a directed graph of stations: sources create work items,
//! service stations hold them in bounded queues and process them on parallel
//! devices, sinks dispose of them. A virtual clock advances strictly by
//! jumping between scheduled events, and every resource keeps an append-only
//! history of `(time, value)` samples from which time-weighted statistics are
//! computed exactly.
//!
//! Virtual time is measured in integer ticks (`u64`); the tick granularity is
//! chosen by the caller. Time-weighted averages are reported as exact
//! [`stats::Ratio`] values instead of floating-point approximations.

use vstd::prelude::*;

pub mod blocks;
pub mod devices;
pub mod distributions;
pub mod events;
pub mod network;
pub mod queues;
pub mod routers;
pub mod stats;
pub mod weighted_average;

verus! {

/// Identifies a block within a network: an index into the network's block
/// registry. A block's identifier never changes after creation.
pub type BlockId = usize;

/// A fatal simulation fault: a scheduling or configuration bug, never an
/// expected runtime condition. Expected backpressure (a full queue, a busy
/// device) is counted as a rejection instead and is not an error.
#[derive(Clone, Copy, Debug, PartialEq, Eq, Structural)]
pub enum SimError {
    /// An event named a block id that is not in the block registry.
    UnknownBlock(BlockId),
    /// A service completion was dispatched to a block whose devices do not
    /// hold the completed work item.
    MissingItem(BlockId),
    /// A block was asked to act at a virtual time earlier than one of its
    /// recorded history samples: an event was scheduled in the past.
    TimeRegression(BlockId),
    /// A router names a candidate block id that is not in the registry or
    /// that does not expose a queue.
    BadRoute(BlockId),
    /// A shared queue handle names a pool member that does not exist.
    UnknownPoolMember(usize),
}

} // verus!
