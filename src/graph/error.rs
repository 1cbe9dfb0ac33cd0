//! Errors of graph editing and compilation.
use vstd::prelude::*;
use crate::graph::node::NodeId;

verus! {

/// Result of graph editing and compilation.
pub type Result<T> = core::result::Result<T, Error>;

/// Errors of graph editing and compilation.
#[derive(Debug, Clone, Copy, PartialEq, Eq, Structural)]
pub enum Error {
    /// No node with this id is in the graph.
    NodeNotFound(NodeId),
    /// The node has no port with this index; `max` is its highest port index.
    PortNotFound { node: NodeId, port: usize, max: usize },
    /// The connection would close a cycle, or the graph holds one.
    CycleDetected,
    /// The same connection exists already.
    DuplicateConnection,
    /// The graph changed since it was last compiled.
    NotCompiled,
    /// A buffer has another size than the graph.
    BufferSizeMismatch { expected: usize, actual: usize },
    /// Channel counts differ across a connection.
    ChannelMismatch,
}

} // verus!
