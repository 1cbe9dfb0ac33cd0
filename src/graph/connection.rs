//! Directed edges between node ports.
use vstd::prelude::*;
use crate::graph::node::NodeId;

verus! {

/// Edge from an output port of one node to an input port of another.
/// Two connections are equal when all four fields are.
#[derive(Debug, Clone, Copy, PartialEq, Eq, Hash, Structural)]
pub struct Connection {
    /// Node that produces the signal.
    pub source_node: NodeId,
    /// Output port of the source node.
    pub source_port: usize,
    /// Node that receives the signal.
    pub dest_node: NodeId,
    /// Input port of the destination node.
    pub dest_port: usize,
}

impl Connection {
    /// Creates a connection.
    pub fn new(source_node: NodeId, source_port: usize, dest_node: NodeId, dest_port: usize) -> (r:
        Self)
        ensures
            r == (Connection { source_node, source_port, dest_node, dest_port }),
    {
        Connection { source_node, source_port, dest_node, dest_port }
    }
}

/// Builds a connection from its source end first.
#[derive(Debug, Clone, Copy)]
pub struct ConnectionBuilder {
    source_node: NodeId,
    source_port: usize,
}

impl ConnectionBuilder {
    /// The source node of the connection under construction.
    pub closed spec fn spec_source(&self) -> (NodeId, usize) {
        (self.source_node, self.source_port)
    }

    /// Starts a connection at an output port.
    pub fn from(node: NodeId, port: usize) -> (r: Self)
        ensures
            r.spec_source() == (node, port),
    {
        ConnectionBuilder { source_node: node, source_port: port }
    }

    /// Ends the connection at an input port.
    pub fn to(self, node: NodeId, port: usize) -> (r: Connection)
        ensures
            r == (Connection {
                source_node: self.spec_source().0,
                source_port: self.spec_source().1,
                dest_node: node,
                dest_port: port,
            }),
    {
        Connection::new(self.source_node, self.source_port, node, port)
    }
}

} // verus!
