//! The immutable plan handed to the real-time thread.
use vstd::prelude::*;
use crate::graph::connection::Connection;
use crate::graph::node::NodeId;
use crate::graph::select;

verus! {

/// Connections that end at `n`.
pub open spec fn ends_at(n: NodeId) -> spec_fn(Connection) -> bool {
    |c: Connection| c.dest_node == n
}

/// Connections that start at `n`.
pub open spec fn starts_at(n: NodeId) -> spec_fn(Connection) -> bool {
    |c: Connection| c.source_node == n
}

/// A compiled graph: the processing order, the connections and the block
/// size, with no way to change them. It shares nothing with the graph that
/// produced it.
pub struct GraphProcessor {
    processing_order: Vec<NodeId>,
    connections: Vec<Connection>,
    buffer_size: usize,
}

impl GraphProcessor {
    /// The order in which the nodes run.
    pub closed spec fn spec_order(&self) -> Seq<NodeId> {
        self.processing_order@
    }

    /// The connections between the nodes.
    pub closed spec fn spec_connections(&self) -> Seq<Connection> {
        self.connections@
    }

    /// The block size in frames.
    pub closed spec fn spec_buffer_size(&self) -> usize {
        self.buffer_size
    }

    pub(crate) fn new(
        processing_order: Vec<NodeId>,
        connections: Vec<Connection>,
        buffer_size: usize,
    ) -> (r: Self)
        ensures
            r.spec_order() == processing_order@,
            r.spec_connections() == connections@,
            r.spec_buffer_size() == buffer_size,
    {
        GraphProcessor { processing_order, connections, buffer_size }
    }

    /// Returns the order in which the nodes run.
    pub fn processing_order(&self) -> (r: &[NodeId])
        ensures
            r@ == self.spec_order(),
    {
        self.processing_order.as_slice()
    }

    /// Returns the connections.
    pub fn connections(&self) -> (r: &[Connection])
        ensures
            r@ == self.spec_connections(),
    {
        self.connections.as_slice()
    }

    /// Returns the block size in frames.
    pub fn buffer_size(&self) -> (r: usize)
        ensures
            r == self.spec_buffer_size(),
    {
        self.buffer_size
    }

    /// Returns the connections into `node`, in connection order.
    pub fn inputs_for(&self, node: NodeId) -> (r: Vec<Connection>)
        ensures
            r@ == select(self.spec_connections(), ends_at(node)),
    {
        let mut r: Vec<Connection> = Vec::new();
        let mut i: usize = 0;
        while i < self.connections.len()
            invariant
                i <= self.connections@.len(),
                r@ == select(self.connections@.take(i as int), ends_at(node)),
            decreases self.connections@.len() - i,
        {
            let c = self.connections[i];
            proof {
                assert(self.connections@.take(i + 1).drop_last() =~= self.connections@.take(
                    i as int,
                ));
            }
            if c.dest_node == node {
                r.push(c);
            }
            i = i + 1;
        }
        proof {
            assert(self.connections@.take(i as int) =~= self.connections@);
        }
        r
    }

    /// Returns the connections out of `node`, in connection order.
    pub fn outputs_from(&self, node: NodeId) -> (r: Vec<Connection>)
        ensures
            r@ == select(self.spec_connections(), starts_at(node)),
    {
        let mut r: Vec<Connection> = Vec::new();
        let mut i: usize = 0;
        while i < self.connections.len()
            invariant
                i <= self.connections@.len(),
                r@ == select(self.connections@.take(i as int), starts_at(node)),
            decreases self.connections@.len() - i,
        {
            let c = self.connections[i];
            proof {
                assert(self.connections@.take(i + 1).drop_last() =~= self.connections@.take(
                    i as int,
                ));
            }
            if c.source_node == node {
                r.push(c);
            }
            i = i + 1;
        }
        proof {
            assert(self.connections@.take(i as int) =~= self.connections@);
        }
        r
    }
    /// Returns the index of the first connection into `node` at or after
    /// index `from`, without allocating: the real-time thread walks a node's
    /// inputs by calling this with one past the last index it got.
    pub fn next_input(&self, node: NodeId, from: usize) -> (r: Option<usize>)
        ensures
            r matches Some(i) ==> from <= i < self.spec_connections().len()
                && self.spec_connections()[i as int].dest_node == node && forall|j: int|
                from <= j < i ==> self.spec_connections()[j].dest_node != node,
            r is None ==> forall|j: int|
                from <= j < self.spec_connections().len() ==> self.spec_connections()[j].dest_node
                    != node,
    {
        let mut i = from;
        while i < self.connections.len()
            invariant
                from <= i,
                forall|j: int| from <= j < i ==> self.connections@[j].dest_node != node,
            decreases self.connections@.len() - i,
        {
            if self.connections[i].dest_node == node {
                return Some(i);
            }
            i = i + 1;
        }
        None
    }

    /// Returns the index of the first connection out of `node` at or after
    /// index `from`, without allocating.
    pub fn next_output(&self, node: NodeId, from: usize) -> (r: Option<usize>)
        ensures
            r matches Some(i) ==> from <= i < self.spec_connections().len()
                && self.spec_connections()[i as int].source_node == node && forall|j: int|
                from <= j < i ==> self.spec_connections()[j].source_node != node,
            r is None ==> forall|j: int|
                from <= j < self.spec_connections().len() ==> self.spec_connections()[j].source_node
                    != node,
    {
        let mut i = from;
        while i < self.connections.len()
            invariant
                from <= i,
                forall|j: int| from <= j < i ==> self.connections@[j].source_node != node,
            decreases self.connections@.len() - i,
        {
            if self.connections[i].source_node == node {
                return Some(i);
            }
            i = i + 1;
        }
        None
    }
}

} // verus!
