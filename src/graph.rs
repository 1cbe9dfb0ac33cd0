//! The audio graph: nodes, connections, cycle rejection and compilation into
//! a processing order.
use vstd::prelude::*;

pub mod connection;
pub mod error;
pub mod node;
pub mod nodes;
pub mod processor;
pub mod slots;

use crate::graph::connection::Connection;
use crate::graph::error::Error;
use crate::graph::node::{AudioNode, NodeId, NodeInfo};
use crate::graph::processor::GraphProcessor;
use crate::graph::slots::{
    Arena, arena_contents, arena_get, arena_order, arena_ids, arena_insert, arena_len, arena_new, arena_remove,
    is_slot_id, slot_id_form,
};

verus! {

/// Some connection leads from `a` to `b`.
pub open spec fn linked(conns: Seq<Connection>, a: NodeId, b: NodeId) -> bool {
    exists|k: int| 0 <= k < conns.len() && #[trigger] conns[k].source_node == a && conns[k].dest_node == b
}

/// `p` is a walk along connections: each node leads to the next.
pub open spec fn is_path(conns: Seq<Connection>, p: Seq<NodeId>) -> bool {
    &&& p.len() >= 1
    &&& forall|i: int| 0 <= i < p.len() - 1 ==> linked(conns, #[trigger] p[i], p[i + 1])
}

/// `to` can be reached from `from` along connections (every node reaches itself).
pub open spec fn reachable(conns: Seq<Connection>, from: NodeId, to: NodeId) -> bool {
    exists|p: Seq<NodeId>| #[trigger] is_path(conns, p) && p[0] == from && p.last() == to
}

/// Every connection's source comes before its destination in `order`.
pub open spec fn respects_edges(order: Seq<NodeId>, conns: Seq<Connection>) -> bool {
    forall|k: int, i: int, j: int|
        #![trigger conns[k], order[i], order[j]]
        0 <= k < conns.len() && 0 <= i < order.len() && 0 <= j < order.len() && order[i]
            == conns[k].source_node && order[j] == conns[k].dest_node ==> i < j
}

/// `order` lists every node of `nodes` exactly once and respects every connection.
pub open spec fn is_processing_order(
    order: Seq<NodeId>,
    nodes: Set<u64>,
    conns: Seq<Connection>,
) -> bool {
    &&& order.no_duplicates()
    &&& forall|x: NodeId| order.contains(x) <==> nodes.contains(x.0)
    &&& respects_edges(order, conns)
}

/// Some connection from a node of `core` enters `v`.
#[verifier::opaque]
pub open spec fn fed_from(core: Set<NodeId>, conns: Seq<Connection>, v: NodeId) -> bool {
    exists|k: int|
        0 <= k < conns.len() && conns[k].dest_node == v && core.contains(
            #[trigger] conns[k].source_node,
        )
}

/// A nonempty set of nodes each of which has an incoming connection from
/// within the set: what keeps a graph from having any processing order.
pub open spec fn is_cyclic_core(core: Set<NodeId>, nodes: Set<u64>, conns: Seq<Connection>) -> bool {
    &&& exists|x: NodeId| core.contains(x)
    &&& forall|v: NodeId| #[trigger] core.contains(v) ==> nodes.contains(v.0) && fed_from(core, conns, v)
}

/// A connection from the set into `v` shows that the set feeds `v`.
pub proof fn lemma_fed_from_intro(core: Set<NodeId>, conns: Seq<Connection>, v: NodeId, k: int)
    requires
        0 <= k < conns.len(),
        conns[k].dest_node == v,
        core.contains(conns[k].source_node),
    ensures
        fed_from(core, conns, v),
{
    reveal(fed_from);
}

/// A connection that shows the set feeds `v`.
pub proof fn lemma_fed_from_elim(core: Set<NodeId>, conns: Seq<Connection>, v: NodeId) -> (k: int)
    requires
        fed_from(core, conns, v),
    ensures
        0 <= k < conns.len(),
        conns[k].dest_node == v,
        core.contains(conns[k].source_node),
{
    reveal(fed_from);
    choose|k: int|
        0 <= k < conns.len() && conns[k].dest_node == v && core.contains(
            #[trigger] conns[k].source_node,
        )
}

/// No set of nodes forms a cyclic core.
pub open spec fn acyclic(nodes: Set<u64>, conns: Seq<Connection>) -> bool {
    forall|core: Set<NodeId>| !#[trigger] is_cyclic_core(core, nodes, conns)
}

/// The connections of `conns` that `keep` accepts, in order.
pub open spec fn select(conns: Seq<Connection>, keep: spec_fn(Connection) -> bool) -> Seq<
    Connection,
>
    decreases conns.len(),
{
    if conns.len() == 0 {
        Seq::empty()
    } else {
        let rest = select(conns.drop_last(), keep);
        if keep(conns.last()) {
            rest.push(conns.last())
        } else {
            rest
        }
    }
}

/// Connections that touch `n` at neither end.
pub open spec fn avoids(n: NodeId) -> spec_fn(Connection) -> bool {
    |c: Connection| c.source_node != n && c.dest_node != n
}

/// Mutable processing topology, owned by the control thread.
///
/// Each node is kept beside its id, and its shape, read once when it is
/// added, lives in an arena keyed by `NodeId`; connections are kept in the
/// order they were made. Every edit marks the graph dirty; `compile` computes
/// a processing order and marks it clean.
pub struct AudioGraph<N> {
    nodes: Arena,
    /// The nodes themselves, each beside its id, in the order they were added.
    store: Vec<(NodeId, N)>,
    connections: Vec<Connection>,
    sample_rate: u32,
    buffer_size: usize,
    dirty: bool,
    processing_order: Vec<NodeId>,
    /// Delay to add behind each node to align paths; every entry is zero
    /// until delay compensation is designed.
    latency_compensation: Vec<(NodeId, usize)>,
}

impl<N> AudioGraph<N> {
    /// The nodes and their shapes.
    pub closed spec fn node_map(&self) -> Map<u64, NodeInfo> {
        arena_contents(self.nodes)
    }

    /// The ids of the nodes.
    pub open spec fn node_ids(&self) -> Set<u64> {
        self.node_map().dom()
    }

    /// The node ids in arena order, the order in which `compile` considers them.
    pub closed spec fn slot_order(&self) -> Seq<u64> {
        arena_order(self.nodes)
    }

    /// The nodes, each beside its id, in the order they were added.
    pub closed spec fn held(&self) -> Seq<(NodeId, N)> {
        self.store@
    }

    /// The connections, in the order they were made.
    pub closed spec fn edges(&self) -> Seq<Connection> {
        self.connections@
    }

    /// Whether the graph changed since the last successful compile.
    pub closed spec fn spec_dirty(&self) -> bool {
        self.dirty
    }

    /// The order computed by the last successful compile.
    pub closed spec fn spec_order(&self) -> Seq<NodeId> {
        self.processing_order@
    }

    /// The configured sample rate in Hz.
    pub closed spec fn spec_sample_rate(&self) -> u32 {
        self.sample_rate
    }

    /// The configured block size in frames.
    pub closed spec fn spec_buffer_size(&self) -> usize {
        self.buffer_size
    }

    /// `self` and `other` agree in everything the contracts speak of.
    pub open spec fn same_as(&self, other: AudioGraph<N>) -> bool {
        &&& self.node_map() == other.node_map()
        &&& self.edges() == other.edges()
        &&& self.spec_dirty() == other.spec_dirty()
        &&& self.spec_order() == other.spec_order()
        &&& self.spec_sample_rate() == other.spec_sample_rate()
        &&& self.spec_buffer_size() == other.spec_buffer_size()
        &&& self.held() == other.held()
    }

    /// Well-formedness: the arena is finite, every connection joins two nodes
    /// of the graph, no connection is listed twice, the connections form no
    /// cycle, every node is held once under its id, and a clean graph's order
    /// is a processing order of its current nodes and connections.
    pub open spec fn wf(&self) -> bool {
        &&& self.node_ids().finite()
        &&& forall|x: u64| #[trigger] self.node_ids().contains(x) ==> is_slot_id(x)
        &&& forall|k: int|
            0 <= k < self.edges().len() ==> self.node_ids().contains(
                (#[trigger] self.edges()[k]).source_node.0,
            ) && self.node_ids().contains(self.edges()[k].dest_node.0)
        &&& self.edges().no_duplicates()
        &&& acyclic(self.node_ids(), self.edges())
        &&& distinct_ids(self.held())
        &&& forall|x: NodeId| holds(self.held(), x) <==> self.node_ids().contains(x.0)
        &&& !self.spec_dirty() ==> is_processing_order(
            self.spec_order(),
            self.node_ids(),
            self.edges(),
        )
    }

    /// Creates an empty graph, dirty until first compiled.
    pub fn new(sample_rate: u32, buffer_size: usize) -> (r: Self)
        ensures
            r.wf(),
            r.node_map() == Map::<u64, NodeInfo>::empty(),
            r.held() == Seq::<(NodeId, N)>::empty(),
            r.edges() == Seq::<Connection>::empty(),
            r.spec_dirty(),
            r.spec_sample_rate() == sample_rate,
            r.spec_buffer_size() == buffer_size,
    {
        let nodes = arena_new();
        proof {
            assert(arena_contents(nodes) =~= Map::<u64, NodeInfo>::empty());
            assert forall|core: Set<NodeId>| !#[trigger] is_cyclic_core(
                core,
                Set::<u64>::empty(),
                Seq::<Connection>::empty(),
            ) by {
                if is_cyclic_core(core, Set::<u64>::empty(), Seq::<Connection>::empty()) {
                    let x = choose|x: NodeId| core.contains(x);
                    assert(Set::<u64>::empty().contains(x.0));
                }
            }
        }
        AudioGraph {
            nodes,
            store: Vec::new(),
            connections: Vec::new(),
            sample_rate,
            buffer_size,
            dirty: true,
            processing_order: Vec::new(),
            latency_compensation: Vec::new(),
        }
    }

    /// Returns the configured sample rate in Hz.
    pub fn sample_rate(&self) -> (r: u32)
        ensures
            r == self.spec_sample_rate(),
    {
        self.sample_rate
    }

    /// Returns the configured block size in frames.
    pub fn buffer_size(&self) -> (r: usize)
        ensures
            r == self.spec_buffer_size(),
    {
        self.buffer_size
    }

    /// Returns whether the graph changed since it was last compiled.
    pub fn is_dirty(&self) -> (r: bool)
        ensures
            r == self.spec_dirty(),
    {
        self.dirty
    }

    /// Returns the number of nodes.
    pub fn node_count(&self) -> (r: usize)
        requires
            self.wf(),
        ensures
            r == self.node_map().len(),
    {
        arena_len(&self.nodes)
    }

    /// Returns the number of connections.
    pub fn connection_count(&self) -> (r: usize)
        ensures
            r == self.edges().len(),
    {
        self.connections.len()
    }

    /// Adds `node` with the shape `info` and returns its fresh id.
    pub fn insert_node(&mut self, node: N, info: NodeInfo) -> (r: NodeId)
        requires
            old(self).wf(),
            old(self).node_map().len() < u32::MAX - 1,
        ensures
            final(self).wf(),
            !old(self).node_map().contains_key(r.0),
            final(self).node_map() == old(self).node_map().insert(r.0, info),
            final(self).held() == old(self).held().push((r, node)),
            final(self).edges() == old(self).edges(),
            final(self).spec_dirty(),
            final(self).spec_sample_rate() == old(self).spec_sample_rate(),
            final(self).spec_buffer_size() == old(self).spec_buffer_size(),
    {
        let id = arena_insert(&mut self.nodes, info);
        let ghost old_held = self.store@;
        self.store.push((NodeId(id), node));
        self.dirty = true;
        proof {
            lemma_held_push(old_held, NodeId(id), node);
            assert forall|x: NodeId| holds(self.held(), x) <==> self.node_ids().contains(x.0) by {
                if holds(old_held, x) {
                    lemma_holds_push(old_held, x, NodeId(id), node);
                }
                if holds(self.held(), x) && x != NodeId(id) {
                    lemma_holds_pop(old_held, x, NodeId(id), node);
                }
                if x == NodeId(id) {
                    assert(self.held()[old_held.len() as int].0 == x);
                }
            }
            assert forall|k: int| 0 <= k < self.edges().len() implies self.node_ids().contains(
                (#[trigger] self.edges()[k]).source_node.0,
            ) && self.node_ids().contains(self.edges()[k].dest_node.0) by {
                assert(old(self).node_ids().contains(self.edges()[k].source_node.0));
                assert(old(self).node_ids().contains(self.edges()[k].dest_node.0));
            }
            assert forall|k: int| 0 <= k < self.edges().len() implies (
            #[trigger] self.edges()[k]).dest_node.0 != id by {
                assert(old(self).node_ids().contains(self.edges()[k].dest_node.0));
            }
            lemma_fresh_node_keeps_acyclic(old(self).node_ids(), self.edges(), id);
            assert(self.node_ids() == old(self).node_ids().insert(id));
        }
        NodeId(id)
    }

    /// Returns the node with id `node_id`.
    pub fn get_node(&self, node_id: NodeId) -> (r: Result<&N, Error>)
        requires
            self.wf(),
        ensures
            self.node_map().contains_key(node_id.0) ==> r == Ok::<&N, Error>(
                &self.held()[held_index(self.held(), node_id)].1,
            ),
            !self.node_map().contains_key(node_id.0) ==> r == Err::<&N, Error>(
                Error::NodeNotFound(node_id),
            ),
    {
        match self.find_held(node_id) {
            Some(i) => Ok(&self.store[i].1),
            None => Err(Error::NodeNotFound(node_id)),
        }
    }

    /// Returns the node with id `node_id` for changing it. Its cached shape
    /// stays as it was when the node was added.
    pub fn get_node_mut(&mut self, node_id: NodeId) -> (r: Result<&mut N, Error>)
        requires
            old(self).wf(),
        ensures
            final(self).wf(),
            final(self).node_map() == old(self).node_map(),
            final(self).edges() == old(self).edges(),
            final(self).spec_dirty() == old(self).spec_dirty(),
            final(self).spec_order() == old(self).spec_order(),
            final(self).spec_sample_rate() == old(self).spec_sample_rate(),
            final(self).spec_buffer_size() == old(self).spec_buffer_size(),
            old(self).node_map().contains_key(node_id.0) ==> (r matches Ok(n) && *n == old(
                self,
            ).held()[held_index(old(self).held(), node_id)].1 && final(self).held() == old(
                self,
            ).held().update(held_index(old(self).held(), node_id), (node_id, *final(n)))),
            !old(self).node_map().contains_key(node_id.0) ==> (r matches Err(e) && e
                == Error::NodeNotFound(node_id) && final(self).held() == old(self).held()),
    {
        match self.find_held(node_id) {
            Some(i) => {
                Ok(node_at_mut(&mut self.store, i))
            },
            None => Err(Error::NodeNotFound(node_id)),
        }
    }

    /// Returns the index of `node_id`'s entry among the held nodes.
    fn find_held(&self, node_id: NodeId) -> (r: Option<usize>)
        requires
            self.wf(),
        ensures
            r matches Some(i) ==> i < self.held().len() && self.held()[i as int].0 == node_id
                && i == held_index(self.held(), node_id) && self.node_map().contains_key(
                node_id.0,
            ),
            r is None ==> !holds(self.held(), node_id) && !self.node_map().contains_key(
                node_id.0,
            ),
    {
        let mut i: usize = 0;
        while i < self.store.len()
            invariant
                self.wf(),
                i <= self.store@.len(),
                forall|j: int| 0 <= j < i ==> self.store@[j].0 != node_id,
            decreases self.store@.len() - i,
        {
            if self.store[i].0 == node_id {
                proof {
                    assert(self.held()[i as int].0 == node_id);
                    assert(holds(self.held(), node_id));
                    let t = held_index(self.held(), node_id);
                    assert(self.held()[t].0 == node_id);
                    if t != i as int {
                        assert(self.held()[t].0 != self.held()[i as int].0);
                    }
                }
                return Some(i);
            }
            i = i + 1;
        }
        None
    }

    /// Returns the shape that a node had when it was added.
    pub fn node_info(&self, node_id: NodeId) -> (r: Result<&NodeInfo, Error>)
        requires
            self.wf(),
        ensures
            self.node_map().contains_key(node_id.0) ==> r == Ok::<&NodeInfo, Error>(
                &self.node_map()[node_id.0],
            ),
            !self.node_map().contains_key(node_id.0) ==> r == Err::<&NodeInfo, Error>(
                Error::NodeNotFound(node_id),
            ),
    {
        if !slot_id_form(node_id.0) {
            return Err(Error::NodeNotFound(node_id));
        }
        match arena_get(&self.nodes, node_id.0) {
            Some(info) => Ok(info),
            None => Err(Error::NodeNotFound(node_id)),
        }
    }

    /// Removes a node and every connection that touches it.
    pub fn remove_node(&mut self, node_id: NodeId) -> (r: Result<(), Error>)
        requires
            old(self).wf(),
        ensures
            final(self).wf(),
            final(self).spec_sample_rate() == old(self).spec_sample_rate(),
            final(self).spec_buffer_size() == old(self).spec_buffer_size(),
            old(self).node_map().contains_key(node_id.0) ==> r is Ok && final(self).node_map()
                == old(self).node_map().remove(node_id.0) && final(self).held() == old(
                self,
            ).held().remove(held_index(old(self).held(), node_id)) && final(self).edges() == select(
                old(self).edges(),
                avoids(node_id),
            ) && final(self).spec_dirty(),
            !old(self).node_map().contains_key(node_id.0) ==> r == Err::<(), Error>(
                Error::NodeNotFound(node_id),
            ) && final(self).same_as(*old(self)),
    {
        if !slot_id_form(node_id.0) {
            return Err(Error::NodeNotFound(node_id));
        }
        let slot = match self.find_held(node_id) {
            Some(i) => i,
            None => return Err(Error::NodeNotFound(node_id)),
        };
        let _removed = arena_remove(&mut self.nodes, node_id.0);
        let ghost before = self.connections@;
        let mut kept: Vec<Connection> = Vec::new();
        let mut i: usize = 0;
        while i < self.connections.len()
            invariant
                i <= self.connections@.len(),
                self.connections@ == before,
                kept@ == select(before.take(i as int), avoids(node_id)),
                forall|j: int|
                    0 <= j < kept@.len() ==> before.take(i as int).contains(#[trigger] kept@[j]),
                kept@.no_duplicates(),
                before.no_duplicates(),
            decreases self.connections@.len() - i,
        {
            let c = self.connections[i];
            proof {
                assert(before.take(i + 1).drop_last() =~= before.take(i as int));
                assert(before.take(i + 1).last() == c);
            }
            if c.source_node != node_id && c.dest_node != node_id {
                proof {
                    assert(!before.take(i as int).contains(c)) by {
                        if before.take(i as int).contains(c) {
                            let j = choose|j: int| 0 <= j < i && before.take(i as int)[j] == c;
                            assert(before[j] == before[i as int]);
                        }
                    }
                }
                kept.push(c);
            }
            proof {
                assert forall|j: int| 0 <= j < kept@.len() implies before.take(i + 1).contains(
                    #[trigger] kept@[j],
                ) by {
                    if j < kept@.len() - 1 || !(c.source_node != node_id && c.dest_node != node_id) {
                        let w = kept@[j];
                        let t = choose|t: int| 0 <= t < i && before.take(i as int)[t] == w;
                        assert(before.take(i + 1)[t] == w);
                    } else {
                        assert(before.take(i + 1)[i as int] == c);
                    }
                }
            }
            i = i + 1;
        }
        proof {
            assert(before.take(i as int) =~= before);
            assert forall|k: int| 0 <= k < kept@.len() implies self.node_ids().contains(
                (#[trigger] kept@[k]).source_node.0,
            ) && self.node_ids().contains(kept@[k].dest_node.0) by {
                lemma_select_keeps(before, avoids(node_id), k);
                let t = choose|t: int| 0 <= t < before.len() && before[t] == kept@[k];
                assert(old(self).node_ids().contains(before[t].source_node.0));
                assert(old(self).node_ids().contains(before[t].dest_node.0));
                assert(kept@[k].source_node.0 != node_id.0);
                assert(kept@[k].dest_node.0 != node_id.0);
            }
            assert forall|k: int| 0 <= k < kept@.len() implies before.contains(#[trigger] kept@[k]) by {
                lemma_select_keeps(before, avoids(node_id), k);
            }
            lemma_part_keeps_acyclic(old(self).node_ids(), before, self.node_ids(), kept@);
        }
        self.connections = kept;
        self.dirty = true;
        let ghost old_held = self.store@;
        self.store.remove(slot);
        proof {
            lemma_held_remove(old_held, slot as int);
            assert(old_held == old(self).held());
            assert(old_held[slot as int].0 == node_id);
            assert forall|x: NodeId| holds(self.held(), x) <==> self.node_ids().contains(x.0) by {
                assert(holds(old_held, x) <==> old(self).node_ids().contains(x.0));
                if x.0 == node_id.0 {
                    assert(x == node_id);
                }
            }
        }
        Ok(())
    }

    /// Connects an output port to an input port.
    pub fn connect(
        &mut self,
        source_node: NodeId,
        source_port: usize,
        dest_node: NodeId,
        dest_port: usize,
    ) -> (r: Result<(), Error>)
        requires
            old(self).wf(),
        ensures
            final(self).wf(),
            final(self).node_map() == old(self).node_map(),
            final(self).spec_sample_rate() == old(self).spec_sample_rate(),
            final(self).spec_buffer_size() == old(self).spec_buffer_size(),
            r == connect_outcome(
                old(self).node_map(),
                old(self).edges(),
                Connection { source_node, source_port, dest_node, dest_port },
            ),
            r is Ok ==> final(self).edges() == old(self).edges().push(
                Connection { source_node, source_port, dest_node, dest_port },
            ) && final(self).spec_dirty(),
            r is Err ==> *final(self) == *old(self),
    {
        let source_info = match self.node_info(source_node) {
            Ok(info) => info,
            Err(e) => return Err(e),
        };
        let dest_info = match self.node_info(dest_node) {
            Ok(info) => info,
            Err(e) => return Err(e),
        };
        if source_port >= source_info.output_count {
            return Err(
                Error::PortNotFound {
                    node: source_node,
                    port: source_port,
                    max: saturating_pred(source_info.output_count),
                },
            );
        }
        if dest_port >= dest_info.input_count {
            return Err(
                Error::PortNotFound {
                    node: dest_node,
                    port: dest_port,
                    max: saturating_pred(dest_info.input_count),
                },
            );
        }
        let connection = Connection::new(source_node, source_port, dest_node, dest_port);
        if contains_connection(&self.connections, connection) {
            return Err(Error::DuplicateConnection);
        }
        if self.would_create_cycle(source_node, dest_node) {
            return Err(Error::CycleDetected);
        }
        proof {
            lemma_connect_keeps_acyclic(self.node_ids(), self.connections@, connection);
        }
        self.connections.push(connection);
        self.dirty = true;
        proof {
            assert(self.edges() == old(self).edges().push(connection));
            assert forall|k: int| 0 <= k < self.edges().len() implies self.node_ids().contains(
                (#[trigger] self.edges()[k]).source_node.0,
            ) && self.node_ids().contains(self.edges()[k].dest_node.0) by {
                if k < old(self).edges().len() {
                    assert(self.edges()[k] == old(self).edges()[k]);
                }
            }
            assert(self.edges().no_duplicates()) by {
                assert forall|a: int, b: int|
                    0 <= a < self.edges().len() && 0 <= b < self.edges().len() && a != b implies
                    self.edges()[a] != self.edges()[b] by {
                    if a == old(self).edges().len() as int {
                        assert(self.edges()[b] == old(self).edges()[b]);
                    } else if b == old(self).edges().len() as int {
                        assert(self.edges()[a] == old(self).edges()[a]);
                    } else {
                        assert(self.edges()[a] == old(self).edges()[a]);
                        assert(self.edges()[b] == old(self).edges()[b]);
                    }
                }
            }
        }
        Ok(())
    }

    /// Removes the connection equal to the one described, or fails with
    /// `NodeNotFound` naming the source node.
    pub fn disconnect(
        &mut self,
        source_node: NodeId,
        source_port: usize,
        dest_node: NodeId,
        dest_port: usize,
    ) -> (r: Result<(), Error>)
        requires
            old(self).wf(),
        ensures
            final(self).wf(),
            final(self).node_map() == old(self).node_map(),
            final(self).spec_sample_rate() == old(self).spec_sample_rate(),
            final(self).spec_buffer_size() == old(self).spec_buffer_size(),
            ({
                let c = Connection { source_node, source_port, dest_node, dest_port };
                &&& old(self).edges().contains(c) ==> r is Ok && final(self).spec_dirty()
                    && final(self).edges() == old(self).edges().remove(
                    old(self).edges().index_of(c),
                )
                &&& !old(self).edges().contains(c) ==> r == Err::<(), Error>(
                    Error::NodeNotFound(source_node),
                ) && *final(self) == *old(self)
            }),
    {
        let connection = Connection::new(source_node, source_port, dest_node, dest_port);
        let mut i: usize = 0;
        while i < self.connections.len() && self.connections[i] != connection
            invariant
                i <= self.connections@.len(),
                forall|j: int| 0 <= j < i ==> self.connections@[j] != connection,
            decreases self.connections@.len() - i,
        {
            i = i + 1;
        }
        if i == self.connections.len() {
            return Err(Error::NodeNotFound(source_node));
        }
        let ghost before = self.connections@;
        proof {
            assert(before.contains(connection));
            assert(before.index_of(connection) == i) by {
                let t = before.index_of(connection);
                if t != i as int {
                    assert(before[t] == before[i as int]);
                }
            }
        }
        self.connections.remove(i);
        self.dirty = true;
        proof {
            let after = self.connections@;
            assert(after == before.remove(i as int));
            assert forall|k: int| 0 <= k < after.len() implies self.node_ids().contains(
                (#[trigger] after[k]).source_node.0,
            ) && self.node_ids().contains(after[k].dest_node.0) by {
                if k < i {
                    assert(after[k] == before[k]);
                } else {
                    assert(after[k] == before[k + 1]);
                }
            }
            assert forall|a: int, b: int|
                0 <= a < after.len() && 0 <= b < after.len() && a != b implies after[a]
                != after[b] by {
                let a2 = if a < i { a } else { a + 1 };
                let b2 = if b < i { b } else { b + 1 };
                assert(after[a] == before[a2]);
                assert(after[b] == before[b2]);
            }
            assert forall|k: int| 0 <= k < after.len() implies before.contains(#[trigger] after[k]) by {
                if k < i {
                    assert(after[k] == before[k]);
                } else {
                    assert(after[k] == before[k + 1]);
                }
            }
            lemma_part_keeps_acyclic(self.node_ids(), before, self.node_ids(), after);
        }
        Ok(())
    }

    /// Whether `source` can be reached from `dest` along the connections:
    /// then a connection from `source` to `dest` would close a cycle.
    fn would_create_cycle(&self, source: NodeId, dest: NodeId) -> (r: bool)
        requires
            self.wf(),
            self.node_ids().contains(dest.0),
        ensures
            r == reachable(self.edges(), dest, source),
    {
        let conns = &self.connections;
        let ghost nodes = self.node_ids();
        let mut reached: Vec<NodeId> = Vec::new();
        reached.push(dest);
        proof {
            assert(is_path(conns@, seq![dest]));
        }
        let mut i: usize = 0;
        while i < reached.len()
            invariant
                self.wf(),
                conns@ == self.edges(),
                nodes == self.node_ids(),
                i <= reached@.len(),
                reached@.len() >= 1,
                reached@[0] == dest,
                reached@.no_duplicates(),
                reached@.len() <= nodes.len(),
                forall|j: int| 0 <= j < reached@.len() ==> nodes.contains((#[trigger] reached@[j]).0),
                forall|j: int|
                    0 <= j < reached@.len() ==> reachable(conns@, dest, #[trigger] reached@[j]),
                forall|j: int| 0 <= j < i ==> #[trigger] reached@[j] != source,
                forall|j: int, k: int|
                    0 <= j < i && 0 <= k < conns@.len() && #[trigger] conns@[k].source_node
                        == #[trigger] reached@[j] ==> reached@.contains(conns@[k].dest_node),
            decreases nodes.len() - i,
        {
            let node = reached[i];
            if node == source {
                return true;
            }
            let mut k: usize = 0;
            while k < conns.len()
                invariant
                    self.wf(),
                    conns@ == self.edges(),
                    nodes == self.node_ids(),
                    i < reached@.len(),
                    node == reached@[i as int],
                    node != source,
                    k <= conns@.len(),
                    reached@.len() >= 1,
                    reached@[0] == dest,
                    reached@.no_duplicates(),
                    reached@.len() <= nodes.len(),
                    forall|j: int|
                        0 <= j < reached@.len() ==> nodes.contains((#[trigger] reached@[j]).0),
                    forall|j: int|
                        0 <= j < reached@.len() ==> reachable(conns@, dest, #[trigger] reached@[j]),
                    forall|j: int| 0 <= j < i ==> #[trigger] reached@[j] != source,
                    forall|j: int, k2: int|
                        0 <= j < i && 0 <= k2 < conns@.len() && #[trigger] conns@[k2].source_node
                            == #[trigger] reached@[j] ==> reached@.contains(conns@[k2].dest_node),
                    forall|k2: int|
                        0 <= k2 < k && #[trigger] conns@[k2].source_node == node
                            ==> reached@.contains(conns@[k2].dest_node),
                decreases conns@.len() - k,
            {
                let ghost prev = reached@;
                let c = conns[k];
                if c.source_node == node && !contains_node(&reached, c.dest_node) {
                    proof {
                        let p = choose|p: Seq<NodeId>|
                            #[trigger] is_path(conns@, p) && p[0] == dest && p.last() == node;
                        assert(linked(conns@, node, c.dest_node));
                        let q = p.push(c.dest_node);
                        assert(is_path(conns@, q)) by {
                            assert forall|t: int| 0 <= t < q.len() - 1 implies linked(
                                conns@,
                                #[trigger] q[t],
                                q[t + 1],
                            ) by {
                                if t < p.len() - 1 {
                                    assert(q[t] == p[t] && q[t + 1] == p[t + 1]);
                                }
                            }
                        }
                        assert(q[0] == dest && q.last() == c.dest_node);
                        assert(nodes.contains(c.dest_node.0)) by {
                            assert(nodes.contains(conns@[k as int].dest_node.0));
                        }
                        lemma_push_distinct(reached@, c.dest_node);
                        lemma_distinct_within(reached@.push(c.dest_node), nodes);
                    }
                    reached.push(c.dest_node);
                    proof {
                        assert(reached@.last() == c.dest_node);
                    }
                }
                proof {
                    assert(reached@ == prev || reached@ == prev.push(c.dest_node));
                    assert forall|x: NodeId| prev.contains(x) implies reached@.contains(x) by {
                        let t = choose|t: int| 0 <= t < prev.len() && prev[t] == x;
                        assert(reached@[t] == x);
                    }
                    assert forall|j: int| 0 <= j < prev.len() implies reached@[j] == prev[j] by {}
                    if c.source_node == node {
                        assert(reached@.contains(c.dest_node)) by {
                            if reached@ == prev.push(c.dest_node) {
                                assert(reached@[prev.len() as int] == c.dest_node);
                            }
                        }
                    }
                }
                k = k + 1;
            }
            i = i + 1;
        }
        proof {
            if reachable(conns@, dest, source) {
                let p = choose|p: Seq<NodeId>|
                    #[trigger] is_path(conns@, p) && p[0] == dest && p.last() == source;
                lemma_closed_contains_path(conns@, reached@, p);
                let t = choose|t: int| 0 <= t < reached@.len() && reached@[t] == source;
            }
        }
        false
    }

    /// Computes a processing order and marks the graph clean. Nodes are
    /// placed one at a time, each step placing the first node in arena order
    /// whose feeding nodes are all placed (Kahn's selection of ready nodes,
    /// rescanning instead of keeping in-degree counts), so the order is a
    /// function of the arena order and the connections. Since `connect`
    /// admits no cycle this always succeeds; the `CycleDetected` branch,
    /// which leaves the graph as it was, is a defensive check.
    pub fn compile(&mut self) -> (r: Result<(), Error>)
        requires
            old(self).wf(),
        ensures
            final(self).wf(),
            final(self).node_map() == old(self).node_map(),
            final(self).edges() == old(self).edges(),
            final(self).spec_sample_rate() == old(self).spec_sample_rate(),
            final(self).spec_buffer_size() == old(self).spec_buffer_size(),
            r is Ok ==> !final(self).spec_dirty() && is_processing_order(
                final(self).spec_order(),
                final(self).node_ids(),
                final(self).edges(),
            ),
            r is Ok <==> !exists|core: Set<NodeId>|
                is_cyclic_core(core, old(self).node_ids(), old(self).edges()),
            r is Ok,
            final(self).slot_order() == old(self).slot_order(),
            final(self).spec_order() == placement(
                old(self).slot_order(),
                old(self).edges(),
                old(self).slot_order().len() as nat,
            ),
    {
        let ids = arena_ids(&self.nodes);
        let n = ids.len();
        let conns = &self.connections;
        let ghost nodes = self.node_ids();
        let order = ready_first_order(conns, &ids, Ghost(nodes));
        if order.len() != n {
            proof {
                lemma_stuck_core(order@, ids@, conns@, nodes);
            }
            return Err(Error::CycleDetected);
        }
        proof {
            lemma_complete_order(order@, ids@, nodes);
            lemma_topological_prefix_respects(order@, conns@);
            assert forall|core: Set<NodeId>| !is_cyclic_core(core, nodes, conns@) by {
                lemma_order_excludes_core(order@, nodes, conns@, core);
            }
        }
        self.processing_order = order;
        self.calculate_latency_compensation(&ids);
        self.dirty = false;
        Ok(())
    }

    /// Recomputes the delay compensation table: zero for every node.
    fn calculate_latency_compensation(&mut self, ids: &Vec<u64>)
        ensures
            final(self).nodes == old(self).nodes,
            final(self).connections == old(self).connections,
            final(self).store == old(self).store,
            final(self).processing_order == old(self).processing_order,
            final(self).dirty == old(self).dirty,
            final(self).sample_rate == old(self).sample_rate,
            final(self).buffer_size == old(self).buffer_size,
            final(self).latency_compensation@.len() == ids@.len(),
            forall|t: int|
                0 <= t < ids@.len() ==> #[trigger] final(self).latency_compensation@[t] == (
                NodeId(ids@[t]),
                0usize,
            ),
    {
        self.latency_compensation.clear();
        let mut t: usize = 0;
        while t < ids.len()
            invariant
                t <= ids@.len(),
                self.nodes == old(self).nodes,
                self.connections == old(self).connections,
                self.store == old(self).store,
                self.processing_order == old(self).processing_order,
                self.dirty == old(self).dirty,
                self.sample_rate == old(self).sample_rate,
                self.buffer_size == old(self).buffer_size,
                self.latency_compensation@.len() == t,
                forall|u: int|
                    0 <= u < t ==> #[trigger] self.latency_compensation@[u] == (
                    NodeId(ids@[u]),
                    0usize,
                ),
            decreases ids@.len() - t,
        {
            self.latency_compensation.push((NodeId(ids[t]), 0));
            t = t + 1;
        }
    }

    /// Returns a snapshot of the compiled plan for the real-time thread, or
    /// `NotCompiled` while the graph is dirty.
    pub fn create_processor(&self) -> (r: Result<GraphProcessor, Error>)
        requires
            self.wf(),
        ensures
            self.spec_dirty() ==> r == Err::<GraphProcessor, Error>(Error::NotCompiled),
            !self.spec_dirty() ==> (r matches Ok(p) && p.spec_order() == self.spec_order()
                && p.spec_connections() == self.edges() && p.spec_buffer_size()
                == self.spec_buffer_size() && is_processing_order(
                p.spec_order(),
                self.node_ids(),
                p.spec_connections(),
            )),
    {
        if self.dirty {
            return Err(Error::NotCompiled);
        }
        Ok(
            GraphProcessor::new(
                copy_ids(&self.processing_order),
                copy_connections(&self.connections),
                self.buffer_size,
            ),
        )
    }
}

impl<N: AudioNode> AudioGraph<N> {
    /// Adds `node` with the shape it reports and returns its fresh id.
    pub fn add_node(&mut self, node: N) -> (r: NodeId)
        requires
            old(self).wf(),
            old(self).node_map().len() < u32::MAX - 1,
        ensures
            final(self).wf(),
            !old(self).node_map().contains_key(r.0),
            final(self).node_map().contains_key(r.0),
            final(self).node_map().remove(r.0) == old(self).node_map(),
            final(self).held() == old(self).held().push((r, node)),
            final(self).edges() == old(self).edges(),
            final(self).spec_dirty(),
            final(self).spec_sample_rate() == old(self).spec_sample_rate(),
            final(self).spec_buffer_size() == old(self).spec_buffer_size(),
    {
        let info = node.info();
        let r = self.insert_node(node, info);
        proof {
            assert(self.node_map().remove(r.0) =~= old(self).node_map());
        }
        r
    }
}

/// The node of entry `i`, for changing it in place.
fn node_at_mut<N>(store: &mut Vec<(NodeId, N)>, i: usize) -> (r: &mut N)
    requires
        i < old(store)@.len(),
        distinct_ids(old(store)@),
    ensures
        *r == old(store)@[i as int].1,
        final(store)@ == old(store)@.update(i as int, (old(store)@[i as int].0, *final(r))),
        distinct_ids(final(store)@),
        forall|x: NodeId| holds(final(store)@, x) <==> holds(old(store)@, x),
{
    proof {
        lemma_held_update(store@, i as int, store@[i as int].0);
    }
    &mut store[i].1
}

/// Some entry of `held` belongs to the node `id`.
pub open spec fn holds<N>(held: Seq<(NodeId, N)>, id: NodeId) -> bool {
    exists|i: int| 0 <= i < held.len() && (#[trigger] held[i]).0 == id
}

/// The position of `id`'s entry in `held`.
pub open spec fn held_index<N>(held: Seq<(NodeId, N)>, id: NodeId) -> int {
    choose|i: int| 0 <= i < held.len() && (#[trigger] held[i]).0 == id
}

/// No two entries of `held` belong to one node.
pub open spec fn distinct_ids<N>(held: Seq<(NodeId, N)>) -> bool {
    forall|i: int, j: int|
        0 <= i < held.len() && 0 <= j < held.len() && i != j ==> (#[trigger] held[i]).0 != (
        #[trigger] held[j]).0
}

/// Appending an entry for a node not yet held keeps the ids distinct.
proof fn lemma_held_push<N>(held: Seq<(NodeId, N)>, id: NodeId, node: N)
    requires
        distinct_ids(held),
        !holds(held, id),
    ensures
        distinct_ids(held.push((id, node))),
{
    let h = held.push((id, node));
    assert forall|i: int, j: int|
        0 <= i < h.len() && 0 <= j < h.len() && i != j implies (#[trigger] h[i]).0 != (
        #[trigger] h[j]).0 by {
        if i < held.len() && j < held.len() {
            assert(h[i] == held[i] && h[j] == held[j]);
        } else if i < held.len() {
            assert(h[i] == held[i]);
        } else {
            assert(h[j] == held[j]);
        }
    }
}

/// An entry held before an append is held after it.
proof fn lemma_holds_push<N>(held: Seq<(NodeId, N)>, x: NodeId, id: NodeId, node: N)
    requires
        holds(held, x),
    ensures
        holds(held.push((id, node)), x),
{
    let i = choose|i: int| 0 <= i < held.len() && (#[trigger] held[i]).0 == x;
    assert(held.push((id, node))[i] == held[i]);
}

/// An entry held after an append, other than the appended one, was held before.
proof fn lemma_holds_pop<N>(held: Seq<(NodeId, N)>, x: NodeId, id: NodeId, node: N)
    requires
        holds(held.push((id, node)), x),
        x != id,
    ensures
        holds(held, x),
{
    let h = held.push((id, node));
    let i = choose|i: int| 0 <= i < h.len() && (#[trigger] h[i]).0 == x;
    assert(i < held.len());
    assert(h[i] == held[i]);
}

/// Replacing the node of one entry keeps the ids and what is held.
proof fn lemma_held_update<N>(held: Seq<(NodeId, N)>, k: int, id: NodeId)
    requires
        distinct_ids(held),
        0 <= k < held.len(),
        held[k].0 == id,
    ensures
        forall|v: N|
            #![trigger held.update(k, (held[k].0, v))]
            distinct_ids(held.update(k, (held[k].0, v))) && forall|x: NodeId|
                holds(held.update(k, (held[k].0, v)), x) <==> holds(held, x),
{
    assert forall|v: N|
        #![trigger held.update(k, (held[k].0, v))]
        distinct_ids(held.update(k, (held[k].0, v))) && forall|x: NodeId|
            holds(held.update(k, (held[k].0, v)), x) <==> holds(held, x) by {
        let h = held.update(k, (held[k].0, v));
        assert forall|i: int, j: int|
            0 <= i < h.len() && 0 <= j < h.len() && i != j implies (#[trigger] h[i]).0 != (
            #[trigger] h[j]).0 by {
            assert(h[i].0 == held[i].0 && h[j].0 == held[j].0);
        }
        assert forall|x: NodeId| holds(h, x) <==> holds(held, x) by {
            if holds(h, x) {
                let i = choose|i: int| 0 <= i < h.len() && (#[trigger] h[i]).0 == x;
                assert(h[i].0 == held[i].0);
            }
            if holds(held, x) {
                let i = choose|i: int| 0 <= i < held.len() && (#[trigger] held[i]).0 == x;
                assert(h[i].0 == held[i].0);
            }
        }
    }
}

/// Removing one entry keeps the ids distinct and holds every other node.
proof fn lemma_held_remove<N>(held: Seq<(NodeId, N)>, k: int)
    requires
        distinct_ids(held),
        0 <= k < held.len(),
    ensures
        distinct_ids(held.remove(k)),
        forall|x: NodeId| holds(held.remove(k), x) <==> (holds(held, x) && x != held[k].0),
{
    let h = held.remove(k);
    assert forall|i: int, j: int|
        0 <= i < h.len() && 0 <= j < h.len() && i != j implies (#[trigger] h[i]).0 != (
        #[trigger] h[j]).0 by {
        let i2 = if i < k { i } else { i + 1 };
        let j2 = if j < k { j } else { j + 1 };
        assert(h[i] == held[i2] && h[j] == held[j2]);
    }
    assert forall|x: NodeId| holds(h, x) <==> (holds(held, x) && x != held[k].0) by {
        if holds(h, x) {
            let i = choose|i: int| 0 <= i < h.len() && (#[trigger] h[i]).0 == x;
            let i2 = if i < k { i } else { i + 1 };
            assert(h[i] == held[i2]);
        }
        if holds(held, x) && x != held[k].0 {
            let i = choose|i: int| 0 <= i < held.len() && (#[trigger] held[i]).0 == x;
            assert(i != k);
            let i2 = if i < k { i } else { i - 1 };
            assert(h[i2] == held[i]);
        }
    }
}

/// A sequence without repeats inside a finite set is no longer than the set.
pub proof fn lemma_distinct_within(s: Seq<NodeId>, nodes: Set<u64>)
    requires
        s.no_duplicates(),
        nodes.finite(),
        forall|j: int| 0 <= j < s.len() ==> nodes.contains((#[trigger] s[j]).0),
    ensures
        s.len() <= nodes.len(),
    decreases s.len(),
{
    if s.len() > 0 {
        let x = s.last();
        let rest = s.drop_last();
        assert forall|j: int| 0 <= j < rest.len() implies nodes.remove(x.0).contains(
            (#[trigger] rest[j]).0,
        ) by {
            assert(rest[j] == s[j]);
            assert(s[j] != s[s.len() - 1]);
        }
        lemma_distinct_within(rest, nodes.remove(x.0));
    }
}

/// Appending a new element keeps a sequence free of repeats.
pub proof fn lemma_push_distinct<A>(s: Seq<A>, x: A)
    requires
        s.no_duplicates(),
        !s.contains(x),
    ensures
        s.push(x).no_duplicates(),
{
    let t = s.push(x);
    assert forall|a: int, b: int| 0 <= a < t.len() && 0 <= b < t.len() && a != b implies t[a]
        != t[b] by {
        if a == s.len() as int {
            assert(s[b] == t[b]);
        } else if b == s.len() as int {
            assert(s[a] == t[a]);
        } else {
            assert(s[a] == t[a] && s[b] == t[b]);
        }
    }
}

/// A sequence of nodes closed under following connections contains every
/// node of a path that starts in it.
pub proof fn lemma_closed_contains_path(conns: Seq<Connection>, reached: Seq<NodeId>, p: Seq<NodeId>)
    requires
        is_path(conns, p),
        reached.contains(p[0]),
        forall|j: int, k: int|
            0 <= j < reached.len() && 0 <= k < conns.len() && #[trigger] conns[k].source_node
                == #[trigger] reached[j] ==> reached.contains(conns[k].dest_node),
    ensures
        reached.contains(p.last()),
    decreases p.len(),
{
    if p.len() > 1 {
        let q = p.drop_last();
        assert(is_path(conns, q)) by {
            assert forall|i: int| 0 <= i < q.len() - 1 implies linked(conns, #[trigger] q[i], q[i + 1]) by {
                assert(q[i] == p[i] && q[i + 1] == p[i + 1]);
            }
        }
        lemma_closed_contains_path(conns, reached, q);
        let a = p[p.len() - 2];
        assert(linked(conns, p[p.len() - 2], p[p.len() - 1]));
        let k = choose|k: int|
            0 <= k < conns.len() && #[trigger] conns[k].source_node == a && conns[k].dest_node
                == p.last();
        let j = choose|j: int| 0 <= j < reached.len() && reached[j] == q.last();
        assert(conns[k].source_node == reached[j]);
    }
}

/// Placing a ready node keeps every placed node behind the nodes feeding it.
pub proof fn lemma_topological_prefix_push(order: Seq<NodeId>, conns: Seq<Connection>, v: NodeId)
    requires
        topological_prefix(order, conns),
        ready(conns, order, v),
    ensures
        topological_prefix(order.push(v), conns),
{
    let o = order.push(v);
    assert forall|k: int, j: int|
        0 <= k < conns.len() && 0 <= j < o.len() && #[trigger] o[j]
            == #[trigger] conns[k].dest_node implies o.take(j).contains(conns[k].source_node) by {
        if j < order.len() {
            assert(o[j] == order[j]);
            assert(o.take(j) =~= order.take(j));
        } else {
            assert(o.take(j) =~= order);
        }
    }
}

/// Every node of a sequence without repeats that is as long as the id list
/// and drawn from it covers the whole node set.
pub proof fn lemma_complete_order(order: Seq<NodeId>, ids: Seq<u64>, nodes: Set<u64>)
    requires
        order.no_duplicates(),
        ids.no_duplicates(),
        order.len() == ids.len(),
        forall|t: int| 0 <= t < order.len() ==> nodes.contains((#[trigger] order[t]).0),
        forall|id: u64| ids.contains(id) <==> nodes.contains(id),
    ensures
        forall|x: NodeId| order.contains(x) <==> nodes.contains(x.0),
{
    let idset = ids.to_set();
    ids.unique_seq_to_set();
    assert forall|x: NodeId| nodes.contains(x.0) implies order.contains(x) by {
        if !order.contains(x) {
            lemma_push_distinct(order, x);
            assert forall|j: int| 0 <= j < order.push(x).len() implies idset.contains(
                (#[trigger] order.push(x)[j]).0,
            ) by {
                if j < order.len() {
                    assert(order.push(x)[j] == order[j]);
                }
            }
            lemma_distinct_within(order.push(x), idset);
        }
    }
    assert forall|x: NodeId| order.contains(x) implies nodes.contains(x.0) by {
        let t = choose|t: int| 0 <= t < order.len() && order[t] == x;
    }
}

/// Some id is missing from a sequence shorter than the id list.
pub proof fn lemma_missing_member(order: Seq<NodeId>, ids: Seq<u64>)
    requires
        order.len() < ids.len(),
        ids.no_duplicates(),
    ensures
        exists|t: int| 0 <= t < ids.len() && !order.contains(NodeId(#[trigger] ids[t])),
{
    if forall|t: int| 0 <= t < ids.len() ==> order.contains(NodeId(#[trigger] ids[t])) {
        let oset = order.map_values(|x: NodeId| x.0).to_set();
        order.map_values(|x: NodeId| x.0).lemma_cardinality_of_set();
        assert forall|j: int| 0 <= j < ids.len() implies oset.contains(#[trigger] ids[j]) by {
            let t = choose|t: int| 0 <= t < order.len() && order[t] == NodeId(ids[j]);
            assert(order.map_values(|x: NodeId| x.0)[t] == ids[j]);
        }
        ids.unique_seq_to_set();
        vstd::set_lib::lemma_len_subset(ids.to_set(), oset);
    }
}

/// A topological prefix without repeats respects every connection.
pub proof fn lemma_topological_prefix_respects(order: Seq<NodeId>, conns: Seq<Connection>)
    requires
        topological_prefix(order, conns),
        order.no_duplicates(),
    ensures
        respects_edges(order, conns),
{
    assert forall|k: int, i: int, j: int|
        #![trigger conns[k], order[i], order[j]]
        0 <= k < conns.len() && 0 <= i < order.len() && 0 <= j < order.len() && order[i]
            == conns[k].source_node && order[j] == conns[k].dest_node implies i < j by {
        assert(order.take(j).contains(conns[k].source_node));
        let t = choose|t: int| 0 <= t < j && order.take(j)[t] == conns[k].source_node;
        assert(order[t] == order[i]);
    }
}

/// Each element of a selection comes from the sequence and is accepted.
pub proof fn lemma_select_keeps(
    conns: Seq<Connection>,
    keep: spec_fn(Connection) -> bool,
    k: int,
)
    requires
        0 <= k < select(conns, keep).len(),
    ensures
        conns.contains(select(conns, keep)[k]),
        keep(select(conns, keep)[k]),
    decreases conns.len(),
{
    if conns.len() > 0 {
        let rest = select(conns.drop_last(), keep);
        if k < rest.len() {
            lemma_select_keeps(conns.drop_last(), keep, k);
            let t = choose|t: int| 0 <= t < conns.len() - 1 && conns.drop_last()[t] == rest[k];
            assert(conns[t] == rest[k]);
        } else {
            assert(conns[conns.len() - 1] == conns.last());
        }
    }
}

/// Places nodes one at a time, each time the first node of `ids` that is not
/// placed yet and whose feeding nodes all are, until all are placed or none
/// is ready.
fn ready_first_order(conns: &Vec<Connection>, ids: &Vec<u64>, Ghost(nodes): Ghost<Set<u64>>) -> (r:
    Vec<NodeId>)
    requires
        ids@.no_duplicates(),
        nodes.finite(),
        forall|id: u64| ids@.contains(id) <==> nodes.contains(id),
    ensures
        r@.no_duplicates(),
        forall|t: int| 0 <= t < r@.len() ==> nodes.contains((#[trigger] r@[t]).0),
        r@.len() <= ids@.len(),
        topological_prefix(r@, conns@),
        r@.len() < ids@.len() ==> forall|t: int|
            0 <= t < ids@.len() && !r@.contains(NodeId(#[trigger] ids@[t])) ==> !ready(
                conns@,
                r@,
                NodeId(ids@[t]),
            ),
        r@ == placement(ids@, conns@, ids@.len() as nat),
{
    let n = ids.len();
    let mut order: Vec<NodeId> = Vec::new();
    loop
        invariant
            n == ids@.len(),
            ids@.no_duplicates(),
            nodes.finite(),
            forall|id: u64| ids@.contains(id) <==> nodes.contains(id),
            order@.no_duplicates(),
            forall|t: int| 0 <= t < order@.len() ==> nodes.contains((#[trigger] order@[t]).0),
            order@.len() <= n,
            topological_prefix(order@, conns@),
            order@ == placement(ids@, conns@, order@.len() as nat),
        decreases n - order@.len(),
    {
        if order.len() >= n {
            return order;
        }
        let mut a: usize = 0;
        while a < n && (contains_node(&order, NodeId(ids[a])) || !is_ready(
            conns,
            &order,
            NodeId(ids[a]),
        ))
            invariant
                a <= n,
                n == ids@.len(),
                forall|t: int|
                    0 <= t < a && !order@.contains(NodeId(#[trigger] ids@[t])) ==> !ready(
                        conns@,
                        order@,
                        NodeId(ids@[t]),
                    ),
            decreases n - a,
        {
            a = a + 1;
        }
        if a == n {
            proof {
                lemma_first_ready_skip(ids@, conns@, order@, 0, n as int);
                lemma_placement_settles(ids@, conns@, order@.len() as nat, n as nat);
            }
            return order;
        }
        let v = NodeId(ids[a]);
        proof {
            lemma_first_ready_skip(ids@, conns@, order@, 0, a as int);
            assert(placement(ids@, conns@, (order@.len() + 1) as nat) == order@.push(v));
            assert(nodes.contains(v.0)) by {
                assert(ids@.contains(ids@[a as int]));
            }
            lemma_topological_prefix_push(order@, conns@, v);
            lemma_push_distinct(order@, v);
            lemma_distinct_within(order@.push(v), nodes);
            assert(nodes.len() == n) by {
                ids@.unique_seq_to_set();
                assert(ids@.to_set() =~= nodes);
            }
        }
        order.push(v);
    }
}

/// The index of the first id from `a` on that is not placed yet and whose
/// feeding nodes all are placed.
pub open spec fn first_ready_from(
    ids: Seq<u64>,
    conns: Seq<Connection>,
    placed: Seq<NodeId>,
    a: int,
) -> Option<int>
    decreases ids.len() - a,
{
    if a < 0 || a >= ids.len() {
        None
    } else if !placed.contains(NodeId(ids[a])) && ready(conns, placed, NodeId(ids[a])) {
        Some(a)
    } else {
        first_ready_from(ids, conns, placed, a + 1)
    }
}

/// The processing order after `steps` placements, each placing the first
/// ready node of `ids`: a function of the id order and the connections.
pub open spec fn placement(ids: Seq<u64>, conns: Seq<Connection>, steps: nat) -> Seq<NodeId>
    decreases steps,
{
    if steps == 0 {
        Seq::empty()
    } else {
        let prev = placement(ids, conns, (steps - 1) as nat);
        match first_ready_from(ids, conns, prev, 0) {
            Some(a) => prev.push(NodeId(ids[a])),
            None => prev,
        }
    }
}

/// Skipping ids that are not ready does not change the first ready one.
proof fn lemma_first_ready_skip(
    ids: Seq<u64>,
    conns: Seq<Connection>,
    placed: Seq<NodeId>,
    lo: int,
    a: int,
)
    requires
        0 <= lo <= a <= ids.len(),
        forall|t: int|
            lo <= t < a && !placed.contains(NodeId(#[trigger] ids[t])) ==> !ready(
                conns,
                placed,
                NodeId(ids[t]),
            ),
    ensures
        first_ready_from(ids, conns, placed, lo) == first_ready_from(ids, conns, placed, a),
    decreases a - lo,
{
    if lo < a {
        lemma_first_ready_skip(ids, conns, placed, lo + 1, a);
    }
}

/// Once no node is ready, further placement steps change nothing.
proof fn lemma_placement_settles(ids: Seq<u64>, conns: Seq<Connection>, k: nat, m: nat)
    requires
        k <= m,
        first_ready_from(ids, conns, placement(ids, conns, k), 0) is None,
    ensures
        placement(ids, conns, m) == placement(ids, conns, k),
    decreases m - k,
{
    if k < m {
        lemma_placement_settles(ids, conns, k, (m - 1) as nat);
    }
}

/// When placing stops short, the unplaced nodes form a cyclic core: each
/// waits on a connection from another unplaced node.
pub proof fn lemma_stuck_core(order: Seq<NodeId>, ids: Seq<u64>, conns: Seq<Connection>, nodes: Set<u64>)
    requires
        order.len() < ids.len(),
        ids.no_duplicates(),
        forall|id: u64| ids.contains(id) <==> nodes.contains(id),
        forall|k: int|
            0 <= k < conns.len() ==> nodes.contains((#[trigger] conns[k]).source_node.0)
                && nodes.contains(conns[k].dest_node.0),
        forall|t: int|
            0 <= t < ids.len() && !order.contains(NodeId(#[trigger] ids[t])) ==> !ready(
                conns,
                order,
                NodeId(ids[t]),
            ),
    ensures
        exists|core: Set<NodeId>| is_cyclic_core(core, nodes, conns),
{
    let n = ids.len();
    let core = Set::new(|x: NodeId| nodes.contains(x.0) && !order.contains(x));
    assert(exists|x: NodeId| core.contains(x)) by {
        lemma_missing_member(order, ids);
        let t = choose|t: int| 0 <= t < n && !order.contains(NodeId(#[trigger] ids[t]));
        assert(ids.contains(ids[t]));
        assert(core.contains(NodeId(ids[t])));
    }
    assert forall|v: NodeId| #[trigger] core.contains(v) implies nodes.contains(v.0) && fed_from(
        core,
        conns,
        v,
    ) by {
        assert(ids.contains(v.0));
        let t = choose|t: int| 0 <= t < n && ids[t] == v.0;
        assert(NodeId(ids[t]) == v);
        assert(!ready(conns, order, NodeId(ids[t])));
        let k = choose|k: int|
            0 <= k < conns.len() && #[trigger] conns[k].dest_node == v && !order.contains(
                conns[k].source_node,
            );
        assert(nodes.contains(conns[k].source_node.0));
        assert(core.contains(conns[k].source_node));
        lemma_fed_from_intro(core, conns, v, k);
    }
    assert(is_cyclic_core(core, nodes, conns));
}

/// A graph with a processing order has no cyclic core: the node of a core
/// placed first would need a node of the core placed before it.
pub proof fn lemma_order_excludes_core(
    order: Seq<NodeId>,
    nodes: Set<u64>,
    conns: Seq<Connection>,
    core: Set<NodeId>,
)
    requires
        is_processing_order(order, nodes, conns),
    ensures
        !is_cyclic_core(core, nodes, conns),
{
    if is_cyclic_core(core, nodes, conns) {
        lemma_core_placed_late(order, nodes, conns, core, order.len() as nat);
        let x = choose|x: NodeId| core.contains(x);
        assert(order.contains(x));
        let i = choose|i: int| 0 <= i < order.len() && order[i] == x;
    }
}

/// No node of a cyclic core sits before position `n` of a processing order.
proof fn lemma_core_placed_late(
    order: Seq<NodeId>,
    nodes: Set<u64>,
    conns: Seq<Connection>,
    core: Set<NodeId>,
    n: nat,
)
    requires
        is_processing_order(order, nodes, conns),
        is_cyclic_core(core, nodes, conns),
    ensures
        forall|i: int| 0 <= i < n && i < order.len() ==> !core.contains(#[trigger] order[i]),
    decreases n,
{
    if n > 0 {
        lemma_core_placed_late(order, nodes, conns, core, (n - 1) as nat);
        assert forall|i: int| 0 <= i < n && i < order.len() implies !core.contains(
            #[trigger] order[i],
        ) by {
            if i == n - 1 && core.contains(order[i]) {
                let v = order[i];
                let k = lemma_fed_from_elim(core, conns, v);
                let u = conns[k].source_node;
                assert(nodes.contains(u.0));
                assert(order.contains(u));
                let j = choose|j: int| 0 <= j < order.len() && order[j] == u;
                assert(j < i);
            }
        }
    }
}

/// Prepending a node linked to the start of a path gives a path.
pub proof fn lemma_path_prepend(conns: Seq<Connection>, u: NodeId, p: Seq<NodeId>)
    requires
        is_path(conns, p),
        linked(conns, u, p[0]),
    ensures
        is_path(conns, seq![u] + p),
        (seq![u] + p)[0] == u,
        (seq![u] + p).last() == p.last(),
{
    let q = seq![u] + p;
    assert forall|i: int| 0 <= i < q.len() - 1 implies linked(conns, #[trigger] q[i], q[i + 1]) by {
        if i == 0 {
            assert(q[0] == u && q[1] == p[0]);
        } else {
            assert(q[i] == p[i - 1] && q[i + 1] == p[i]);
        }
    }
}

/// Adding a connection from `c.source_node` to `c.dest_node` keeps a graph
/// acyclic when the source cannot be reached from the destination.
pub proof fn lemma_connect_keeps_acyclic(nodes: Set<u64>, conns: Seq<Connection>, c: Connection)
    requires
        acyclic(nodes, conns),
        !reachable(conns, c.dest_node, c.source_node),
    ensures
        acyclic(nodes, conns.push(c)),
{
    assert forall|core: Set<NodeId>| !#[trigger] is_cyclic_core(core, nodes, conns.push(c)) by {
        if is_cyclic_core(core, nodes, conns.push(c)) {
            let late = lemma_core_before_connect(nodes, conns, c, core);
        }
    }
}

/// A cyclic core after adding a connection that closes no cycle leaves a
/// cyclic core before it: the core's nodes from which the source is reached.
proof fn lemma_core_before_connect(
    nodes: Set<u64>,
    conns: Seq<Connection>,
    c: Connection,
    core: Set<NodeId>,
) -> (late: Set<NodeId>)
    requires
        acyclic(nodes, conns),
        !reachable(conns, c.dest_node, c.source_node),
        is_cyclic_core(core, nodes, conns.push(c)),
    ensures
        is_cyclic_core(late, nodes, conns),
{
    let grown = conns.push(c);
    assert(!is_cyclic_core(core, nodes, conns));
    let v = choose|v: NodeId| #[trigger] core.contains(v) && !(nodes.contains(v.0) && fed_from(core, conns, v));
    let k1 = lemma_fed_from_elim(core, grown, v);
    if k1 < conns.len() {
        assert(grown[k1] == conns[k1]);
        lemma_fed_from_intro(core, conns, v, k1);
    }
    assert(k1 == conns.len());
    assert(core.contains(c.source_node));
    let late = Set::new(|w: NodeId| core.contains(w) && reachable(conns, w, c.source_node));
    assert(is_path(conns, seq![c.source_node]));
    assert(late.contains(c.source_node));
    assert forall|w: NodeId| #[trigger] late.contains(w) implies nodes.contains(w.0) && fed_from(
        late,
        conns,
        w,
    ) by {
        let k2 = lemma_fed_from_elim(core, grown, w);
        if k2 == conns.len() {
            assert(w == c.dest_node);
        } else {
            assert(grown[k2] == conns[k2]);
            let u = conns[k2].source_node;
            let p = choose|p: Seq<NodeId>|
                #[trigger] is_path(conns, p) && p[0] == w && p.last() == c.source_node;
            assert(linked(conns, u, p[0])) by {
                assert(conns[k2].source_node == u && conns[k2].dest_node == p[0]);
            }
            lemma_path_prepend(conns, u, p);
            assert(late.contains(u));
            lemma_fed_from_intro(late, conns, w, k2);
        }
    }
    late
}

/// Fewer nodes and a part of the connections stay acyclic.
pub proof fn lemma_part_keeps_acyclic(
    nodes: Set<u64>,
    conns: Seq<Connection>,
    fewer: Set<u64>,
    part: Seq<Connection>,
)
    requires
        acyclic(nodes, conns),
        fewer.subset_of(nodes),
        forall|k: int| 0 <= k < part.len() ==> conns.contains(#[trigger] part[k]),
    ensures
        acyclic(fewer, part),
{
    assert forall|core: Set<NodeId>| !#[trigger] is_cyclic_core(core, fewer, part) by {
        if is_cyclic_core(core, fewer, part) {
            lemma_core_of_part(nodes, conns, fewer, part, core);
        }
    }
}

/// A cyclic core over fewer nodes and part of the connections is one over all.
proof fn lemma_core_of_part(
    nodes: Set<u64>,
    conns: Seq<Connection>,
    fewer: Set<u64>,
    part: Seq<Connection>,
    core: Set<NodeId>,
)
    requires
        fewer.subset_of(nodes),
        forall|k: int| 0 <= k < part.len() ==> conns.contains(#[trigger] part[k]),
        is_cyclic_core(core, fewer, part),
    ensures
        is_cyclic_core(core, nodes, conns),
{
    assert forall|v: NodeId| #[trigger] core.contains(v) implies nodes.contains(v.0) && fed_from(
        core,
        conns,
        v,
    ) by {
        let k2 = lemma_fed_from_elim(core, part, v);
        assert(conns.contains(part[k2]));
        let k = choose|k: int| 0 <= k < conns.len() && conns[k] == part[k2];
        lemma_fed_from_intro(core, conns, v, k);
    }
}

/// A node that no connection enters joins no cyclic core.
pub proof fn lemma_fresh_node_keeps_acyclic(nodes: Set<u64>, conns: Seq<Connection>, id: u64)
    requires
        acyclic(nodes, conns),
        forall|k: int| 0 <= k < conns.len() ==> (#[trigger] conns[k]).dest_node.0 != id,
    ensures
        acyclic(nodes.insert(id), conns),
{
    assert forall|core: Set<NodeId>| !#[trigger] is_cyclic_core(core, nodes.insert(id), conns) by {
        if is_cyclic_core(core, nodes.insert(id), conns) {
            lemma_core_without_fresh(nodes, conns, id, core);
        }
    }
}

/// A cyclic core cannot hold a node that no connection enters.
proof fn lemma_core_without_fresh(
    nodes: Set<u64>,
    conns: Seq<Connection>,
    id: u64,
    core: Set<NodeId>,
)
    requires
        forall|k: int| 0 <= k < conns.len() ==> (#[trigger] conns[k]).dest_node.0 != id,
        is_cyclic_core(core, nodes.insert(id), conns),
    ensures
        is_cyclic_core(core, nodes, conns),
{
    assert forall|v: NodeId| #[trigger] core.contains(v) implies nodes.contains(v.0) && fed_from(
        core,
        conns,
        v,
    ) by {
        let k = lemma_fed_from_elim(core, conns, v);
        assert(v.0 != id);
    }
}

/// Every connection into a node of `order` comes from a node placed before it.
pub open spec fn topological_prefix(order: Seq<NodeId>, conns: Seq<Connection>) -> bool {
    forall|k: int, j: int|
        0 <= k < conns.len() && 0 <= j < order.len() && #[trigger] order[j]
            == #[trigger] conns[k].dest_node ==> order.take(j).contains(conns[k].source_node)
}

/// Every connection into `v` comes from a node of `done`.
pub open spec fn ready(conns: Seq<Connection>, done: Seq<NodeId>, v: NodeId) -> bool {
    forall|k: int|
        0 <= k < conns.len() && #[trigger] conns[k].dest_node == v ==> done.contains(
            conns[k].source_node,
        )
}

/// `n - 1`, or zero for zero.
fn saturating_pred(n: usize) -> (r: usize)
    ensures
        r == if n == 0 { 0 } else { n - 1 },
{
    if n == 0 {
        0
    } else {
        n - 1
    }
}

/// Whether `v` holds `c`.
fn contains_connection(v: &Vec<Connection>, c: Connection) -> (r: bool)
    ensures
        r == v@.contains(c),
{
    let mut i: usize = 0;
    while i < v.len()
        invariant
            i <= v@.len(),
            forall|j: int| 0 <= j < i ==> v@[j] != c,
        decreases v@.len() - i,
    {
        if v[i] == c {
            return true;
        }
        i = i + 1;
    }
    false
}

/// Whether `v` holds `id`.
fn contains_node(v: &Vec<NodeId>, id: NodeId) -> (r: bool)
    ensures
        r == v@.contains(id),
{
    let mut i: usize = 0;
    while i < v.len()
        invariant
            i <= v@.len(),
            forall|j: int| 0 <= j < i ==> v@[j] != id,
        decreases v@.len() - i,
    {
        if v[i] == id {
            return true;
        }
        i = i + 1;
    }
    false
}

/// Whether every connection into `v` comes from a node of `done`.
fn is_ready(conns: &Vec<Connection>, done: &Vec<NodeId>, v: NodeId) -> (r: bool)
    ensures
        r == ready(conns@, done@, v),
{
    let mut k: usize = 0;
    while k < conns.len()
        invariant
            k <= conns@.len(),
            forall|k2: int|
                0 <= k2 < k && #[trigger] conns@[k2].dest_node == v ==> done@.contains(
                    conns@[k2].source_node,
                ),
        decreases conns@.len() - k,
    {
        let c = conns[k];
        if c.dest_node == v && !contains_node(done, c.source_node) {
            return false;
        }
        k = k + 1;
    }
    true
}

/// An element-wise copy of `v`.
fn copy_ids(v: &Vec<NodeId>) -> (r: Vec<NodeId>)
    ensures
        r@ == v@,
{
    let mut r: Vec<NodeId> = Vec::new();
    let mut i: usize = 0;
    while i < v.len()
        invariant
            i <= v@.len(),
            r@ == v@.take(i as int),
        decreases v@.len() - i,
    {
        r.push(v[i]);
        proof {
            assert(v@.take(i + 1) =~= v@.take(i as int).push(v@[i as int]));
        }
        i = i + 1;
    }
    proof {
        assert(v@.take(i as int) =~= v@);
    }
    r
}

/// An element-wise copy of `v`.
fn copy_connections(v: &Vec<Connection>) -> (r: Vec<Connection>)
    ensures
        r@ == v@,
{
    let mut r: Vec<Connection> = Vec::new();
    let mut i: usize = 0;
    while i < v.len()
        invariant
            i <= v@.len(),
            r@ == v@.take(i as int),
        decreases v@.len() - i,
    {
        r.push(v[i]);
        proof {
            assert(v@.take(i + 1) =~= v@.take(i as int).push(v@[i as int]));
        }
        i = i + 1;
    }
    proof {
        assert(v@.take(i as int) =~= v@);
    }
    r
}

/// What `connect` returns, by the checks in the order it makes them: both
/// nodes exist, then both ports, then no duplicate, then no cycle.
pub open spec fn connect_outcome(
    nodes: Map<u64, NodeInfo>,
    conns: Seq<Connection>,
    c: Connection,
) -> Result<(), Error> {
    if !nodes.contains_key(c.source_node.0) {
        Err(Error::NodeNotFound(c.source_node))
    } else if !nodes.contains_key(c.dest_node.0) {
        Err(Error::NodeNotFound(c.dest_node))
    } else if c.source_port >= nodes[c.source_node.0].output_count {
        Err(
            Error::PortNotFound {
                node: c.source_node,
                port: c.source_port,
                max: if nodes[c.source_node.0].output_count == 0 {
                    0
                } else {
                    (nodes[c.source_node.0].output_count - 1) as usize
                },
            },
        )
    } else if c.dest_port >= nodes[c.dest_node.0].input_count {
        Err(
            Error::PortNotFound {
                node: c.dest_node,
                port: c.dest_port,
                max: if nodes[c.dest_node.0].input_count == 0 {
                    0
                } else {
                    (nodes[c.dest_node.0].input_count - 1) as usize
                },
            },
        )
    } else if conns.contains(c) {
        Err(Error::DuplicateConnection)
    } else if reachable(conns, c.dest_node, c.source_node) {
        Err(Error::CycleDetected)
    } else {
        Ok(())
    }
}

/// Ports of `c` exist on its two nodes, and `c` is not yet among `conns`:
/// every check of `connect` before the cycle check passes.
pub open spec fn admissible(nodes: Map<u64, NodeInfo>, conns: Seq<Connection>, c: Connection) -> bool {
    &&& nodes.contains_key(c.source_node.0)
    &&& nodes.contains_key(c.dest_node.0)
    &&& c.source_port < nodes[c.source_node.0].output_count
    &&& c.dest_port < nodes[c.dest_node.0].input_count
    &&& !conns.contains(c)
}

/// A connection from a node to itself is rejected as a cycle.
pub proof fn lemma_self_loop_rejected(nodes: Map<u64, NodeInfo>, conns: Seq<Connection>, c: Connection)
    requires
        admissible(nodes, conns, c),
        c.source_node == c.dest_node,
    ensures
        connect_outcome(nodes, conns, c) == Err::<(), Error>(Error::CycleDetected),
{
    let p = seq![c.dest_node];
    assert(is_path(conns, p));
    assert(p[0] == c.dest_node && p.last() == c.source_node);
}

/// Once a connection from A to B exists, a connection from B back to A is
/// rejected as a cycle.
pub proof fn lemma_reverse_rejected(
    nodes: Map<u64, NodeInfo>,
    conns: Seq<Connection>,
    forward: Connection,
    back: Connection,
)
    requires
        conns.contains(forward),
        back.source_node == forward.dest_node,
        back.dest_node == forward.source_node,
        admissible(nodes, conns, back),
    ensures
        connect_outcome(nodes, conns, back) == Err::<(), Error>(Error::CycleDetected),
{
    let k = choose|k: int| 0 <= k < conns.len() && conns[k] == forward;
    let p = seq![forward.source_node, forward.dest_node];
    assert(linked(conns, p[0], p[1])) by {
        assert(conns[k].source_node == p[0] && conns[k].dest_node == p[1]);
    }
    assert(is_path(conns, p));
    assert(p[0] == back.dest_node && p.last() == back.source_node);
}

} // verus!
