//! Nodes where audio enters and leaves the graph.
use vstd::prelude::*;
use crate::graph::node::{AudioNode, NodeInfo};

verus! {

/// Source of the graph: no input ports, one output port filled from outside
/// before the graph runs.
#[derive(Debug)]
pub struct InputNode {
    channels: usize,
}

impl InputNode {
    /// The channel count of the output port.
    pub closed spec fn spec_channels(&self) -> usize {
        self.channels
    }

    /// Creates an input node with `channels` channels.
    pub fn new(channels: usize) -> (r: Self)
        ensures
            r.spec_channels() == channels,
    {
        InputNode { channels }
    }
}

impl AudioNode for InputNode {
    fn info(&self) -> (r: NodeInfo)
        ensures
            r.input_count == 0,
            r.output_count == 1,
            r.input_channels@ == Seq::<usize>::empty(),
            r.output_channels@ == seq![self.spec_channels()],
            r.latency_samples == 0,
    {
        NodeInfo::custom(Vec::new(), vec![self.channels], 0)
    }

    fn reset(&mut self) {
    }

    fn name(&self) -> &'static str {
        "Input"
    }
}

/// Sink of the graph: one input port read from outside after the graph
/// runs, no output ports.
#[derive(Debug)]
pub struct OutputNode {
    channels: usize,
}

impl OutputNode {
    /// The channel count of the input port.
    pub closed spec fn spec_channels(&self) -> usize {
        self.channels
    }

    /// Creates an output node with `channels` channels.
    pub fn new(channels: usize) -> (r: Self)
        ensures
            r.spec_channels() == channels,
    {
        OutputNode { channels }
    }
}

impl AudioNode for OutputNode {
    fn info(&self) -> (r: NodeInfo)
        ensures
            r.input_count == 1,
            r.output_count == 0,
            r.input_channels@ == seq![self.spec_channels()],
            r.output_channels@ == Seq::<usize>::empty(),
            r.latency_samples == 0,
    {
        NodeInfo::custom(vec![self.channels], Vec::new(), 0)
    }

    fn reset(&mut self) {
    }

    fn name(&self) -> &'static str {
        "Output"
    }
}

} // verus!
