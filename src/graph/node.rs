//! Node identity, port shape, and the node capability.
use vstd::prelude::*;

verus! {

/// Handle of a node within one graph: the 64-bit form of its arena key.
/// Meaningless in any other graph; an id that names no node is rejected.
#[derive(Debug, Clone, Copy, PartialEq, Eq, Hash, Structural)]
pub struct NodeId(pub u64);

/// Port shape and latency of a node.
#[derive(Debug, Clone)]
pub struct NodeInfo {
    /// Number of input ports.
    pub input_count: usize,
    /// Number of output ports.
    pub output_count: usize,
    /// Channel count of each input port.
    pub input_channels: Vec<usize>,
    /// Channel count of each output port.
    pub output_channels: Vec<usize>,
    /// Processing latency in samples.
    pub latency_samples: usize,
}

impl NodeInfo {
    /// One mono input and one mono output, no latency.
    pub fn mono() -> (r: Self)
        ensures
            r.input_count == 1,
            r.output_count == 1,
            r.input_channels@ == seq![1usize],
            r.output_channels@ == seq![1usize],
            r.latency_samples == 0,
    {
        NodeInfo {
            input_count: 1,
            output_count: 1,
            input_channels: vec![1],
            output_channels: vec![1],
            latency_samples: 0,
        }
    }

    /// One stereo input and one stereo output, no latency.
    pub fn stereo() -> (r: Self)
        ensures
            r.input_count == 1,
            r.output_count == 1,
            r.input_channels@ == seq![2usize],
            r.output_channels@ == seq![2usize],
            r.latency_samples == 0,
    {
        NodeInfo {
            input_count: 1,
            output_count: 1,
            input_channels: vec![2],
            output_channels: vec![2],
            latency_samples: 0,
        }
    }

    /// One port for each listed channel count, on either side.
    pub fn custom(
        input_channels: Vec<usize>,
        output_channels: Vec<usize>,
        latency_samples: usize,
    ) -> (r: Self)
        ensures
            r.input_count == input_channels@.len(),
            r.output_count == output_channels@.len(),
            r.input_channels@ == input_channels@,
            r.output_channels@ == output_channels@,
            r.latency_samples == latency_samples,
    {
        NodeInfo {
            input_count: input_channels.len(),
            output_count: output_channels.len(),
            input_channels,
            output_channels,
            latency_samples,
        }
    }
}

/// A processing unit that a graph can schedule.
///
/// Sample processing itself belongs to the implementations; the graph reads
/// only the port shape.
pub trait AudioNode {
    /// Port shape and latency of the node.
    fn info(&self) -> NodeInfo;

    /// Clears the node's internal state.
    fn reset(&mut self);

    /// Diagnostic name.
    fn name(&self) -> &'static str;
}

impl<T: AudioNode + ?Sized> AudioNode for Box<T> {
    fn info(&self) -> NodeInfo {
        (**self).info()
    }

    fn reset(&mut self) {
        (**self).reset()
    }

    fn name(&self) -> &'static str {
        (**self).name()
    }
}

} // verus!
