//! Stream configuration.
use vstd::prelude::*;

verus! {

/// Configuration of an audio stream.
#[derive(Debug, Clone, PartialEq, Eq)]
pub struct StreamConfig {
    /// Sample rate in Hz.
    pub sample_rate: u32,
    /// Frames per buffer.
    pub buffer_size: usize,
    /// Number of channels.
    pub channels: usize,
    /// Whether exclusive device access is requested.
    pub exclusive: bool,
}

impl Default for StreamConfig {
    fn default() -> (r: StreamConfig)
        ensures
            r == (StreamConfig { sample_rate: 48000, buffer_size: 512, channels: 2, exclusive: true }),
    {
        StreamConfig { sample_rate: 48000, buffer_size: 512, channels: 2, exclusive: true }
    }
}

impl StreamConfig {
    /// Creates a configuration that requests exclusive access.
    pub fn new(sample_rate: u32, buffer_size: usize, channels: usize) -> (r: Self)
        ensures
            r == (StreamConfig { sample_rate, buffer_size, channels, exclusive: true }),
    {
        StreamConfig { sample_rate, buffer_size, channels, exclusive: true }
    }

    /// Returns the number of samples in one buffer over all channels.
    pub fn total_samples(&self) -> (r: usize)
        requires
            self.buffer_size * self.channels <= usize::MAX,
        ensures
            r == self.buffer_size * self.channels,
    {
        self.buffer_size * self.channels
    }

    /// Returns the configuration with exclusive access set as given.
    pub fn with_exclusive(self, exclusive: bool) -> (r: Self)
        ensures
            r == (StreamConfig { exclusive, ..self }),
    {
        StreamConfig { exclusive, ..self }
    }
}

/// Range of buffer sizes a device accepts.
#[derive(Debug, Clone)]
pub struct BufferSizeRange {
    /// Smallest size.
    pub min: usize,
    /// Largest size.
    pub max: usize,
    /// Size the device prefers.
    pub preferred: usize,
}

impl BufferSizeRange {
    /// Returns whether `size` lies in `[min, max]`.
    pub fn contains(&self, size: usize) -> (r: bool)
        ensures
            r == (self.min <= size && size <= self.max),
    {
        size >= self.min && size <= self.max
    }

    /// Returns the nearest size within `[min, max]`.
    pub fn clamp(&self, size: usize) -> (r: usize)
        requires
            self.min <= self.max,
        ensures
            r == if size < self.min {
                self.min
            } else if size > self.max {
                self.max
            } else {
                size
            },
    {
        if size < self.min {
            self.min
        } else if size > self.max {
            self.max
        } else {
            size
        }
    }
}

/// Sample rates a device accepts.
#[derive(Debug, Clone)]
pub enum SampleRateRange {
    /// Only the listed rates.
    Discrete(Vec<u32>),
    /// Every rate in `[min, max]`.
    Range { min: u32, max: u32 },
}

impl SampleRateRange {
    /// Whether the range admits `rate`.
    pub open spec fn admits(&self, rate: u32) -> bool {
        match self {
            SampleRateRange::Discrete(rates) => rates@.contains(rate),
            SampleRateRange::Range { min, max } => *min <= rate && rate <= *max,
        }
    }

    /// Returns whether the range admits `rate`.
    pub fn contains(&self, rate: u32) -> (r: bool)
        ensures
            r == self.admits(rate),
    {
        match self {
            SampleRateRange::Discrete(rates) => contains_rate(rates, rate),
            SampleRateRange::Range { min, max } => rate >= *min && rate <= *max,
        }
    }
}

/// Whether `rates` lists `rate`.
fn contains_rate(rates: &Vec<u32>, rate: u32) -> (r: bool)
    ensures
        r == rates@.contains(rate),
{
    let mut i: usize = 0;
    while i < rates.len()
        invariant
            i <= rates@.len(),
            forall|j: int| 0 <= j < i ==> rates@[j] != rate,
        decreases rates@.len() - i,
    {
        if rates[i] == rate {
            proof {
                assert(rates@[i as int] == rate);
            }
            return true;
        }
        i = i + 1;
    }
    false
}

} // verus!
