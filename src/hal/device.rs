//! Audio device descriptions.
use vstd::prelude::*;
use crate::hal::config::{BufferSizeRange, SampleRateRange};

verus! {

/// Platform identifier of a device.
#[derive(Debug, Clone, PartialEq, Eq, Hash)]
pub struct DeviceId(pub String);

impl DeviceId {
    /// Creates an id from its text.
    pub fn new(id: &str) -> (r: Self)
        ensures
            r.0@ == id@,
    {
        DeviceId(id.to_owned())
    }

    /// Returns the text of the id.
    pub fn as_str(&self) -> (r: &str)
        ensures
            r@ == self.0@,
    {
        self.0.as_str()
    }
}

/// Direction of a device.
#[derive(Debug, Clone, Copy, PartialEq, Eq, Structural)]
pub enum DeviceType {
    /// Playback only.
    Output,
    /// Capture only.
    Input,
    /// Playback and capture.
    Duplex,
}

/// Description of a device.
#[derive(Debug, Clone)]
pub struct DeviceInfo {
    /// Platform identifier.
    pub id: DeviceId,
    /// Name for display.
    pub name: String,
    /// Direction.
    pub device_type: DeviceType,
    /// Whether the system uses the device by default.
    pub is_default: bool,
    /// Accepted sample rates.
    pub sample_rates: SampleRateRange,
    /// Accepted buffer sizes.
    pub buffer_sizes: BufferSizeRange,
    /// Most input channels.
    pub max_input_channels: usize,
    /// Most output channels.
    pub max_output_channels: usize,
}

impl DeviceInfo {
    /// Returns whether the device can capture.
    pub fn supports_input(&self) -> (r: bool)
        ensures
            r == (self.device_type == DeviceType::Input || self.device_type == DeviceType::Duplex),
    {
        match self.device_type {
            DeviceType::Input | DeviceType::Duplex => true,
            DeviceType::Output => false,
        }
    }

    /// Returns whether the device can play back.
    pub fn supports_output(&self) -> (r: bool)
        ensures
            r == (self.device_type == DeviceType::Output || self.device_type == DeviceType::Duplex),
    {
        match self.device_type {
            DeviceType::Output | DeviceType::Duplex => true,
            DeviceType::Input => false,
        }
    }

    /// Returns whether the device accepts `rate`.
    pub fn supports_sample_rate(&self, rate: u32) -> (r: bool)
        ensures
            r == self.sample_rates.admits(rate),
    {
        self.sample_rates.contains(rate)
    }

    /// Returns whether the device accepts buffers of `size` frames.
    pub fn supports_buffer_size(&self, size: usize) -> (r: bool)
        ensures
            r == (self.buffer_sizes.min <= size && size <= self.buffer_sizes.max),
    {
        self.buffer_sizes.contains(size)
    }
}

/// Whether a device of this kind plays back.
pub open spec fn plays_back(d: DeviceInfo) -> bool {
    d.device_type == DeviceType::Output || d.device_type == DeviceType::Duplex
}

/// Whether a device of this kind captures.
pub open spec fn captures(d: DeviceInfo) -> bool {
    d.device_type == DeviceType::Input || d.device_type == DeviceType::Duplex
}

/// The devices of `s` that play back (`playback`) or capture (otherwise), in order.
pub open spec fn devices_for(s: Seq<DeviceInfo>, playback: bool) -> Seq<DeviceInfo>
    decreases s.len(),
{
    if s.len() == 0 {
        Seq::empty()
    } else {
        let rest = devices_for(s.drop_first(), playback);
        if (playback && plays_back(s[0])) || (!playback && captures(s[0])) {
            seq![s[0]] + rest
        } else {
            rest
        }
    }
}

/// Keeps the devices that play back (`playback`) or capture (otherwise).
pub fn filter_devices(devices: Vec<DeviceInfo>, playback: bool) -> (r: Vec<DeviceInfo>)
    ensures
        r@ == devices_for(devices@, playback),
{
    let mut rest = devices;
    let mut kept: Vec<DeviceInfo> = Vec::new();
    let ghost all = rest@;
    while rest.len() > 0
        invariant
            kept@ + devices_for(rest@, playback) == devices_for(all, playback),
        decreases rest@.len(),
    {
        let ghost before = rest@;
        let d = rest.remove(0);
        proof {
            assert(rest@ == before.drop_first());
        }
        let keep = if playback {
            d.supports_output()
        } else {
            d.supports_input()
        };
        if keep {
            proof {
                assert(kept@.push(d) + devices_for(rest@, playback) =~= kept@ + devices_for(
                    before,
                    playback,
                ));
            }
            kept.push(d);
        }
    }
    proof {
        assert(devices_for(rest@, playback) =~= Seq::<DeviceInfo>::empty());
        assert(kept@ + Seq::<DeviceInfo>::empty() =~= kept@);
    }
    kept
}

} // verus!
