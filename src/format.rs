//! Audio format definitions: sample rates and channel layouts.
use vstd::prelude::*;

verus! {

/// Supported sample rates.
#[derive(Debug, Clone, Copy, PartialEq, Eq, Hash, Structural)]
pub enum SampleRate {
    /// 44.1 kHz (CD quality).
    Hz44100,
    /// 48 kHz (professional standard).
    Hz48000,
    /// 88.2 kHz.
    Hz88200,
    /// 96 kHz (high resolution).
    Hz96000,
    /// 176.4 kHz.
    Hz176400,
    /// 192 kHz (ultra high resolution).
    Hz192000,
}

impl SampleRate {
    /// The rate in Hz of each variant.
    pub open spec fn spec_hz(self) -> u32 {
        match self {
            SampleRate::Hz44100 => 44100,
            SampleRate::Hz48000 => 48000,
            SampleRate::Hz88200 => 88200,
            SampleRate::Hz96000 => 96000,
            SampleRate::Hz176400 => 176400,
            SampleRate::Hz192000 => 192000,
        }
    }

    /// Returns the sample rate in Hz.
    pub fn as_hz(self) -> (r: u32)
        ensures
            r == self.spec_hz(),
    {
        match self {
            SampleRate::Hz44100 => 44100,
            SampleRate::Hz48000 => 48000,
            SampleRate::Hz88200 => 88200,
            SampleRate::Hz96000 => 96000,
            SampleRate::Hz176400 => 176400,
            SampleRate::Hz192000 => 192000,
        }
    }

    /// Returns the variant whose rate is `hz`, if there is one.
    pub fn from_hz(hz: u32) -> (r: Option<SampleRate>)
        ensures
            r matches Some(rate) ==> rate.spec_hz() == hz,
            r is None <==> (forall|rate: SampleRate| rate.spec_hz() != hz),
    {
        let r = match hz {
            44100 => Some(SampleRate::Hz44100),
            48000 => Some(SampleRate::Hz48000),
            88200 => Some(SampleRate::Hz88200),
            96000 => Some(SampleRate::Hz96000),
            176400 => Some(SampleRate::Hz176400),
            192000 => Some(SampleRate::Hz192000),
            _ => None,
        };
        proof {
            if r is Some {
                assert(r->Some_0.spec_hz() == hz);
            } else {
                assert forall|rate: SampleRate| rate.spec_hz() != hz by {
                    match rate {
                        SampleRate::Hz44100 => {},
                        SampleRate::Hz48000 => {},
                        SampleRate::Hz88200 => {},
                        SampleRate::Hz96000 => {},
                        SampleRate::Hz176400 => {},
                        SampleRate::Hz192000 => {},
                    }
                }
            }
        }
        r
    }
}

impl Default for SampleRate {
    fn default() -> (r: SampleRate)
        ensures
            r == SampleRate::Hz48000,
    {
        SampleRate::Hz48000
    }
}

/// Channel layout of an audio stream.
#[derive(Debug, Clone, Copy, PartialEq, Eq, Hash, Structural)]
pub enum ChannelLayout {
    /// One channel.
    Mono,
    /// Left and right.
    Stereo,
    /// Left, center, right.
    Lcr,
    /// Four channels.
    Quad,
    /// 5.1 surround: six channels.
    Surround51,
    /// 7.1 surround: eight channels.
    Surround71,
    /// Any other number of channels.
    Custom(usize),
}

impl ChannelLayout {
    /// The number of channels of each layout.
    pub open spec fn spec_channel_count(self) -> usize {
        match self {
            ChannelLayout::Mono => 1,
            ChannelLayout::Stereo => 2,
            ChannelLayout::Lcr => 3,
            ChannelLayout::Quad => 4,
            ChannelLayout::Surround51 => 6,
            ChannelLayout::Surround71 => 8,
            ChannelLayout::Custom(n) => n,
        }
    }

    /// Returns the number of channels.
    pub fn channel_count(&self) -> (r: usize)
        ensures
            r == self.spec_channel_count(),
    {
        match self {
            ChannelLayout::Mono => 1,
            ChannelLayout::Stereo => 2,
            ChannelLayout::Lcr => 3,
            ChannelLayout::Quad => 4,
            ChannelLayout::Surround51 => 6,
            ChannelLayout::Surround71 => 8,
            ChannelLayout::Custom(n) => *n,
        }
    }

    /// The layout for a channel count: a named one where it exists.
    pub open spec fn spec_from_count(channels: usize) -> ChannelLayout {
        if channels == 1 {
            ChannelLayout::Mono
        } else if channels == 2 {
            ChannelLayout::Stereo
        } else if channels == 3 {
            ChannelLayout::Lcr
        } else if channels == 4 {
            ChannelLayout::Quad
        } else if channels == 6 {
            ChannelLayout::Surround51
        } else if channels == 8 {
            ChannelLayout::Surround71
        } else {
            ChannelLayout::Custom(channels)
        }
    }

    /// Returns the layout with the given channel count, preferring named ones.
    pub fn from_channels(channels: usize) -> (r: ChannelLayout)
        ensures
            r == Self::spec_from_count(channels),
            r.spec_channel_count() == channels,
    {
        match channels {
            1 => ChannelLayout::Mono,
            2 => ChannelLayout::Stereo,
            3 => ChannelLayout::Lcr,
            4 => ChannelLayout::Quad,
            6 => ChannelLayout::Surround51,
            8 => ChannelLayout::Surround71,
            n => ChannelLayout::Custom(n),
        }
    }
}

impl From<usize> for ChannelLayout {
    fn from(channels: usize) -> (r: ChannelLayout) {
        ChannelLayout::from_channels(channels)
    }
}

impl vstd::std_specs::convert::FromSpecImpl<usize> for ChannelLayout {
    open spec fn obeys_from_spec() -> bool {
        true
    }

    open spec fn from_spec(v: usize) -> ChannelLayout {
        ChannelLayout::spec_from_count(v)
    }
}

impl Default for ChannelLayout {
    fn default() -> (r: ChannelLayout)
        ensures
            r == ChannelLayout::Stereo,
    {
        ChannelLayout::Stereo
    }
}

} // verus!
