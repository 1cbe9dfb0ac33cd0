//! Platform backends. Device I/O is not implemented on any platform yet:
//! each backend reports no devices and streams that cannot start.
use vstd::prelude::*;
use crate::hal::config::StreamConfig;
use crate::hal::device::{filter_devices, DeviceId, DeviceInfo};
use crate::hal::error::Error;
use crate::hal::stream::StreamState;

verus! {

/// The ALSA backend.
pub struct AlsaBackend {}

impl AlsaBackend {
    /// Creates the backend.
    pub fn new() -> (r: Self) {
        AlsaBackend {}
    }

    /// Returns the backend's name.
    pub fn name(&self) -> (r: &'static str)
        ensures
            r@ == "ALSA"@,
    {
        "ALSA"
    }

    /// Lists the devices: none yet.
    pub fn enumerate_devices(&self) -> (r: Result<Vec<DeviceInfo>, Error>)
        ensures
            r matches Ok(v) && v@.len() == 0,
    {
        Ok(Vec::new())
    }

    /// Lists the devices that play back.
    pub fn enumerate_output_devices(&self) -> (r: Result<Vec<DeviceInfo>, Error>)
        ensures
            r matches Ok(v) && v@.len() == 0,
    {
        match self.enumerate_devices() {
            Ok(devices) => Ok(filter_devices(devices, true)),
            Err(e) => Err(e),
        }
    }

    /// Lists the devices that capture.
    pub fn enumerate_input_devices(&self) -> (r: Result<Vec<DeviceInfo>, Error>)
        ensures
            r matches Ok(v) && v@.len() == 0,
    {
        match self.enumerate_devices() {
            Ok(devices) => Ok(filter_devices(devices, false)),
            Err(e) => Err(e),
        }
    }

    /// Opens a playback stream on the default output device.
    pub fn open_default_output(&self, config: StreamConfig) -> (r: Result<AlsaOutputStream, Error>)
        ensures
            r matches Err(Error::DeviceNotFound(m)) && m@ == "No default output device"@,
    {
        match self.default_output_device() {
            Ok(device) => self.open_output(&device.id, config),
            Err(e) => Err(e),
        }
    }

    /// Opens a capture stream on the default input device.
    pub fn open_default_input(&self, config: StreamConfig) -> (r: Result<AlsaInputStream, Error>)
        ensures
            r matches Err(Error::DeviceNotFound(m)) && m@ == "No default input device"@,
    {
        match self.default_input_device() {
            Ok(device) => self.open_input(&device.id, config),
            Err(e) => Err(e),
        }
    }

    /// Returns the default output device: none yet.
    pub fn default_output_device(&self) -> (r: Result<DeviceInfo, Error>)
        ensures
            r matches Err(Error::DeviceNotFound(m)) && m@ == "No default output device"@,
    {
        Err(Error::DeviceNotFound("No default output device".to_owned()))
    }

    /// Returns the default input device: none yet.
    pub fn default_input_device(&self) -> (r: Result<DeviceInfo, Error>)
        ensures
            r matches Err(Error::DeviceNotFound(m)) && m@ == "No default input device"@,
    {
        Err(Error::DeviceNotFound("No default input device".to_owned()))
    }

    /// Opens a playback stream with `config`.
    pub fn open_output(&self, device: &DeviceId, config: StreamConfig) -> (r: Result<
        AlsaOutputStream,
        Error,
    >)
        ensures
            r matches Ok(s) && s.config == config,
    {
        Ok(AlsaOutputStream { config })
    }

    /// Opens a capture stream with `config`.
    pub fn open_input(&self, device: &DeviceId, config: StreamConfig) -> (r: Result<
        AlsaInputStream,
        Error,
    >)
        ensures
            r matches Ok(s) && s.config == config,
    {
        Ok(AlsaInputStream { config })
    }

    /// Opens a stream that captures from one device and plays to another.
    pub fn open_duplex(
        &self,
        input_device: &DeviceId,
        output_device: &DeviceId,
        config: StreamConfig,
    ) -> (r: Result<AlsaDuplexStream, Error>)
        ensures
            r matches Ok(s) && s.config == config,
    {
        Ok(AlsaDuplexStream { config })
    }
}

impl Default for AlsaBackend {
    fn default() -> (r: Self) {
        AlsaBackend::new()
    }
}

/// A ALSA playback stream.
pub struct AlsaOutputStream {
    /// The configuration it was opened with.
    pub config: StreamConfig,
}

impl AlsaOutputStream {
    /// Returns the configuration.
    pub fn config(&self) -> (r: &StreamConfig)
        ensures
            *r == self.config,
    {
        &self.config
    }

    /// Returns the state: always stopped.
    pub fn state(&self) -> (r: StreamState)
        ensures
            r == StreamState::Stopped,
    {
        StreamState::Stopped
    }

    /// Starts the stream: not available yet.
    pub fn start(&mut self) -> (r: Result<(), Error>)
        ensures
            r matches Err(Error::BackendNotAvailable(m)) && m@ == "ALSA not yet implemented"@,
            final(self).config == old(self).config,
    {
        Err(Error::BackendNotAvailable("ALSA not yet implemented".to_owned()))
    }

    /// Stops the stream.
    pub fn stop(&mut self) -> (r: Result<(), Error>)
        ensures
            r is Ok,
            final(self).config == old(self).config,
    {
        Ok(())
    }

    /// Returns the latency estimate: two buffer periods.
    pub fn latency_samples(&self) -> (r: usize)
        requires
            self.config.buffer_size * 2 <= usize::MAX,
        ensures
            r == self.config.buffer_size * 2,
    {
        self.config.buffer_size * 2
    }
}

/// A ALSA capture stream.
pub struct AlsaInputStream {
    /// The configuration it was opened with.
    pub config: StreamConfig,
}

impl AlsaInputStream {
    /// Returns the configuration.
    pub fn config(&self) -> (r: &StreamConfig)
        ensures
            *r == self.config,
    {
        &self.config
    }

    /// Returns the state: always stopped.
    pub fn state(&self) -> (r: StreamState)
        ensures
            r == StreamState::Stopped,
    {
        StreamState::Stopped
    }

    /// Starts the stream: not available yet.
    pub fn start(&mut self) -> (r: Result<(), Error>)
        ensures
            r matches Err(Error::BackendNotAvailable(m)) && m@ == "ALSA not yet implemented"@,
            final(self).config == old(self).config,
    {
        Err(Error::BackendNotAvailable("ALSA not yet implemented".to_owned()))
    }

    /// Stops the stream.
    pub fn stop(&mut self) -> (r: Result<(), Error>)
        ensures
            r is Ok,
            final(self).config == old(self).config,
    {
        Ok(())
    }

    /// Returns the latency estimate: two buffer periods.
    pub fn latency_samples(&self) -> (r: usize)
        requires
            self.config.buffer_size * 2 <= usize::MAX,
        ensures
            r == self.config.buffer_size * 2,
    {
        self.config.buffer_size * 2
    }
}

/// A ALSA duplex stream.
pub struct AlsaDuplexStream {
    /// The configuration it was opened with.
    pub config: StreamConfig,
}

impl AlsaDuplexStream {
    /// Returns the configuration.
    pub fn config(&self) -> (r: &StreamConfig)
        ensures
            *r == self.config,
    {
        &self.config
    }

    /// Returns the state: always stopped.
    pub fn state(&self) -> (r: StreamState)
        ensures
            r == StreamState::Stopped,
    {
        StreamState::Stopped
    }

    /// Starts the stream: not available yet.
    pub fn start(&mut self) -> (r: Result<(), Error>)
        ensures
            r matches Err(Error::BackendNotAvailable(m)) && m@ == "ALSA not yet implemented"@,
            final(self).config == old(self).config,
    {
        Err(Error::BackendNotAvailable("ALSA not yet implemented".to_owned()))
    }

    /// Stops the stream.
    pub fn stop(&mut self) -> (r: Result<(), Error>)
        ensures
            r is Ok,
            final(self).config == old(self).config,
    {
        Ok(())
    }

    /// Returns the latency estimate: two buffer periods.
    pub fn latency_samples(&self) -> (r: usize)
        requires
            self.config.buffer_size * 2 <= usize::MAX,
        ensures
            r == self.config.buffer_size * 2,
    {
        self.config.buffer_size * 2
    }
}

/// The CoreAudio backend.
pub struct CoreAudioBackend {}

impl CoreAudioBackend {
    /// Creates the backend.
    pub fn new() -> (r: Self) {
        CoreAudioBackend {}
    }

    /// Returns the backend's name.
    pub fn name(&self) -> (r: &'static str)
        ensures
            r@ == "CoreAudio"@,
    {
        "CoreAudio"
    }

    /// Lists the devices: none yet.
    pub fn enumerate_devices(&self) -> (r: Result<Vec<DeviceInfo>, Error>)
        ensures
            r matches Ok(v) && v@.len() == 0,
    {
        Ok(Vec::new())
    }

    /// Lists the devices that play back.
    pub fn enumerate_output_devices(&self) -> (r: Result<Vec<DeviceInfo>, Error>)
        ensures
            r matches Ok(v) && v@.len() == 0,
    {
        match self.enumerate_devices() {
            Ok(devices) => Ok(filter_devices(devices, true)),
            Err(e) => Err(e),
        }
    }

    /// Lists the devices that capture.
    pub fn enumerate_input_devices(&self) -> (r: Result<Vec<DeviceInfo>, Error>)
        ensures
            r matches Ok(v) && v@.len() == 0,
    {
        match self.enumerate_devices() {
            Ok(devices) => Ok(filter_devices(devices, false)),
            Err(e) => Err(e),
        }
    }

    /// Opens a playback stream on the default output device.
    pub fn open_default_output(&self, config: StreamConfig) -> (r: Result<CoreAudioOutputStream, Error>)
        ensures
            r matches Err(Error::DeviceNotFound(m)) && m@ == "No default output device"@,
    {
        match self.default_output_device() {
            Ok(device) => self.open_output(&device.id, config),
            Err(e) => Err(e),
        }
    }

    /// Opens a capture stream on the default input device.
    pub fn open_default_input(&self, config: StreamConfig) -> (r: Result<CoreAudioInputStream, Error>)
        ensures
            r matches Err(Error::DeviceNotFound(m)) && m@ == "No default input device"@,
    {
        match self.default_input_device() {
            Ok(device) => self.open_input(&device.id, config),
            Err(e) => Err(e),
        }
    }

    /// Returns the default output device: none yet.
    pub fn default_output_device(&self) -> (r: Result<DeviceInfo, Error>)
        ensures
            r matches Err(Error::DeviceNotFound(m)) && m@ == "No default output device"@,
    {
        Err(Error::DeviceNotFound("No default output device".to_owned()))
    }

    /// Returns the default input device: none yet.
    pub fn default_input_device(&self) -> (r: Result<DeviceInfo, Error>)
        ensures
            r matches Err(Error::DeviceNotFound(m)) && m@ == "No default input device"@,
    {
        Err(Error::DeviceNotFound("No default input device".to_owned()))
    }

    /// Opens a playback stream with `config`.
    pub fn open_output(&self, device: &DeviceId, config: StreamConfig) -> (r: Result<
        CoreAudioOutputStream,
        Error,
    >)
        ensures
            r matches Ok(s) && s.config == config,
    {
        Ok(CoreAudioOutputStream { config })
    }

    /// Opens a capture stream with `config`.
    pub fn open_input(&self, device: &DeviceId, config: StreamConfig) -> (r: Result<
        CoreAudioInputStream,
        Error,
    >)
        ensures
            r matches Ok(s) && s.config == config,
    {
        Ok(CoreAudioInputStream { config })
    }

    /// Opens a stream that captures from one device and plays to another.
    pub fn open_duplex(
        &self,
        input_device: &DeviceId,
        output_device: &DeviceId,
        config: StreamConfig,
    ) -> (r: Result<CoreAudioDuplexStream, Error>)
        ensures
            r matches Ok(s) && s.config == config,
    {
        Ok(CoreAudioDuplexStream { config })
    }
}

impl Default for CoreAudioBackend {
    fn default() -> (r: Self) {
        CoreAudioBackend::new()
    }
}

/// A CoreAudio playback stream.
pub struct CoreAudioOutputStream {
    /// The configuration it was opened with.
    pub config: StreamConfig,
}

impl CoreAudioOutputStream {
    /// Returns the configuration.
    pub fn config(&self) -> (r: &StreamConfig)
        ensures
            *r == self.config,
    {
        &self.config
    }

    /// Returns the state: always stopped.
    pub fn state(&self) -> (r: StreamState)
        ensures
            r == StreamState::Stopped,
    {
        StreamState::Stopped
    }

    /// Starts the stream: not available yet.
    pub fn start(&mut self) -> (r: Result<(), Error>)
        ensures
            r matches Err(Error::BackendNotAvailable(m)) && m@ == "CoreAudio not yet implemented"@,
            final(self).config == old(self).config,
    {
        Err(Error::BackendNotAvailable("CoreAudio not yet implemented".to_owned()))
    }

    /// Stops the stream.
    pub fn stop(&mut self) -> (r: Result<(), Error>)
        ensures
            r is Ok,
            final(self).config == old(self).config,
    {
        Ok(())
    }

    /// Returns the latency estimate: two buffer periods.
    pub fn latency_samples(&self) -> (r: usize)
        requires
            self.config.buffer_size * 2 <= usize::MAX,
        ensures
            r == self.config.buffer_size * 2,
    {
        self.config.buffer_size * 2
    }
}

/// A CoreAudio capture stream.
pub struct CoreAudioInputStream {
    /// The configuration it was opened with.
    pub config: StreamConfig,
}

impl CoreAudioInputStream {
    /// Returns the configuration.
    pub fn config(&self) -> (r: &StreamConfig)
        ensures
            *r == self.config,
    {
        &self.config
    }

    /// Returns the state: always stopped.
    pub fn state(&self) -> (r: StreamState)
        ensures
            r == StreamState::Stopped,
    {
        StreamState::Stopped
    }

    /// Starts the stream: not available yet.
    pub fn start(&mut self) -> (r: Result<(), Error>)
        ensures
            r matches Err(Error::BackendNotAvailable(m)) && m@ == "CoreAudio not yet implemented"@,
            final(self).config == old(self).config,
    {
        Err(Error::BackendNotAvailable("CoreAudio not yet implemented".to_owned()))
    }

    /// Stops the stream.
    pub fn stop(&mut self) -> (r: Result<(), Error>)
        ensures
            r is Ok,
            final(self).config == old(self).config,
    {
        Ok(())
    }

    /// Returns the latency estimate: two buffer periods.
    pub fn latency_samples(&self) -> (r: usize)
        requires
            self.config.buffer_size * 2 <= usize::MAX,
        ensures
            r == self.config.buffer_size * 2,
    {
        self.config.buffer_size * 2
    }
}

/// A CoreAudio duplex stream.
pub struct CoreAudioDuplexStream {
    /// The configuration it was opened with.
    pub config: StreamConfig,
}

impl CoreAudioDuplexStream {
    /// Returns the configuration.
    pub fn config(&self) -> (r: &StreamConfig)
        ensures
            *r == self.config,
    {
        &self.config
    }

    /// Returns the state: always stopped.
    pub fn state(&self) -> (r: StreamState)
        ensures
            r == StreamState::Stopped,
    {
        StreamState::Stopped
    }

    /// Starts the stream: not available yet.
    pub fn start(&mut self) -> (r: Result<(), Error>)
        ensures
            r matches Err(Error::BackendNotAvailable(m)) && m@ == "CoreAudio not yet implemented"@,
            final(self).config == old(self).config,
    {
        Err(Error::BackendNotAvailable("CoreAudio not yet implemented".to_owned()))
    }

    /// Stops the stream.
    pub fn stop(&mut self) -> (r: Result<(), Error>)
        ensures
            r is Ok,
            final(self).config == old(self).config,
    {
        Ok(())
    }

    /// Returns the latency estimate: two buffer periods.
    pub fn latency_samples(&self) -> (r: usize)
        requires
            self.config.buffer_size * 2 <= usize::MAX,
        ensures
            r == self.config.buffer_size * 2,
    {
        self.config.buffer_size * 2
    }
}

/// The WASAPI backend.
pub struct WasapiBackend {}

impl WasapiBackend {
    /// Creates the backend.
    pub fn new() -> (r: Self) {
        WasapiBackend {}
    }

    /// Returns the backend's name.
    pub fn name(&self) -> (r: &'static str)
        ensures
            r@ == "WASAPI"@,
    {
        "WASAPI"
    }

    /// Lists the devices: none yet.
    pub fn enumerate_devices(&self) -> (r: Result<Vec<DeviceInfo>, Error>)
        ensures
            r matches Ok(v) && v@.len() == 0,
    {
        Ok(Vec::new())
    }

    /// Lists the devices that play back.
    pub fn enumerate_output_devices(&self) -> (r: Result<Vec<DeviceInfo>, Error>)
        ensures
            r matches Ok(v) && v@.len() == 0,
    {
        match self.enumerate_devices() {
            Ok(devices) => Ok(filter_devices(devices, true)),
            Err(e) => Err(e),
        }
    }

    /// Lists the devices that capture.
    pub fn enumerate_input_devices(&self) -> (r: Result<Vec<DeviceInfo>, Error>)
        ensures
            r matches Ok(v) && v@.len() == 0,
    {
        match self.enumerate_devices() {
            Ok(devices) => Ok(filter_devices(devices, false)),
            Err(e) => Err(e),
        }
    }

    /// Opens a playback stream on the default output device.
    pub fn open_default_output(&self, config: StreamConfig) -> (r: Result<WasapiOutputStream, Error>)
        ensures
            r matches Err(Error::DeviceNotFound(m)) && m@ == "No default output device"@,
    {
        match self.default_output_device() {
            Ok(device) => self.open_output(&device.id, config),
            Err(e) => Err(e),
        }
    }

    /// Opens a capture stream on the default input device.
    pub fn open_default_input(&self, config: StreamConfig) -> (r: Result<WasapiInputStream, Error>)
        ensures
            r matches Err(Error::DeviceNotFound(m)) && m@ == "No default input device"@,
    {
        match self.default_input_device() {
            Ok(device) => self.open_input(&device.id, config),
            Err(e) => Err(e),
        }
    }

    /// Returns the default output device: none yet.
    pub fn default_output_device(&self) -> (r: Result<DeviceInfo, Error>)
        ensures
            r matches Err(Error::DeviceNotFound(m)) && m@ == "No default output device"@,
    {
        Err(Error::DeviceNotFound("No default output device".to_owned()))
    }

    /// Returns the default input device: none yet.
    pub fn default_input_device(&self) -> (r: Result<DeviceInfo, Error>)
        ensures
            r matches Err(Error::DeviceNotFound(m)) && m@ == "No default input device"@,
    {
        Err(Error::DeviceNotFound("No default input device".to_owned()))
    }

    /// Opens a playback stream with `config`.
    pub fn open_output(&self, device: &DeviceId, config: StreamConfig) -> (r: Result<
        WasapiOutputStream,
        Error,
    >)
        ensures
            r matches Ok(s) && s.config == config,
    {
        Ok(WasapiOutputStream { config })
    }

    /// Opens a capture stream with `config`.
    pub fn open_input(&self, device: &DeviceId, config: StreamConfig) -> (r: Result<
        WasapiInputStream,
        Error,
    >)
        ensures
            r matches Ok(s) && s.config == config,
    {
        Ok(WasapiInputStream { config })
    }

    /// Opens a stream that captures from one device and plays to another.
    pub fn open_duplex(
        &self,
        input_device: &DeviceId,
        output_device: &DeviceId,
        config: StreamConfig,
    ) -> (r: Result<WasapiDuplexStream, Error>)
        ensures
            r matches Ok(s) && s.config == config,
    {
        Ok(WasapiDuplexStream { config })
    }
}

impl Default for WasapiBackend {
    fn default() -> (r: Self) {
        WasapiBackend::new()
    }
}

/// A WASAPI playback stream.
pub struct WasapiOutputStream {
    /// The configuration it was opened with.
    pub config: StreamConfig,
}

impl WasapiOutputStream {
    /// Returns the configuration.
    pub fn config(&self) -> (r: &StreamConfig)
        ensures
            *r == self.config,
    {
        &self.config
    }

    /// Returns the state: always stopped.
    pub fn state(&self) -> (r: StreamState)
        ensures
            r == StreamState::Stopped,
    {
        StreamState::Stopped
    }

    /// Starts the stream: not available yet.
    pub fn start(&mut self) -> (r: Result<(), Error>)
        ensures
            r matches Err(Error::BackendNotAvailable(m)) && m@ == "WASAPI not yet implemented"@,
            final(self).config == old(self).config,
    {
        Err(Error::BackendNotAvailable("WASAPI not yet implemented".to_owned()))
    }

    /// Stops the stream.
    pub fn stop(&mut self) -> (r: Result<(), Error>)
        ensures
            r is Ok,
            final(self).config == old(self).config,
    {
        Ok(())
    }

    /// Returns the latency estimate: two buffer periods.
    pub fn latency_samples(&self) -> (r: usize)
        requires
            self.config.buffer_size * 2 <= usize::MAX,
        ensures
            r == self.config.buffer_size * 2,
    {
        self.config.buffer_size * 2
    }
}

/// A WASAPI capture stream.
pub struct WasapiInputStream {
    /// The configuration it was opened with.
    pub config: StreamConfig,
}

impl WasapiInputStream {
    /// Returns the configuration.
    pub fn config(&self) -> (r: &StreamConfig)
        ensures
            *r == self.config,
    {
        &self.config
    }

    /// Returns the state: always stopped.
    pub fn state(&self) -> (r: StreamState)
        ensures
            r == StreamState::Stopped,
    {
        StreamState::Stopped
    }

    /// Starts the stream: not available yet.
    pub fn start(&mut self) -> (r: Result<(), Error>)
        ensures
            r matches Err(Error::BackendNotAvailable(m)) && m@ == "WASAPI not yet implemented"@,
            final(self).config == old(self).config,
    {
        Err(Error::BackendNotAvailable("WASAPI not yet implemented".to_owned()))
    }

    /// Stops the stream.
    pub fn stop(&mut self) -> (r: Result<(), Error>)
        ensures
            r is Ok,
            final(self).config == old(self).config,
    {
        Ok(())
    }

    /// Returns the latency estimate: two buffer periods.
    pub fn latency_samples(&self) -> (r: usize)
        requires
            self.config.buffer_size * 2 <= usize::MAX,
        ensures
            r == self.config.buffer_size * 2,
    {
        self.config.buffer_size * 2
    }
}

/// A WASAPI duplex stream.
pub struct WasapiDuplexStream {
    /// The configuration it was opened with.
    pub config: StreamConfig,
}

impl WasapiDuplexStream {
    /// Returns the configuration.
    pub fn config(&self) -> (r: &StreamConfig)
        ensures
            *r == self.config,
    {
        &self.config
    }

    /// Returns the state: always stopped.
    pub fn state(&self) -> (r: StreamState)
        ensures
            r == StreamState::Stopped,
    {
        StreamState::Stopped
    }

    /// Starts the stream: not available yet.
    pub fn start(&mut self) -> (r: Result<(), Error>)
        ensures
            r matches Err(Error::BackendNotAvailable(m)) && m@ == "WASAPI not yet implemented"@,
            final(self).config == old(self).config,
    {
        Err(Error::BackendNotAvailable("WASAPI not yet implemented".to_owned()))
    }

    /// Stops the stream.
    pub fn stop(&mut self) -> (r: Result<(), Error>)
        ensures
            r is Ok,
            final(self).config == old(self).config,
    {
        Ok(())
    }

    /// Returns the latency estimate: two buffer periods.
    pub fn latency_samples(&self) -> (r: usize)
        requires
            self.config.buffer_size * 2 <= usize::MAX,
        ensures
            r == self.config.buffer_size * 2,
    {
        self.config.buffer_size * 2
    }
}

} // verus!
