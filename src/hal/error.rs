//! Errors of device and stream handling.
use vstd::prelude::*;

verus! {

/// Result of device and stream handling.
pub type Result<T> = core::result::Result<T, Error>;

/// Errors of device and stream handling.
#[derive(Debug, Clone, PartialEq, Eq)]
pub enum Error {
    /// No device with this id.
    DeviceNotFound(String),
    /// The device is in use.
    DeviceBusy(String),
    /// The device does not accept the configuration.
    UnsupportedConfig(String),
    /// The device does not accept the sample rate.
    UnsupportedSampleRate(u32),
    /// The device does not accept the buffer size.
    UnsupportedBufferSize(usize),
    /// The stream is in another state than the operation needs.
    InvalidStreamState { expected: &'static str, actual: &'static str },
    /// The stream could not be set up.
    StreamInitError(String),
    /// Reading or writing failed.
    IoError(String),
    /// The callback took too long.
    Overrun,
    /// No audio was available in time.
    Underrun,
    /// The platform reported an error.
    PlatformError { code: i32, message: String },
    /// The backend is not available on this system.
    BackendNotAvailable(String),
}

} // verus!
