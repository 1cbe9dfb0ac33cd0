//! Errors of the queue and of buffer handling.
use vstd::prelude::*;

verus! {

/// Result of the real-time primitives.
pub type Result<T> = core::result::Result<T, Error>;

/// Errors of the real-time primitives.
#[derive(Debug, Clone, Copy, PartialEq, Eq, Structural)]
pub enum Error {
    /// A buffer has another size than expected.
    BufferSizeMismatch { expected: usize, actual: usize },
    /// A stream runs at another sample rate than expected.
    SampleRateMismatch { expected: u32, actual: u32 },
    /// A buffer has another channel count than expected.
    ChannelMismatch { expected: usize, actual: usize },
    /// The queue holds as many items as it can.
    QueueFull,
    /// The queue holds no item.
    QueueEmpty,
    /// A buffer is not aligned as required.
    AlignmentError { required: usize },
    /// An event was scheduled before the current position.
    EventInPast { position: u64, current: u64 },
}

/// Checks that a buffer of `actual` frames matches one of `expected` frames.
pub fn check_frames(expected: usize, actual: usize) -> (r: Result<()>)
    ensures
        expected == actual ==> r is Ok,
        expected != actual ==> r == Err::<(), Error>(Error::BufferSizeMismatch { expected, actual }),
{
    if expected != actual {
        return Err(Error::BufferSizeMismatch { expected, actual });
    }
    Ok(())
}

} // verus!
