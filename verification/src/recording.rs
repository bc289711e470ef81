//! The recording entry points that take a request or an id alone. As the
//! project documents, recording is not available through them yet: each
//! answers with an explicit not-implemented error naming the step. A host
//! that runs the capture session itself drives it through [`crate::record`]
//! and its registry.
use crate::api::{RecordingHandle, RecordingOptions};
use crate::error::{Result, WinScreenError};
use vstd::prelude::*;

verus! {

/// Starting a recording from a request is not implemented yet.
pub fn start_recording(_options: RecordingOptions) -> (r: Result<RecordingHandle>)
    ensures
        r == Err::<RecordingHandle, WinScreenError>(WinScreenError::NotImplemented { feature: "WGC/MP4 recording" }),
{
    Err(WinScreenError::NotImplemented { feature: "WGC/MP4 recording" })
}

/// Pausing a recording by id is not implemented yet.
pub fn pause_recording(_id: u64) -> (r: Result<()>)
    ensures
        r == Err::<(), WinScreenError>(WinScreenError::NotImplemented { feature: "recording pause" }),
{
    Err(WinScreenError::NotImplemented { feature: "recording pause" })
}

/// Resuming a recording by id is not implemented yet.
pub fn resume_recording(_id: u64) -> (r: Result<()>)
    ensures
        r == Err::<(), WinScreenError>(WinScreenError::NotImplemented { feature: "recording resume" }),
{
    Err(WinScreenError::NotImplemented { feature: "recording resume" })
}

/// Stopping a recording by id is not implemented yet.
pub fn stop_recording(_id: u64) -> (r: Result<std::path::PathBuf>)
    ensures
        r == Err::<std::path::PathBuf, WinScreenError>(WinScreenError::NotImplemented { feature: "recording stop" }),
{
    Err(WinScreenError::NotImplemented { feature: "recording stop" })
}

} // verus!
