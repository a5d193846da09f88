//! Processors reduce a captured frame to a lightness percentage.

use crate::config::Processor as Backend;
use crate::frame::capturer::FatalError;
use crate::frame::object::Object;
use vstd::prelude::*;

pub mod opengl;

verus! {

/// The stage at which processing a frame failed.
#[derive(Debug, Clone, Copy, PartialEq, Eq)]
pub enum ProcessorError {
    /// The captured buffer could not be imported as an image.
    Import,
    /// No memory could be had for an image or a buffer.
    MemoryAllocation,
    /// The recorded commands were not executed in time.
    CommandSubmission,
    /// The downsampled pixels could not be read back.
    Readback,
}

/// A backend that computes the perceived lightness of a frame.
///
/// An implementation is only handed complete frames and answers with a
/// percentage, 0 to 100, or with the stage at which it failed.
pub trait Processor {
    fn luma_percent(&self, frame: &Object) -> (luma: Result<u8, ProcessorError>)
        requires
            frame.wf(),
            frame@.complete(),
        ensures
            luma matches Ok(percent) ==> percent <= 100,
    ;
}

/// Tells whether the processor a configuration selects can be built. The
/// Vulkan processor is known by name only: selecting it is refused as a
/// failure to set up the GPU.
pub fn require_implemented(selected: Backend) -> (outcome: Result<(), FatalError>)
    ensures
        selected is OpenGL ==> outcome == Ok::<(), FatalError>(()),
        selected is Vulkan ==> outcome == Err::<(), FatalError>(FatalError::GpuInitialization),
{
    match selected {
        Backend::OpenGL => Ok(()),
        Backend::Vulkan => Err(FatalError::GpuInitialization),
    }
}

} // verus!
