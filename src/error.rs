//! Errors that end the observation of one descriptor.

use vstd::prelude::*;

verus! {

/// Why a sampler stopped before its descriptor reached the end of the file.
/// Either one is local to that descriptor: the other samplers go on.
#[derive(Clone, Copy, Debug, PartialEq, Eq, Structural)]
pub enum SampleError {
    /// The status record could no longer be read: the descriptor was closed
    /// or the process exited.
    DescriptorGone,
    /// The status record was read but holds no parseable `pos:` line.
    MalformedStatusRecord,
}

impl SampleError {
    /// A short reason for a person reading the display.
    pub fn reason(&self) -> (r: String)
        ensures
            *self == SampleError::DescriptorGone ==> r@ == "descriptor gone"@,
            *self == SampleError::MalformedStatusRecord ==> r@ == "malformed status record"@,
    {
        match self {
            SampleError::DescriptorGone => "descriptor gone".to_owned(),
            SampleError::MalformedStatusRecord => "malformed status record".to_owned(),
        }
    }
}

} // verus!
