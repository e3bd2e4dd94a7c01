//! Error taxonomy of the report pipeline.

use vstd::prelude::*;

verus! {

/// The failures the pipeline distinguishes.
///
/// `MalformedBatch`, `InvalidNetwork`, `GeoUnavailable` and
/// `UserAgentUnclassified` are fatal to a whole request; `ReportBodyMismatch`
/// is isolated to a single report.
#[derive(Clone, Copy, PartialEq, Eq, Structural, Debug)]
pub enum PipelineError {
    /// The inbound payload is not a valid array of report envelopes.
    MalformedBatch,
    /// Truncation could not form a valid network (defensive; never produced
    /// for addresses representable by `IpAddress`).
    InvalidNetwork,
    /// The geolocation lookup found no match for the client IP.
    GeoUnavailable,
    /// The user-agent classification found no match.
    UserAgentUnclassified,
    /// One report's body does not conform to the active strict schema.
    ReportBodyMismatch,
}

impl PipelineError {
    /// A short stable description, for boundary-side diagnostics.
    pub fn message(&self) -> (r: &'static str)
        ensures
            r@ == self.spec_message(),
    {
        match self {
            PipelineError::MalformedBatch => "malformed report batch",
            PipelineError::InvalidNetwork => "invalid network prefix",
            PipelineError::GeoUnavailable => "no geographic data available",
            PipelineError::UserAgentUnclassified => "device_detection lookup failed",
            PipelineError::ReportBodyMismatch => "report body does not match schema",
        }
    }

    pub open spec fn spec_message(self) -> Seq<char> {
        match self {
            PipelineError::MalformedBatch => "malformed report batch"@,
            PipelineError::InvalidNetwork => "invalid network prefix"@,
            PipelineError::GeoUnavailable => "no geographic data available"@,
            PipelineError::UserAgentUnclassified => "device_detection lookup failed"@,
            PipelineError::ReportBodyMismatch => "report body does not match schema"@,
        }
    }
}

} // verus!
