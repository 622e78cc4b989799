//! The error kinds the control core can surface.

use vstd::prelude::*;

verus! {

/// A terminal failure of a zone loop or of the supervisor.
#[derive(Clone, Copy, Debug, PartialEq, Eq, Structural)]
pub enum Error {
    /// A connection or command failure against the management interface.
    HardwareIo,
    /// A temperature source could not produce a value.
    SourceReadFailure,
    /// Aggregation failed on every attempt its retry policy allowed.
    RetryExhausted,
    /// A zone task ended by panic or abort rather than a normal return.
    TaskTerminatedAbnormally,
}

impl Error {
    /// A short description, for the process's terminal report.
    pub open spec fn spec_message(self) -> Seq<char> {
        match self {
            Error::HardwareIo => "management interface command failed"@,
            Error::SourceReadFailure => "temperature source read failed"@,
            Error::RetryExhausted => "temperature aggregation exhausted its retries"@,
            Error::TaskTerminatedAbnormally => "zone task terminated abnormally"@,
        }
    }

    pub fn message(&self) -> (s: &'static str)
        ensures
            s@ == self.spec_message(),
    {
        match self {
            Error::HardwareIo => "management interface command failed",
            Error::SourceReadFailure => "temperature source read failed",
            Error::RetryExhausted => "temperature aggregation exhausted its retries",
            Error::TaskTerminatedAbnormally => "zone task terminated abnormally",
        }
    }
}

} // verus!
