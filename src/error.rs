//! Protocol violations detected while reassembling.
use vstd::prelude::*;

verus! {

/// A protocol violation. Every one of them ends the connection.
#[derive(Clone, Copy, Debug, PartialEq, Eq, Structural)]
pub enum FragError {
    /// A fragment-start without a frame, or one inside an open sequence.
    InvalidFragmentStart,
    /// A continuation without a frame, or outside an open sequence.
    InvalidFragment,
    /// A final continuation without a frame, or outside an open sequence.
    InvalidFragmentComplete,
    /// An anomalous fragment inside an open sequence.
    InvalidContinuationOpcode,
    /// The accumulated text of a small message cannot begin valid UTF-8.
    Utf8Validation,
    /// The assembled text message is not valid UTF-8.
    InvalidUtf8,
    /// The running payload length does not fit in 64 bits.
    LengthOverflow,
}

impl FragError {
    /// The description of this violation.
    pub fn description(&self) -> (r: &'static str)
        ensures
            *self == FragError::InvalidFragmentStart ==> r@ == "invalid fragment start frame received"@,
            *self == FragError::InvalidFragment ==> r@ == "invalid fragment frame received"@,
            *self == FragError::InvalidFragmentComplete ==> r@
                == "invalid fragment complete frame received"@,
            *self == FragError::InvalidContinuationOpcode ==> r@
                == "invalid opcode for continuation fragment"@,
            *self == FragError::Utf8Validation ==> r@ == "error during UTF-8 validation"@,
            *self == FragError::InvalidUtf8 ==> r@ == "invalid UTF-8 in text frame"@,
            *self == FragError::LengthOverflow ==> r@ == "payload length overflow"@,
    {
        match self {
            FragError::InvalidFragmentStart => "invalid fragment start frame received",
            FragError::InvalidFragment => "invalid fragment frame received",
            FragError::InvalidFragmentComplete => "invalid fragment complete frame received",
            FragError::InvalidContinuationOpcode => "invalid opcode for continuation fragment",
            FragError::Utf8Validation => "error during UTF-8 validation",
            FragError::InvalidUtf8 => "invalid UTF-8 in text frame",
            FragError::LengthOverflow => "payload length overflow",
        }
    }
}

} // verus!
