use vstd::prelude::*;

verus! {

/// The failures the mixing stage can surface.
///
/// Synchronous failures are returned to the caller; upstream failures
/// travel in-band as error items of the data stream and carry whatever
/// code the upstream produced.
#[derive(Clone, Copy, Debug, PartialEq, Eq, Structural)]
pub enum ErrorCode {
    /// A configuration error: the stage is wired in a way that can never
    /// stream, such as a mixing stage with zero upstream inputs.
    IllegalTransformConnectionState,
    /// An overflow error: more shares requested than the fan-out width.
    LogicalError,
    /// A programming error: an output slot consumed twice, that is, one
    /// handle executed twice.
    ReceiverAlreadyTaken,
    /// A programming error: the upstream list grown past what a bounded
    /// channel can mirror.
    TooManyInputs,
    /// A failure reported by an upstream stage, forwarded in-band.
    UpstreamFailure,
}

impl ErrorCode {
    /// A short diagnostic text for the code.
    pub fn message(&self) -> (r: &'static str)
        ensures
            *self is IllegalTransformConnectionState ==> r@
                == "Mixed processor inputs cannot be zero"@,
            *self is LogicalError ==> r@ == "Mixed shared num overflow"@,
            *self is ReceiverAlreadyTaken ==> r@ == "Mixed processor receiver already taken"@,
            *self is TooManyInputs ==> r@ == "Mixed processor cannot mirror more inputs"@,
            *self is UpstreamFailure ==> r@ == "Mixed upstream failure"@,
    {
        match self {
            ErrorCode::IllegalTransformConnectionState => "Mixed processor inputs cannot be zero",
            ErrorCode::LogicalError => "Mixed shared num overflow",
            ErrorCode::ReceiverAlreadyTaken => "Mixed processor receiver already taken",
            ErrorCode::TooManyInputs => "Mixed processor cannot mirror more inputs",
            ErrorCode::UpstreamFailure => "Mixed upstream failure",
        }
    }
}

} // verus!
