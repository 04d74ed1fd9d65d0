//! The interface between the reflector and a watch implementation.

use vstd::prelude::*;

verus! {

/// Why a watch invocation failed before any stream was produced.
///
/// `Desync` means the server discarded the history past the requested resume
/// point (HTTP 410 Gone or its semantic equivalent); the caller must drop its
/// local state and restart without a resume point. Any other fault is
/// `Other`, and is surfaced to the operator.
#[derive(Clone, Copy, Debug, PartialEq, Eq, Structural)]
pub enum InvocationError {
    Desync,
    Other,
}

impl InvocationError {
    /// A short description of the fault, for the operator.
    pub fn message(&self) -> (r: &'static str)
        ensures
            *self is Desync ==> r@ == "watch resume point too old, server discarded its history"@,
            *self is Other ==> r@ == "watch request failed"@,
    {
        match self {
            InvocationError::Desync => "watch resume point too old, server discarded its history",
            InvocationError::Other => "watch request failed",
        }
    }
}

/// What an HTTP status of the watch request's response means: 200 opens a
/// stream; 410 Gone is the desync signal — the server discarded the history
/// past the resume point; anything else is a plain failure.
pub fn classify_watch_status(status: u16) -> (r: Result<(), InvocationError>)
    ensures
        status == 200 ==> r is Ok,
        status == 410 ==> r == Result::<(), InvocationError>::Err(InvocationError::Desync),
        status != 200 && status != 410 ==> r == Result::<(), InvocationError>::Err(
            InvocationError::Other,
        ),
{
    if status == 200 {
        Result::Ok(())
    } else if status == 410 {
        Result::Err(InvocationError::Desync)
    } else {
        Result::Err(InvocationError::Other)
    }
}

} // verus!
