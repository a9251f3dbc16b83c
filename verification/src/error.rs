//! Engine-level error kinds.

use vstd::prelude::*;

verus! {

/// Outcome of a failed engine operation.
///
/// `NotFound` is the user-facing "no such paste" signal; it is not a system
/// fault. `IoFault` covers every unexpected filesystem or stream error, such
/// as a sink that accepts zero bytes while data remains, or a stored stream
/// that does not decode. `SweepEntryFault` marks a per-entry failure during a
/// retention pass; it is reported, never fatal.
#[derive(Clone, Copy, Debug, PartialEq, Eq, Structural)]
pub enum Error {
    NotFound,
    IoFault,
    SweepEntryFault,
}

impl Error {
    /// A short description, suitable for logs and user-facing messages.
    pub fn message(&self) -> (r: &'static str)
        ensures
            *self is NotFound ==> r@ == "Paste not found"@,
            !(*self is NotFound) ==> r@ == "Something went wrong"@,
    {
        match self {
            Error::NotFound => "Paste not found",
            _ => "Something went wrong",
        }
    }
}

} // verus!
