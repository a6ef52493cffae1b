//! Decisions of the device-session setup.  Opening a watch queries whether
//! a kernel driver holds the interface and detaches it when needed; the
//! queries themselves happen outside the library, and the rules that turn
//! their outcomes into the next step live here.

use vstd::prelude::*;
use crate::errors::UsbError;

verus! {

/// What to do after querying whether a kernel driver is active on the
/// interface.
#[derive(Clone, Copy, Debug, PartialEq, Eq, Structural)]
pub enum DetachStep {
    /// The query answered: attempt to detach the kernel driver.
    Detach,
    /// The host cannot answer the query: skip the detach, without failing.
    Skip,
    /// The query failed: opening the session fails with this error.
    Fail(UsbError),
}

/// The step that follows a kernel-driver query: any answer leads to a
/// detach attempt, an unsupported query is skipped, and every other
/// failure is fatal.
pub fn detach_decision(query: Result<bool, UsbError>) -> (r: DetachStep)
    ensures
        query is Ok ==> r == DetachStep::Detach,
        query matches Err(e) ==> if e == UsbError::NotSupported {
            r == DetachStep::Skip
        } else {
            r == DetachStep::Fail(e)
        },
{
    match query {
        Ok(_) => DetachStep::Detach,
        Err(UsbError::NotSupported) => DetachStep::Skip,
        Err(other) => DetachStep::Fail(other),
    }
}

/// The outcome of a detach attempt: a driver that was not there to detach
/// is not a failure; every other error is fatal.
pub fn detach_outcome(result: Result<(), UsbError>) -> (r: Result<(), UsbError>)
    ensures
        result is Ok ==> r is Ok,
        result matches Err(e) ==> if e == UsbError::NotFound {
            r is Ok
        } else {
            r == Err::<(), UsbError>(e)
        },
{
    match result {
        Ok(()) => Ok(()),
        Err(UsbError::NotFound) => Ok(()),
        Err(other) => Err(other),
    }
}

} // verus!
