use vstd::prelude::*;

verus! {

/// The kinds of error that the device core reports on a request.
#[derive(Clone, Copy, Debug, PartialEq, Eq, Structural, Hash)]
pub enum ErrorKind {
    /// The refuse policy rejected the request at admission.
    RequestRefused,
    /// The drop policy discarded the request at dispatch.
    RequestDropped,
    /// The device cannot take the request now (queue cap, or not running yet).
    DeviceBusy,
    /// The device is stopping or has stopped.
    DeviceTerminated,
    /// An argument is out of its domain.
    InvalidInput,
    /// The storage has no room left for the data.
    StorageFull,
    /// The storage failed in some other way.
    Other,
}

} // verus!
