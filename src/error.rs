//! The errors of the driver.
use vstd::prelude::*;

verus! {

/// Everything that can go wrong while talking to a power box or changing
/// one of its properties.
#[derive(Clone, Copy, Debug, PartialEq, Eq, Structural)]
pub enum DeviceError {
    /// The port could not be opened or the startup probe got no answer.
    CannotConnect,
    /// The serial link failed, or delivered a frame that is not a response.
    ComError,
    /// The device did not finish its answer in time.
    Timeout,
    /// A write was asked of a property that can only be read.
    CannotUpdateReadOnlyProperty,
    /// No property of that name exists.
    UnknownProperty,
    /// The value is malformed for the property, or the device rejected it.
    InvalidValue,
}

} // verus!
