//! What can go wrong.
use core::num::ParseIntError;
use core::str::Utf8Error;
use vstd::prelude::*;

verus! {

/// Why the tool gives up.
#[derive(Debug, PartialEq, Eq)]
pub enum Error {
    Device,
    DeviceNotFound,
    Compatible,
    FeatureMissing,
    TypecController,
    InvalidArgument,
    ReconnectTimeout,
    ControllerTimeout,
    VdmReplyTimeout,
    VdmRejected,
    DebugUsbEnumerationTimeout,
    I2C,
    /// The file system failed, with this error of the operating system where there is one.
    Io(Option<i32>),
    /// A text is not UTF-8, and why.
    Utf8(Utf8Error),
    /// A text is not a number that fits, and why.
    Parse(ParseIntError),
}

/// What the host reports when a request fails.
#[derive(Debug, Clone, Copy, PartialEq, Eq)]
pub enum Fault {
    /// The device behind the bus failed.
    Device,
    /// The bus cannot do what it is asked to.
    FeatureMissing,
    /// The I2C transfer, or opening the bus, failed.
    I2C,
    /// The file system failed, with this error of the operating system where there is one.
    Io(Option<i32>),
}

impl Fault {
    /// The error that a fault is handed on as.
    pub open spec fn spec_error(self) -> Error {
        match self {
            Fault::Device => Error::Device,
            Fault::FeatureMissing => Error::FeatureMissing,
            Fault::I2C => Error::I2C,
            Fault::Io(code) => Error::Io(code),
        }
    }

    /// The error that a fault is handed on as.
    pub fn error(self) -> (e: Error)
        ensures
            e == self.spec_error(),
    {
        match self {
            Fault::Device => Error::Device,
            Fault::FeatureMissing => Error::FeatureMissing,
            Fault::I2C => Error::I2C,
            Fault::Io(code) => Error::Io(code),
        }
    }
}

} // verus!
