//! What can go wrong: the bus fails, the chip does not answer as one that is
//! wired up would, or a transmission is given up.

use vstd::prelude::*;

verus! {

/// Failure of an operation on the chip.
#[derive(Debug)]
pub enum Error<SPIE> {
    /// The bus failed; the transfer's own error is inside.
    SpiError(SPIE),
    /// The chip answered the connectivity probe with a value that no
    /// connected chip gives.
    NotConnected,
}

impl<SPIE> Error<SPIE> {
    /// The bus error behind this error, if the bus caused it.
    pub fn cause(&self) -> (inner: Option<&SPIE>)
        ensures
            inner == match *self {
                Error::SpiError(e) => Some(&e),
                Error::NotConnected => None::<&SPIE>,
            },
    {
        match self {
            Error::SpiError(e) => Some(e),
            Error::NotConnected => None,
        }
    }
}

impl<SPIE> Error<SPIE> {
    /// The text of this error where it has one of its own. An error of the
    /// bus is shown by the bus error's own text.
    pub fn message(&self) -> (text: Option<&'static str>)
        ensures
            text == match *self {
                Error::SpiError(_) => None::<&'static str>,
                Error::NotConnected => Some("No chip answers on the bus"),
            },
    {
        match self {
            Error::SpiError(_) => None,
            Error::NotConnected => Some("No chip answers on the bus"),
        }
    }
}

impl<SPIE> From<SPIE> for Error<SPIE> {
    fn from(e: SPIE) -> (wrapped: Self) {
        Error::SpiError(e)
    }
}

impl<SPIE> vstd::std_specs::convert::FromSpecImpl<SPIE> for Error<SPIE> {
    open spec fn obeys_from_spec() -> bool {
        true
    }

    open spec fn from_spec(e: SPIE) -> Self {
        Error::SpiError(e)
    }
}

/// Failure to get the queued payloads on the air.
#[derive(Debug)]
pub enum TransmissionError<TErr> {
    /// An operation on the chip failed.
    DeviceError(TErr),
    /// The chip reported that it retransmitted a payload as often as it is
    /// configured to without an acknowledgement.
    MaximumRetriesExceeded,
    /// The queue was still not empty after as many status polls as the
    /// caller allows.
    PollLimitExceeded,
}

impl<TErr> TransmissionError<TErr> {
    /// The device error behind this error, if the device caused it.
    pub fn cause(&self) -> (inner: Option<&TErr>)
        ensures
            inner == match *self {
                TransmissionError::DeviceError(e) => Some(&e),
                _ => None::<&TErr>,
            },
    {
        match self {
            TransmissionError::DeviceError(e) => Some(e),
            _ => None,
        }
    }
}

impl<TErr> TransmissionError<TErr> {
    /// The text of this error where it has one of its own. An error of the
    /// device is shown by the device error's own text.
    pub fn message(&self) -> (text: Option<&'static str>)
        ensures
            text == match *self {
                TransmissionError::DeviceError(_) => None::<&'static str>,
                TransmissionError::MaximumRetriesExceeded => Some("Maximum retries exceeded"),
                TransmissionError::PollLimitExceeded => Some("Poll limit exceeded"),
            },
    {
        match self {
            TransmissionError::DeviceError(_) => None,
            TransmissionError::MaximumRetriesExceeded => Some("Maximum retries exceeded"),
            TransmissionError::PollLimitExceeded => Some("Poll limit exceeded"),
        }
    }
}

impl<TErr> From<TErr> for TransmissionError<TErr> {
    fn from(e: TErr) -> (wrapped: Self) {
        TransmissionError::DeviceError(e)
    }
}

impl<TErr> vstd::std_specs::convert::FromSpecImpl<TErr> for TransmissionError<TErr> {
    open spec fn obeys_from_spec() -> bool {
        true
    }

    open spec fn from_spec(e: TErr) -> Self {
        TransmissionError::DeviceError(e)
    }
}

} // verus!
