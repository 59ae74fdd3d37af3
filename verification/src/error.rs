//! The failures that the core reports to its callers. Each is a value handed
//! back, never a panic.

use vstd::prelude::*;

verus! {

/// The directory holds no device.
#[derive(Clone, Copy, Debug, PartialEq, Eq, Structural)]
pub struct Empty;

impl Empty {
    /// The text shown to whoever asked.
    pub fn message(&self) -> (text: &'static str)
        ensures
            text@ == "no connected backends"@,
    {
        "no connected backends"
    }
}

/// The connection to the device is closed, or handing it a message failed.
#[derive(Clone, Copy, Debug, PartialEq, Eq, Structural)]
pub struct Unreachable;

impl Unreachable {
    /// The text shown to whoever asked.
    pub fn message(&self) -> (text: &'static str)
        ensures
            text@ == "device unreachable"@,
    {
        "device unreachable"
    }
}

/// Why a request did not yield the reply it was sent for.
#[derive(Clone, Copy, Debug, PartialEq, Eq, Structural)]
pub enum ExchangeError {
    /// The connection ended before a reply came.
    Unreachable,
    /// A reply came, but of another kind than the request asks for.
    ProtocolViolation,
}

impl ExchangeError {
    /// The text shown to whoever asked.
    pub fn message(&self) -> (text: &'static str)
        ensures
            *self == ExchangeError::Unreachable ==> text@ == "device unreachable"@,
            *self == ExchangeError::ProtocolViolation ==> text@
                == "reply does not match its request"@,
    {
        match self {
            ExchangeError::Unreachable => "device unreachable",
            ExchangeError::ProtocolViolation => "reply does not match its request",
        }
    }
}

} // verus!
