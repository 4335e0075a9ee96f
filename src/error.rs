//! The error taxonomy of the engine.

use vstd::prelude::*;
use crate::amount::Amount;

verus! {

/// Why a request was refused or a submission did not go through.
#[derive(Clone, Debug, PartialEq, Eq)]
pub enum EngineError {
    /// The identifier at `index` of a list (0 for a single identifier) does
    /// not parse as an account.
    MalformedAddress { index: usize, raw: String },
    /// Both or neither allocation kinds given, lengths that differ, or no
    /// recipient at all.
    InvalidRequestShape,
    /// A percentage list whose sum is over 100.
    InvalidPercentage { sum: u128 },
    /// The requested amounts add up to 2^256 or more.
    AmountOverflow,
    /// The requested amounts add up to more than the custodial balance.
    InsufficientFunds { required: Amount, available: Amount },
    /// The balance could not be read.
    OracleUnavailable { cause: String },
    /// The contract rejected the transaction; `reason` is the decoded revert
    /// text, `None` for an opaque revert.
    Reverted { reason: Option<String> },
    /// The network could not be reached or the submission timed out.
    TransportFailed { cause: String },
    /// Anything else that went wrong on the server's side.
    UnexpectedFailure { cause: String },
}

/// HTTP status for a request rejected as invalid.
pub const BAD_REQUEST: u16 = 400;

/// HTTP status for a failure on the server's side.
pub const INTERNAL_ERROR: u16 = 500;

impl EngineError {
    /// Errors that come from the request itself rather than from the network.
    pub open spec fn is_input_error(&self) -> bool {
        ||| self is MalformedAddress
        ||| self is InvalidRequestShape
        ||| self is InvalidPercentage
        ||| self is AmountOverflow
        ||| self is InsufficientFunds
    }

    /// The HTTP status that reports this error: bad request for input
    /// errors, internal error for the rest.
    pub fn status_code(&self) -> (r: u16)
        ensures
            self.is_input_error() ==> r == BAD_REQUEST,
            !self.is_input_error() ==> r == INTERNAL_ERROR,
    {
        match self {
            EngineError::MalformedAddress { .. }
            | EngineError::InvalidRequestShape
            | EngineError::InvalidPercentage { .. }
            | EngineError::AmountOverflow
            | EngineError::InsufficientFunds { .. } => BAD_REQUEST,
            EngineError::OracleUnavailable { .. }
            | EngineError::Reverted { .. }
            | EngineError::TransportFailed { .. }
            | EngineError::UnexpectedFailure { .. } => INTERNAL_ERROR,
        }
    }
}

} // verus!
