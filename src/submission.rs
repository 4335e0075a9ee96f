//! Outcomes of a submission to the ledger, and what they become for the
//! caller.

use vstd::prelude::*;
use crate::error::EngineError;

verus! {

/// How a submitted transaction ended.
#[derive(Clone, Debug, PartialEq, Eq)]
pub enum SubmissionOutcome {
    /// Mined; `tx` is the transaction identifier.
    Confirmed { tx: String },
    /// Rejected by the contract; `reason` is the decoded revert text, `None`
    /// when the payload carried none that could be decoded.
    Reverted { reason: Option<String> },
    /// The ledger could not be reached or did not answer in time.
    TransportFailed { cause: String },
}

/// The text that an ABI-encoded `Error(string)` revert payload decodes to.
pub uninterp spec fn revert_text_of(data: Seq<u8>) -> Option<Seq<char>>;

/// The payload starts with the selector of `Error(string)`, `08 c3 79 a0`.
pub open spec fn has_error_selector(data: Seq<u8>) -> bool {
    &&& data.len() >= 4
    &&& data[0] == 0x08u8
    &&& data[1] == 0xc3u8
    &&& data[2] == 0x79u8
    &&& data[3] == 0xa0u8
}

/// Relies on `EthError::decode_with_selector` for `String` in
/// ethers-contract: `None` unless the payload starts with the `Error(string)`
/// selector, else the ABI decoding of the rest as a string, if it decodes.
#[verifier::external_body]
fn decode_revert_string(data: &[u8]) -> (r: Option<String>)
    ensures
        !has_error_selector(data@) ==> r is None,
        r is None ==> revert_text_of(data@) is None,
        r matches Some(s) ==> revert_text_of(data@) == Some(s@),
{
    <String as ethers::contract::EthError>::decode_with_selector(data)
}

/// The decoded reason of a revert payload, as `Reverted` carries it.
pub open spec fn revert_reason_matches(data: Seq<u8>, reason: Option<String>) -> bool {
    match reason {
        None => revert_text_of(data) is None,
        Some(s) => revert_text_of(data) == Some(s@),
    }
}

/// Classifies a failed submission: with revert data it is a revert whose
/// reason is decoded when it can be, else a transport failure with `cause`.
pub fn failure_outcome(revert_data: Option<Vec<u8>>, cause: String) -> (r: SubmissionOutcome)
    ensures
        revert_data is None ==> r == (SubmissionOutcome::TransportFailed { cause }),
        revert_data matches Some(d) ==> {
            &&& r matches SubmissionOutcome::Reverted { reason }
            &&& revert_reason_matches(d@, reason)
            &&& !has_error_selector(d@) ==> reason is None
        },
{
    match revert_data {
        None => SubmissionOutcome::TransportFailed { cause },
        Some(d) => SubmissionOutcome::Reverted { reason: decode_revert_string(d.as_slice()) },
    }
}

/// What the caller gets for an outcome: the transaction identifier when it
/// was confirmed, else the matching error. Nothing is retried or dropped.
pub fn conclude(outcome: SubmissionOutcome) -> (r: Result<String, EngineError>)
    ensures
        outcome matches SubmissionOutcome::Confirmed { tx } ==> r == Ok::<String, EngineError>(tx),
        outcome matches SubmissionOutcome::Reverted { reason } ==> r == Err::<String, EngineError>(
            EngineError::Reverted { reason },
        ),
        outcome matches SubmissionOutcome::TransportFailed { cause } ==> r == Err::<
            String,
            EngineError,
        >(EngineError::TransportFailed { cause }),
{
    match outcome {
        SubmissionOutcome::Confirmed { tx } => Ok(tx),
        SubmissionOutcome::Reverted { reason } => Err(EngineError::Reverted { reason }),
        SubmissionOutcome::TransportFailed { cause } => Err(EngineError::TransportFailed { cause }),
    }
}

} // verus!
