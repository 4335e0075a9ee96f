//! Disbursement planning and validation for a custodial treasury wallet.
//!
//! The library turns withdrawal requests (explicit amounts or percentage
//! shares) into validated transfer plans, checks account identifiers, and
//! maps the ledger's answers to typed outcomes. Network access stays with
//! the caller, which performs the balance reads and submissions that the
//! functions here ask for.

mod address;
mod amount;
mod coordinator;
mod error;
mod planner;
mod submission;

pub use address::{parse_accounts, parse_one, AccountHandle};
pub use amount::Amount;
pub use error::{EngineError, BAD_REQUEST, INTERNAL_ERROR};
pub use planner::{plan, Allocation, Asset, DisbursementPlan, Transfer, WithdrawalRequest};
pub use coordinator::{
    balance_read, parse_asset, plan_with_balance, prepare_allowance, prepare_deposit,
    prepare_withdrawal, AllowanceQuery, DepositOrder,
};
pub use submission::{conclude, failure_outcome, SubmissionOutcome};
