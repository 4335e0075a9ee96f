//! The steps around the planner: building a request from its raw fields,
//! taking in the balance read, and mapping the ledger's answer to a result.
//!
//! The caller performs the outside work between the steps: it reads the
//! balance of `request.asset` after `prepare_withdrawal`, submits the plan
//! that `plan_with_balance` returns, and hands the ledger's answer to
//! `failure_outcome` and `conclude`. Nothing is submitted unless a plan came
//! back.

use vstd::prelude::*;
use crate::address::{
    account_bytes_of, all_accounts, first_malformed, is_account_text, parse_accounts, parse_one,
    AccountHandle,
};
use crate::amount::Amount;
use crate::error::EngineError;
use crate::planner::{is_plan_for, plan, Allocation, Asset, DisbursementPlan, WithdrawalRequest};

verus! {

/// The asset that an optional token identifier designates.
pub open spec fn asset_matches(token: Option<String>, a: Asset) -> bool {
    match token {
        None => a == Asset::Native,
        Some(t) => a matches Asset::Token(h) && h@ == account_bytes_of(t@),
    }
}

/// A token identifier, when given, names an account.
pub open spec fn token_ok(token: Option<String>) -> bool {
    token matches Some(t) ==> is_account_text(t@)
}

/// The error for a token identifier that names no account.
pub open spec fn token_error(token: Option<String>) -> EngineError {
    EngineError::MalformedAddress { index: 0, raw: token->0 }
}

/// The error for a list holding an identifier that names no account.
pub open spec fn list_error(raw: Seq<String>) -> EngineError {
    EngineError::MalformedAddress {
        index: first_malformed(raw) as usize,
        raw: raw[first_malformed(raw)],
    }
}

/// The native currency when no token is given, else the token's contract.
pub fn parse_asset(token: &Option<String>) -> (r: Result<Asset, EngineError>)
    ensures
        r is Ok <==> token_ok(*token),
        r matches Ok(a) ==> asset_matches(*token, a),
        r matches Err(e) ==> e == token_error(*token),
{
    match token {
        None => Ok(Asset::Native),
        Some(t) => match parse_one(t) {
            Ok(h) => Ok(Asset::Token(h)),
            Err(e) => Err(e),
        },
    }
}

/// Builds a withdrawal request from its raw fields.
///
/// The checks come in this order: the token identifier, exactly one of
/// `amounts` and `percentages`, the recipients' identifiers, and one
/// allocation entry for each of at least one recipient.
pub fn prepare_withdrawal(
    token: Option<String>,
    to: Vec<String>,
    amounts: Option<Vec<Amount>>,
    percentages: Option<Vec<u8>>,
) -> (r: Result<WithdrawalRequest, EngineError>)
    ensures
        !token_ok(token) ==> r == Err::<WithdrawalRequest, EngineError>(token_error(token)),
        token_ok(token) && (amounts is Some == percentages is Some) ==> r == Err::<
            WithdrawalRequest,
            EngineError,
        >(EngineError::InvalidRequestShape),
        token_ok(token) && (amounts is Some != percentages is Some) && !all_accounts(to@) ==> r
            == Err::<WithdrawalRequest, EngineError>(list_error(to@)),
        token_ok(token) && (amounts is Some != percentages is Some) && all_accounts(to@) ==> {
            let n = if amounts is Some {
                amounts->0@.len()
            } else {
                percentages->0@.len()
            };
            &&& (to@.len() == 0 || n != to@.len()) ==> r == Err::<WithdrawalRequest, EngineError>(
                EngineError::InvalidRequestShape,
            )
            &&& (to@.len() > 0 && n == to@.len()) ==> r is Ok
        },
        r matches Ok(req) ==> {
            &&& req.has_valid_shape()
            &&& asset_matches(token, req.asset)
            &&& req.recipients@.len() == to@.len()
            &&& forall|i: int|
                0 <= i < to@.len() ==> (#[trigger] req.recipients@[i])@ == account_bytes_of(to@[i]@)
            &&& match req.allocation {
                Allocation::Amounts(a) => amounts == Some(a),
                Allocation::Percentages(p) => amounts is None && percentages == Some(p),
            }
        },
{
    let asset = match parse_asset(&token) {
        Ok(a) => a,
        Err(e) => return Err(e),
    };
    let allocation = match (amounts, percentages) {
        (Some(a), None) => Allocation::Amounts(a),
        (None, Some(p)) => Allocation::Percentages(p),
        _ => return Err(EngineError::InvalidRequestShape),
    };
    let recipients = match parse_accounts(&to) {
        Ok(v) => v,
        Err(e) => return Err(e),
    };
    let entries = match &allocation {
        Allocation::Amounts(a) => a.len(),
        Allocation::Percentages(p) => p.len(),
    };
    if recipients.len() == 0 || entries != recipients.len() {
        return Err(EngineError::InvalidRequestShape);
    }
    Ok(WithdrawalRequest { asset, recipients, allocation })
}

/// Takes in the balance read: a failed read is `OracleUnavailable`, never
/// a zero balance.
pub fn balance_read(read: Result<Amount, String>) -> (r: Result<Amount, EngineError>)
    ensures
        read matches Ok(b) ==> r == Ok::<Amount, EngineError>(b),
        read matches Err(c) ==> r == Err::<Amount, EngineError>(
            EngineError::OracleUnavailable { cause: c },
        ),
{
    match read {
        Ok(b) => Ok(b),
        Err(cause) => Err(EngineError::OracleUnavailable { cause }),
    }
}

/// Plans the request against the balance read of its own asset.
pub fn plan_with_balance(request: &WithdrawalRequest, read: Result<Amount, String>) -> (r: Result<
    DisbursementPlan,
    EngineError,
>)
    ensures
        read matches Err(c) ==> r == Err::<DisbursementPlan, EngineError>(
            EngineError::OracleUnavailable { cause: c },
        ),
        read matches Ok(b) ==> is_plan_for(*request, b, r),
{
    match balance_read(read) {
        Ok(b) => plan(request, b),
        Err(e) => Err(e),
    }
}

/// A sweep of funds from several accounts into one.
#[derive(Clone, Debug, PartialEq, Eq)]
pub struct DepositOrder {
    pub asset: Asset,
    pub from: Vec<AccountHandle>,
    pub to: AccountHandle,
}

/// The error for a single identifier that names no account.
pub open spec fn single_error(raw: String) -> EngineError {
    EngineError::MalformedAddress { index: 0, raw }
}

/// Builds a deposit from its raw fields, checking the token identifier,
/// then the source accounts, then the destination.
pub fn prepare_deposit(token: Option<String>, from: Vec<String>, to: String) -> (r: Result<
    DepositOrder,
    EngineError,
>)
    ensures
        !token_ok(token) ==> r == Err::<DepositOrder, EngineError>(token_error(token)),
        token_ok(token) && !all_accounts(from@) ==> r == Err::<DepositOrder, EngineError>(
            list_error(from@),
        ),
        token_ok(token) && all_accounts(from@) && !is_account_text(to@) ==> r == Err::<
            DepositOrder,
            EngineError,
        >(single_error(to)),
        r is Ok <==> token_ok(token) && all_accounts(from@) && is_account_text(to@),
        r matches Ok(d) ==> {
            &&& asset_matches(token, d.asset)
            &&& d.from@.len() == from@.len()
            &&& forall|i: int|
                0 <= i < from@.len() ==> (#[trigger] d.from@[i])@ == account_bytes_of(from@[i]@)
            &&& d.to@ == account_bytes_of(to@)
        },
{
    let asset = match parse_asset(&token) {
        Ok(a) => a,
        Err(e) => return Err(e),
    };
    let sources = match parse_accounts(&from) {
        Ok(v) => v,
        Err(e) => return Err(e),
    };
    let dest = match parse_one(&to) {
        Ok(h) => h,
        Err(e) => return Err(e),
    };
    Ok(DepositOrder { asset, from: sources, to: dest })
}

/// A read of how much `spender` may move of `owner`'s tokens.
#[derive(Clone, Copy, Debug, PartialEq, Eq)]
pub struct AllowanceQuery {
    pub token: AccountHandle,
    pub owner: AccountHandle,
    pub spender: AccountHandle,
}

/// Builds an allowance query, checking the token, owner and spender
/// identifiers in that order.
pub fn prepare_allowance(token: String, owner: String, spender: String) -> (r: Result<
    AllowanceQuery,
    EngineError,
>)
    ensures
        !is_account_text(token@) ==> r == Err::<AllowanceQuery, EngineError>(single_error(token)),
        is_account_text(token@) && !is_account_text(owner@) ==> r == Err::<
            AllowanceQuery,
            EngineError,
        >(single_error(owner)),
        is_account_text(token@) && is_account_text(owner@) && !is_account_text(spender@) ==> r
            == Err::<AllowanceQuery, EngineError>(single_error(spender)),
        r is Ok <==> is_account_text(token@) && is_account_text(owner@) && is_account_text(
            spender@,
        ),
        r matches Ok(q) ==> {
            &&& q.token@ == account_bytes_of(token@)
            &&& q.owner@ == account_bytes_of(owner@)
            &&& q.spender@ == account_bytes_of(spender@)
        },
{
    let t = match parse_one(&token) {
        Ok(h) => h,
        Err(e) => return Err(e),
    };
    let o = match parse_one(&owner) {
        Ok(h) => h,
        Err(e) => return Err(e),
    };
    let s = match parse_one(&spender) {
        Ok(h) => h,
        Err(e) => return Err(e),
    };
    Ok(AllowanceQuery { token: t, owner: o, spender: s })
}

} // verus!
