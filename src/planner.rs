//! The disbursement planner: from a withdrawal request and the custodial
//! balance to an ordered list of transfers, or a typed refusal.

use vstd::prelude::*;
use crate::address::AccountHandle;
use crate::amount::{amount_limit, lemma_share_bounded, share_of, Amount};
use crate::error::EngineError;

verus! {

/// What is withdrawn: the chain's native currency or a token contract's.
#[derive(Clone, Copy, Debug, PartialEq, Eq)]
pub enum Asset {
    Native,
    Token(AccountHandle),
}

/// How a withdrawal divides funds: one explicit amount per recipient, or one
/// percentage of the balance per recipient.
#[derive(Clone, Debug, PartialEq, Eq)]
pub enum Allocation {
    Amounts(Vec<Amount>),
    Percentages(Vec<u8>),
}

impl Allocation {
    pub open spec fn entries(&self) -> nat {
        match self {
            Allocation::Amounts(a) => a@.len(),
            Allocation::Percentages(p) => p@.len(),
        }
    }
}

#[derive(Clone, Debug, PartialEq, Eq)]
pub struct WithdrawalRequest {
    pub asset: Asset,
    pub recipients: Vec<AccountHandle>,
    pub allocation: Allocation,
}

impl WithdrawalRequest {
    /// At least one recipient, and one allocation entry per recipient.
    pub open spec fn has_valid_shape(&self) -> bool {
        &&& self.recipients@.len() > 0
        &&& self.allocation.entries() == self.recipients@.len()
    }
}

/// One line of a plan.
#[derive(Clone, Copy, Debug, PartialEq, Eq)]
pub struct Transfer {
    pub recipient: AccountHandle,
    pub amount: Amount,
}

/// The validated transfers of one withdrawal, in request order.
#[derive(Clone, Debug, PartialEq, Eq)]
pub struct DisbursementPlan {
    pub asset: Asset,
    pub transfers: Vec<Transfer>,
}

pub open spec fn amounts_total(s: Seq<Amount>) -> nat
    decreases s.len(),
{
    if s.len() == 0 {
        0
    } else {
        amounts_total(s.drop_last()) + s.last().value()
    }
}

pub open spec fn percent_total(s: Seq<u8>) -> nat
    decreases s.len(),
{
    if s.len() == 0 {
        0
    } else {
        percent_total(s.drop_last()) + s.last() as nat
    }
}

pub open spec fn transfers_total(s: Seq<Transfer>) -> nat
    decreases s.len(),
{
    if s.len() == 0 {
        0
    } else {
        transfers_total(s.drop_last()) + s.last().amount.value()
    }
}

proof fn lemma_amounts_prefix_le(s: Seq<Amount>, i: int)
    requires
        0 <= i <= s.len(),
    ensures
        amounts_total(s.take(i)) <= amounts_total(s),
    decreases s.len() - i,
{
    if i < s.len() {
        lemma_amounts_prefix_le(s, i + 1);
        assert(s.take(i + 1).drop_last() =~= s.take(i));
    } else {
        assert(s.take(i) =~= s);
    }
}

proof fn lemma_percent_prefix_le(s: Seq<u8>, i: int)
    requires
        0 <= i <= s.len(),
    ensures
        percent_total(s.take(i)) <= percent_total(s),
    decreases s.len() - i,
{
    if i < s.len() {
        lemma_percent_prefix_le(s, i + 1);
        assert(s.take(i + 1).drop_last() =~= s.take(i));
    } else {
        assert(s.take(i) =~= s);
    }
}

/// Any single percentage is at most the sum of the list.
pub proof fn lemma_percent_entry_le_total(s: Seq<u8>, i: int)
    requires
        0 <= i < s.len(),
    ensures
        s[i] as nat <= percent_total(s),
{
    lemma_percent_prefix_le(s, i + 1);
    assert(s.take(i + 1).drop_last() =~= s.take(i));
}

proof fn lemma_floor_add(x: nat, y: nat)
    ensures
        x / 100 + y / 100 <= (x + y) / 100,
{
    let a = (x / 100) as int;
    let r = (x % 100) as int;
    let c = (y / 100) as int;
    let s = (y % 100) as int;
    vstd::arithmetic::div_mod::lemma_fundamental_div_mod(x as int, 100);
    vstd::arithmetic::div_mod::lemma_fundamental_div_mod(y as int, 100);
    assert(x + y == (r + s) + (a + c) * 100);
    vstd::arithmetic::div_mod::lemma_hoist_over_denominator(r + s, a + c, 100);
}

/// The total of the amounts, or `AmountOverflow` when it reaches 2^256.
fn total_of(a: &Vec<Amount>) -> (r: Result<Amount, EngineError>)
    ensures
        amounts_total(a@) < amount_limit() <==> r is Ok,
        r matches Ok(t) ==> t.value() == amounts_total(a@),
        r matches Err(e) ==> e == EngineError::AmountOverflow,
{
    let mut total = Amount::zero();
    let mut i: usize = 0;
    while i < a.len()
        invariant
            0 <= i <= a@.len(),
            total.value() == amounts_total(a@.take(i as int)),
        decreases a@.len() - i,
    {
        assert(a@.take(i + 1).drop_last() =~= a@.take(i as int));
        match total.checked_add(a[i]) {
            Some(t) => total = t,
            None => {
                proof {
                    lemma_amounts_prefix_le(a@, i + 1);
                }
                return Err(EngineError::AmountOverflow);
            },
        }
        i = i + 1;
    }
    assert(a@.take(a@.len() as int) =~= a@);
    Ok(total)
}

/// The sum of the percentages; it always fits.
fn percent_sum(p: &Vec<u8>) -> (r: u128)
    ensures
        r == percent_total(p@),
{
    let n = p.len();
    let mut sum: u128 = 0;
    let mut i: usize = 0;
    while i < n
        invariant
            0 <= i <= n,
            n == p@.len(),
            sum == percent_total(p@.take(i as int)),
            sum <= 255 * i,
        decreases p@.len() - i,
    {
        assert(p@.take(i + 1).drop_last() =~= p@.take(i as int));
        sum = sum + p[i] as u128;
        i = i + 1;
    }
    assert(p@.take(p@.len() as int) =~= p@);
    sum
}

/// Pairs each recipient with its amount, unchanged.
fn pair_amounts(recipients: &Vec<AccountHandle>, a: &Vec<Amount>) -> (r: Vec<Transfer>)
    requires
        recipients@.len() == a@.len(),
    ensures
        r@.len() == a@.len(),
        forall|i: int|
            0 <= i < a@.len() ==> #[trigger] r@[i] == (Transfer { recipient: recipients@[i], amount: a@[i] }),
        transfers_total(r@) == amounts_total(a@),
{
    let mut out: Vec<Transfer> = Vec::new();
    let mut i: usize = 0;
    while i < a.len()
        invariant
            0 <= i <= a@.len(),
            recipients@.len() == a@.len(),
            out@.len() == i,
            forall|j: int|
                0 <= j < i ==> #[trigger] out@[j] == (Transfer { recipient: recipients@[j], amount: a@[j] }),
            transfers_total(out@) == amounts_total(a@.take(i as int)),
        decreases a@.len() - i,
    {
        assert(a@.take(i + 1).drop_last() =~= a@.take(i as int));
        let ghost before = out@;
        out.push(Transfer { recipient: recipients[i], amount: a[i] });
        assert(out@.drop_last() =~= before);
        i = i + 1;
    }
    assert(a@.take(a@.len() as int) =~= a@);
    out
}

/// Gives each recipient its percentage of the balance, rounded down.
fn pair_shares(recipients: &Vec<AccountHandle>, p: &Vec<u8>, balance: Amount) -> (r: Vec<Transfer>)
    requires
        recipients@.len() == p@.len(),
        percent_total(p@) <= 100,
    ensures
        r@.len() == p@.len(),
        forall|i: int|
            0 <= i < p@.len() ==> {
                &&& (#[trigger] r@[i]).recipient == recipients@[i]
                &&& r@[i].amount.value() == share_of(balance.value(), p@[i] as nat)
            },
        transfers_total(r@) <= balance.value() * percent_total(p@) / 100,
{
    let ghost b = balance.value();
    let mut out: Vec<Transfer> = Vec::new();
    let mut i: usize = 0;
    while i < p.len()
        invariant
            0 <= i <= p@.len(),
            recipients@.len() == p@.len(),
            percent_total(p@) <= 100,
            b == balance.value(),
            out@.len() == i,
            forall|j: int|
                0 <= j < i ==> {
                    &&& (#[trigger] out@[j]).recipient == recipients@[j]
                    &&& out@[j].amount.value() == share_of(b, p@[j] as nat)
                },
            transfers_total(out@) <= b * percent_total(p@.take(i as int)) / 100,
        decreases p@.len() - i,
    {
        proof {
            lemma_percent_entry_le_total(p@, i as int);
            assert(p@.take(i + 1).drop_last() =~= p@.take(i as int));
            let before_pct = percent_total(p@.take(i as int));
            lemma_floor_add(b * before_pct, b * (p@[i as int] as nat));
            assert(b * before_pct + b * (p@[i as int] as nat) == b * (before_pct + p@[i as int] as nat))
                by (nonlinear_arith);
        }
        let share = balance.percent_share(p[i]);
        let ghost before = out@;
        out.push(Transfer { recipient: recipients[i], amount: share });
        assert(out@.drop_last() =~= before);
        i = i + 1;
    }
    assert(p@.take(p@.len() as int) =~= p@);
    out
}

/// What `plan` returns for a request and a balance.
pub open spec fn is_plan_for(
    request: WithdrawalRequest,
    balance: Amount,
    r: Result<DisbursementPlan, EngineError>,
) -> bool {
    &&& !request.has_valid_shape() ==> r == Err::<DisbursementPlan, EngineError>(
        EngineError::InvalidRequestShape,
    )
    &&& r matches Ok(plan) ==> {
        &&& plan.asset == request.asset
        &&& plan.transfers@.len() == request.recipients@.len()
        &&& transfers_total(plan.transfers@) <= balance.value()
    }
    &&& request.has_valid_shape() ==> match request.allocation {
        Allocation::Amounts(a) => {
            let total = amounts_total(a@);
            &&& total >= amount_limit() ==> r == Err::<DisbursementPlan, EngineError>(
                EngineError::AmountOverflow,
            )
            &&& total < amount_limit() && total > balance.value() ==> (r matches Err(
                EngineError::InsufficientFunds { required, available },
            ) && required.value() == total && available == balance)
            &&& total <= balance.value() ==> (r matches Ok(plan) && forall|i: int|
                0 <= i < a@.len() ==> #[trigger] plan.transfers@[i] == (Transfer {
                    recipient: request.recipients@[i],
                    amount: a@[i],
                }))
        },
        Allocation::Percentages(p) => {
            let sum = percent_total(p@);
            &&& sum > 100 ==> r == Err::<DisbursementPlan, EngineError>(
                EngineError::InvalidPercentage { sum: sum as u128 },
            )
            &&& (exists|i: int| 0 <= i < p@.len() && #[trigger] p@[i] > 100) ==> r
                == Err::<DisbursementPlan, EngineError>(
                EngineError::InvalidPercentage { sum: sum as u128 },
            )
            &&& sum <= 100 ==> (r matches Ok(plan) && forall|i: int|
                0 <= i < p@.len() ==> {
                    &&& (#[trigger] plan.transfers@[i]).recipient == request.recipients@[i]
                    &&& plan.transfers@[i].amount.value() == share_of(
                        balance.value(),
                        p@[i] as nat,
                    )
                })
        },
    }
}

/// Plans a withdrawal against the balance of its asset.
///
/// Explicit amounts are kept as they are when their total fits in the
/// balance. Percentages give each recipient `floor(balance * p / 100)`;
/// whatever the rounding leaves stays in the wallet. Zero lines are kept.
pub fn plan(request: &WithdrawalRequest, balance: Amount) -> (r: Result<DisbursementPlan, EngineError>)
    ensures
        is_plan_for(*request, balance, r),
{
    let n = request.recipients.len();
    if n == 0 {
        return Err(EngineError::InvalidRequestShape);
    }
    match &request.allocation {
        Allocation::Amounts(a) => {
            if a.len() != n {
                return Err(EngineError::InvalidRequestShape);
            }
            let total = match total_of(a) {
                Ok(t) => t,
                Err(e) => return Err(e),
            };
            if balance.lt(&total) {
                return Err(EngineError::InsufficientFunds { required: total, available: balance });
            }
            let transfers = pair_amounts(&request.recipients, a);
            Ok(DisbursementPlan { asset: request.asset, transfers })
        },
        Allocation::Percentages(p) => {
            if p.len() != n {
                return Err(EngineError::InvalidRequestShape);
            }
            let sum = percent_sum(p);
            proof {
                if exists|i: int| 0 <= i < p@.len() && #[trigger] p@[i] > 100 {
                    let i = choose|i: int| 0 <= i < p@.len() && #[trigger] p@[i] > 100;
                    lemma_percent_entry_le_total(p@, i);
                }
            }
            if sum > 100 {
                return Err(EngineError::InvalidPercentage { sum });
            }
            let transfers = pair_shares(&request.recipients, p, balance);
            proof {
                lemma_share_bounded(balance.value(), percent_total(p@));
            }
            Ok(DisbursementPlan { asset: request.asset, transfers })
        },
    }
}

/// Explicit amounts whose total fits in the balance are planned unchanged:
/// the transfers are exactly the recipients zipped with the amounts.
pub proof fn lemma_amount_plan_is_zip(
    request: WithdrawalRequest,
    balance: Amount,
    r: Result<DisbursementPlan, EngineError>,
)
    requires
        is_plan_for(request, balance, r),
        request.has_valid_shape(),
        request.allocation is Amounts,
        amounts_total(request.allocation->Amounts_0@) <= balance.value(),
    ensures
        r matches Ok(plan) && plan.transfers@ == Seq::new(
            request.recipients@.len(),
            |i: int|
                Transfer {
                    recipient: request.recipients@[i],
                    amount: request.allocation->Amounts_0@[i],
                },
        ),
{
    let plan = r->Ok_0;
    assert(plan.transfers@ =~= Seq::new(
        request.recipients@.len(),
        |i: int|
            Transfer { recipient: request.recipients@[i], amount: request.allocation->Amounts_0@[i] },
    ));
}

/// Explicit amounts whose total exceeds the balance (and fits in 256 bits)
/// are refused with `InsufficientFunds`; no plan comes back to submit.
pub proof fn lemma_overdraft_refused(
    request: WithdrawalRequest,
    balance: Amount,
    r: Result<DisbursementPlan, EngineError>,
)
    requires
        is_plan_for(request, balance, r),
        request.has_valid_shape(),
        request.allocation is Amounts,
        amounts_total(request.allocation->Amounts_0@) > balance.value(),
        amounts_total(request.allocation->Amounts_0@) < amount_limit(),
    ensures
        r matches Err(EngineError::InsufficientFunds { required, available }) && required.value()
            == amounts_total(request.allocation->Amounts_0@) && available == balance,
{
}

/// Valid percentages always yield a plan, and rounding down never lets its
/// total exceed the balance.
pub proof fn lemma_percentage_plan_within_balance(
    request: WithdrawalRequest,
    balance: Amount,
    r: Result<DisbursementPlan, EngineError>,
)
    requires
        is_plan_for(request, balance, r),
        request.has_valid_shape(),
        request.allocation is Percentages,
        percent_total(request.allocation->Percentages_0@) <= 100,
        forall|i: int|
            0 <= i < request.allocation->Percentages_0@.len()
                ==> #[trigger] request.allocation->Percentages_0@[i] <= 100,
    ensures
        r matches Ok(plan) && transfers_total(plan.transfers@) <= balance.value(),
{
}

/// Percentages that sum to more than 100, or hold a value over 100, are
/// refused with `InvalidPercentage`, whatever the balance.
pub proof fn lemma_bad_percentages_refused(
    request: WithdrawalRequest,
    balance: Amount,
    r: Result<DisbursementPlan, EngineError>,
)
    requires
        is_plan_for(request, balance, r),
        request.has_valid_shape(),
        request.allocation is Percentages,
        percent_total(request.allocation->Percentages_0@) > 100 || exists|i: int|
            0 <= i < request.allocation->Percentages_0@.len()
                && #[trigger] request.allocation->Percentages_0@[i] > 100,
    ensures
        r == Err::<DisbursementPlan, EngineError>(
            EngineError::InvalidPercentage {
                sum: percent_total(request.allocation->Percentages_0@) as u128,
            },
        ),
{
}

} // verus!
