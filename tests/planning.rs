use treasury::{
    plan, AccountHandle, Allocation, Amount, Asset, EngineError, Transfer, WithdrawalRequest,
};

const A: &str = "0x1111111111111111111111111111111111111111";
const B: &str = "0x2222222222222222222222222222222222222222";
const C: &str = "0x3333333333333333333333333333333333333333";

fn acct(s: &str) -> AccountHandle {
    AccountHandle::parse(s).unwrap()
}

fn amounts(v: &[u64]) -> Vec<Amount> {
    v.iter().map(|x| Amount::from_u64(*x)).collect()
}

fn request(recipients: &[&str], allocation: Allocation) -> WithdrawalRequest {
    WithdrawalRequest {
        asset: Asset::Native,
        recipients: recipients.iter().map(|s| acct(s)).collect(),
        allocation,
    }
}

fn plan_amounts(p: &treasury::DisbursementPlan) -> Vec<Amount> {
    p.transfers.iter().map(|t| t.amount).collect()
}

#[test]
fn amounts_within_balance_are_kept_exactly() {
    let req = request(&[A, B, A], Allocation::Amounts(amounts(&[10, 0, 30])));
    let p = plan(&req, Amount::from_u64(40)).unwrap();
    assert_eq!(p.asset, Asset::Native);
    assert_eq!(
        p.transfers,
        vec![
            Transfer { recipient: acct(A), amount: Amount::from_u64(10) },
            Transfer { recipient: acct(B), amount: Amount::from_u64(0) },
            Transfer { recipient: acct(A), amount: Amount::from_u64(30) },
        ]
    );
}

#[test]
fn amounts_over_balance_are_insufficient_funds() {
    let req = request(&[A, B], Allocation::Amounts(amounts(&[60, 60])));
    let r = plan(&req, Amount::from_u64(100));
    assert_eq!(
        r,
        Err(EngineError::InsufficientFunds {
            required: Amount::from_u64(120),
            available: Amount::from_u64(100),
        })
    );
}

#[test]
fn amounts_that_overflow_are_refused() {
    let max = Amount::from_limbs([u64::MAX; 4]);
    let req = request(&[A, B], Allocation::Amounts(vec![max, Amount::from_u64(1)]));
    assert_eq!(plan(&req, max), Err(EngineError::AmountOverflow));
}

#[test]
fn amounts_summing_to_the_largest_value_fit() {
    let half_low = Amount::from_limbs([u64::MAX, u64::MAX, u64::MAX, u64::MAX - 1]);
    let req = request(&[A, B], Allocation::Amounts(vec![half_low, Amount::from_limbs([0, 0, 0, 1])]));
    let max = Amount::from_limbs([u64::MAX; 4]);
    let p = plan(&req, max).unwrap();
    assert_eq!(p.transfers[1].amount, Amount::from_limbs([0, 0, 0, 1]));
}

#[test]
fn half_and_half_of_one_hundred() {
    let req = request(&[A, B], Allocation::Percentages(vec![50, 50]));
    let p = plan(&req, Amount::from_u64(100)).unwrap();
    assert_eq!(plan_amounts(&p), amounts(&[50, 50]));
}

#[test]
fn thirds_round_down_and_leave_the_residual() {
    let req = request(&[A, B, C], Allocation::Percentages(vec![33, 33, 33]));
    let p = plan(&req, Amount::from_u64(100)).unwrap();
    assert_eq!(plan_amounts(&p), amounts(&[33, 33, 33]));
    assert_eq!(p.transfers[2].recipient, acct(C));
}

#[test]
fn percentages_summing_to_101_are_refused_at_any_balance() {
    for balance in [0u64, 1, 100, u64::MAX] {
        let req = request(&[A, B], Allocation::Percentages(vec![51, 50]));
        assert_eq!(
            plan(&req, Amount::from_u64(balance)),
            Err(EngineError::InvalidPercentage { sum: 101 })
        );
    }
}

#[test]
fn a_single_percentage_over_100_is_refused() {
    let req = request(&[A], Allocation::Percentages(vec![150]));
    assert_eq!(
        plan(&req, Amount::from_u64(1000)),
        Err(EngineError::InvalidPercentage { sum: 150 })
    );
}

#[test]
fn percentages_of_the_largest_balance_stay_exact() {
    let max = Amount::from_limbs([u64::MAX; 4]);
    let req = request(&[A, B], Allocation::Percentages(vec![50, 100]));
    let p = plan(&req, max);
    assert!(p.is_err());
    let req = request(&[A, B], Allocation::Percentages(vec![50, 50]));
    let p = plan(&req, max).unwrap();
    let half = Amount::from_limbs([u64::MAX, u64::MAX, u64::MAX, u64::MAX >> 1]);
    assert_eq!(plan_amounts(&p), vec![half, half]);
}

#[test]
fn a_full_share_of_a_large_balance_is_the_balance() {
    let b = Amount::from_limbs([7, 0, 0, 1 << 40]);
    let req = request(&[A], Allocation::Percentages(vec![100]));
    let p = plan(&req, b).unwrap();
    assert_eq!(plan_amounts(&p), vec![b]);
}

#[test]
fn zero_percent_lines_are_kept() {
    let req = request(&[A, B], Allocation::Percentages(vec![0, 10]));
    let p = plan(&req, Amount::from_u64(1000)).unwrap();
    assert_eq!(plan_amounts(&p), amounts(&[0, 100]));
}

#[test]
fn small_balances_round_down_per_line() {
    let req = request(&[A, B, C], Allocation::Percentages(vec![25, 25, 50]));
    let p = plan(&req, Amount::from_u64(7)).unwrap();
    assert_eq!(plan_amounts(&p), amounts(&[1, 1, 3]));
}

#[test]
fn empty_request_has_invalid_shape() {
    let req = request(&[], Allocation::Amounts(vec![]));
    assert_eq!(plan(&req, Amount::from_u64(5)), Err(EngineError::InvalidRequestShape));
}

#[test]
fn length_mismatch_has_invalid_shape() {
    let req = request(&[A, B], Allocation::Percentages(vec![10]));
    assert_eq!(plan(&req, Amount::from_u64(5)), Err(EngineError::InvalidRequestShape));
    let req = request(&[A], Allocation::Amounts(amounts(&[1, 2])));
    assert_eq!(plan(&req, Amount::from_u64(5)), Err(EngineError::InvalidRequestShape));
}

#[test]
fn token_plans_keep_their_asset() {
    let token = Asset::Token(acct(C));
    let req = WithdrawalRequest {
        asset: token,
        recipients: vec![acct(A)],
        allocation: Allocation::Percentages(vec![40]),
    };
    let p = plan(&req, Amount::from_u64(10)).unwrap();
    assert_eq!(p.asset, token);
    assert_eq!(plan_amounts(&p), amounts(&[4]));
}

#[test]
fn amount_arithmetic_carries_across_limbs() {
    let a = Amount::from_limbs([u64::MAX, 0, 0, 0]);
    let s = a.checked_add(Amount::from_u64(1)).unwrap();
    assert_eq!(s, Amount::from_limbs([0, 1, 0, 0]));
    assert!(a.lt(&s));
    assert!(!s.lt(&a));
    assert!(!s.lt(&s));
    assert_eq!(Amount::from_limbs([u64::MAX; 4]).checked_add(Amount::from_u64(1)), None);
    assert_eq!(Amount::zero(), Amount::from_u64(0));
}

#[test]
fn percent_share_is_floor_of_product() {
    assert_eq!(Amount::from_u64(999).percent_share(33), Amount::from_u64(329));
    assert_eq!(Amount::from_u64(99).percent_share(1), Amount::from_u64(0));
    let big = Amount::from_limbs([0, 0, 0, 100]);
    assert_eq!(big.percent_share(7), Amount::from_limbs([0, 0, 0, 7]));
}
