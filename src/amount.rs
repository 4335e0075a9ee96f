//! Unsigned 256-bit amounts in base units of an asset.

use vstd::prelude::*;

verus! {

/// The number of distinct values of one 64-bit limb.
pub open spec fn word() -> nat {
    0x1_0000_0000_0000_0000
}

/// One past the largest amount: 2^256.
pub open spec fn amount_limit() -> nat {
    word() * word() * word() * word()
}

/// The number that four little-endian 64-bit limbs stand for.
pub open spec fn limbs_value(l: [u64; 4]) -> nat {
    l@[0] as nat + word() * (l@[1] as nat + word() * (l@[2] as nat + word() * (l@[3] as nat)))
}

proof fn lemma_limbs_value_bounded(l: [u64; 4])
    ensures
        limbs_value(l) < amount_limit(),
{
    let w = word() as int;
    let a = l@[0] as int;
    let b = l@[1] as int;
    let c = l@[2] as int;
    let d = l@[3] as int;
    assert(0 <= a < w && 0 <= b < w && 0 <= c < w && 0 <= d < w);
    assert(c + w * d < w * w) by (nonlinear_arith)
        requires 0 <= c < w, 0 <= d < w;
    assert(b + w * (c + w * d) < w * w * w) by (nonlinear_arith)
        requires 0 <= b < w, 0 <= c + w * d < w * w;
    assert(a + w * (b + w * (c + w * d)) < w * w * w * w) by (nonlinear_arith)
        requires 0 <= a < w, 0 <= b + w * (c + w * d) < w * w * w;
}

/// A non-negative amount below 2^256, held as four little-endian limbs.
#[derive(Clone, Copy, Debug, PartialEq, Eq, Hash)]
pub struct Amount {
    pub limbs: [u64; 4],
}

/// Relies on `U256::checked_add` of the `uint` crate (through ethers): the
/// sum, or `None` when it does not fit in 256 bits.
#[verifier::external_body]
fn u256_checked_add(a: [u64; 4], b: [u64; 4]) -> (r: Option<[u64; 4]>)
    ensures
        limbs_value(a) + limbs_value(b) < amount_limit() <==> r is Some,
        r matches Some(s) ==> limbs_value(s) == limbs_value(a) + limbs_value(b),
{
    ethers::types::U256(a).checked_add(ethers::types::U256(b)).map(|s| s.0)
}

/// Relies on `U256::checked_mul` of the `uint` crate (through ethers): the
/// product, or `None` when it does not fit in 256 bits.
#[verifier::external_body]
fn u256_checked_mul(a: [u64; 4], b: [u64; 4]) -> (r: Option<[u64; 4]>)
    ensures
        limbs_value(a) * limbs_value(b) < amount_limit() <==> r is Some,
        r matches Some(p) ==> limbs_value(p) == limbs_value(a) * limbs_value(b),
{
    ethers::types::U256(a).checked_mul(ethers::types::U256(b)).map(|p| p.0)
}

/// Relies on `U256::div_mod` of the `uint` crate (through ethers): the pair
/// of quotient and remainder; it panics on a zero divisor.
#[verifier::external_body]
fn u256_div_mod(a: [u64; 4], b: [u64; 4]) -> (r: ([u64; 4], [u64; 4]))
    requires
        limbs_value(b) > 0,
    ensures
        limbs_value(r.0) == limbs_value(a) / limbs_value(b),
        limbs_value(r.1) == limbs_value(a) % limbs_value(b),
{
    let (q, m) = ethers::types::U256(a).div_mod(ethers::types::U256(b));
    (q.0, m.0)
}

/// Relies on the `Ord` impl of `U256` in the `uint` crate (through ethers),
/// which compares the limbs from the most significant one down.
#[verifier::external_body]
fn u256_lt(a: [u64; 4], b: [u64; 4]) -> (r: bool)
    ensures
        r == (limbs_value(a) < limbs_value(b)),
{
    ethers::types::U256(a) < ethers::types::U256(b)
}

impl Amount {
    /// The number this amount stands for.
    pub open spec fn value(self) -> nat {
        limbs_value(self.limbs)
    }

    pub fn zero() -> (r: Amount)
        ensures
            r.value() == 0,
    {
        Amount { limbs: [0, 0, 0, 0] }
    }

    pub fn from_u64(v: u64) -> (r: Amount)
        ensures
            r.value() == v,
    {
        Amount { limbs: [v, 0, 0, 0] }
    }

    /// An amount from its limbs, least significant first.
    pub fn from_limbs(limbs: [u64; 4]) -> (r: Amount)
        ensures
            r.limbs == limbs,
            r.value() == limbs_value(limbs),
    {
        Amount { limbs }
    }

    pub fn checked_add(self, other: Amount) -> (r: Option<Amount>)
        ensures
            self.value() + other.value() < amount_limit() <==> r is Some,
            r matches Some(s) ==> s.value() == self.value() + other.value(),
    {
        match u256_checked_add(self.limbs, other.limbs) {
            Some(s) => Some(Amount { limbs: s }),
            None => None,
        }
    }

    pub fn lt(&self, other: &Amount) -> (r: bool)
        ensures
            r == (self.value() < other.value()),
    {
        u256_lt(self.limbs, other.limbs)
    }

    /// The share `floor(self * pct / 100)`, computed without any loss of
    /// precision and without an intermediate that could overflow.
    pub fn percent_share(self, pct: u8) -> (r: Amount)
        requires
            pct <= 100,
        ensures
            r.value() == share_of(self.value(), pct as nat),
            r.value() <= self.value(),
    {
        let ghost b = self.value();
        let hundred = Amount::from_u64(100);
        let (q, m) = u256_div_mod(self.limbs, hundred.limbs);
        proof {
            lemma_limbs_value_bounded(self.limbs);
            lemma_share_split(b, pct as nat);
            lemma_small_value_in_low_limb(m, 100);
            assert((b / 100) * (pct as nat) <= b) by (nonlinear_arith)
                requires pct <= 100;
        }
        let p = Amount::from_u64(pct as u64);
        let low = m[0];
        assert(low < 100);
        assert(low * (pct as u64) < 10000) by (nonlinear_arith)
            requires low < 100, pct <= 100;
        let rest: u64 = low * (pct as u64) / 100;
        assert(rest as nat == (b % 100) * (pct as nat) / 100);
        proof {
            lemma_share_bounded(b, pct as nat);
        }
        match u256_checked_mul(q, p.limbs) {
            Some(qp) => match u256_checked_add(qp, [rest, 0, 0, 0]) {
                Some(s) => Amount { limbs: s },
                None => {
                    assert(false);
                    Amount::zero()
                },
            },
            None => {
                assert(false);
                Amount::zero()
            },
        }
    }
}

/// `floor(balance * pct / 100)`.
pub open spec fn share_of(balance: nat, pct: nat) -> nat {
    balance * pct / 100
}

proof fn lemma_share_split(b: nat, p: nat)
    ensures
        b * p / 100 == (b / 100) * p + (b % 100) * p / 100,
{
    let q = (b / 100) as int;
    let m = (b % 100) as int;
    vstd::arithmetic::div_mod::lemma_fundamental_div_mod(b as int, 100);
    assert(b * p == (m * p) + (q * p) * 100) by (nonlinear_arith)
        requires b == 100 * q + m;
    vstd::arithmetic::div_mod::lemma_hoist_over_denominator(m * p, q * p, 100);
}

/// A share of at most 100 percent is at most the whole.
pub proof fn lemma_share_bounded(b: nat, p: nat)
    requires
        p <= 100,
    ensures
        b * p / 100 <= b,
{
    assert(b * p <= b * 100) by (nonlinear_arith)
        requires p <= 100;
    vstd::arithmetic::div_mod::lemma_div_is_ordered((b * p) as int, (b * 100) as int, 100);
    vstd::arithmetic::div_mod::lemma_div_multiples_vanish(b as int, 100);
}

proof fn lemma_small_value_in_low_limb(l: [u64; 4], bound: nat)
    requires
        limbs_value(l) < bound,
        bound <= word(),
    ensures
        l@[0] as nat == limbs_value(l),
{
    let hi = l@[1] as nat + word() * (l@[2] as nat + word() * (l@[3] as nat));
    if hi > 0 {
        assert(word() * hi >= word()) by (nonlinear_arith)
            requires hi >= 1;
    }
}

} // verus!
