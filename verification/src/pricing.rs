use crate::bond::Bond;
use crate::error::ErrorCode;
use crate::fixed::{
    lemma_mul_div_decreases, lemma_mul_div_increases, lemma_mul_div_le, mul_div, muldiv, ONE,
};
use crate::staking::{shares_for, staking_shares, staking_shares_fit};
use vstd::arithmetic::power::{
    lemma_pow0, lemma_pow1, lemma_pow_adds, lemma_pow_increases, lemma_pow_positive, pow,
};
use vstd::prelude::*;

verus! {

/// A payout must exceed this to be accepted.
pub const MIN_PAYOUT: u64 = 10_000_000;

/// The payout limit while the treasury holds nothing, so that a first deposit can be made.
pub const BOOTSTRAP_MAX_PAYOUT: u64 = 1_000_000_000_000;

/// Debt as a share of the reserves, scaled by `ONE`. Empty reserves count as one unit.
pub open spec fn debt_ratio(total_debt: int, total_reserves: int) -> int {
    mul_div(
        total_debt,
        ONE as int,
        if total_reserves < 1 {
            1
        } else {
            total_reserves
        },
    )
}

/// What the price adds to par for the debt outstanding.
pub open spec fn premium(bcv: int, debt_ratio: int) -> int {
    mul_div(bcv, debt_ratio, ONE as int)
}

/// The price of one reserve token in backing value, scaled by `ONE`: par plus the
/// premium, and no less than the floor.
pub open spec fn bond_price(bcv: int, debt_ratio: int, min_price: int) -> int {
    if ONE + premium(bcv, debt_ratio) >= min_price {
        ONE + premium(bcv, debt_ratio)
    } else {
        min_price
    }
}

/// An amount of an asset with `decimals` decimals, in 9-decimal units.
pub open spec fn scaled_amount(amount: int, decimals: nat) -> int {
    mul_div(amount, ONE as int, pow(10, decimals))
}

/// The backing value of a deposited amount.
pub open spec fn bond_value(amount: int, decimals: nat, rfv_rate: int) -> int {
    mul_div(scaled_amount(amount, decimals), rfv_rate, ONE as int)
}

/// The reserve tokens that a backing value buys at a price.
pub open spec fn bond_payout(value: int, price: int) -> int {
    mul_div(value, ONE as int, price)
}

/// The fee as the rate asks for it.
pub open spec fn raw_fee(payout: int, fee_rate: int) -> int {
    mul_div(payout, fee_rate, ONE as int)
}

/// The fee minted to the DAO: what the rate asks for, but never more than the spread
/// between the value taken in and the payout.
pub open spec fn bond_fee(payout: int, fee_rate: int, value: int) -> int {
    if raw_fee(payout, fee_rate) <= value - payout {
        raw_fee(payout, fee_rate)
    } else {
        value - payout
    }
}

/// The largest payout one deposit may earn.
pub open spec fn payout_cap(total_reserves: int, max_payout: int) -> int {
    if total_reserves == 0 {
        BOOTSTRAP_MAX_PAYOUT as int
    } else {
        mul_div(total_reserves, max_payout, ONE as int)
    }
}

/// More debt against the same reserves is a higher debt ratio.
pub proof fn lemma_debt_ratio_rises(debt: int, more_debt: int, total_reserves: int)
    requires
        debt <= more_debt,
    ensures
        debt_ratio(debt, total_reserves) <= debt_ratio(more_debt, total_reserves),
{
    let reserves = if total_reserves < 1 {
        1
    } else {
        total_reserves
    };
    assert(debt * (ONE as int) <= more_debt * (ONE as int));
    lemma_mul_div_increases(debt, ONE as int, more_debt, ONE as int, reserves);
}

/// The price rises with the control variable and with the debt ratio.
pub proof fn lemma_price_rises(bcv: int, ratio: int, more_bcv: int, more_ratio: int, min_price: int)
    requires
        0 <= bcv <= more_bcv,
        0 <= ratio <= more_ratio,
    ensures
        bond_price(bcv, ratio, min_price) <= bond_price(more_bcv, more_ratio, min_price),
{
    assert(bcv * ratio <= more_bcv * more_ratio) by (nonlinear_arith)
        requires
            0 <= bcv <= more_bcv,
            0 <= ratio <= more_ratio,
    ;
    lemma_mul_div_increases(bcv, ratio, more_bcv, more_ratio, ONE as int);
}

/// A higher price buys no more for the same value.
pub proof fn lemma_payout_falls(value: int, price: int, higher_price: int)
    requires
        0 <= value,
        0 < price <= higher_price,
    ensures
        bond_payout(value, higher_price) <= bond_payout(value, price),
{
    assert(0 <= value * (ONE as int));
    lemma_mul_div_decreases(value, ONE as int, price, higher_price);
}

/// What a deposit would earn, were it made now.
#[derive(Clone, Copy, Debug, PartialEq, Eq)]
pub struct Quote {
    pub debt_ratio: u64,
    pub price: u64,
    pub value: u64,
    pub payout: u64,
    pub staked: u64,
    pub fee: u64,
    pub max_payout: u64,
}

impl Bond {
    /// The price at the market's present debt.
    pub open spec fn price(&self, total_reserves: u64) -> int {
        bond_price(
            self.bcv as int,
            debt_ratio(self.total_debt as int, total_reserves as int),
            self.min_price as int,
        )
    }

    /// The backing value of `amount` of the market's asset.
    pub open spec fn value_of(&self, amount: u64) -> int {
        bond_value(amount as int, self.token_decimals as nat, self.rfv_rate as int)
    }

    /// The payout for `amount` at the present price.
    pub open spec fn payout_of(&self, total_reserves: u64, amount: u64) -> int {
        bond_payout(self.value_of(amount), self.price(total_reserves))
    }

    /// Whether every quantity of the quote is a 64-bit number.
    pub open spec fn quote_fits(
        &self,
        total_reserves: u64,
        amount: u64,
        staking_supply: u64,
        vault_backing: u64,
    ) -> bool {
        let ratio = debt_ratio(self.total_debt as int, total_reserves as int);
        let payout = self.payout_of(total_reserves, amount);
        &&& ratio <= u64::MAX
        &&& ONE + premium(self.bcv as int, ratio) <= u64::MAX
        &&& pow(10, self.token_decimals as nat) <= u64::MAX
        &&& scaled_amount(amount as int, self.token_decimals as nat) <= u64::MAX
        &&& self.value_of(amount) <= u64::MAX
        &&& staking_shares_fit(payout, staking_supply as int, vault_backing as int)
        &&& raw_fee(payout, self.fee as int) <= u64::MAX
        &&& mul_div(total_reserves as int, self.max_payout as int, ONE as int) <= u64::MAX
    }

    /// The quote for `amount` at the market's present debt.
    pub open spec fn quote_spec(
        &self,
        total_reserves: u64,
        amount: u64,
        staking_supply: u64,
        vault_backing: u64,
    ) -> Quote {
        let payout = self.payout_of(total_reserves, amount);
        Quote {
            debt_ratio: debt_ratio(self.total_debt as int, total_reserves as int) as u64,
            price: self.price(total_reserves) as u64,
            value: self.value_of(amount) as u64,
            payout: payout as u64,
            staked: staking_shares(payout, staking_supply as int, vault_backing as int) as u64,
            fee: bond_fee(payout, self.fee as int, self.value_of(amount)) as u64,
            max_payout: payout_cap(total_reserves as int, self.max_payout as int) as u64,
        }
    }

    /// A price is never below par nor below the floor, so a payout never exceeds the
    /// value it is bought with, and the fee fits in what is left.
    pub proof fn lemma_quote_bounds(self, total_reserves: u64, amount: u64)
        ensures
            0 <= self.value_of(amount),
            self.price(total_reserves) >= ONE,
            self.price(total_reserves) >= self.min_price,
            0 <= self.payout_of(total_reserves, amount) <= self.value_of(amount),
            self.payout_of(total_reserves, amount) + bond_fee(
                self.payout_of(total_reserves, amount),
                self.fee as int,
                self.value_of(amount),
            ) <= self.value_of(amount),
    {
        let unit = pow(10, self.token_decimals as nat);
        let scaled = scaled_amount(amount as int, self.token_decimals as nat);
        lemma_pow_positive(10, self.token_decimals as nat);
        assert(0 <= scaled) by (nonlinear_arith)
            requires
                scaled == (amount as int * (ONE as int)) / unit,
                0 < unit,
                0 <= amount,
                ONE == 1_000_000_000,
        ;
        assert(0 <= self.value_of(amount)) by (nonlinear_arith)
            requires
                self.value_of(amount) == (scaled * (self.rfv_rate as int)) / (ONE as int),
                0 <= scaled,
                0 <= self.rfv_rate,
                ONE == 1_000_000_000,
        ;
        let ratio = debt_ratio(self.total_debt as int, total_reserves as int);
        assert(0 <= ratio) by (nonlinear_arith)
            requires
                ratio == debt_ratio(self.total_debt as int, total_reserves as int),
                0 <= self.total_debt,
        ;
        assert(0 <= premium(self.bcv as int, ratio)) by (nonlinear_arith)
            requires
                0 <= ratio,
                0 <= self.bcv,
        ;
        lemma_mul_div_le(self.value_of(amount), ONE as int, self.price(total_reserves));
    }

    /// Prices a deposit of `amount` at the market's present debt.
    pub fn quote(
        &self,
        total_reserves: u64,
        amount: u64,
        staking_supply: u64,
        vault_backing: u64,
    ) -> (r: Result<Quote, ErrorCode>)
        ensures
            self.quote_fits(total_reserves, amount, staking_supply, vault_backing) ==> r == Ok::<
                Quote,
                ErrorCode,
            >(self.quote_spec(total_reserves, amount, staking_supply, vault_backing)),
            !self.quote_fits(total_reserves, amount, staking_supply, vault_backing) ==> r == Err::<
                Quote,
                ErrorCode,
            >(ErrorCode::Overflow),
            r matches Ok(q) ==> q.price >= ONE && q.price >= self.min_price && q.payout + q.fee
                <= q.value,
    {
        let reserves: u64 = if total_reserves < 1 {
            1
        } else {
            total_reserves
        };
        let debt_ratio: u64 = muldiv(self.total_debt, ONE, reserves)?;
        let premium: u64 = muldiv(self.bcv, debt_ratio, ONE)?;
        let par_price: u64 = match ONE.checked_add(premium) {
            Some(p) => p,
            None => { return Err(ErrorCode::Overflow); },
        };
        let price: u64 = if par_price >= self.min_price {
            par_price
        } else {
            self.min_price
        };
        let unit: u64 = match ten_to_the(self.token_decimals) {
            Some(u) => u,
            None => { return Err(ErrorCode::Overflow); },
        };
        let amount_scaled: u64 = muldiv(amount, ONE, unit)?;
        let value: u64 = muldiv(amount_scaled, self.rfv_rate, ONE)?;
        proof {
            self.lemma_quote_bounds(total_reserves, amount);
        }
        let payout: u64 = muldiv(value, ONE, price)?;
        let staked: u64 = shares_for(payout, staking_supply, vault_backing)?;
        let fee_asked: u64 = muldiv(payout, self.fee, ONE)?;
        let spread: u64 = value - payout;
        let fee: u64 = if fee_asked <= spread {
            fee_asked
        } else {
            spread
        };
        let share_of_reserves: u64 = muldiv(total_reserves, self.max_payout, ONE)?;
        let max_payout: u64 = if total_reserves == 0 {
            BOOTSTRAP_MAX_PAYOUT
        } else {
            share_of_reserves
        };
        Ok(Quote { debt_ratio, price, value, payout, staked, fee, max_payout })
    }
}

/// Ten to the power `decimals`, where that is a 64-bit number.
pub fn ten_to_the(decimals: u8) -> (r: Option<u64>)
    ensures
        pow(10, decimals as nat) <= u64::MAX ==> r == Some(pow(10, decimals as nat) as u64),
        pow(10, decimals as nat) > u64::MAX ==> r is None,
        r matches Some(p) ==> p > 0 && p == pow(10, decimals as nat),
{
    let mut power: u64 = 1;
    let mut i: u8 = 0;
    proof {
        lemma_pow0(10);
    }
    while i < decimals
        invariant
            i <= decimals,
            power == pow(10, i as nat),
            power > 0,
        decreases decimals - i,
    {
        proof {
            lemma_pow1(10);
            lemma_pow_adds(10, i as nat, 1);
        }
        match power.checked_mul(10) {
            Some(next) => {
                power = next;
            },
            None => {
                proof {
                    lemma_pow_increases(10, (i + 1) as nat, decimals as nat);
                }
                return None;
            },
        }
        i += 1;
    }
    Some(power)
}

} // verus!
