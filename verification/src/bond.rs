use crate::error::ErrorCode;
use crate::fixed::{
    lemma_mul_div_increases, lemma_mul_div_le, lemma_mul_div_one, mul_div, mul_div_fits, muldiv,
};
use crate::pubkey::Pubkey;
use crate::treasury::Treasury;
use vstd::prelude::*;

verus! {

/// The shortest vesting period a bond can be given, in seconds.
pub const MIN_VESTING_PERIOD: u64 = 3600;

/// One bond market: its parameters and its decaying debt.
#[derive(Clone, Copy, Debug, PartialEq, Eq)]
pub struct Bond {
    pub bump: u8,
    /// Identity of the treasury record.
    pub treasury: Pubkey,
    /// The asset this market accepts.
    pub mint_bond: Pubkey,
    /// Decimals of the accepted asset.
    pub token_decimals: u8,
    /// Seconds over which a payout vests and over which debt decays.
    pub vesting_period: u64,
    /// Backing value of one whole unit of the asset, scaled by `ONE`.
    pub rfv_rate: u64,
    pub min_price: u64,
    /// Largest payout of one deposit, as a share of the total reserves scaled by `ONE`.
    /// Zero until the market is configured.
    pub max_payout: u64,
    /// Debt at which the market stops accepting deposits.
    pub max_debt: u64,
    /// Share of each payout minted to the DAO on top, scaled by `ONE`.
    pub fee: u64,
    /// Bond control variable: how strongly the price follows the debt ratio.
    pub bcv: u64,
    /// Backing value accepted lately; decays to zero over one vesting period.
    pub total_debt: u64,
    /// When the debt was last decayed.
    pub total_debt_last: u64,
    /// Backing value accepted, all time.
    pub total_debt_alltime: u64,
}

impl Default for Bond {
    fn default() -> (bond: Bond)
        ensures
            bond == Bond::spec_default(),
    {
        Bond {
            bump: 0,
            treasury: Pubkey::default(),
            mint_bond: Pubkey::default(),
            token_decimals: 0,
            vesting_period: 0,
            rfv_rate: 0,
            min_price: 0,
            max_payout: 0,
            max_debt: 0,
            fee: 0,
            bcv: 0,
            total_debt: 0,
            total_debt_last: 0,
            total_debt_alltime: 0,
        }
    }
}

impl Bond {
    /// The record before anything is written to it: every field zero. It is not
    /// configured.
    pub open spec fn spec_default() -> Bond {
        Bond {
            bump: 0,
            treasury: Pubkey::spec_default(),
            mint_bond: Pubkey::spec_default(),
            token_decimals: 0,
            vesting_period: 0,
            rfv_rate: 0,
            min_price: 0,
            max_payout: 0,
            max_debt: 0,
            fee: 0,
            bcv: 0,
            total_debt: 0,
            total_debt_last: 0,
            total_debt_alltime: 0,
        }
    }

    /// A market takes deposits only once it has a payout limit.
    pub open spec fn configured(&self) -> bool {
        self.max_payout != 0
    }

    /// A configured market vests over no less than the minimum period.
    pub open spec fn wf(&self) -> bool {
        self.configured() ==> self.vesting_period >= MIN_VESTING_PERIOD
    }

    /// The debt that has decayed away by `now`, before it is capped at the debt itself:
    /// linear in the time since the last decay, all of it after one vesting period.
    pub open spec fn decay_at(&self, now: u64) -> int {
        mul_div(self.total_debt as int, now - self.total_debt_last, self.vesting_period as int)
    }

    /// Whether the decay by `now` can be computed: the clock has not gone back, and the
    /// decayed amount is a 64-bit number.
    pub open spec fn can_decay(&self, now: u64) -> bool {
        now >= self.total_debt_last && mul_div_fits(
            self.total_debt as int,
            now - self.total_debt_last,
            self.vesting_period as int,
        )
    }

    /// The debt left at `now`: never below zero.
    pub open spec fn debt_at(&self, now: u64) -> int {
        if self.decay_at(now) >= self.total_debt {
            0
        } else {
            self.total_debt - self.decay_at(now)
        }
    }

    /// The market with its debt decayed to `now`.
    pub open spec fn decayed(&self, now: u64) -> Bond {
        Bond { total_debt: self.debt_at(now) as u64, total_debt_last: now, ..*self }
    }

    /// Decays the debt to `now` and returns what it was before the cap at the debt itself.
    pub fn decay(&mut self, now: u64) -> (r: Result<u64, ErrorCode>)
        ensures
            old(self).can_decay(now) ==> r == Ok::<u64, ErrorCode>(old(self).decay_at(now) as u64)
                && *final(self) == old(self).decayed(now),
            !old(self).can_decay(now) ==> r == Err::<u64, ErrorCode>(ErrorCode::Overflow)
                && *final(self) == *old(self),
    {
        if now < self.total_debt_last {
            return Err(ErrorCode::Overflow);
        }
        let elapsed: u64 = now - self.total_debt_last;
        let debt_decay: u64 = muldiv(self.total_debt, elapsed, self.vesting_period)?;
        self.total_debt = self.total_debt.saturating_sub(debt_decay);
        self.total_debt_last = now;
        Ok(debt_decay)
    }

    /// Within one vesting period the decay is a part of the debt, so the debt left is the
    /// debt less the decay.
    pub proof fn lemma_decay_within_period(self, now: u64)
        requires
            self.can_decay(now),
            now - self.total_debt_last <= self.vesting_period,
        ensures
            0 <= self.decay_at(now) <= self.total_debt,
            self.debt_at(now) == self.total_debt - self.decay_at(now),
    {
        lemma_mul_div_le(
            self.total_debt as int,
            now - self.total_debt_last,
            self.vesting_period as int,
        );
    }

    /// After a whole vesting period no debt is left.
    pub proof fn lemma_decay_after_period(self, now: u64)
        requires
            self.can_decay(now),
            now - self.total_debt_last >= self.vesting_period,
        ensures
            self.debt_at(now) == 0,
    {
        let period = self.vesting_period as int;
        lemma_mul_div_one(self.total_debt as int, period);
        assert(self.total_debt * period <= self.total_debt * (now - self.total_debt_last))
            by (nonlinear_arith)
            requires
                period <= now - self.total_debt_last,
                0 <= self.total_debt,
        ;
        lemma_mul_div_increases(
            self.total_debt as int,
            period,
            self.total_debt as int,
            now - self.total_debt_last,
            period,
        );
    }

    /// Decaying twice to the same instant changes nothing the second time.
    pub proof fn lemma_decay_idempotent(self, now: u64)
        requires
            self.can_decay(now),
        ensures
            self.decayed(now).can_decay(now),
            self.decayed(now).decay_at(now) == 0,
            self.decayed(now).decayed(now) == self.decayed(now),
    {
        let once = self.decayed(now);
        assert((once.total_debt as int) * 0 == 0) by (nonlinear_arith);
        assert(0int / (self.vesting_period as int) == 0) by (nonlinear_arith)
            requires
                self.vesting_period > 0,
        ;
    }
}

/// What opening a bond market reads and writes.
#[derive(Clone, Copy, Debug, PartialEq, Eq)]
pub struct BondInitialize {
    pub signer: Pubkey,
    /// Identity of the treasury record.
    pub treasury_key: Pubkey,
    pub treasury: Treasury,
    pub bond: Bond,
    /// The asset the market is to accept, and its decimals.
    pub mint_bond: Pubkey,
    pub mint_bond_decimals: u8,
}

impl BondInitialize {
    /// Only the authority of the treasury may open a market under it.
    pub open spec fn authorized(&self) -> bool {
        self.signer == self.treasury.authority
    }

    /// The market bound to its treasury and asset, its debt clock started at `now`.
    pub open spec fn initialized(self, now: u64) -> Bond {
        Bond {
            treasury: self.treasury_key,
            mint_bond: self.mint_bond,
            token_decimals: self.mint_bond_decimals,
            total_debt_last: now,
            ..self.bond
        }
    }
}

/// Binds a new bond market to its treasury and to the asset it accepts.
pub fn bond_initialize(ctx: &mut BondInitialize, now: u64) -> (r: Result<(), ErrorCode>)
    ensures
        old(ctx).authorized() ==> r == Ok::<(), ErrorCode>(()) && *final(ctx) == (BondInitialize {
            bond: old(ctx).initialized(now),
            ..*old(ctx)
        }),
        !old(ctx).authorized() ==> r == Err::<(), ErrorCode>(ErrorCode::Unauthorized) && *final(ctx)
            == *old(ctx),
        old(ctx).bond.wf() ==> final(ctx).bond.wf(),
{
    if ctx.signer != ctx.treasury.authority {
        return Err(ErrorCode::Unauthorized);
    }
    ctx.bond.treasury = ctx.treasury_key;
    ctx.bond.mint_bond = ctx.mint_bond;
    ctx.bond.token_decimals = ctx.mint_bond_decimals;
    ctx.bond.total_debt_last = now;
    Ok(())
}

/// What configuring a bond market reads and writes.
#[derive(Clone, Copy, Debug, PartialEq, Eq)]
pub struct BondConfigure {
    pub signer: Pubkey,
    pub treasury: Treasury,
    pub bond: Bond,
}

impl BondConfigure {
    /// Only the authority of the treasury may configure its markets.
    pub open spec fn authorized(&self) -> bool {
        self.signer == self.treasury.authority
    }

    /// The market with its parameters replaced. The control variable is replaced only
    /// where the market already has one.
    pub open spec fn configured(
        self,
        vesting_period: u64,
        rfv_rate: u64,
        min_price: u64,
        max_payout: u64,
        max_debt: u64,
        fee: u64,
        bcv: u64,
    ) -> Bond {
        Bond {
            vesting_period,
            rfv_rate,
            min_price,
            max_payout,
            max_debt,
            fee,
            bcv: if self.bond.bcv > 0 {
                bcv
            } else {
                self.bond.bcv
            },
            ..self.bond
        }
    }
}

/// Replaces the parameters of a bond market.
pub fn bond_configure(
    ctx: &mut BondConfigure,
    vesting_period: u64,
    rfv_rate: u64,
    min_price: u64,
    max_payout: u64,
    max_debt: u64,
    fee: u64,
    bcv: u64,
) -> (r: Result<(), ErrorCode>)
    ensures
        !old(ctx).authorized() ==> r == Err::<(), ErrorCode>(ErrorCode::Unauthorized),
        old(ctx).authorized() && vesting_period < MIN_VESTING_PERIOD ==> r == Err::<(), ErrorCode>(
            ErrorCode::InvalidParameter,
        ),
        old(ctx).authorized() && vesting_period >= MIN_VESTING_PERIOD ==> r == Ok::<(), ErrorCode>(
            (),
        ),
        r is Err ==> *final(ctx) == *old(ctx),
        r is Ok ==> *final(ctx) == (BondConfigure {
            bond: old(ctx).configured(
                vesting_period,
                rfv_rate,
                min_price,
                max_payout,
                max_debt,
                fee,
                bcv,
            ),
            ..*old(ctx)
        }),
        r is Ok ==> final(ctx).bond.wf(),
{
    if ctx.signer != ctx.treasury.authority {
        return Err(ErrorCode::Unauthorized);
    }
    if vesting_period < MIN_VESTING_PERIOD {
        return Err(ErrorCode::InvalidParameter);
    }
    ctx.bond.vesting_period = vesting_period;
    ctx.bond.rfv_rate = rfv_rate;
    ctx.bond.min_price = min_price;
    ctx.bond.max_payout = max_payout;
    ctx.bond.max_debt = max_debt;
    ctx.bond.fee = fee;
    if ctx.bond.bcv > 0 {
        ctx.bond.bcv = bcv;
    }
    Ok(())
}

} // verus!
