use crate::custody::{transfer_if_any, Asset, Holder, Order};
use crate::error::ErrorCode;
use crate::events::EventBondWithdraw;
use crate::fixed::{
    lemma_mul_div_increases, lemma_mul_div_le, lemma_mul_div_one, mul_div, mul_div_fits, muldiv,
    ONE,
};
use crate::pubkey::Pubkey;
use crate::user::{User, UserBond, MAX_USER_BONDS};
use vstd::prelude::*;

verus! {

impl UserBond {
    /// Seconds since the position started vesting; none if the clock has gone back.
    pub open spec fn vesting_elapsed(&self, now: u64) -> int {
        if now >= self.vesting_start {
            now - self.vesting_start
        } else {
            0
        }
    }

    /// Whether the progress at `now` can be computed: the period is not zero and the
    /// progress before clamping is a 64-bit number.
    pub open spec fn can_vest(&self, now: u64) -> bool {
        mul_div_fits(self.vesting_elapsed(now), ONE as int, self.vesting_period as int)
    }

    /// The share of the position that has vested by `now`, scaled by `ONE`: linear in
    /// time, and whole from the end of the vesting period on.
    pub open spec fn progress_at(&self, now: u64) -> int {
        let linear = mul_div(self.vesting_elapsed(now), ONE as int, self.vesting_period as int);
        if linear <= ONE {
            linear
        } else {
            ONE as int
        }
    }

    /// Staking tokens vested by `now`.
    pub open spec fn vested_at(&self, now: u64) -> int {
        mul_div(self.staked as int, self.progress_at(now), ONE as int)
    }

    /// Staking tokens vested by `now` and not yet claimed.
    pub open spec fn claimable_at(&self, now: u64) -> int {
        if self.vested_at(now) > self.claimed {
            self.vested_at(now) - self.claimed
        } else {
            0
        }
    }

    /// Whether a claim at `now` takes the last of the position.
    pub open spec fn done_at(&self, now: u64) -> bool {
        self.claimed + self.claimable_at(now) == self.staked
    }

    /// The slot after a claim at `now`: the claim is added to what was claimed, and a
    /// position with nothing left gives its slot back.
    pub open spec fn claimed_at(&self, now: u64) -> UserBond {
        if self.done_at(now) {
            UserBond::spec_default()
        } else {
            UserBond { claimed: (self.claimed + self.claimable_at(now)) as u64, ..*self }
        }
    }

    /// The progress is a share between nothing and the whole, and what has vested is a
    /// part of the position.
    pub proof fn lemma_progress_bounds(self, now: u64)
        requires
            self.vesting_period > 0,
        ensures
            0 <= self.progress_at(now) <= ONE,
            0 <= self.vested_at(now) <= self.staked,
            0 <= self.claimable_at(now),
            self.wf() ==> self.claimed + self.claimable_at(now) <= self.staked,
    {
        let elapsed = self.vesting_elapsed(now);
        let period = self.vesting_period as int;
        assert(0 <= mul_div(elapsed, ONE as int, period)) by (nonlinear_arith)
            requires
                0 <= elapsed,
                0 < period,
        ;
        lemma_mul_div_le(self.staked as int, self.progress_at(now), ONE as int);
    }

    /// What has vested never shrinks as time goes on.
    pub proof fn lemma_vested_increases(self, earlier: u64, later: u64)
        requires
            self.vesting_period > 0,
            earlier <= later,
        ensures
            self.progress_at(earlier) <= self.progress_at(later),
            self.vested_at(earlier) <= self.vested_at(later),
    {
        let period = self.vesting_period as int;
        lemma_mul_div_increases(
            self.vesting_elapsed(earlier),
            ONE as int,
            self.vesting_elapsed(later),
            ONE as int,
            period,
        );
        self.lemma_progress_bounds(earlier);
        self.lemma_progress_bounds(later);
        assert(self.staked * self.progress_at(earlier) <= self.staked * self.progress_at(later))
            by (nonlinear_arith)
            requires
                self.progress_at(earlier) <= self.progress_at(later),
                0 <= self.staked,
        ;
        lemma_mul_div_increases(
            self.staked as int,
            self.progress_at(earlier),
            self.staked as int,
            self.progress_at(later),
            ONE as int,
        );
    }

    /// Once the vesting period has gone by, the whole position has vested: a claim takes
    /// all that is left and gives the slot back.
    pub proof fn lemma_fully_vested(self, now: u64)
        requires
            self.vesting_period > 0,
            self.vesting_elapsed(now) >= self.vesting_period,
            self.wf(),
        ensures
            self.progress_at(now) == ONE,
            self.vested_at(now) == self.staked,
            self.claimable_at(now) == self.staked - self.claimed,
            self.done_at(now),
            self.claimed_at(now) == UserBond::spec_default(),
    {
        let period = self.vesting_period as int;
        lemma_mul_div_one(ONE as int, period);
        assert(mul_div(period, ONE as int, period) == ONE) by (nonlinear_arith)
            requires
                mul_div(ONE as int, period, period) == ONE,
        ;
        lemma_mul_div_increases(
            period,
            ONE as int,
            self.vesting_elapsed(now),
            ONE as int,
            period,
        );
        lemma_mul_div_one(self.staked as int, ONE as int);
    }

    /// What a run of claims at the given instants releases in all. A claim that cannot be
    /// computed releases nothing and leaves the position as it is.
    pub open spec fn released_over(self, instants: Seq<u64>) -> int
        decreases instants.len(),
    {
        if instants.len() == 0 {
            0
        } else if !self.can_vest(instants[0]) {
            self.released_over(instants.skip(1))
        } else {
            self.claimable_at(instants[0]) + self.claimed_at(instants[0]).released_over(
                instants.skip(1),
            )
        }
    }

    /// However often and whenever a position is claimed, the claims add up to no more
    /// than what it still held.
    pub proof fn lemma_claims_within_staked(self, instants: Seq<u64>)
        requires
            self.wf(),
        ensures
            0 <= self.released_over(instants) <= self.staked - self.claimed,
        decreases instants.len(),
    {
        if instants.len() == 0 {
        } else if !self.can_vest(instants[0]) {
            self.lemma_claims_within_staked(instants.skip(1));
        } else {
            self.lemma_progress_bounds(instants[0]);
            self.claimed_at(instants[0]).lemma_claims_within_staked(instants.skip(1));
        }
    }

    /// The share of the position that has vested by `now`, scaled by `ONE`.
    pub fn vesting_progress(&self, now: u64) -> (r: Result<u64, ErrorCode>)
        ensures
            self.can_vest(now) ==> r == Ok::<u64, ErrorCode>(self.progress_at(now) as u64),
            !self.can_vest(now) ==> r == Err::<u64, ErrorCode>(ErrorCode::Overflow),
            r matches Ok(progress) ==> progress <= ONE,
    {
        let elapsed: u64 = now.saturating_sub(self.vesting_start);
        let linear: u64 = muldiv(elapsed, ONE, self.vesting_period)?;
        if linear <= ONE {
            Ok(linear)
        } else {
            Ok(ONE)
        }
    }

    /// Claims what has vested by `now` and returns the amount, and whether the position
    /// is used up and its slot free again.
    pub fn claim(&mut self, now: u64) -> (r: Result<(u64, bool), ErrorCode>)
        ensures
            old(self).can_vest(now) ==> r == Ok::<(u64, bool), ErrorCode>(
                (old(self).claimable_at(now) as u64, old(self).done_at(now)),
            ) && *final(self) == old(self).claimed_at(now),
            !old(self).can_vest(now) ==> r == Err::<(u64, bool), ErrorCode>(ErrorCode::Overflow)
                && *final(self) == *old(self),
            old(self).wf() ==> final(self).wf(),
    {
        let progress: u64 = self.vesting_progress(now)?;
        proof {
            self.lemma_progress_bounds(now);
        }
        let vested: u64 = muldiv(self.staked, progress, ONE)?;
        let amount: u64 = vested.saturating_sub(self.claimed);
        let claimed: u64 = self.claimed + amount;
        let done: bool = claimed == self.staked;
        if done {
            *self = UserBond::default();
        } else {
            self.claimed = claimed;
        }
        Ok((amount, done))
    }
}

impl EventBondWithdraw {
    /// What the claim asks of the custody layer: the staking tokens released go from
    /// vesting custody to the user, where any are released.
    pub open spec fn orders_spec(&self) -> Seq<Order> {
        transfer_if_any(Asset::Staking, Holder::VestingCustody, Holder::User, self.amount)
    }

    /// The orders for the custody layer, first to last.
    pub fn orders(&self) -> (orders: Vec<Order>)
        ensures
            orders@ == self.orders_spec(),
    {
        let mut orders: Vec<Order> = Vec::new();
        if self.amount > 0 {
            orders.push(
                Order::Transfer {
                    asset: Asset::Staking,
                    from: Holder::VestingCustody,
                    to: Holder::User,
                    amount: self.amount,
                },
            );
        }
        assert(orders@ =~= self.orders_spec());
        orders
    }
}

/// What a claim on a vesting position reads and writes.
#[derive(Clone, Copy, Debug, PartialEq, Eq)]
pub struct BondWithdraw {
    pub signer: Pubkey,
    /// Identity of the treasury record.
    pub treasury_key: Pubkey,
    /// Identity of the user's ledger.
    pub user_key: Pubkey,
    pub user: User,
}

impl BondWithdraw {
    /// A claim on slot `index`, rule by rule.
    pub open spec fn withdraw_spec(self, index: u64, now: u64) -> Result<
        (BondWithdraw, EventBondWithdraw),
        ErrorCode,
    > {
        let slot = self.user.bonds[index as int];
        if index >= MAX_USER_BONDS {
            Err(ErrorCode::Overflow)
        } else if slot.is_free() {
            Err(ErrorCode::Unknown)
        } else if !slot.can_vest(now) {
            Err(ErrorCode::Overflow)
        } else {
            Ok(
                (
                    BondWithdraw {
                        user: self.user.with_bond(index as int, slot.claimed_at(now)),
                        ..self
                    },
                    EventBondWithdraw {
                        signer: self.signer,
                        treasury: self.treasury_key,
                        bond: slot.bond,
                        user: self.user_key,
                        done: slot.done_at(now),
                        amount: slot.claimable_at(now) as u64,
                    },
                ),
            )
        }
    }
}

/// Claims what has vested by `now` of the position in slot `index`. A claim that is
/// refused changes nothing.
pub fn bond_withdraw(ctx: &mut BondWithdraw, index: u64, now: u64) -> (r: Result<
    EventBondWithdraw,
    ErrorCode,
>)
    ensures
        match old(ctx).withdraw_spec(index, now) {
            Ok((after, event)) => r == Ok::<EventBondWithdraw, ErrorCode>(event) && *final(ctx)
                == after,
            Err(e) => r == Err::<EventBondWithdraw, ErrorCode>(e) && *final(ctx) == *old(ctx),
        },
        old(ctx).user.wf() ==> final(ctx).user.wf(),
{
    if index >= MAX_USER_BONDS as u64 {
        return Err(ErrorCode::Overflow);
    }
    let i: usize = index as usize;
    let mut user_bond: UserBond = ctx.user.bonds[i];
    if user_bond.bond == Pubkey::default() {
        return Err(ErrorCode::Unknown);
    }
    let bond_key: Pubkey = user_bond.bond;
    let (amount, done) = user_bond.claim(now)?;
    ctx.user.bonds[i] = user_bond;
    Ok(
        EventBondWithdraw {
            signer: ctx.signer,
            treasury: ctx.treasury_key,
            bond: bond_key,
            user: ctx.user_key,
            done,
            amount,
        },
    )
}

} // verus!
