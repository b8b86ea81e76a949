use crate::custody::{mint_if_any, Asset, Holder, Order, Pool};
use crate::error::ErrorCode;
use crate::events::{EventStakingDeposit, EventStakingWithdraw};
use crate::fixed::{
    lemma_mul_div_bounds, lemma_mul_div_compare, lemma_mul_div_decreases, lemma_mul_div_increases,
    lemma_mul_div_one, lemma_mul_div_zero, mul_div, mul_div_fits, muldiv, ONE,
};
use crate::pubkey::Pubkey;
use crate::treasury::Treasury;
use vstd::prelude::*;

verus! {

/// The staking rate is a rate per this many seconds.
pub const SECONDS_PER_DAY: u64 = 86_400;

/// Staking tokens for an amount of reserve tokens, at the pool's ratio of supply to
/// backing; one for one while the pool has no supply.
pub open spec fn staking_shares(amount: int, supply: int, backing: int) -> int {
    if supply > 0 {
        mul_div(amount, supply, backing)
    } else {
        amount
    }
}

/// Whether `staking_shares` is a 64-bit number.
pub open spec fn staking_shares_fit(amount: int, supply: int, backing: int) -> bool {
    supply > 0 ==> mul_div_fits(amount, supply, backing)
}

/// Reserve tokens that an amount of staking tokens redeems for, at the pool's ratio of
/// backing to supply.
pub open spec fn staking_value(shares: int, backing: int, supply: int) -> int {
    mul_div(shares, backing, supply)
}

/// Converts reserve tokens into staking tokens.
pub fn shares_for(amount: u64, supply: u64, backing: u64) -> (r: Result<u64, ErrorCode>)
    ensures
        staking_shares_fit(amount as int, supply as int, backing as int) ==> r == Ok::<
            u64,
            ErrorCode,
        >(staking_shares(amount as int, supply as int, backing as int) as u64),
        !staking_shares_fit(amount as int, supply as int, backing as int) ==> r == Err::<
            u64,
            ErrorCode,
        >(ErrorCode::Overflow),
{
    if supply > 0 {
        muldiv(amount, supply, backing)
    } else {
        Ok(amount)
    }
}

/// Converts staking tokens into reserve tokens.
pub fn value_for(shares: u64, backing: u64, supply: u64) -> (r: Result<u64, ErrorCode>)
    ensures
        mul_div_fits(shares as int, backing as int, supply as int) ==> r == Ok::<u64, ErrorCode>(
            staking_value(shares as int, backing as int, supply as int) as u64,
        ),
        !mul_div_fits(shares as int, backing as int, supply as int) ==> r == Err::<u64, ErrorCode>(
            ErrorCode::Overflow,
        ),
{
    muldiv(shares, backing, supply)
}

impl Treasury {
    /// Seconds since staking rewards were last minted; none if the clock has gone back.
    pub open spec fn rebase_elapsed(&self, now: u64) -> int {
        if now >= self.staking_last {
            now - self.staking_last
        } else {
            0
        }
    }

    /// The share of the reserve supply that is due to the vault at `now`, scaled by `ONE`.
    pub open spec fn rebase_rate(&self, now: u64) -> int {
        mul_div(self.staking_rate as int, self.rebase_elapsed(now), SECONDS_PER_DAY as int)
    }

    /// The reserve tokens that are due to the vault at `now`.
    pub open spec fn rebase_amount(&self, reserve_supply: u64, now: u64) -> int {
        mul_div(reserve_supply as int, self.rebase_rate(now), ONE as int)
    }

    /// Whether the rebase due at `now` is a 64-bit number, and the rate behind it.
    pub open spec fn rebase_fits(&self, reserve_supply: u64, now: u64) -> bool {
        self.rebase_rate(now) <= u64::MAX && self.rebase_amount(reserve_supply, now) <= u64::MAX
    }

    /// The treasury once the rewards due at `now` are accounted for.
    pub open spec fn rebased(&self, now: u64) -> Treasury {
        Treasury { staking_last: now, ..*self }
    }

    /// Accounts for the staking rewards due at `now` and returns how many reserve tokens
    /// are to be minted into the vault.
    pub fn rebase(&mut self, reserve_supply: u64, now: u64) -> (r: Result<u64, ErrorCode>)
        ensures
            old(self).rebase_fits(reserve_supply, now) ==> r == Ok::<u64, ErrorCode>(
                old(self).rebase_amount(reserve_supply, now) as u64,
            ) && *final(self) == old(self).rebased(now),
            !old(self).rebase_fits(reserve_supply, now) ==> r == Err::<u64, ErrorCode>(
                ErrorCode::Overflow,
            ) && *final(self) == *old(self),
    {
        let time_elapsed: u64 = now.saturating_sub(self.staking_last);
        let rate: u64 = muldiv(self.staking_rate, time_elapsed, SECONDS_PER_DAY)?;
        let rebase_amount: u64 = muldiv(reserve_supply, rate, ONE)?;
        self.staking_last = now;
        Ok(rebase_amount)
    }

    /// What is due is never negative.
    pub proof fn lemma_rebase_not_negative(self, reserve_supply: u64, now: u64)
        ensures
            0 <= self.rebase_rate(now),
            0 <= self.rebase_amount(reserve_supply, now),
    {
        let rate = self.rebase_rate(now);
        assert(0 <= rate) by (nonlinear_arith)
            requires
                rate == (self.staking_rate as int * self.rebase_elapsed(now)) / (
                SECONDS_PER_DAY as int),
                0 <= self.rebase_elapsed(now),
                0 <= self.staking_rate,
                SECONDS_PER_DAY == 86400,
        ;
        assert(0 <= (reserve_supply as int * rate) / (ONE as int)) by (nonlinear_arith)
            requires
                0 <= rate,
                0 <= reserve_supply,
                ONE == 1_000_000_000,
        ;
    }

    /// With no time gone since the last rebase, nothing is due.
    pub proof fn lemma_rebase_nothing_due(self, reserve_supply: u64, now: u64)
        requires
            now <= self.staking_last,
        ensures
            self.rebase_rate(now) == 0,
            self.rebase_amount(reserve_supply, now) == 0,
            self.rebase_fits(reserve_supply, now),
    {
        lemma_mul_div_zero(self.staking_rate as int, SECONDS_PER_DAY as int);
        lemma_mul_div_zero(reserve_supply as int, ONE as int);
    }
}

/// What staking reserve tokens reads and writes.
#[derive(Clone, Copy, Debug, PartialEq, Eq)]
pub struct StakingDeposit {
    pub signer: Pubkey,
    /// Identity of the treasury record.
    pub treasury_key: Pubkey,
    pub treasury: Treasury,
    /// Reserve tokens in existence.
    pub reserve_supply: u64,
    /// Staking tokens in existence.
    pub staking_supply: u64,
    /// Reserve tokens in the staking vault.
    pub vault_backing: u64,
}

/// What an accepted stake announces, and the rewards that fell due with it.
#[derive(Clone, Copy, Debug, PartialEq, Eq)]
pub struct StakingDepositOutcome {
    /// Reserve tokens due to the vault as staking rewards.
    pub rebase_amount: u64,
    pub event: EventStakingDeposit,
}

impl StakingDepositOutcome {
    /// What the stake asks of the custody layer, first to last: the rewards are minted
    /// into the vault where there are any, the staked amount goes from the user into the
    /// vault, and the staking tokens it buys are minted to the user.
    pub open spec fn orders_spec(&self) -> Seq<Order> {
        mint_if_any(Asset::Reserve, Holder::StakingVault, self.rebase_amount) + seq![
            Order::Transfer {
                asset: Asset::Reserve,
                from: Holder::User,
                to: Holder::StakingVault,
                amount: self.event.amount,
            },
            Order::Mint { asset: Asset::Staking, to: Holder::User, amount: self.event.staked },
        ]
    }

    /// The orders for the custody layer, first to last.
    pub fn orders(&self) -> (orders: Vec<Order>)
        ensures
            orders@ == self.orders_spec(),
    {
        let mut orders: Vec<Order> = Vec::new();
        if self.rebase_amount > 0 {
            orders.push(
                Order::Mint {
                    asset: Asset::Reserve,
                    to: Holder::StakingVault,
                    amount: self.rebase_amount,
                },
            );
        }
        orders.push(
            Order::Transfer {
                asset: Asset::Reserve,
                from: Holder::User,
                to: Holder::StakingVault,
                amount: self.event.amount,
            },
        );
        orders.push(
            Order::Mint { asset: Asset::Staking, to: Holder::User, amount: self.event.staked },
        );
        assert(orders@ =~= self.orders_spec());
        orders
    }
}

impl StakingDeposit {
    /// The vault once the rewards due at `now` are in it.
    pub open spec fn backing_after_rebase(&self, now: u64) -> int {
        self.vault_backing + self.treasury.rebase_amount(self.reserve_supply, now)
    }

    /// The staking tokens that `amount` buys at `now`: at the ratio the pool has once the
    /// rewards due are in the vault.
    pub open spec fn shares_at(&self, amount: u64, now: u64) -> int {
        staking_shares(amount as int, self.staking_supply as int, self.backing_after_rebase(now))
    }

    /// A stake, rule by rule.
    pub open spec fn deposit_spec(self, amount: u64, now: u64) -> Result<
        (StakingDeposit, StakingDepositOutcome),
        ErrorCode,
    > {
        if amount == 0 {
            Err(ErrorCode::InvalidParameter)
        } else if !self.treasury.rebase_fits(self.reserve_supply, now) {
            Err(ErrorCode::Overflow)
        } else if self.backing_after_rebase(now) > u64::MAX {
            Err(ErrorCode::Overflow)
        } else if !staking_shares_fit(
            amount as int,
            self.staking_supply as int,
            self.backing_after_rebase(now),
        ) {
            Err(ErrorCode::Overflow)
        } else {
            Ok(
                (
                    StakingDeposit { treasury: self.treasury.rebased(now), ..self },
                    StakingDepositOutcome {
                        rebase_amount: self.treasury.rebase_amount(self.reserve_supply, now) as u64,
                        event: EventStakingDeposit {
                            signer: self.signer,
                            treasury: self.treasury_key,
                            staked: self.shares_at(amount, now) as u64,
                            amount,
                        },
                    },
                ),
            )
        }
    }
}

/// Stakes `amount` reserve tokens: accounts for the rewards due at `now` first, then
/// converts the amount at the ratio the pool has with those rewards in the vault.
/// A stake that is refused changes nothing.
pub fn staking_deposit(ctx: &mut StakingDeposit, amount: u64, now: u64) -> (r: Result<
    StakingDepositOutcome,
    ErrorCode,
>)
    ensures
        match old(ctx).deposit_spec(amount, now) {
            Ok((after, outcome)) => r == Ok::<StakingDepositOutcome, ErrorCode>(outcome) && *final(ctx) == after,
            Err(e) => r == Err::<StakingDepositOutcome, ErrorCode>(e) && *final(ctx) == *old(ctx),
        },
{
    if amount == 0 {
        return Err(ErrorCode::InvalidParameter);
    }
    let mut treasury: Treasury = ctx.treasury;
    let rebase_amount: u64 = treasury.rebase(ctx.reserve_supply, now)?;
    let backing: u64 = match ctx.vault_backing.checked_add(rebase_amount) {
        Some(sum) => sum,
        None => { return Err(ErrorCode::Overflow); },
    };
    let staked: u64 = shares_for(amount, ctx.staking_supply, backing)?;
    ctx.treasury = treasury;
    Ok(
        StakingDepositOutcome {
            rebase_amount,
            event: EventStakingDeposit {
                signer: ctx.signer,
                treasury: ctx.treasury_key,
                staked,
                amount,
            },
        },
    )
}

/// What redeeming staking tokens reads and writes.
#[derive(Clone, Copy, Debug, PartialEq, Eq)]
pub struct StakingWithdraw {
    pub signer: Pubkey,
    /// Identity of the treasury record.
    pub treasury_key: Pubkey,
    pub treasury: Treasury,
    /// Reserve tokens in existence.
    pub reserve_supply: u64,
    /// Staking tokens in existence.
    pub staking_supply: u64,
    /// Reserve tokens in the staking vault.
    pub vault_backing: u64,
}

/// What an accepted redemption announces, and the rewards that fell due with it.
#[derive(Clone, Copy, Debug, PartialEq, Eq)]
pub struct StakingWithdrawOutcome {
    /// Reserve tokens due to the vault as staking rewards.
    pub rebase_amount: u64,
    pub event: EventStakingWithdraw,
}

impl StakingWithdrawOutcome {
    /// What the redemption asks of the custody layer, first to last: the rewards are
    /// minted into the vault where there are any, the staking tokens go from the user
    /// into vesting custody and are burned there, and the reserve tokens they redeem for
    /// go from the vault to the user.
    pub open spec fn orders_spec(&self) -> Seq<Order> {
        mint_if_any(Asset::Reserve, Holder::StakingVault, self.rebase_amount) + seq![
            Order::Transfer {
                asset: Asset::Staking,
                from: Holder::User,
                to: Holder::VestingCustody,
                amount: self.event.staked,
            },
            Order::Burn {
                asset: Asset::Staking,
                from: Holder::VestingCustody,
                amount: self.event.staked,
            },
            Order::Transfer {
                asset: Asset::Reserve,
                from: Holder::StakingVault,
                to: Holder::User,
                amount: self.event.amount,
            },
        ]
    }

    /// The orders for the custody layer, first to last.
    pub fn orders(&self) -> (orders: Vec<Order>)
        ensures
            orders@ == self.orders_spec(),
    {
        let mut orders: Vec<Order> = Vec::new();
        if self.rebase_amount > 0 {
            orders.push(
                Order::Mint {
                    asset: Asset::Reserve,
                    to: Holder::StakingVault,
                    amount: self.rebase_amount,
                },
            );
        }
        orders.push(
            Order::Transfer {
                asset: Asset::Staking,
                from: Holder::User,
                to: Holder::VestingCustody,
                amount: self.event.staked,
            },
        );
        orders.push(
            Order::Burn {
                asset: Asset::Staking,
                from: Holder::VestingCustody,
                amount: self.event.staked,
            },
        );
        orders.push(
            Order::Transfer {
                asset: Asset::Reserve,
                from: Holder::StakingVault,
                to: Holder::User,
                amount: self.event.amount,
            },
        );
        assert(orders@ =~= self.orders_spec());
        orders
    }
}

impl StakingWithdraw {
    /// The vault once the rewards due at `now` are in it.
    pub open spec fn backing_after_rebase(&self, now: u64) -> int {
        self.vault_backing + self.treasury.rebase_amount(self.reserve_supply, now)
    }

    /// The reserve tokens that `amount` staking tokens redeem for at `now`.
    pub open spec fn value_at(&self, amount: u64, now: u64) -> int {
        staking_value(amount as int, self.backing_after_rebase(now), self.staking_supply as int)
    }

    /// A redemption, rule by rule.
    pub open spec fn withdraw_spec(self, amount: u64, now: u64) -> Result<
        (StakingWithdraw, StakingWithdrawOutcome),
        ErrorCode,
    > {
        if !self.treasury.rebase_fits(self.reserve_supply, now) {
            Err(ErrorCode::Overflow)
        } else if self.backing_after_rebase(now) > u64::MAX {
            Err(ErrorCode::Overflow)
        } else if !mul_div_fits(
            amount as int,
            self.backing_after_rebase(now),
            self.staking_supply as int,
        ) {
            Err(ErrorCode::Overflow)
        } else {
            Ok(
                (
                    StakingWithdraw { treasury: self.treasury.rebased(now), ..self },
                    StakingWithdrawOutcome {
                        rebase_amount: self.treasury.rebase_amount(self.reserve_supply, now) as u64,
                        event: EventStakingWithdraw {
                            signer: self.signer,
                            treasury: self.treasury_key,
                            staked: amount,
                            amount: self.value_at(amount, now) as u64,
                        },
                    },
                ),
            )
        }
    }
}

/// Redeems `amount` staking tokens: accounts for the rewards due at `now` first, then
/// converts the amount at the ratio the pool has with those rewards in the vault.
/// Redeeming nothing is allowed: it pays nothing and still accounts for the rewards due.
/// A redemption that is refused changes nothing.
pub fn staking_withdraw(ctx: &mut StakingWithdraw, amount: u64, now: u64) -> (r: Result<
    StakingWithdrawOutcome,
    ErrorCode,
>)
    ensures
        match old(ctx).withdraw_spec(amount, now) {
            Ok((after, outcome)) => r == Ok::<StakingWithdrawOutcome, ErrorCode>(outcome) && *final(ctx) == after,
            Err(e) => r == Err::<StakingWithdrawOutcome, ErrorCode>(e) && *final(ctx) == *old(ctx),
        },
{
    let mut treasury: Treasury = ctx.treasury;
    let rebase_amount: u64 = treasury.rebase(ctx.reserve_supply, now)?;
    let backing: u64 = match ctx.vault_backing.checked_add(rebase_amount) {
        Some(sum) => sum,
        None => { return Err(ErrorCode::Overflow); },
    };
    let value: u64 = value_for(amount, backing, ctx.staking_supply)?;
    ctx.treasury = treasury;
    Ok(
        StakingWithdrawOutcome {
            rebase_amount,
            event: EventStakingWithdraw {
                signer: ctx.signer,
                treasury: ctx.treasury_key,
                staked: amount,
                amount: value,
            },
        },
    )
}

/// The integers behind a stake that is redeemed at once, in a pool of `supply` staking
/// tokens backed by `backing` reserve tokens: the amount comes back, less what the two
/// roundings took, and that is less than the price of one staking token plus one.
pub proof fn lemma_round_trip(amount: int, supply: int, backing: int)
    requires
        0 <= amount,
        0 < supply,
        0 < backing,
    ensures
        ({
            let shares = staking_shares(amount, supply, backing);
            let value = staking_value(shares, backing + amount, supply + shares);
            &&& 0 <= shares
            &&& 0 <= value <= amount
            &&& (amount - value) * supply < backing + supply
        }),
{
    let shares = mul_div(amount, supply, backing);
    lemma_mul_div_bounds(amount, supply, backing);
    assert(0 <= shares) by (nonlinear_arith)
        requires
            (shares + 1) * backing > amount * supply,
            0 <= amount,
            0 < supply,
            0 < backing,
    ;
    let value = mul_div(shares, backing + amount, supply + shares);
    lemma_mul_div_bounds(shares, backing + amount, supply + shares);
    assert(0 <= value) by (nonlinear_arith)
        requires
            (value + 1) * (supply + shares) > shares * (backing + amount),
            0 <= shares,
            0 <= amount,
            0 < supply,
            0 < backing,
    ;
    assert(value <= amount) by (nonlinear_arith)
        requires
            value * (supply + shares) <= shares * (backing + amount),
            shares * backing <= amount * supply,
            0 <= shares,
            0 < supply,
    ;
    assert((amount - value) * supply < backing + supply) by (nonlinear_arith)
        requires
            (value + 1) * (supply + shares) > shares * (backing + amount),
            amount * supply < (shares + 1) * backing,
            0 <= value <= amount,
            0 <= shares,
            0 < supply,
            0 < backing,
    ;
}

/// The integers behind a stake as those who already hold staking tokens see it: what
/// `held` staking tokens redeem for does not shrink when `amount` is staked beside them.
pub proof fn lemma_stake_keeps_holders_whole(held: int, amount: int, supply: int, backing: int)
    requires
        0 <= held,
        0 <= amount,
        0 < supply,
        0 < backing,
    ensures
        staking_value(held, backing, supply) <= staking_value(
            held,
            backing + amount,
            supply + staking_shares(amount, supply, backing),
        ),
{
    let shares = staking_shares(amount, supply, backing);
    lemma_round_trip(amount, supply, backing);
    lemma_mul_div_bounds(amount, supply, backing);
    assert((held * backing) * (supply + shares) <= (held * (backing + amount)) * supply)
        by (nonlinear_arith)
        requires
            shares * backing <= amount * supply,
            0 <= held,
            0 <= shares,
            0 < supply,
            0 < backing,
    ;
    lemma_mul_div_compare(held, backing, supply, held, backing + amount, supply + shares);
}

/// The integers behind a redemption as those who stay see it: what `held` staking tokens
/// redeem for does not shrink when `amount` others are redeemed.
pub proof fn lemma_unstake_keeps_holders_whole(held: int, amount: int, supply: int, backing: int)
    requires
        0 <= held,
        0 <= amount < supply,
        0 <= backing,
    ensures
        staking_value(held, backing, supply) <= staking_value(
            held,
            backing - staking_value(amount, backing, supply),
            supply - amount,
        ),
{
    let value = staking_value(amount, backing, supply);
    lemma_mul_div_bounds(amount, backing, supply);
    assert((held * backing) * (supply - amount) <= (held * (backing - value)) * supply)
        by (nonlinear_arith)
        requires
            value * supply <= amount * backing,
            0 <= held,
            0 < supply,
    ;
    lemma_mul_div_compare(held, backing, supply, held, backing - value, supply - amount);
}

/// A rebase never lowers what staking tokens redeem for.
pub proof fn lemma_rebase_raises_value(held: int, rebase: int, supply: int, backing: int)
    requires
        0 <= held,
        0 <= rebase,
        0 < supply,
    ensures
        staking_value(held, backing, supply) <= staking_value(held, backing + rebase, supply),
{
    assert(held * backing <= held * (backing + rebase)) by (nonlinear_arith)
        requires
            0 <= held,
            0 <= rebase,
    ;
    lemma_mul_div_increases(held, backing, held, backing + rebase, supply);
}

impl StakingDeposit {
    /// The token quantities that the stake read.
    pub open spec fn pool(&self) -> Pool {
        Pool {
            reserve_supply: self.reserve_supply as int,
            staking_supply: self.staking_supply as int,
            vault_backing: self.vault_backing as int,
        }
    }

    /// Whether the custody layer can carry out the orders of `outcome`: no supply and no
    /// balance grows past 64 bits.
    pub open spec fn can_settle(&self, outcome: StakingDepositOutcome) -> bool {
        let pool = self.pool().after_all(outcome.orders_spec());
        &&& pool.reserve_supply <= u64::MAX
        &&& pool.staking_supply <= u64::MAX
        &&& pool.vault_backing <= u64::MAX
    }

    /// What a redemption finds once the custody layer has carried out the orders of
    /// `outcome`.
    pub open spec fn settled(self, outcome: StakingDepositOutcome) -> StakingWithdraw {
        let pool = self.pool().after_all(outcome.orders_spec());
        StakingWithdraw {
            signer: self.signer,
            treasury_key: self.treasury_key,
            treasury: self.treasury,
            reserve_supply: pool.reserve_supply as u64,
            staking_supply: pool.staking_supply as u64,
            vault_backing: pool.vault_backing as u64,
        }
    }

    /// The orders of a stake put the rewards and the staked amount into the vault, the
    /// rewards into the reserve supply, and the new staking tokens into their supply.
    pub proof fn lemma_settled_pool(self, outcome: StakingDepositOutcome)
        ensures
            self.pool().after_all(outcome.orders_spec()) == (Pool {
                reserve_supply: self.reserve_supply + outcome.rebase_amount,
                staking_supply: self.staking_supply + outcome.event.staked,
                vault_backing: self.vault_backing + outcome.rebase_amount + outcome.event.amount,
            }),
    {
        let rewards = mint_if_any(Asset::Reserve, Holder::StakingVault, outcome.rebase_amount);
        let stake = Order::Transfer {
            asset: Asset::Reserve,
            from: Holder::User,
            to: Holder::StakingVault,
            amount: outcome.event.amount,
        };
        let issue = Order::Mint {
            asset: Asset::Staking,
            to: Holder::User,
            amount: outcome.event.staked,
        };
        let pool = self.pool();
        pool.lemma_after_all_add(rewards, seq![stake, issue]);
        pool.after_all(rewards).lemma_after_all_few(stake, issue, issue);
        if outcome.rebase_amount > 0 {
            let mint = Order::Mint {
                asset: Asset::Reserve,
                to: Holder::StakingVault,
                amount: outcome.rebase_amount,
            };
            assert(rewards =~= seq![mint]);
            pool.lemma_after_all_few(mint, mint, mint);
        } else {
            assert(rewards =~= Seq::<Order>::empty());
            pool.lemma_after_all_few(stake, stake, stake);
        }
    }

    /// A stake that is redeemed in the same instant returns the amount staked, less the
    /// loss of rounding down twice: never more, exactly the amount into an empty pool, and
    /// otherwise short by less than the price of one staking token plus one. A pool with
    /// backing and no supply is left out: its first staker redeems the stray backing too.
    pub proof fn lemma_stake_then_unstake(self, amount: u64, now: u64)
        requires
            self.deposit_spec(amount, now) is Ok,
            self.staking_supply == 0 ==> self.backing_after_rebase(now) == 0,
            self.deposit_spec(amount, now)->Ok_0.0.can_settle(self.deposit_spec(amount, now)->Ok_0.1),
        ensures
            ({
                let (after, outcome) = self.deposit_spec(amount, now)->Ok_0;
                let back = after.settled(outcome).withdraw_spec(outcome.event.staked, now);
                &&& back is Ok
                &&& back->Ok_0.1.rebase_amount == 0
                &&& back->Ok_0.1.event.amount <= amount
                &&& self.staking_supply == 0 ==> back->Ok_0.1.event.amount == amount
                &&& self.staking_supply > 0 ==> (amount - back->Ok_0.1.event.amount)
                    * self.staking_supply < self.backing_after_rebase(now) + self.staking_supply
            }),
    {
        let (after, outcome) = self.deposit_spec(amount, now)->Ok_0;
        after.lemma_settled_pool(outcome);
        let pool = after.settled(outcome);
        let supply = self.staking_supply as int;
        let backing = self.backing_after_rebase(now);
        let shares = outcome.event.staked as int;
        pool.treasury.lemma_rebase_nothing_due(pool.reserve_supply, now);
        assert(0 <= self.treasury.rebase_amount(self.reserve_supply, now)) by {
            self.treasury.lemma_rebase_not_negative(self.reserve_supply, now);
        }
        assert(pool.backing_after_rebase(now) == backing + amount);
        if supply == 0 {
            lemma_mul_div_one(amount as int, amount as int);
            assert(mul_div(amount as int, 0 + amount as int, 0 + amount as int) == amount);
        } else {
            lemma_round_trip(amount as int, supply, backing);
        }
    }

    /// The rewards due are in the vault before the amount is converted, so a stake buys
    /// in at the ratio that already holds them: at no better a ratio than before the
    /// rewards, and for staking tokens that redeem for no more than the amount once it is
    /// in the vault. The rewards go to those who held staking tokens before. A pool with
    /// backing and no supply is left out: it has no holders, and its first staker redeems
    /// the stray backing too.
    pub proof fn lemma_stake_earns_no_rewards(self, amount: u64, now: u64)
        requires
            self.deposit_spec(amount, now) is Ok,
            self.staking_supply == 0 ==> self.backing_after_rebase(now) == 0,
        ensures
            ({
                let outcome = self.deposit_spec(amount, now)->Ok_0.1;
                let shares = outcome.event.staked as int;
                let supply = self.staking_supply as int;
                &&& shares == staking_shares(
                    amount as int,
                    supply,
                    self.vault_backing + outcome.rebase_amount,
                )
                &&& self.vault_backing > 0 ==> shares <= staking_shares(
                    amount as int,
                    supply,
                    self.vault_backing as int,
                )
                &&& staking_value(shares, self.backing_after_rebase(now) + amount, supply + shares)
                    <= amount
            }),
    {
        let supply = self.staking_supply as int;
        let backing = self.backing_after_rebase(now);
        self.treasury.lemma_rebase_not_negative(self.reserve_supply, now);
        if supply == 0 {
            lemma_mul_div_one(amount as int, amount as int);
        } else {
            lemma_round_trip(amount as int, supply, backing);
        }
        if self.vault_backing > 0 && supply > 0 {
            assert(0 <= amount * supply) by (nonlinear_arith)
                requires
                    0 <= amount,
                    0 <= supply,
            ;
            lemma_mul_div_decreases(amount as int, supply, self.vault_backing as int, backing);
        }
    }
}

} // verus!
