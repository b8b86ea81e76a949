use crate::bond::Bond;
use crate::custody::{mint_if_any, Asset, Holder, Order};
use crate::error::ErrorCode;
use crate::events::EventBondDeposit;
use crate::pricing::{Quote, BOOTSTRAP_MAX_PAYOUT, MIN_PAYOUT};
use crate::pubkey::Pubkey;
use crate::treasury::Treasury;
use crate::user::{User, UserBond};
use vstd::prelude::*;

verus! {

/// What a bond deposit reads and writes.
#[derive(Clone, Copy, Debug, PartialEq, Eq)]
pub struct BondDeposit {
    pub signer: Pubkey,
    /// Identity of the treasury record.
    pub treasury_key: Pubkey,
    pub treasury: Treasury,
    /// Identity of the bond record.
    pub bond_key: Pubkey,
    pub bond: Bond,
    /// Identity of the user's ledger.
    pub user_key: Pubkey,
    pub user: User,
    /// Staking tokens in existence.
    pub staking_supply: u64,
    /// Reserve tokens in the staking vault.
    pub vault_backing: u64,
}

/// What an accepted bond deposit announces and what it earns.
#[derive(Clone, Copy, Debug, PartialEq, Eq)]
pub struct BondDepositOutcome {
    pub event: EventBondDeposit,
    /// Backing value taken in.
    pub value: u64,
    /// Reserve tokens due to the DAO.
    pub fee: u64,
}

impl BondDepositOutcome {
    /// What the deposit asks of the custody layer, first to last: the bond asset goes
    /// from the depositor to the treasury, the fee is minted to the DAO where there is
    /// one, the payout is minted into the staking vault, and the staking tokens that stand
    /// for it are minted into vesting custody.
    pub open spec fn orders_spec(&self) -> Seq<Order> {
        seq![
            Order::Transfer {
                asset: Asset::Bond,
                from: Holder::User,
                to: Holder::Treasury,
                amount: self.event.amount,
            },
        ] + mint_if_any(Asset::Reserve, Holder::Dao, self.fee) + seq![
            Order::Mint { asset: Asset::Reserve, to: Holder::StakingVault, amount: self.event.payout },
            Order::Mint {
                asset: Asset::Staking,
                to: Holder::VestingCustody,
                amount: self.event.staked,
            },
        ]
    }

    /// The orders for the custody layer, first to last.
    pub fn orders(&self) -> (orders: Vec<Order>)
        ensures
            orders@ == self.orders_spec(),
    {
        let mut orders: Vec<Order> = Vec::new();
        orders.push(
            Order::Transfer {
                asset: Asset::Bond,
                from: Holder::User,
                to: Holder::Treasury,
                amount: self.event.amount,
            },
        );
        if self.fee > 0 {
            orders.push(Order::Mint { asset: Asset::Reserve, to: Holder::Dao, amount: self.fee });
        }
        orders.push(
            Order::Mint { asset: Asset::Reserve, to: Holder::StakingVault, amount: self.event.payout },
        );
        orders.push(
            Order::Mint {
                asset: Asset::Staking,
                to: Holder::VestingCustody,
                amount: self.event.staked,
            },
        );
        assert(orders@ =~= self.orders_spec());
        orders
    }
}

impl BondDeposit {
    /// The quote for `amount`, with the debt decayed to `now`.
    pub open spec fn quote_at(&self, amount: u64, now: u64) -> Quote {
        self.bond.decayed(now).quote_spec(
            self.treasury.total_reserves,
            amount,
            self.staking_supply,
            self.vault_backing,
        )
    }

    /// Whether the quote for `amount` at `now` can be computed.
    pub open spec fn quote_fits_at(&self, amount: u64, now: u64) -> bool {
        self.bond.decayed(now).quote_fits(
            self.treasury.total_reserves,
            amount,
            self.staking_supply,
            self.vault_backing,
        )
    }

    /// Whether the ledgers can take `value` more.
    pub open spec fn can_record(&self, value: u64, now: u64) -> bool {
        &&& self.treasury.total_reserves + value <= u64::MAX
        &&& self.bond.debt_at(now) + value <= u64::MAX
        &&& self.bond.total_debt_alltime + value <= u64::MAX
    }

    /// The position that a deposit quoted at `q` opens.
    pub open spec fn position(&self, q: Quote, now: u64) -> UserBond {
        UserBond {
            bond: self.bond_key,
            price: q.price,
            payout: q.payout,
            staked: q.staked,
            claimed: 0,
            vesting_start: now,
            vesting_period: self.bond.vesting_period,
        }
    }

    /// The records after a deposit quoted at `q` is entered into `slot`.
    pub open spec fn recorded(self, q: Quote, slot: int, now: u64) -> BondDeposit {
        BondDeposit {
            treasury: Treasury {
                total_reserves: (self.treasury.total_reserves + q.value) as u64,
                ..self.treasury
            },
            bond: Bond {
                total_debt: (self.bond.debt_at(now) + q.value) as u64,
                total_debt_last: now,
                total_debt_alltime: (self.bond.total_debt_alltime + q.value) as u64,
                ..self.bond
            },
            user: self.user.with_bond(slot, self.position(q, now)),
            ..self
        }
    }

    /// What is handed to the custody layer and announced for a deposit quoted at `q`.
    pub open spec fn outcome(&self, q: Quote, amount: u64) -> BondDepositOutcome {
        BondDepositOutcome {
            event: EventBondDeposit {
                signer: self.signer,
                treasury: self.treasury_key,
                bond: self.bond_key,
                user: self.user_key,
                amount,
                price: q.price,
                payout: q.payout,
                staked: q.staked,
            },
            value: q.value,
            fee: q.fee,
        }
    }

    /// A bond deposit, rule by rule: the first rule that fails names the error, and a
    /// deposit that passes them all is entered into the first free slot.
    pub open spec fn deposit_spec(self, amount: u64, max_price: u64, now: u64) -> Result<
        (BondDeposit, BondDepositOutcome),
        ErrorCode,
    > {
        let q = self.quote_at(amount, now);
        if !self.bond.configured() {
            Err(ErrorCode::BondNotConfigured)
        } else if !self.bond.can_decay(now) {
            Err(ErrorCode::Overflow)
        } else if self.bond.debt_at(now) >= self.bond.max_debt {
            Err(ErrorCode::BondAtMaxDebt)
        } else if !self.quote_fits_at(amount, now) {
            Err(ErrorCode::Overflow)
        } else if q.payout <= MIN_PAYOUT {
            Err(ErrorCode::BondPayoutTooSmall)
        } else if q.payout > q.max_payout {
            Err(ErrorCode::BondPayoutTooBig)
        } else if q.price > max_price {
            Err(ErrorCode::BondPriceSlipped)
        } else if self.user.first_free() is None {
            Err(ErrorCode::UserNoSpaceForMoreBonds)
        } else if !self.can_record(q.value, now) {
            Err(ErrorCode::Overflow)
        } else {
            Ok((self.recorded(q, self.user.first_free()->0, now), self.outcome(q, amount)))
        }
    }
}

/// Accepts `amount` of the bond asset at a price of at most `max_price`: decays the debt to
/// `now`, prices the deposit, and enters it into the treasury, the bond and the first free
/// slot of the user's ledger. A deposit that is refused changes nothing.
pub fn bond_deposit(ctx: &mut BondDeposit, amount: u64, max_price: u64, now: u64) -> (r: Result<
    BondDepositOutcome,
    ErrorCode,
>)
    ensures
        match old(ctx).deposit_spec(amount, max_price, now) {
            Ok((after, outcome)) => r == Ok::<BondDepositOutcome, ErrorCode>(outcome) && *final(ctx)
                == after,
            Err(e) => r == Err::<BondDepositOutcome, ErrorCode>(e) && *final(ctx) == *old(ctx),
        },
        r matches Ok(out) ==> {
            &&& final(ctx).treasury.total_reserves == old(ctx).treasury.total_reserves + out.value
            &&& final(ctx).bond.total_debt == old(ctx).bond.debt_at(now) + out.value
            &&& final(ctx).bond.total_debt_alltime == old(ctx).bond.total_debt_alltime + out.value
            &&& old(ctx).bond.debt_at(now) < old(ctx).bond.max_debt
            &&& out.event.payout + out.fee <= out.value
        },
        old(ctx).user.wf() ==> final(ctx).user.wf(),
        old(ctx).bond.wf() ==> final(ctx).bond.wf(),
{
    if ctx.bond.max_payout == 0 {
        return Err(ErrorCode::BondNotConfigured);
    }
    let mut bond: Bond = ctx.bond;
    bond.decay(now)?;
    if bond.total_debt >= bond.max_debt {
        return Err(ErrorCode::BondAtMaxDebt);
    }
    let q: Quote = bond.quote(
        ctx.treasury.total_reserves,
        amount,
        ctx.staking_supply,
        ctx.vault_backing,
    )?;
    if q.payout <= MIN_PAYOUT {
        return Err(ErrorCode::BondPayoutTooSmall);
    }
    if q.payout > q.max_payout {
        return Err(ErrorCode::BondPayoutTooBig);
    }
    if q.price > max_price {
        return Err(ErrorCode::BondPriceSlipped);
    }
    let slot: usize = match ctx.user.find_free() {
        Some(i) => i,
        None => { return Err(ErrorCode::UserNoSpaceForMoreBonds); },
    };
    let total_reserves: u64 = match ctx.treasury.total_reserves.checked_add(q.value) {
        Some(sum) => sum,
        None => { return Err(ErrorCode::Overflow); },
    };
    let total_debt: u64 = match bond.total_debt.checked_add(q.value) {
        Some(sum) => sum,
        None => { return Err(ErrorCode::Overflow); },
    };
    let total_debt_alltime: u64 = match bond.total_debt_alltime.checked_add(q.value) {
        Some(sum) => sum,
        None => { return Err(ErrorCode::Overflow); },
    };
    bond.total_debt = total_debt;
    bond.total_debt_alltime = total_debt_alltime;
    let position = UserBond {
        bond: ctx.bond_key,
        price: q.price,
        payout: q.payout,
        staked: q.staked,
        claimed: 0,
        vesting_start: now,
        vesting_period: bond.vesting_period,
    };
    ctx.treasury.total_reserves = total_reserves;
    ctx.bond = bond;
    ctx.user.bonds[slot] = position;
    Ok(
        BondDepositOutcome {
            event: EventBondDeposit {
                signer: ctx.signer,
                treasury: ctx.treasury_key,
                bond: ctx.bond_key,
                user: ctx.user_key,
                amount,
                price: q.price,
                payout: q.payout,
                staked: q.staked,
            },
            value: q.value,
            fee: q.fee,
        },
    )
}

impl BondDeposit {
    /// An accepted deposit adds its value to the reserves and to the all-time debt, and
    /// leaves as debt what was there, less what has decayed of it, plus its value.
    pub proof fn lemma_deposit_accounting(self, amount: u64, max_price: u64, now: u64)
        requires
            self.deposit_spec(amount, max_price, now) is Ok,
        ensures
            ({
                let (after, outcome) = self.deposit_spec(amount, max_price, now)->Ok_0;
                let decay = if self.bond.decay_at(now) <= self.bond.total_debt {
                    self.bond.decay_at(now)
                } else {
                    self.bond.total_debt as int
                };
                &&& outcome.value == self.bond.decayed(now).value_of(amount)
                &&& after.treasury.total_reserves == self.treasury.total_reserves + outcome.value
                &&& after.bond.total_debt == self.bond.total_debt - decay + outcome.value
                &&& after.bond.total_debt_alltime == self.bond.total_debt_alltime + outcome.value
                &&& after.bond.total_debt_last == now
            }),
    {
        self.bond.decayed(now).lemma_quote_bounds(self.treasury.total_reserves, amount);
    }

    /// A payout must exceed the minimum: a deposit whose payout equals it is never
    /// accepted, and is refused as too small where no earlier rule refuses it.
    pub proof fn lemma_payout_at_minimum(self, amount: u64, max_price: u64, now: u64)
        requires
            self.quote_at(amount, now).payout == MIN_PAYOUT,
        ensures
            self.deposit_spec(amount, max_price, now) is Err,
            self.bond.configured() && self.bond.can_decay(now) && self.bond.debt_at(now)
                < self.bond.max_debt && self.quote_fits_at(amount, now) ==> self.deposit_spec(
                amount,
                max_price,
                now,
            ) == Err::<(BondDeposit, BondDepositOutcome), ErrorCode>(ErrorCode::BondPayoutTooSmall),
    {
    }

    /// The price limit is inclusive: a deposit is never refused for a price that equals
    /// the limit, and one that is accepted at any limit is accepted, with the same
    /// result, at a limit that equals its price.
    pub proof fn lemma_price_at_limit(self, amount: u64, max_price: u64, now: u64)
        ensures
            self.deposit_spec(amount, self.quote_at(amount, now).price, now) != Err::<
                (BondDeposit, BondDepositOutcome),
                ErrorCode,
            >(ErrorCode::BondPriceSlipped),
            self.deposit_spec(amount, max_price, now) is Ok ==> self.quote_at(amount, now).price
                <= max_price && self.deposit_spec(amount, self.quote_at(amount, now).price, now)
                == self.deposit_spec(amount, max_price, now),
    {
    }

    /// While the treasury holds nothing, the payout limit is the bootstrap limit, however
    /// small a share of the reserves the market allows.
    pub proof fn lemma_bootstrap_limit(self, amount: u64, now: u64)
        requires
            self.treasury.total_reserves == 0,
        ensures
            self.quote_at(amount, now).max_payout == BOOTSTRAP_MAX_PAYOUT,
    {
    }
}

} // verus!
