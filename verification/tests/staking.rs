use reserve::fixed::ONE;
use reserve::staking::{shares_for, value_for, SECONDS_PER_DAY};
use reserve::{
    staking_deposit, staking_withdraw, Asset, ErrorCode, EventStakingDeposit,
    EventStakingWithdraw, Holder, Order, Pubkey, StakingDeposit, StakingDepositOutcome,
    StakingWithdraw, StakingWithdrawOutcome, Treasury,
};

fn key(n: u8) -> Pubkey {
    Pubkey::new_from_array([n; 32])
}

/// One percent a day, last minted at 0.
fn treasury() -> Treasury {
    Treasury { authority: key(9), staking_rate: ONE / 100, total_reserves: 55, ..Treasury::default() }
}

fn staking() -> StakingDeposit {
    StakingDeposit {
        signer: key(1),
        treasury_key: key(2),
        treasury: treasury(),
        reserve_supply: 2_000 * ONE,
        staking_supply: 500 * ONE,
        vault_backing: 990 * ONE,
    }
}

fn redeeming() -> StakingWithdraw {
    StakingWithdraw {
        signer: key(1),
        treasury_key: key(2),
        treasury: treasury(),
        reserve_supply: 2_000 * ONE,
        staking_supply: 500 * ONE,
        vault_backing: 990 * ONE,
    }
}

fn after(ctx: &StakingDeposit, out: &StakingDepositOutcome) -> StakingWithdraw {
    StakingWithdraw {
        signer: ctx.signer,
        treasury_key: ctx.treasury_key,
        treasury: ctx.treasury,
        reserve_supply: ctx.reserve_supply + out.rebase_amount,
        staking_supply: ctx.staking_supply + out.event.staked,
        vault_backing: ctx.vault_backing + out.rebase_amount + out.event.amount,
    }
}

#[test]
fn a_day_has_86400_seconds() {
    assert_eq!(SECONDS_PER_DAY, 86_400);
}

#[test]
fn shares_go_by_supply_over_backing() {
    assert_eq!(shares_for(100, 500, 1000), Ok(50));
    assert_eq!(shares_for(100, 1000, 500), Ok(200));
    assert_eq!(shares_for(7, 3, 10), Ok(2));
    assert_eq!(shares_for(100, 0, 0), Ok(100));
    assert_eq!(shares_for(100, 0, 12345), Ok(100));
    assert_eq!(shares_for(100, 5, 0), Err(ErrorCode::Overflow));
    assert_eq!(shares_for(u64::MAX, 2, 1), Err(ErrorCode::Overflow));
}

#[test]
fn value_goes_by_backing_over_supply() {
    assert_eq!(value_for(50, 1000, 500), Ok(100));
    assert_eq!(value_for(2, 17, 5), Ok(6));
    assert_eq!(value_for(0, 17, 5), Ok(0));
    assert_eq!(value_for(50, 1000, 0), Err(ErrorCode::Overflow));
    assert_eq!(value_for(u64::MAX, 2, 1), Err(ErrorCode::Overflow));
}

#[test]
fn rebase_is_the_rate_over_the_time_gone() {
    let mut t = treasury();
    assert_eq!(t.rebase(2_000 * ONE, 43_200), Ok(10 * ONE));
    assert_eq!(t.staking_last, 43_200);
    assert_eq!(t.staking_rate, ONE / 100);
    assert_eq!(t.total_reserves, 55);
    assert_eq!(t.rebase(2_000 * ONE, 43_200), Ok(0));
    assert_eq!(t.rebase(2_000 * ONE, 43_200 + 86_400), Ok(20 * ONE));
}

#[test]
fn rebase_with_the_clock_set_back_mints_nothing() {
    let mut t = treasury();
    t.staking_last = 1000;
    assert_eq!(t.rebase(2_000 * ONE, 10), Ok(0));
    assert_eq!(t.staking_last, 10);
}

#[test]
fn rebase_that_does_not_fit_is_an_overflow() {
    let mut t = treasury();
    t.staking_rate = u64::MAX;
    let before = t;
    assert_eq!(t.rebase(1, 86_401), Err(ErrorCode::Overflow));
    assert_eq!(t, before);
    t.staking_rate = 10 * ONE;
    assert_eq!(t.rebase(u64::MAX, 86_400), Err(ErrorCode::Overflow));
    assert_eq!(t.staking_last, 0);
}

#[test]
fn stake_buys_in_after_the_rebase() {
    let mut ctx = staking();
    let out = staking_deposit(&mut ctx, 100 * ONE, 43_200).unwrap();
    assert_eq!(
        out,
        StakingDepositOutcome {
            rebase_amount: 10 * ONE,
            event: EventStakingDeposit {
                signer: key(1),
                treasury: key(2),
                staked: 50 * ONE,
                amount: 100 * ONE,
            },
        }
    );
    assert_eq!(ctx.treasury.staking_last, 43_200);
    assert_eq!(ctx.treasury.staking_rate, ONE / 100);
    assert_eq!(ctx.reserve_supply, 2_000 * ONE);
    assert_eq!(ctx.staking_supply, 500 * ONE);
    assert_eq!(ctx.vault_backing, 990 * ONE);
}

#[test]
fn stake_without_time_gone_buys_in_at_the_old_ratio() {
    let mut ctx = staking();
    let out = staking_deposit(&mut ctx, 99 * ONE, 0).unwrap();
    assert_eq!(out.rebase_amount, 0);
    assert_eq!(out.event.staked, 50 * ONE);
}

#[test]
fn stake_gets_fewer_shares_for_the_rebase() {
    let mut with_rebase = staking();
    let mut without = staking();
    let late = staking_deposit(&mut with_rebase, 100 * ONE, 43_200).unwrap();
    let early = staking_deposit(&mut without, 100 * ONE, 0).unwrap();
    assert_eq!(early.event.staked, 50_505_050_505);
    assert!(late.event.staked < early.event.staked);
}

#[test]
fn first_stake_is_one_for_one() {
    let mut ctx = staking();
    ctx.staking_supply = 0;
    ctx.vault_backing = 0;
    let out = staking_deposit(&mut ctx, 123, 43_200).unwrap();
    assert_eq!(out.event.staked, 123);
    assert_eq!(out.event.amount, 123);
    assert_eq!(out.rebase_amount, 10 * ONE);
}

#[test]
fn stake_of_nothing_is_refused() {
    let mut ctx = staking();
    let before = ctx;
    assert_eq!(staking_deposit(&mut ctx, 0, 43_200), Err(ErrorCode::InvalidParameter));
    assert_eq!(ctx, before);
}

#[test]
fn stake_into_supply_without_backing_is_an_overflow() {
    let mut ctx = staking();
    ctx.vault_backing = 0;
    let before = ctx;
    assert_eq!(staking_deposit(&mut ctx, 5, 0), Err(ErrorCode::Overflow));
    assert_eq!(ctx, before);
}

#[test]
fn stake_whose_rebase_overfills_the_vault_is_an_overflow() {
    let mut ctx = staking();
    ctx.vault_backing = u64::MAX - 10 * ONE + 1;
    let before = ctx;
    assert_eq!(staking_deposit(&mut ctx, 5, 43_200), Err(ErrorCode::Overflow));
    assert_eq!(ctx, before);
    ctx.vault_backing = u64::MAX - 10 * ONE;
    assert!(staking_deposit(&mut ctx, 5, 43_200).is_ok());
}

#[test]
fn unstake_redeems_after_the_rebase() {
    let mut ctx = redeeming();
    let out = staking_withdraw(&mut ctx, 50 * ONE, 43_200).unwrap();
    assert_eq!(
        out,
        StakingWithdrawOutcome {
            rebase_amount: 10 * ONE,
            event: EventStakingWithdraw {
                signer: key(1),
                treasury: key(2),
                staked: 50 * ONE,
                amount: 100 * ONE,
            },
        }
    );
    assert_eq!(ctx.treasury.staking_last, 43_200);
    assert_eq!(ctx.staking_supply, 500 * ONE);
    assert_eq!(ctx.vault_backing, 990 * ONE);
}

#[test]
fn unstake_without_time_gone_redeems_at_the_old_ratio() {
    let mut ctx = redeeming();
    let out = staking_withdraw(&mut ctx, 50 * ONE, 0).unwrap();
    assert_eq!(out.rebase_amount, 0);
    assert_eq!(out.event.amount, 99 * ONE);
}

#[test]
fn unstake_of_nothing_is_allowed_and_pays_nothing() {
    let mut ctx = redeeming();
    let out = staking_withdraw(&mut ctx, 0, 43_200).unwrap();
    assert_eq!(out.event.staked, 0);
    assert_eq!(out.event.amount, 0);
    assert_eq!(out.rebase_amount, 10 * ONE);
    assert_eq!(ctx.treasury.staking_last, 43_200);
}

#[test]
fn unstake_without_supply_is_an_overflow() {
    let mut ctx = redeeming();
    ctx.staking_supply = 0;
    let before = ctx;
    assert_eq!(staking_withdraw(&mut ctx, 5, 43_200), Err(ErrorCode::Overflow));
    assert_eq!(staking_withdraw(&mut ctx, 0, 43_200), Err(ErrorCode::Overflow));
    assert_eq!(ctx, before);
}

#[test]
fn unstake_whose_value_does_not_fit_is_an_overflow() {
    let mut ctx = redeeming();
    ctx.staking_supply = 1;
    let before = ctx;
    assert_eq!(staking_withdraw(&mut ctx, u64::MAX, 0), Err(ErrorCode::Overflow));
    assert_eq!(ctx, before);
}

#[test]
fn stake_and_unstake_at_once_returns_the_amount_less_rounding() {
    let mut ctx = staking();
    ctx.treasury.staking_last = 500;
    ctx.staking_supply = 3;
    ctx.vault_backing = 10;
    let staked = staking_deposit(&mut ctx, 7, 500).unwrap();
    assert_eq!(staked.rebase_amount, 0);
    assert_eq!(staked.event.staked, 2);
    let mut pool = after(&ctx, &staked);
    let back = staking_withdraw(&mut pool, staked.event.staked, 500).unwrap();
    assert_eq!(back.rebase_amount, 0);
    assert_eq!(back.event.amount, 6);
}

#[test]
fn stake_and_unstake_at_once_is_exact_where_nothing_rounds() {
    let mut ctx = staking();
    let staked = staking_deposit(&mut ctx, 100 * ONE, 43_200).unwrap();
    let mut pool = after(&ctx, &staked);
    let back = staking_withdraw(&mut pool, staked.event.staked, 43_200).unwrap();
    assert_eq!(back.rebase_amount, 0);
    assert_eq!(back.event.amount, 100 * ONE);
}

#[test]
fn stake_and_unstake_at_once_is_exact_in_an_empty_pool() {
    let mut ctx = staking();
    ctx.reserve_supply = 0;
    ctx.staking_supply = 0;
    ctx.vault_backing = 0;
    let staked = staking_deposit(&mut ctx, 12_345, 43_200).unwrap();
    assert_eq!(staked.event.staked, 12_345);
    let mut pool = after(&ctx, &staked);
    let back = staking_withdraw(&mut pool, staked.event.staked, 43_200).unwrap();
    assert_eq!(back.event.amount, 12_345);
}

#[test]
fn stake_and_unstake_at_once_never_gains() {
    for supply in [1u64, 3, 7, 1000, 999_983] {
        for backing in [1u64, 2, 10, 4321, 1_000_003] {
            for amount in [1u64, 2, 5, 99, 12_345, 1_000_000_007] {
                let mut ctx = staking();
                ctx.staking_supply = supply;
                ctx.vault_backing = backing;
                let staked = staking_deposit(&mut ctx, amount, 0).unwrap();
                let mut pool = after(&ctx, &staked);
                let back = staking_withdraw(&mut pool, staked.event.staked, 0).unwrap();
                let value = back.event.amount;
                assert!(value <= amount);
                assert!(((amount - value) as u128) * (supply as u128) < (backing + supply) as u128);
            }
        }
    }
}

#[test]
fn new_shares_are_worth_no_more_than_was_paid() {
    let mut ctx = staking();
    let staked = staking_deposit(&mut ctx, 77 * ONE + 1, 43_200).unwrap();
    let pool = after(&ctx, &staked);
    let worth = value_for(staked.event.staked, pool.vault_backing, pool.staking_supply).unwrap();
    assert!(worth <= 77 * ONE + 1);
    // those who held before the stake keep the rewards
    let held_before = value_for(500 * ONE, 1_000 * ONE, 500 * ONE).unwrap();
    let held_after = value_for(500 * ONE, pool.vault_backing, pool.staking_supply).unwrap();
    assert_eq!(held_before, 1_000 * ONE);
    assert!(held_after >= held_before);
}

#[test]
fn unstake_leaves_the_others_no_worse_off() {
    let mut ctx = redeeming();
    ctx.staking_supply = 7;
    ctx.vault_backing = 100;
    let held_before = value_for(4, 100, 7).unwrap();
    let out = staking_withdraw(&mut ctx, 3, 0).unwrap();
    assert_eq!(out.event.amount, 42);
    let held_after = value_for(4, 100 - out.event.amount, 7 - 3).unwrap();
    assert_eq!(held_before, 57);
    assert_eq!(held_after, 58);
}

#[test]
fn rebase_raises_what_shares_redeem_for() {
    let before = value_for(50 * ONE, 990 * ONE, 500 * ONE).unwrap();
    let after = value_for(50 * ONE, 1_000 * ONE, 500 * ONE).unwrap();
    assert_eq!(before, 99 * ONE);
    assert_eq!(after, 100 * ONE);
}

#[test]
fn stake_orders_rewards_then_the_stake_then_the_shares() {
    let mut ctx = staking();
    let out = staking_deposit(&mut ctx, 100 * ONE, 43_200).unwrap();
    assert_eq!(
        out.orders(),
        vec![
            Order::Mint { asset: Asset::Reserve, to: Holder::StakingVault, amount: 10 * ONE },
            Order::Transfer {
                asset: Asset::Reserve,
                from: Holder::User,
                to: Holder::StakingVault,
                amount: 100 * ONE,
            },
            Order::Mint { asset: Asset::Staking, to: Holder::User, amount: 50 * ONE },
        ]
    );
}

#[test]
fn stake_without_rewards_due_orders_no_rewards() {
    let mut ctx = staking();
    let out = staking_deposit(&mut ctx, 99 * ONE, 0).unwrap();
    assert_eq!(
        out.orders(),
        vec![
            Order::Transfer {
                asset: Asset::Reserve,
                from: Holder::User,
                to: Holder::StakingVault,
                amount: 99 * ONE,
            },
            Order::Mint { asset: Asset::Staking, to: Holder::User, amount: 50 * ONE },
        ]
    );
}

#[test]
fn unstake_orders_rewards_then_the_burn_then_the_payment() {
    let mut ctx = redeeming();
    let out = staking_withdraw(&mut ctx, 50 * ONE, 43_200).unwrap();
    assert_eq!(
        out.orders(),
        vec![
            Order::Mint { asset: Asset::Reserve, to: Holder::StakingVault, amount: 10 * ONE },
            Order::Transfer {
                asset: Asset::Staking,
                from: Holder::User,
                to: Holder::VestingCustody,
                amount: 50 * ONE,
            },
            Order::Burn { asset: Asset::Staking, from: Holder::VestingCustody, amount: 50 * ONE },
            Order::Transfer {
                asset: Asset::Reserve,
                from: Holder::StakingVault,
                to: Holder::User,
                amount: 100 * ONE,
            },
        ]
    );
}

#[test]
fn unstake_without_rewards_due_orders_no_rewards() {
    let mut ctx = redeeming();
    let out = staking_withdraw(&mut ctx, 50 * ONE, 0).unwrap();
    assert_eq!(out.orders().len(), 3);
    assert_eq!(
        out.orders()[2],
        Order::Transfer {
            asset: Asset::Reserve,
            from: Holder::StakingVault,
            to: Holder::User,
            amount: 99 * ONE,
        }
    );
}
