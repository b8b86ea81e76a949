use crate::pubkey::Pubkey;
use vstd::prelude::*;

verus! {

/// Notification of a completed bond deposit.
#[derive(Clone, Copy, Debug, PartialEq, Eq)]
pub struct EventBondDeposit {
    pub signer: Pubkey,
    pub treasury: Pubkey,
    pub bond: Pubkey,
    pub user: Pubkey,
    /// Bond asset taken from the depositor.
    pub amount: u64,
    pub price: u64,
    /// Reserve tokens earned.
    pub payout: u64,
    /// Staking tokens put under vesting.
    pub staked: u64,
}

/// Notification of a claim on a vesting position.
#[derive(Clone, Copy, Debug, PartialEq, Eq)]
pub struct EventBondWithdraw {
    pub signer: Pubkey,
    pub treasury: Pubkey,
    pub bond: Pubkey,
    pub user: Pubkey,
    /// Whether the position is fully claimed and its slot free again.
    pub done: bool,
    /// Staking tokens released to the user.
    pub amount: u64,
}

/// Notification of reserve tokens staked.
#[derive(Clone, Copy, Debug, PartialEq, Eq)]
pub struct EventStakingDeposit {
    pub signer: Pubkey,
    pub treasury: Pubkey,
    /// Staking tokens minted to the user.
    pub staked: u64,
    /// Reserve tokens moved into the vault.
    pub amount: u64,
}

/// Notification of staking tokens redeemed.
#[derive(Clone, Copy, Debug, PartialEq, Eq)]
pub struct EventStakingWithdraw {
    pub signer: Pubkey,
    pub treasury: Pubkey,
    /// Staking tokens burned.
    pub staked: u64,
    /// Reserve tokens paid out of the vault.
    pub amount: u64,
}

} // verus!
