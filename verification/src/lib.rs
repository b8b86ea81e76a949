//! The accounting and pricing rules of a token-bonding treasury.
//!
//! A treasury takes a bond asset in exchange for reserve tokens at a discount, priced by
//! the debt it has taken on lately and released over a vesting period, and lets holders
//! stake reserve tokens into a staking token whose backing grows with every rebase.
//!
//! The library holds the records and decides what each operation does to them. It moves
//! no tokens and reads no clock: an operation is given the time and the token quantities
//! it depends on, and returns what is to be moved, minted, burned and announced.
//! Every quantity is an integer scaled by [`ONE`], computed by [`muldiv`].

pub mod bond;
pub mod custody;
pub mod deposit;
pub mod error;
pub mod events;
pub mod fixed;
pub mod pricing;
pub mod pubkey;
pub mod staking;
pub mod treasury;
pub mod user;
pub mod vesting;

pub use bond::{bond_configure, bond_initialize, Bond, BondConfigure, BondInitialize};
pub use custody::{Asset, Holder, Order};
pub use deposit::{bond_deposit, BondDeposit, BondDepositOutcome};
pub use error::ErrorCode;
pub use events::{EventBondDeposit, EventBondWithdraw, EventStakingDeposit, EventStakingWithdraw};
pub use fixed::{muldiv, ONE};
pub use pricing::Quote;
pub use pubkey::Pubkey;
pub use staking::{
    staking_deposit, staking_withdraw, StakingDeposit, StakingDepositOutcome, StakingWithdraw,
    StakingWithdrawOutcome,
};
pub use treasury::{initialize, treasury_configure, Initialize, Treasury, TreasuryConfigure};
pub use user::{user_initialize, User, UserBond, UserInitialize};
pub use vesting::{bond_withdraw, BondWithdraw};
