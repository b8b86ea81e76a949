use crate::error::ErrorCode;
use crate::pubkey::Pubkey;
use vstd::prelude::*;

verus! {

/// Decimals of the reserve token and of the staking token.
pub const TOKEN_DECIMALS: u8 = 9;

/// The root record: what backs the issued tokens, and how staking emits.
#[derive(Clone, Copy, Debug, PartialEq, Eq)]
pub struct Treasury {
    /// Seed the record's identity is derived from.
    pub key: Pubkey,
    pub bump: u8,
    pub mint_reserve: Pubkey,
    pub mint_staking: Pubkey,
    /// The staking vault: reserve tokens that back the staking token.
    pub token_reserve_staking: Pubkey,
    /// Staking tokens held for positions that are still vesting.
    pub token_staking_vesting: Pubkey,
    /// Receives the fee of every bond deposit.
    pub dao: Pubkey,
    /// May configure the treasury and its bonds.
    pub authority: Pubkey,
    /// Backing value accepted through bond deposits, all time.
    pub total_reserves: u64,
    /// Share of the reserve supply minted to the vault per day, scaled by `ONE`.
    pub staking_rate: u64,
    /// When staking rewards were last minted.
    pub staking_last: u64,
}

impl Treasury {
    /// The record before anything is written to it: every field zero.
    pub open spec fn spec_default() -> Treasury {
        Treasury {
            key: Pubkey::spec_default(),
            bump: 0,
            mint_reserve: Pubkey::spec_default(),
            mint_staking: Pubkey::spec_default(),
            token_reserve_staking: Pubkey::spec_default(),
            token_staking_vesting: Pubkey::spec_default(),
            dao: Pubkey::spec_default(),
            authority: Pubkey::spec_default(),
            total_reserves: 0,
            staking_rate: 0,
            staking_last: 0,
        }
    }
}

impl Default for Treasury {
    fn default() -> (treasury: Treasury)
        ensures
            treasury == Treasury::spec_default(),
    {
        Treasury {
            key: Pubkey::default(),
            bump: 0,
            mint_reserve: Pubkey::default(),
            mint_staking: Pubkey::default(),
            token_reserve_staking: Pubkey::default(),
            token_staking_vesting: Pubkey::default(),
            dao: Pubkey::default(),
            authority: Pubkey::default(),
            total_reserves: 0,
            staking_rate: 0,
            staking_last: 0,
        }
    }
}

/// What creating a treasury reads and writes.
#[derive(Clone, Copy, Debug, PartialEq, Eq)]
pub struct Initialize {
    pub signer: Pubkey,
    pub treasury: Treasury,
    pub mint_reserve: Pubkey,
    pub mint_staking: Pubkey,
    pub token_reserve_staking: Pubkey,
    pub token_staking_vesting: Pubkey,
    pub dao: Pubkey,
}

impl Initialize {
    /// The treasury once it is bound to its mints, its custodial balances and its identities.
    /// The signer becomes the authority; the accounting fields are left as they are.
    pub open spec fn initialized(self, key: Pubkey, bump: u8) -> Treasury {
        Treasury {
            key,
            bump,
            mint_reserve: self.mint_reserve,
            mint_staking: self.mint_staking,
            token_reserve_staking: self.token_reserve_staking,
            token_staking_vesting: self.token_staking_vesting,
            dao: self.dao,
            authority: self.signer,
            ..self.treasury
        }
    }
}

/// Binds a new treasury record to its mints, balances and identities.
pub fn initialize(ctx: &mut Initialize, key: Pubkey, bump: u8)
    ensures
        *final(ctx) == (Initialize { treasury: old(ctx).initialized(key, bump), ..*old(ctx) }),
{
    ctx.treasury.key = key;
    ctx.treasury.bump = bump;
    ctx.treasury.mint_reserve = ctx.mint_reserve;
    ctx.treasury.mint_staking = ctx.mint_staking;
    ctx.treasury.token_reserve_staking = ctx.token_reserve_staking;
    ctx.treasury.token_staking_vesting = ctx.token_staking_vesting;
    ctx.treasury.dao = ctx.dao;
    ctx.treasury.authority = ctx.signer;
}

/// What reconfiguring a treasury reads and writes.
#[derive(Clone, Copy, Debug, PartialEq, Eq)]
pub struct TreasuryConfigure {
    pub signer: Pubkey,
    pub treasury: Treasury,
}

impl TreasuryConfigure {
    /// Only the authority that the treasury names right now may configure it.
    pub open spec fn authorized(&self) -> bool {
        self.signer == self.treasury.authority
    }

    /// The treasury with its fee recipient, authority and staking rate replaced.
    pub open spec fn configured(self, dao: Pubkey, authority: Pubkey, staking_rate: u64) -> Treasury {
        Treasury { dao, authority, staking_rate, ..self.treasury }
    }
}

/// Replaces the fee recipient, the authority and the staking rate.
pub fn treasury_configure(
    ctx: &mut TreasuryConfigure,
    dao: Pubkey,
    authority: Pubkey,
    staking_rate: u64,
) -> (r: Result<(), ErrorCode>)
    ensures
        old(ctx).authorized() ==> r == Ok::<(), ErrorCode>(()) && *final(ctx) == (TreasuryConfigure {
            treasury: old(ctx).configured(dao, authority, staking_rate),
            ..*old(ctx)
        }),
        !old(ctx).authorized() ==> r == Err::<(), ErrorCode>(ErrorCode::Unauthorized) && *final(ctx)
            == *old(ctx),
{
    if ctx.signer != ctx.treasury.authority {
        return Err(ErrorCode::Unauthorized);
    }
    ctx.treasury.dao = dao;
    ctx.treasury.authority = authority;
    ctx.treasury.staking_rate = staking_rate;
    Ok(())
}

} // verus!
