use crate::pubkey::Pubkey;
use vstd::prelude::*;

verus! {

/// How many vesting positions one user can hold at a time.
pub const MAX_USER_BONDS: usize = 10;

/// One vesting position. A slot whose `bond` is the all-zero identity is free.
#[derive(Clone, Copy, Debug, PartialEq, Eq)]
pub struct UserBond {
    /// The bond market the position came from.
    pub bond: Pubkey,
    /// Price paid (for display).
    pub price: u64,
    /// Payout earned (for display).
    pub payout: u64,
    /// Staking tokens vesting, in total.
    pub staked: u64,
    /// Staking tokens claimed so far.
    pub claimed: u64,
    pub vesting_start: u64,
    /// Copied from the bond at deposit: reconfiguring the bond leaves the position alone.
    pub vesting_period: u64,
}

impl UserBond {
    /// The empty slot: every field zero.
    pub open spec fn spec_default() -> UserBond {
        UserBond {
            bond: Pubkey::spec_default(),
            price: 0,
            payout: 0,
            staked: 0,
            claimed: 0,
            vesting_start: 0,
            vesting_period: 0,
        }
    }

    /// Whether the slot holds no position.
    pub open spec fn is_free(&self) -> bool {
        self.bond == Pubkey::spec_default()
    }

    /// No position has released more than it holds.
    pub open spec fn wf(&self) -> bool {
        self.claimed <= self.staked
    }
}

impl Default for UserBond {
    fn default() -> (slot: UserBond)
        ensures
            slot == UserBond::spec_default(),
    {
        UserBond {
            bond: Pubkey::default(),
            price: 0,
            payout: 0,
            staked: 0,
            claimed: 0,
            vesting_start: 0,
            vesting_period: 0,
        }
    }
}

/// The vesting ledger of one signer under one treasury.
#[derive(Clone, Copy, Debug, PartialEq, Eq)]
pub struct User {
    pub bump: u8,
    pub signer: Pubkey,
    pub treasury: Pubkey,
    pub bonds: [UserBond; MAX_USER_BONDS],
}

/// The lowest free slot at or after `from`, if there is one.
pub open spec fn first_free_from(bonds: Seq<UserBond>, from: int) -> Option<int>
    decreases bonds.len() - from,
{
    if from < 0 || from >= bonds.len() {
        None
    } else if bonds[from].is_free() {
        Some(from)
    } else {
        first_free_from(bonds, from + 1)
    }
}

/// `first_free_from` finds a free slot, passes over none, and fails only when none is left.
pub proof fn lemma_first_free_from(bonds: Seq<UserBond>, from: int)
    requires
        0 <= from,
    ensures
        match first_free_from(bonds, from) {
            Some(i) => from <= i < bonds.len() && bonds[i].is_free() && forall|j: int|
                from <= j < i ==> !(#[trigger] bonds[j]).is_free(),
            None => forall|j: int| from <= j < bonds.len() ==> !(#[trigger] bonds[j]).is_free(),
        },
    decreases bonds.len() - from,
{
    if from < bonds.len() && !bonds[from].is_free() {
        lemma_first_free_from(bonds, from + 1);
    }
}

impl Default for User {
    fn default() -> (user: User)
        ensures
            user == User::spec_default(),
            user.first_free() == Some(0int),
            user.wf(),
    {
        User {
            bump: 0,
            signer: Pubkey::default(),
            treasury: Pubkey::default(),
            bonds: [UserBond::default();MAX_USER_BONDS],
        }
    }
}

impl User {
    /// The ledger before anything is written to it: every slot empty.
    pub open spec fn spec_default() -> User {
        User {
            bump: 0,
            signer: Pubkey::spec_default(),
            treasury: Pubkey::spec_default(),
            bonds: vstd::array::spec_array_fill_for_copy_type::<UserBond, MAX_USER_BONDS>(
                UserBond::spec_default(),
            ),
        }
    }

    /// Every position is within what it holds.
    pub open spec fn wf(&self) -> bool {
        forall|i: int| 0 <= i < MAX_USER_BONDS ==> (#[trigger] self.bonds[i]).wf()
    }

    /// The slot that the next deposit takes.
    pub open spec fn first_free(&self) -> Option<int> {
        first_free_from(self.bonds@, 0)
    }

    /// The ledger with slot `index` replaced.
    pub open spec fn with_bond(self, index: int, slot: UserBond) -> User {
        User { bonds: vstd::array::spec_array_update(self.bonds, index, slot), ..self }
    }

    /// Finds the lowest free slot.
    pub fn find_free(&self) -> (r: Option<usize>)
        ensures
            match r {
                Some(i) => self.first_free() == Some(i as int) && i < MAX_USER_BONDS,
                None => self.first_free() is None,
            },
    {
        let mut i: usize = 0;
        while i < MAX_USER_BONDS
            invariant
                i <= MAX_USER_BONDS,
                first_free_from(self.bonds@, 0) == first_free_from(self.bonds@, i as int),
            decreases MAX_USER_BONDS - i,
        {
            if self.bonds[i].bond == Pubkey::default() {
                return Some(i);
            }
            i += 1;
        }
        None
    }
}

/// What opening a user's ledger reads and writes.
#[derive(Clone, Copy, Debug, PartialEq, Eq)]
pub struct UserInitialize {
    pub signer: Pubkey,
    /// Identity of the treasury record.
    pub treasury: Pubkey,
    pub user: User,
}

/// Binds a new ledger to its signer and treasury. Its slots are left as they are.
pub fn user_initialize(ctx: &mut UserInitialize, bump: u8)
    ensures
        *final(ctx) == (UserInitialize {
            user: User {
                treasury: old(ctx).treasury,
                signer: old(ctx).signer,
                bump,
                ..old(ctx).user
            },
            ..*old(ctx)
        }),
{
    ctx.user.treasury = ctx.treasury;
    ctx.user.signer = ctx.signer;
    ctx.user.bump = bump;
}

} // verus!
