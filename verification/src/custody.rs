use vstd::prelude::*;

verus! {

/// The tokens that an operation has moved, minted or burned.
#[derive(Clone, Copy, Debug, PartialEq, Eq, Structural)]
pub enum Asset {
    /// The asset that a bond market accepts.
    Bond,
    /// The reserve token.
    Reserve,
    /// The staking token.
    Staking,
}

/// Whose balance of an asset an order speaks of.
#[derive(Clone, Copy, Debug, PartialEq, Eq, Structural)]
pub enum Holder {
    /// The signer of the operation.
    User,
    /// The treasury: it keeps the bond assets it has taken in.
    Treasury,
    /// The DAO: it receives the fees.
    Dao,
    /// The staking vault: the reserve tokens that back the staking token.
    StakingVault,
    /// Vesting custody: staking tokens held for positions that are still vesting.
    VestingCustody,
}

/// One thing for the custody layer to do. An operation holds only if every one of its
/// orders is carried out.
#[derive(Clone, Copy, Debug, PartialEq, Eq, Structural)]
pub enum Order {
    /// Move `amount` of `asset` from one balance to another.
    Transfer { asset: Asset, from: Holder, to: Holder, amount: u64 },
    /// Create `amount` of `asset` in a balance.
    Mint { asset: Asset, to: Holder, amount: u64 },
    /// Destroy `amount` of `asset` in a balance.
    Burn { asset: Asset, from: Holder, amount: u64 },
}

/// The order to mint `amount` of `asset`, where there is anything to mint.
pub open spec fn mint_if_any(asset: Asset, to: Holder, amount: u64) -> Seq<Order> {
    if amount > 0 {
        seq![Order::Mint { asset, to, amount }]
    } else {
        Seq::empty()
    }
}

/// The order to move `amount` of `asset`, where there is anything to move.
pub open spec fn transfer_if_any(asset: Asset, from: Holder, to: Holder, amount: u64) -> Seq<
    Order,
> {
    if amount > 0 {
        seq![Order::Transfer { asset, from, to, amount }]
    } else {
        Seq::empty()
    }
}

/// The token quantities that staking goes by, as the custody layer holds them.
pub struct Pool {
    /// Reserve tokens in existence.
    pub reserve_supply: int,
    /// Staking tokens in existence.
    pub staking_supply: int,
    /// Reserve tokens in the staking vault.
    pub vault_backing: int,
}

impl Pool {
    /// What `amount` of `asset` adds to the vault when it arrives in `to`.
    pub open spec fn into_vault(asset: Asset, to: Holder, amount: u64) -> int {
        if asset == Asset::Reserve && to == Holder::StakingVault {
            amount as int
        } else {
            0
        }
    }

    /// The pool once `order` is carried out.
    pub open spec fn after(self, order: Order) -> Pool {
        match order {
            Order::Transfer { asset, from, to, amount } => Pool {
                vault_backing: self.vault_backing + Pool::into_vault(asset, to, amount)
                    - Pool::into_vault(asset, from, amount),
                ..self
            },
            Order::Mint { asset, to, amount } => Pool {
                reserve_supply: self.reserve_supply + if asset == Asset::Reserve {
                    amount as int
                } else {
                    0
                },
                staking_supply: self.staking_supply + if asset == Asset::Staking {
                    amount as int
                } else {
                    0
                },
                vault_backing: self.vault_backing + Pool::into_vault(asset, to, amount),
            },
            Order::Burn { asset, from, amount } => Pool {
                reserve_supply: self.reserve_supply - if asset == Asset::Reserve {
                    amount as int
                } else {
                    0
                },
                staking_supply: self.staking_supply - if asset == Asset::Staking {
                    amount as int
                } else {
                    0
                },
                vault_backing: self.vault_backing - Pool::into_vault(asset, from, amount),
            },
        }
    }

    /// The pool once `orders` are carried out, first to last.
    pub open spec fn after_all(self, orders: Seq<Order>) -> Pool
        decreases orders.len(),
    {
        if orders.len() == 0 {
            self
        } else {
            self.after_all(orders.drop_last()).after(orders.last())
        }
    }

    /// Carrying out two runs of orders one after the other is carrying out the one run
    /// that they make together.
    pub proof fn lemma_after_all_add(self, first: Seq<Order>, then: Seq<Order>)
        ensures
            self.after_all(first + then) == self.after_all(first).after_all(then),
        decreases then.len(),
    {
        if then.len() == 0 {
            assert(first + then =~= first);
        } else {
            assert((first + then).drop_last() =~= first + then.drop_last());
            assert((first + then).last() == then.last());
            self.lemma_after_all_add(first, then.drop_last());
        }
    }

    /// What one order does, what two do, and what three do.
    pub proof fn lemma_after_all_few(self, a: Order, b: Order, c: Order)
        ensures
            self.after_all(Seq::empty()) == self,
            self.after_all(seq![a]) == self.after(a),
            self.after_all(seq![a, b]) == self.after(a).after(b),
            self.after_all(seq![a, b, c]) == self.after(a).after(b).after(c),
    {
        assert(seq![a].drop_last() =~= Seq::<Order>::empty());
        assert(seq![a, b].drop_last() =~= seq![a]);
        assert(seq![a, b, c].drop_last() =~= seq![a, b]);
        reveal_with_fuel(Pool::after_all, 4);
    }
}

} // verus!
