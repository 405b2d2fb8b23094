//! Currency: what an enemy is worth, and what the player has collected.
use vstd::prelude::*;

verus! {

/// The currency that the player has collected in this run.
#[derive(Clone, Copy, Debug)]
pub struct Wallet {
    pub amount: usize,
}

/// The reward for destroying the entity that carries it.
#[derive(Clone, Copy, Debug)]
pub struct Money {
    pub amount: usize,
}

/// The sum of two amounts, held at the largest amount that can be counted.
pub open spec fn credited(balance: usize, reward: usize) -> usize {
    if balance + reward > usize::MAX {
        usize::MAX
    } else {
        (balance + reward) as usize
    }
}

impl Wallet {
    /// An empty wallet.
    pub fn new() -> (w: Wallet)
        ensures
            w.amount == 0,
    {
        Wallet { amount: 0 }
    }

    /// What the wallet holds.
    pub fn money(&self) -> (m: usize)
        ensures
            m == self.amount,
    {
        self.amount
    }

    /// Credits a reward.
    pub fn add(&mut self, money: &Money)
        ensures
            final(self).amount == credited(old(self).amount, money.amount),
    {
        self.amount = if money.amount > usize::MAX - self.amount {
            usize::MAX
        } else {
            self.amount + money.amount
        };
    }

    /// Pays `amount`, which the wallet must hold.
    pub fn subtract(&mut self, amount: usize)
        requires
            amount <= old(self).amount,
        ensures
            final(self).amount == old(self).amount - amount,
    {
        self.amount = self.amount - amount;
    }

    /// Empties the wallet.
    pub fn reset(&mut self)
        ensures
            final(self).amount == 0,
    {
        self.amount = 0;
    }
}

impl Money {
    pub fn new(amount: usize) -> (m: Money)
        ensures
            m.amount == amount,
    {
        Money { amount }
    }

    pub fn amount(&self) -> (a: usize)
        ensures
            a == self.amount,
    {
        self.amount
    }
}

impl Default for Wallet {
    /// An empty wallet.
    fn default() -> (w: Wallet)
        ensures
            w.amount == 0,
    {
        Wallet { amount: 0 }
    }
}

impl Default for Money {
    /// No reward.
    fn default() -> (m: Money)
        ensures
            m.amount == 0,
    {
        Money { amount: 0 }
    }
}

} // verus!
