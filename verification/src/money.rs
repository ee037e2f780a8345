//! The wallet: one balance of whole currency units.

use vstd::prelude::*;

verus! {

/// What one pig costs.
pub const PURCHASE_PRICE: u64 = 10;

/// What one pig brings when its countdown completes.
pub const SALE_PRICE: u64 = 15;

/// The balance a game starts with.
pub const STARTING_BALANCE: u64 = 100;

/// The shared currency balance, in whole units.
#[derive(Clone, Copy, Debug, PartialEq, Eq)]
pub struct Money(pub u64);

impl Money {
    /// The wallet of a new game.
    pub fn starting() -> (money: Money)
        ensures
            money.0 == STARTING_BALANCE,
    {
        Money(STARTING_BALANCE)
    }
}

} // verus!
