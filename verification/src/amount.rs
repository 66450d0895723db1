//! Amounts of money on the Lightning network.
use vstd::prelude::*;

verus! {

/// An amount, held in millisatoshis.
#[derive(Debug, Clone, Copy, PartialEq, Eq, Structural)]
pub struct Amount {
    msat: u64,
}

impl View for Amount {
    type V = nat;

    /// The number of millisatoshis.
    closed spec fn view(&self) -> nat {
        self.msat as nat
    }
}

impl Amount {
    /// The amount of `msat` millisatoshis.
    pub fn from_msat(msat: u64) -> (amount: Amount)
        ensures
            amount@ == msat,
    {
        Amount { msat }
    }

    /// The number of millisatoshis in this amount.
    pub fn msat(&self) -> (msat: u64)
        ensures
            msat == self@,
    {
        self.msat
    }

    /// The sum of two amounts, where it fits in 64 bits.
    pub fn plus(&self, other: Amount) -> (sum: Amount)
        requires
            self@ + other@ <= u64::MAX,
        ensures
            sum@ == self@ + other@,
    {
        Amount { msat: self.msat + other.msat }
    }
}

/// An amount never exceeds what 64 bits can hold.
pub broadcast proof fn lemma_amount_bounded(amount: Amount)
    ensures
        #[trigger] amount@ <= u64::MAX,
{
}

/// An amount is known by its millisatoshis.
proof fn law_amounts_are_known_by_their_millisatoshis(a: Amount, b: Amount)
    ensures
        a@ == a.msat,
        a@ == b@ ==> a == b,
{
}

} // verus!
