//! The vault against what it holds: once the redemption value is posted, the
//! vault holds at least what is left of it, so every redemption can be paid.
//!
//! The asset is kept by a token program outside of the vault. Here it is a
//! value beside the vault's state, moved as the results of the calls say.
//! Principal never enters it: a deposit goes to the treasury.

use vstd::prelude::*;
use crate::address::Address;
use crate::vault::{lemma_payout_bounded, lemma_shares_not_negative, Vault};

verus! {

/// A vault together with the asset in its custody.
pub struct World {
    pub vault: Vault,
    pub asset: int,
}

/// What can happen to a vault and its holdings.
pub enum Call {
    SetQuote { caller: Address, value: i128, now: u64 },
    Deposit { amount: i128, now: u64 },
    Withdraw { amount: i128, now: u64 },
    SetTotalRedemption { caller: Address, amount: i128, now: u64 },
    SetTreasury { caller: Address, treasury: Address },
    SetAdmin { caller: Address, new_admin: Address },
    /// Someone sends the asset to the vault.
    Fund { amount: nat },
}

impl World {
    /// The vault holds what is left of the redemption value.
    pub open spec fn covered(self) -> bool {
        self.vault.total_redemption <= self.asset
    }

    /// The world after one call. A call that the vault accepts moves the
    /// asset that its result names: posting the redemption value brings it
    /// in, a withdrawal pays out. A call that the vault turns down changes
    /// nothing.
    pub open spec fn step(self, call: Call) -> World {
        match call {
            Call::SetQuote { caller, value, now } => match self.vault.set_quote_spec(
                caller,
                value,
                now,
            ) {
                Ok(next) => World { vault: next, ..self },
                Err(_) => self,
            },
            Call::Deposit { amount, now } => match self.vault.deposit_spec(amount, now) {
                Ok((next, _)) => World { vault: next, ..self },
                Err(_) => self,
            },
            Call::Withdraw { amount, now } => match self.vault.withdraw_spec(amount, now) {
                Ok((next, payout)) => World { vault: next, asset: self.asset - payout },
                Err(_) => self,
            },
            Call::SetTotalRedemption { caller, amount, now } => match self.vault.set_total_redemption_spec(
                caller,
                amount,
                now,
            ) {
                Ok(next) => World { vault: next, asset: self.asset + amount },
                Err(_) => self,
            },
            Call::SetTreasury { caller, treasury } => match self.vault.set_treasury_spec(
                caller,
                treasury,
            ) {
                Ok(next) => World { vault: next, ..self },
                Err(_) => self,
            },
            Call::SetAdmin { caller, new_admin } => match self.vault.set_admin_spec(
                caller,
                new_admin,
            ) {
                Ok(next) => World { vault: next, ..self },
                Err(_) => self,
            },
            Call::Fund { amount } => World { asset: self.asset + amount, ..self },
        }
    }

    /// The world after a sequence of calls, one after the other.
    pub open spec fn run(self, calls: Seq<Call>) -> World
        decreases calls.len(),
    {
        if calls.len() == 0 {
            self
        } else {
            self.run(calls.drop_last()).step(calls.last())
        }
    }
}

/// A redemption that the vault accepts can be paid: it asks for nothing
/// negative and for no more than the vault holds.
pub proof fn lemma_redemption_can_be_paid(w: World, amount: i128, now: u64)
    requires
        w.vault.wf(),
        w.covered(),
        w.vault.withdraw_spec(amount, now) is Ok,
    ensures
        0 <= w.vault.withdraw_spec(amount, now)->Ok_0.1 <= w.vault.total_redemption <= w.asset,
{
    lemma_payout_bounded(
        w.vault.total_redemption as int,
        w.vault.total_shares as int,
        amount as int,
    );
}

/// One call keeps the vault well formed and in possession of what is left
/// of the redemption value.
pub proof fn lemma_step_keeps_cover(w: World, call: Call)
    requires
        w.vault.wf(),
        w.covered(),
    ensures
        w.step(call).vault.wf(),
        w.step(call).covered(),
{
    match call {
        Call::Deposit { amount, now } => {
            if w.vault.deposit_spec(amount, now) is Ok {
                lemma_shares_not_negative(amount as int, w.vault.quote.read(now) as int);
            }
        },
        Call::Withdraw { amount, now } => {
            if w.vault.withdraw_spec(amount, now) is Ok {
                lemma_redemption_can_be_paid(w, amount, now);
            }
        },
        _ => {},
    }
}

/// Whatever calls are made, in whatever order and at whatever times, a vault
/// that began well formed and in possession of what is left of the
/// redemption value stays so after every one of them.
pub proof fn theorem_cover_is_kept(w: World, calls: Seq<Call>)
    requires
        w.vault.wf(),
        w.covered(),
    ensures
        w.run(calls).vault.wf(),
        w.run(calls).covered(),
    decreases calls.len(),
{
    if calls.len() > 0 {
        theorem_cover_is_kept(w, calls.drop_last());
        lemma_step_keeps_cover(w.run(calls.drop_last()), calls.last());
    }
}

} // verus!
