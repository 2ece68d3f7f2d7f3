//! The farm against what it holds: it never promises more rewards than it
//! has, and never owes more principal than it has taken in.
//!
//! The farm's tokens are kept by token programs outside of it. Here they are
//! a value beside the farm's state, moved as the results of the calls say.

use vstd::prelude::*;
use crate::address::Address;
use crate::fixed::fits_i128;
use crate::farm::model::{
    accrued_position,
    commitment,
    fresh_position,
    has_position,
    is_first_match,
    lookup,
    position_index,
    upsert,
    without,
};
use crate::farm::types::{FarmView, Position, UserData};
use crate::farm::wellformed::{
    lemma_create_pool_keeps_wf,
    lemma_deposit_keeps_wf,
    lemma_reward_nonnegative,
    lemma_set_admin_keeps_wf,
    lemma_set_stopped_keeps_wf,
    lemma_withdraw_keeps_wf,
};

verus! {

/// What the farm holds: of each reward token, and of the pool asset for each
/// pool through which it came in.
pub struct Holdings {
    pub reward1: int,
    pub reward2: int,
    pub pool_asset: Map<u32, int>,
}

impl Holdings {
    /// The pool asset held for the pool `pool_id`.
    pub open spec fn held_for(self, pool_id: u32) -> int {
        if self.pool_asset.dom().contains(pool_id) {
            self.pool_asset[pool_id]
        } else {
            0
        }
    }

    /// The holdings after `amount` of the pool asset has come in for `pool_id`.
    pub open spec fn with_pool_asset(self, pool_id: u32, amount: int) -> Holdings {
        Holdings { pool_asset: self.pool_asset.insert(pool_id, self.held_for(pool_id) + amount), ..self }
    }
}

/// A farm together with what it holds.
pub struct World {
    pub farm: FarmView,
    pub held: Holdings,
}

/// What can happen to a farm and its holdings.
pub enum Call {
    CreatePool { caller: Address, start_time: u64, ratio1: i128, ratio2: Option<i128> },
    Deposit { user: Address, amount: i128, pool_id: u32, now: u64 },
    Withdraw { user: Address, amount: i128, pool_id: u32, now: u64 },
    /// The administrator takes out the rewards that are not promised.
    Sweep { caller: Address, now: u64 },
    SetAdmin { caller: Address, new_admin: Address },
    SetStopped { caller: Address, stopped: bool },
    /// Someone sends reward tokens to the farm.
    Fund { reward1: nat, reward2: nat },
}

/// What `p` adds to the principal owed in the pool `pool_id`.
pub open spec fn share_of(p: Position, pool_id: u32) -> int {
    if p.pool_id == pool_id {
        p.data.deposited as int
    } else {
        0
    }
}

/// The principal that all positions in the pool `pool_id` hold together.
pub open spec fn pool_total(ps: Seq<Position>, pool_id: u32) -> int
    decreases ps.len(),
{
    if ps.len() == 0 {
        0
    } else {
        pool_total(ps.drop_last(), pool_id) + share_of(ps.last(), pool_id)
    }
}

impl World {
    /// The farm has promised no more of a reward token than it holds.
    pub open spec fn solvent(self) -> bool {
        &&& self.farm.allocated_rewards1 <= self.held.reward1
        &&& match self.farm.config {
            Some(config) => config.has_track2() ==> self.farm.allocated_rewards2
                <= self.held.reward2,
            None => true,
        }
    }

    /// The farm holds, for every pool, at least the principal of its positions.
    pub open spec fn conserved(self) -> bool {
        forall|pool_id: u32|
            #[trigger] pool_total(self.farm.positions, pool_id) <= self.held.held_for(pool_id)
    }

    /// The world after one call. A call that the farm accepts moves the
    /// tokens that its result names: a deposit brings in the principal, a
    /// withdrawal hands out principal and rewards, a sweep hands out the
    /// rewards that are not promised. A call that the farm turns down, or
    /// one for which it would need balances that no token program can
    /// report, changes nothing.
    pub open spec fn step(self, call: Call) -> World {
        match call {
            Call::CreatePool { caller, start_time, ratio1, ratio2 } => {
                match self.farm.create_pool(caller, start_time, ratio1, ratio2) {
                    Ok((next, _)) => World { farm: next, ..self },
                    Err(_) => self,
                }
            },
            Call::SetAdmin { caller, new_admin } => {
                match self.farm.set_admin(caller, new_admin) {
                    Ok(next) => World { farm: next, ..self },
                    Err(_) => self,
                }
            },
            Call::SetStopped { caller, stopped } => {
                match self.farm.set_stopped(caller, stopped) {
                    Ok(next) => World { farm: next, ..self },
                    Err(_) => self,
                }
            },
            Call::Fund { reward1, reward2 } => World {
                held: Holdings {
                    reward1: self.held.reward1 + reward1,
                    reward2: self.held.reward2 + reward2,
                    ..self.held
                },
                ..self
            },
            Call::Sweep { caller, now } => {
                if fits_i128(self.held.reward1) && fits_i128(self.held.reward2) {
                    match self.farm.unallocated_rewards(
                        caller,
                        now,
                        self.held.reward1 as i128,
                        self.held.reward2 as i128,
                    ) {
                        Ok((free1, free2)) => World {
                            held: Holdings {
                                reward1: self.held.reward1 - free1,
                                reward2: if self.farm.config->Some_0.has_track2() {
                                    self.held.reward2 - free2
                                } else {
                                    self.held.reward2
                                },
                                ..self.held
                            },
                            ..self
                        },
                        Err(_) => self,
                    }
                } else {
                    self
                }
            },
            Call::Deposit { user, amount, pool_id, now } => {
                if fits_i128(self.held.reward1) && fits_i128(self.held.reward2) {
                    match self.farm.deposit(
                        user,
                        amount,
                        pool_id,
                        now,
                        self.held.reward1 as i128,
                        self.held.reward2 as i128,
                    ) {
                        Ok(next) => World {
                            farm: next,
                            held: self.held.with_pool_asset(pool_id, amount as int),
                        },
                        Err(_) => self,
                    }
                } else {
                    self
                }
            },
            Call::Withdraw { user, amount, pool_id, now } => {
                match self.farm.withdraw(user, amount, pool_id, now) {
                    Ok((next, paid)) => World {
                        farm: next,
                        held: Holdings {
                            reward1: self.held.reward1 - paid.reward1,
                            reward2: self.held.reward2 - paid.reward2,
                            ..self.held.with_pool_asset(pool_id, -paid.amount)
                        },
                    },
                    Err(_) => self,
                }
            },
        }
    }

    /// The world after a sequence of calls, one after the other.
    pub open spec fn run(self, calls: Seq<Call>) -> World
        decreases calls.len(),
    {
        if calls.len() == 0 {
            self
        } else {
            self.run(calls.drop_last()).step(calls.last())
        }
    }
}

/// Replacing a position by one in the same pool changes the pool's total by
/// the difference of the two deposits, and no other pool's total.
pub proof fn lemma_total_after_update(ps: Seq<Position>, k: int, entry: Position, pool_id: u32)
    requires
        0 <= k < ps.len(),
        entry.pool_id == ps[k].pool_id,
    ensures
        pool_total(ps.update(k, entry), pool_id) == pool_total(ps, pool_id) + share_of(entry, pool_id)
            - share_of(ps[k], pool_id),
    decreases ps.len(),
{
    let qs = ps.update(k, entry);
    if k == ps.len() - 1 {
        assert(qs.drop_last() =~= ps.drop_last());
    } else {
        assert(qs.drop_last() =~= ps.drop_last().update(k, entry));
        lemma_total_after_update(ps.drop_last(), k, entry, pool_id);
    }
}

/// Dropping a position takes its deposit out of its pool's total.
pub proof fn lemma_total_after_remove(ps: Seq<Position>, k: int, pool_id: u32)
    requires
        0 <= k < ps.len(),
    ensures
        pool_total(ps.remove(k), pool_id) == pool_total(ps, pool_id) - share_of(ps[k], pool_id),
    decreases ps.len(),
{
    let qs = ps.remove(k);
    if k == ps.len() - 1 {
        assert(qs =~= ps.drop_last());
    } else {
        assert(qs.drop_last() =~= ps.drop_last().remove(k));
        assert(qs.last() == ps.last());
        lemma_total_after_remove(ps.drop_last(), k, pool_id);
    }
}

/// Adding a position adds its deposit to its pool's total.
pub proof fn lemma_total_after_push(ps: Seq<Position>, entry: Position, pool_id: u32)
    ensures
        pool_total(ps.push(entry), pool_id) == pool_total(ps, pool_id) + share_of(entry, pool_id),
{
    assert(ps.push(entry).drop_last() =~= ps);
}

/// What a user holds in a pool, zero without a position.
pub open spec fn deposited_by(ps: Seq<Position>, user: Address, pool_id: u32) -> int {
    match lookup(ps, user, pool_id) {
        Some(data) => data.deposited as int,
        None => 0,
    }
}

/// Setting a user's position changes the total of its pool by what the user
/// holds more than before, and no other pool's total.
pub proof fn lemma_total_after_upsert(
    ps: Seq<Position>,
    user: Address,
    pool_id: u32,
    data: UserData,
    other: u32,
)
    ensures
        pool_total(upsert(ps, user, pool_id, data), other) == pool_total(ps, other) + (if other
            == pool_id {
            data.deposited - deposited_by(ps, user, pool_id)
        } else {
            0
        }),
{
    let entry = Position { user, pool_id, data };
    if has_position(ps, user, pool_id) {
        let k = position_index(ps, user, pool_id);
        assert(is_first_match(ps, user, pool_id, k));
        lemma_total_after_update(ps, k, entry, other);
    } else {
        lemma_total_after_push(ps, entry, other);
    }
}

/// Dropping a user's position takes what the user held out of the total of
/// its pool, and nothing out of another pool's.
pub proof fn lemma_total_after_without(ps: Seq<Position>, user: Address, pool_id: u32, other: u32)
    ensures
        pool_total(without(ps, user, pool_id), other) == pool_total(ps, other) - (if other
            == pool_id {
            deposited_by(ps, user, pool_id)
        } else {
            0
        }),
{
    if has_position(ps, user, pool_id) {
        let k = position_index(ps, user, pool_id);
        assert(is_first_match(ps, user, pool_id, k));
        lemma_total_after_remove(ps, k, other);
    }
}

/// A deposit that is taken adds its amount to the total of its pool and
/// leaves every other pool's total as it was.
pub proof fn lemma_deposit_moves_total(
    s: FarmView,
    user: Address,
    amount: i128,
    pool_id: u32,
    now: u64,
    available1: i128,
    available2: i128,
    other: u32,
)
    requires
        s.deposit(user, amount, pool_id, now, available1, available2) is Ok,
    ensures
        pool_total(
            s.deposit(user, amount, pool_id, now, available1, available2)->Ok_0.positions,
            other,
        ) == pool_total(s.positions, other) + (if other == pool_id {
            amount as int
        } else {
            0
        }),
{
    let config = s.config->Some_0;
    let pool = s.pools[pool_id as int];
    let before = match lookup(s.positions, user, pool_id) {
        Some(data) => data,
        None => fresh_position(now),
    };
    let accrued = accrued_position(
        before,
        pool.reward_ratio1,
        config.ratio2(pool),
        now,
        config.maturity,
    )->Some_0;
    let data = UserData { deposited: (accrued.deposited + amount) as i128, deposit_time: now, ..accrued };
    lemma_total_after_upsert(s.positions, user, pool_id, data, other);
}

/// A withdrawal that is made takes its amount out of the total of its pool
/// and leaves every other pool's total as it was.
pub proof fn lemma_withdraw_moves_total(
    s: FarmView,
    user: Address,
    amount: i128,
    pool_id: u32,
    now: u64,
    other: u32,
)
    requires
        s.withdraw(user, amount, pool_id, now) is Ok,
    ensures
        pool_total(s.withdraw(user, amount, pool_id, now)->Ok_0.0.positions, other) == pool_total(
            s.positions,
            other,
        ) - (if other == pool_id {
            amount as int
        } else {
            0
        }),
{
    let config = s.config->Some_0;
    let before = lookup(s.positions, user, pool_id)->Some_0;
    let left = UserData {
        deposited: (before.deposited - amount) as i128,
        deposit_time: if now < config.maturity {
            now
        } else {
            config.maturity
        },
        accrued_rewards1: 0,
        accrued_rewards2: 0,
    };
    if left.deposited > 0 {
        lemma_total_after_upsert(s.positions, user, pool_id, left, other);
    } else {
        lemma_total_after_without(s.positions, user, pool_id, other);
    }
}

/// A deposit is taken only if, with it, the farm has promised no more of
/// either reward token than it holds.
pub proof fn lemma_deposit_is_covered(
    s: FarmView,
    user: Address,
    amount: i128,
    pool_id: u32,
    now: u64,
    available1: i128,
    available2: i128,
)
    requires
        s.deposit(user, amount, pool_id, now, available1, available2) is Ok,
    ensures
        ({
            let next = s.deposit(user, amount, pool_id, now, available1, available2)->Ok_0;
            let config = s.config->Some_0;
            &&& next.allocated_rewards1 <= available1
            &&& config.has_track2() ==> next.allocated_rewards2 <= available2
            &&& !config.has_track2() ==> next.allocated_rewards2 == 0
            &&& next.allocated_rewards1 == s.allocated_rewards1 + commitment(
                amount,
                s.pools[pool_id as int].reward_ratio1,
                now,
                config.maturity,
            )
            &&& next.allocated_rewards2 == s.allocated_rewards2 + commitment(
                amount,
                config.ratio2(s.pools[pool_id as int]),
                now,
                config.maturity,
            )
        }),
{
}

/// A withdrawal releases at least what it pays: of each reward token the
/// promise falls by the reward handed out and, before maturity, by what the
/// withdrawn principal would still have earned.
pub proof fn lemma_withdraw_releases(s: FarmView, user: Address, amount: i128, pool_id: u32, now: u64)
    requires
        s.wf(),
        s.withdraw(user, amount, pool_id, now) is Ok,
    ensures
        ({
            let (next, paid) = s.withdraw(user, amount, pool_id, now)->Ok_0;
            let config = s.config->Some_0;
            let pool = s.pools[pool_id as int];
            let early = now < config.maturity;
            &&& paid.amount == amount
            &&& paid.reward1 >= 0
            &&& paid.reward2 >= 0
            &&& next.allocated_rewards1 == s.allocated_rewards1 - paid.reward1 - (if early {
                commitment(amount, pool.reward_ratio1, now, config.maturity)
            } else {
                0
            })
            &&& next.allocated_rewards2 == s.allocated_rewards2 - paid.reward2 - (if early {
                commitment(amount, config.ratio2(pool), now, config.maturity)
            } else {
                0
            })
            &&& next.allocated_rewards1 <= s.allocated_rewards1 - paid.reward1
            &&& next.allocated_rewards2 <= s.allocated_rewards2 - paid.reward2
        }),
{
    let config = s.config->Some_0;
    let pool = s.pools[pool_id as int];
    lemma_withdraw_keeps_wf(s, user, amount, pool_id, now);
    if now < config.maturity {
        lemma_reward_nonnegative(amount as int, pool.reward_ratio1 as int, config.maturity - now);
        lemma_reward_nonnegative(amount as int, config.ratio2(pool) as int, config.maturity - now);
    }
}

/// A call that leaves the positions and the pool asset as they were leaves
/// the farm in possession of the principal it owes.
pub proof fn lemma_conservation_carries_over(before: World, after: World)
    requires
        before.conserved(),
        after.farm.positions == before.farm.positions,
        after.held.pool_asset == before.held.pool_asset,
    ensures
        after.conserved(),
{
    assert forall|pool_id: u32| #[trigger]
        pool_total(after.farm.positions, pool_id) <= after.held.held_for(pool_id) by {
        assert(pool_total(before.farm.positions, pool_id) <= before.held.held_for(pool_id));
    }
}

/// One call keeps the farm well formed, solvent and in possession of the
/// principal it owes.
pub proof fn lemma_step_keeps_custody(w: World, call: Call)
    requires
        w.farm.wf(),
        w.solvent(),
        w.conserved(),
    ensures
        w.step(call).farm.wf(),
        w.step(call).solvent(),
        w.step(call).conserved(),
{
    let after = w.step(call);
    match call {
        Call::CreatePool { caller, start_time, ratio1, ratio2 } => {
            if after != w {
                lemma_create_pool_keeps_wf(w.farm, caller, start_time, ratio1, ratio2);
            }
            lemma_conservation_carries_over(w, after);
        },
        Call::SetAdmin { caller, new_admin } => {
            if after != w {
                lemma_set_admin_keeps_wf(w.farm, caller, new_admin);
            }
            lemma_conservation_carries_over(w, after);
        },
        Call::SetStopped { caller, stopped } => {
            if after != w {
                lemma_set_stopped_keeps_wf(w.farm, caller, stopped);
            }
            lemma_conservation_carries_over(w, after);
        },
        Call::Fund { reward1, reward2 } => {
            lemma_conservation_carries_over(w, after);
        },
        Call::Sweep { caller, now } => {
            lemma_conservation_carries_over(w, after);
        },
        Call::Deposit { user, amount, pool_id, now } => {
            if after != w {
                let available1 = w.held.reward1 as i128;
                let available2 = w.held.reward2 as i128;
                lemma_deposit_keeps_wf(w.farm, user, amount, pool_id, now, available1, available2);
                lemma_deposit_is_covered(w.farm, user, amount, pool_id, now, available1, available2);
                assert forall|other: u32| #[trigger]
                    pool_total(after.farm.positions, other) <= after.held.held_for(other) by {
                    lemma_deposit_moves_total(
                        w.farm,
                        user,
                        amount,
                        pool_id,
                        now,
                        available1,
                        available2,
                        other,
                    );
                    assert(pool_total(w.farm.positions, other) <= w.held.held_for(other));
                }
            }
        },
        Call::Withdraw { user, amount, pool_id, now } => {
            if after != w {
                lemma_withdraw_keeps_wf(w.farm, user, amount, pool_id, now);
                lemma_withdraw_releases(w.farm, user, amount, pool_id, now);
                assert forall|other: u32| #[trigger]
                    pool_total(after.farm.positions, other) <= after.held.held_for(other) by {
                    lemma_withdraw_moves_total(w.farm, user, amount, pool_id, now, other);
                    assert(pool_total(w.farm.positions, other) <= w.held.held_for(other));
                }
            }
        },
    }
}

/// Solvency and conservation. Whatever calls are made, in whatever order
/// and at whatever times, a farm that began well formed, solvent and in
/// possession of the principal it owes stays so after every one of them: it
/// has promised no more of either reward token than it holds, and for every
/// pool it holds at least what the positions in that pool have deposited.
pub proof fn theorem_custody_is_kept(w: World, calls: Seq<Call>)
    requires
        w.farm.wf(),
        w.solvent(),
        w.conserved(),
    ensures
        w.run(calls).farm.wf(),
        w.run(calls).solvent(),
        w.run(calls).conserved(),
    decreases calls.len(),
{
    if calls.len() > 0 {
        theorem_custody_is_kept(w, calls.drop_last());
        lemma_step_keeps_custody(w.run(calls.drop_last()), calls.last());
    }
}

/// A farm that was just set up holds nothing for anyone and has promised
/// nothing, so whatever it holds it is solvent and owes no principal.
pub proof fn lemma_empty_farm_has_custody(w: World)
    requires
        w.farm.positions.len() == 0,
        w.farm.allocated_rewards1 == 0,
        w.farm.allocated_rewards2 == 0,
        w.held.reward1 >= 0,
        w.held.reward2 >= 0,
        forall|pool_id: u32| w.held.held_for(pool_id) >= 0,
    ensures
        w.solvent(),
        w.conserved(),
{
}

} // verus!
