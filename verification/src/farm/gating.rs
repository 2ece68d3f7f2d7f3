//! When the farm takes a call and when it does not.

use vstd::prelude::*;
use crate::address::Address;
use crate::farm::model::{lookup, upsert};
use crate::farm::types::{FarmConfig, FarmError, FarmView, UserData};
use crate::farm::wellformed::{lemma_upsert_lookup, lemma_without_keeps_wf};

verus! {

/// A farm is set up only once: after `initialize` has succeeded, it fails
/// with `AlreadyInitialized` whatever it is given.
pub proof fn lemma_initialized_once(s: FarmView, first: FarmConfig, second: FarmConfig)
    requires
        s.initialize(first) is Ok,
    ensures
        s.initialize(first)->Ok_0.initialize(second) == Err::<FarmView, FarmError>(
            FarmError::AlreadyInitialized,
        ),
{
}

/// No call takes a farm back to the uninitialized state.
pub proof fn lemma_stays_initialized(
    s: FarmView,
    caller: Address,
    other: Address,
    amount: i128,
    pool_id: u32,
    now: u64,
    ratio2: Option<i128>,
    available1: i128,
    available2: i128,
    stopped: bool,
)
    requires
        s.config is Some,
    ensures
        s.create_pool(caller, now, amount, ratio2) matches Ok(next) ==> next.0.config is Some,
        s.deposit(caller, amount, pool_id, now, available1, available2) matches Ok(next)
            ==> next.config is Some,
        s.withdraw(caller, amount, pool_id, now) matches Ok(next) ==> next.0.config is Some,
        s.set_admin(caller, other) matches Ok(next) ==> next.config is Some,
        s.set_stopped(caller, stopped) matches Ok(next) ==> next.config is Some,
{
}

/// A deposit is taken only from the pool's start up to, and not at, the
/// farm's maturity, only while the farm is not stopped, and only of a
/// positive amount. So every deposit at or after maturity fails.
pub proof fn lemma_deposit_only_while_active(
    s: FarmView,
    user: Address,
    amount: i128,
    pool_id: u32,
    now: u64,
    available1: i128,
    available2: i128,
)
    requires
        s.deposit(user, amount, pool_id, now, available1, available2) is Ok,
    ensures
        s.config is Some,
        !s.stopped,
        amount > 0,
        pool_id < s.pools.len(),
        s.pools[pool_id as int].start_time <= now < s.config->Some_0.maturity,
{
}

/// Stopping the farm closes deposits only: a withdrawal does to a stopped
/// farm what it does to the same farm while it is open.
pub proof fn lemma_stop_keeps_withdrawals(s: FarmView, user: Address, amount: i128, pool_id: u32, now: u64)
    ensures
        match (
            s.withdraw(user, amount, pool_id, now),
            (FarmView { stopped: !s.stopped, ..s }).withdraw(user, amount, pool_id, now),
        ) {
            (Ok((next, paid)), Ok((other, same))) => paid == same && other == (FarmView {
                stopped: !s.stopped,
                ..next
            }),
            (Err(e), Err(f)) => e == f,
            _ => false,
        },
        (FarmView { stopped: true, ..s }).deposit(user, amount, pool_id, now, 0, 0) == Err::<
            FarmView,
            FarmError,
        >(FarmError::ContractStopped),
{
}

/// A position ends with its last unit: after a withdrawal of all that a user
/// holds in a pool the user has no position there, and after a withdrawal
/// of less the rest is held from a new anchor with no reward carried over.
pub proof fn lemma_withdrawal_closes_position(
    s: FarmView,
    user: Address,
    amount: i128,
    pool_id: u32,
    now: u64,
)
    requires
        s.wf(),
        s.withdraw(user, amount, pool_id, now) is Ok,
    ensures
        ({
            let next = s.withdraw(user, amount, pool_id, now)->Ok_0.0;
            let before = lookup(s.positions, user, pool_id)->Some_0;
            let maturity = s.config->Some_0.maturity;
            if amount == before.deposited {
                lookup(next.positions, user, pool_id) is None
            } else {
                lookup(next.positions, user, pool_id) == Some(
                    UserData {
                        deposited: (before.deposited - amount) as i128,
                        deposit_time: if now < maturity {
                            now
                        } else {
                            maturity
                        },
                        accrued_rewards1: 0,
                        accrued_rewards2: 0,
                    },
                )
            }
        }),
{
    let next = s.withdraw(user, amount, pool_id, now)->Ok_0.0;
    let before = lookup(s.positions, user, pool_id)->Some_0;
    let maturity = s.config->Some_0.maturity;
    let left = UserData {
        deposited: (before.deposited - amount) as i128,
        deposit_time: if now < maturity {
            now
        } else {
            maturity
        },
        accrued_rewards1: 0,
        accrued_rewards2: 0,
    };
    if left.deposited > 0 {
        assert(next.positions == upsert(s.positions, user, pool_id, left));
        lemma_upsert_lookup(s.positions, user, pool_id, left);
    } else {
        lemma_without_keeps_wf(s, user, pool_id);
    }
}

} // verus!
