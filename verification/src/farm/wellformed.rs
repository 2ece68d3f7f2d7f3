//! The invariant of the farm's state is kept by every entry point.

use vstd::prelude::*;
use crate::address::Address;
use crate::fixed::{reward, SCALE};
use crate::farm::model::{
    accrued_position,
    fresh_position,
    has_position,
    holds_key,
    is_first_match,
    lookup,
    position_index,
    upsert,
    window,
    without,
};
use crate::farm::types::{FarmConfig, FarmView, Position, UserData};

verus! {

/// A place that holds the key and has none before it that does is the place
/// of the position.
pub proof fn lemma_first_match_is_index(ps: Seq<Position>, user: Address, pool_id: u32, i: int)
    requires
        is_first_match(ps, user, pool_id, i),
    ensures
        has_position(ps, user, pool_id),
        position_index(ps, user, pool_id) == i,
        lookup(ps, user, pool_id) == Some(ps[i].data),
{
    let k = position_index(ps, user, pool_id);
    assert(is_first_match(ps, user, pool_id, k));
    if k < i {
        assert(!holds_key(ps[k], user, pool_id));
    } else if i < k {
        assert(!holds_key(ps[i], user, pool_id));
    }
}

/// Where no place holds the key there is no position.
pub proof fn lemma_no_match_no_position(ps: Seq<Position>, user: Address, pool_id: u32)
    requires
        forall|j: int| 0 <= j < ps.len() ==> !holds_key(#[trigger] ps[j], user, pool_id),
    ensures
        !has_position(ps, user, pool_id),
        lookup(ps, user, pool_id) is None,
{
    if has_position(ps, user, pool_id) {
        let k = position_index(ps, user, pool_id);
        assert(is_first_match(ps, user, pool_id, k));
        assert(!holds_key(ps[k], user, pool_id));
    }
}

/// A reward on a deposit, over a time, neither of them negative, is not negative.
pub proof fn lemma_reward_nonnegative(deposited: int, ratio: int, elapsed: int)
    requires
        deposited >= 0,
        elapsed >= 0,
    ensures
        reward(deposited, ratio, elapsed) >= 0,
{
    if ratio > 0 {
        let scale = SCALE as int;
        let full = deposited * ratio * elapsed;
        assert(full >= 0) by (nonlinear_arith)
            requires
                deposited >= 0,
                ratio > 0,
                elapsed >= 0,
                full == deposited * ratio * elapsed,
        ;
        assert(full / scale >= 0) by (nonlinear_arith)
            requires
                full >= 0,
                scale > 0,
        ;
    }
}

/// After a position is set it is what is found.
pub proof fn lemma_upsert_lookup(ps: Seq<Position>, user: Address, pool_id: u32, data: UserData)
    ensures
        lookup(upsert(ps, user, pool_id, data), user, pool_id) == Some(data),
{
    let qs = upsert(ps, user, pool_id, data);
    if has_position(ps, user, pool_id) {
        let k = position_index(ps, user, pool_id);
        assert(is_first_match(ps, user, pool_id, k));
        assert(is_first_match(qs, user, pool_id, k)) by {
            assert forall|j: int| 0 <= j < k implies !holds_key(#[trigger] qs[j], user, pool_id) by {
                assert(!holds_key(ps[j], user, pool_id));
            }
        }
        lemma_first_match_is_index(qs, user, pool_id, k);
    } else {
        let k = ps.len() as int;
        assert forall|j: int| 0 <= j < k implies !holds_key(#[trigger] qs[j], user, pool_id) by {
            assert(qs[j] == ps[j]);
            if holds_key(ps[j], user, pool_id) {
                lemma_some_match_has_position(ps, user, pool_id, j);
            }
        }
        assert(is_first_match(qs, user, pool_id, k));
        lemma_first_match_is_index(qs, user, pool_id, k);
    }
}

/// Setting a position leaves the keys unique and every position well formed,
/// if the one that is set is.
pub proof fn lemma_upsert_keeps_wf(s: FarmView, user: Address, pool_id: u32, data: UserData)
    requires
        s.wf(),
        s.position_wf(Position { user, pool_id, data }),
    ensures
        (FarmView { positions: upsert(s.positions, user, pool_id, data), ..s }).wf(),
        lookup(upsert(s.positions, user, pool_id, data), user, pool_id) == Some(data),
{
    let ps = s.positions;
    let qs = upsert(ps, user, pool_id, data);
    let next = FarmView { positions: qs, ..s };
    let entry = Position { user, pool_id, data };
    lemma_upsert_lookup(ps, user, pool_id, data);
    if has_position(ps, user, pool_id) {
        let k = position_index(ps, user, pool_id);
        assert(is_first_match(ps, user, pool_id, k));
        assert(qs.len() == ps.len());
        assert forall|i: int, j: int| 0 <= i < j < qs.len() implies !holds_key(
            #[trigger] qs[i],
            qs[j].user,
            (#[trigger] qs[j]).pool_id,
        ) by {
            assert(!holds_key(ps[i], ps[j].user, ps[j].pool_id));
            assert(qs[i].user == ps[i].user && qs[i].pool_id == ps[i].pool_id);
            assert(qs[j].user == ps[j].user && qs[j].pool_id == ps[j].pool_id);
        }
        assert forall|i: int| 0 <= i < qs.len() implies next.position_wf(#[trigger] qs[i]) by {
            if i != k {
                assert(s.position_wf(ps[i]));
            }
        }
    } else {
        assert(qs.len() == ps.len() + 1);
        assert forall|j: int| 0 <= j < ps.len() implies !holds_key(#[trigger] ps[j], user, pool_id) by {
            if holds_key(ps[j], user, pool_id) {
                lemma_some_match_has_position(ps, user, pool_id, j);
            }
        }
        assert forall|i: int, j: int| 0 <= i < j < qs.len() implies !holds_key(
            #[trigger] qs[i],
            qs[j].user,
            (#[trigger] qs[j]).pool_id,
        ) by {
            assert(qs[i] == ps[i]);
            if j < ps.len() {
                assert(qs[j] == ps[j]);
                assert(!holds_key(ps[i], ps[j].user, ps[j].pool_id));
            } else {
                assert(qs[j] == entry);
            }
        }
        assert forall|i: int| 0 <= i < qs.len() implies next.position_wf(#[trigger] qs[i]) by {
            if i < ps.len() {
                assert(qs[i] == ps[i]);
                assert(s.position_wf(ps[i]));
            }
        }
    }
}

/// Where some place holds the key there is a position.
pub proof fn lemma_some_match_has_position(ps: Seq<Position>, user: Address, pool_id: u32, j: int)
    requires
        0 <= j < ps.len(),
        holds_key(ps[j], user, pool_id),
    ensures
        has_position(ps, user, pool_id),
        position_index(ps, user, pool_id) <= j,
    decreases j,
{
    if exists|i: int| 0 <= i < j && holds_key(#[trigger] ps[i], user, pool_id) {
        let i = choose|i: int| 0 <= i < j && holds_key(#[trigger] ps[i], user, pool_id);
        lemma_some_match_has_position(ps, user, pool_id, i);
    } else {
        assert(is_first_match(ps, user, pool_id, j));
        lemma_first_match_is_index(ps, user, pool_id, j);
    }
}

/// Dropping a position leaves the keys unique and every position well formed,
/// and the user without a position in that pool.
pub proof fn lemma_without_keeps_wf(s: FarmView, user: Address, pool_id: u32)
    requires
        s.wf(),
    ensures
        (FarmView { positions: without(s.positions, user, pool_id), ..s }).wf(),
        lookup(without(s.positions, user, pool_id), user, pool_id) is None,
{
    let ps = s.positions;
    let qs = without(ps, user, pool_id);
    let next = FarmView { positions: qs, ..s };
    if has_position(ps, user, pool_id) {
        let k = position_index(ps, user, pool_id);
        assert(is_first_match(ps, user, pool_id, k));
        assert(qs.len() == ps.len() - 1);
        assert forall|i: int| 0 <= i < qs.len() implies #[trigger] qs[i] == ps[if i < k {
            i
        } else {
            i + 1
        }] by {}
        assert forall|i: int, j: int| 0 <= i < j < qs.len() implies !holds_key(
            #[trigger] qs[i],
            qs[j].user,
            (#[trigger] qs[j]).pool_id,
        ) by {
            let a = if i < k {
                i
            } else {
                i + 1
            };
            let b = if j < k {
                j
            } else {
                j + 1
            };
            assert(qs[i] == ps[a]);
            assert(qs[j] == ps[b]);
            assert(!holds_key(ps[a], ps[b].user, ps[b].pool_id));
        }
        assert forall|i: int| 0 <= i < qs.len() implies next.position_wf(#[trigger] qs[i]) by {
            let a = if i < k {
                i
            } else {
                i + 1
            };
            assert(qs[i] == ps[a]);
            assert(s.position_wf(ps[a]));
        }
        assert forall|j: int| 0 <= j < qs.len() implies !holds_key(#[trigger] qs[j], user, pool_id) by {
            let b = if j < k {
                j
            } else {
                j + 1
            };
            assert(qs[j] == ps[b]);
            if b < k {
                assert(!holds_key(ps[b], user, pool_id));
            } else {
                assert(!holds_key(ps[k], ps[b].user, ps[b].pool_id));
            }
        }
        lemma_no_match_no_position(qs, user, pool_id);
    } else {
    }
}

/// What a well-formed position holds after it is brought up to date is not
/// negative, and nothing on a track without a ratio.
pub proof fn lemma_accrued_position_wf(data: UserData, ratio1: i128, ratio2: i128, now: u64, maturity: u64)
    requires
        data.deposited >= 0,
        data.accrued_rewards1 >= 0,
        data.accrued_rewards2 >= 0,
        accrued_position(data, ratio1, ratio2, now, maturity) is Some,
    ensures
        ({
            let accrued = accrued_position(data, ratio1, ratio2, now, maturity)->Some_0;
            &&& accrued.deposited == data.deposited
            &&& accrued.deposit_time == data.deposit_time
            &&& accrued.accrued_rewards1 >= data.accrued_rewards1
            &&& accrued.accrued_rewards2 >= data.accrued_rewards2
            &&& ratio2 <= 0 ==> accrued.accrued_rewards2 == data.accrued_rewards2
        }),
{
    let elapsed = window(data, now, maturity);
    lemma_reward_nonnegative(data.deposited as int, ratio1 as int, elapsed);
    lemma_reward_nonnegative(data.deposited as int, ratio2 as int, elapsed);
}

/// `initialize` keeps the invariant.
pub proof fn lemma_initialize_keeps_wf(s: FarmView, config: FarmConfig)
    requires
        s.wf(),
        s.initialize(config) is Ok,
    ensures
        s.initialize(config)->Ok_0.wf(),
{
}

/// `create_pool` keeps the invariant.
pub proof fn lemma_create_pool_keeps_wf(
    s: FarmView,
    caller: Address,
    start_time: u64,
    ratio1: i128,
    ratio2: Option<i128>,
)
    requires
        s.wf(),
        s.create_pool(caller, start_time, ratio1, ratio2) is Ok,
    ensures
        s.create_pool(caller, start_time, ratio1, ratio2)->Ok_0.0.wf(),
{
    let next = s.create_pool(caller, start_time, ratio1, ratio2)->Ok_0.0;
    assert forall|i: int| 0 <= i < next.positions.len() implies next.position_wf(
        #[trigger] next.positions[i],
    ) by {
        assert(s.position_wf(s.positions[i]));
    }
}

/// `set_admin` keeps the invariant.
pub proof fn lemma_set_admin_keeps_wf(s: FarmView, caller: Address, new_admin: Address)
    requires
        s.wf(),
        s.set_admin(caller, new_admin) is Ok,
    ensures
        s.set_admin(caller, new_admin)->Ok_0.wf(),
{
    let next = s.set_admin(caller, new_admin)->Ok_0;
    assert forall|i: int| 0 <= i < next.positions.len() implies next.position_wf(
        #[trigger] next.positions[i],
    ) by {
        assert(s.position_wf(s.positions[i]));
    }
}

/// `set_contract_stopped` keeps the invariant.
pub proof fn lemma_set_stopped_keeps_wf(s: FarmView, caller: Address, stopped: bool)
    requires
        s.wf(),
        s.set_stopped(caller, stopped) is Ok,
    ensures
        s.set_stopped(caller, stopped)->Ok_0.wf(),
{
    let next = s.set_stopped(caller, stopped)->Ok_0;
    assert forall|i: int| 0 <= i < next.positions.len() implies next.position_wf(
        #[trigger] next.positions[i],
    ) by {
        assert(s.position_wf(s.positions[i]));
    }
}

/// `deposit` keeps the invariant.
pub proof fn lemma_deposit_keeps_wf(
    s: FarmView,
    user: Address,
    amount: i128,
    pool_id: u32,
    now: u64,
    available1: i128,
    available2: i128,
)
    requires
        s.wf(),
        s.deposit(user, amount, pool_id, now, available1, available2) is Ok,
    ensures
        s.deposit(user, amount, pool_id, now, available1, available2)->Ok_0.wf(),
{
    let next = s.deposit(user, amount, pool_id, now, available1, available2)->Ok_0;
    let config = s.config->Some_0;
    let pool = s.pools[pool_id as int];
    let ratio1 = pool.reward_ratio1;
    let ratio2 = config.ratio2(pool);
    let before = match lookup(s.positions, user, pool_id) {
        Some(data) => data,
        None => fresh_position(now),
    };
    if has_position(s.positions, user, pool_id) {
        let k = position_index(s.positions, user, pool_id);
        assert(is_first_match(s.positions, user, pool_id, k));
        assert(s.position_wf(s.positions[k]));
    }
    lemma_accrued_position_wf(before, ratio1, ratio2, now, config.maturity);
    let accrued = accrued_position(before, ratio1, ratio2, now, config.maturity)->Some_0;
    let data = UserData {
        deposited: (accrued.deposited + amount) as i128,
        deposit_time: now,
        ..accrued
    };
    let mid = FarmView {
        allocated_rewards1: next.allocated_rewards1,
        allocated_rewards2: next.allocated_rewards2,
        ..s
    };
    assert(mid.wf()) by {
        assert forall|i: int| 0 <= i < mid.positions.len() implies mid.position_wf(
            #[trigger] mid.positions[i],
        ) by {
            assert(s.position_wf(s.positions[i]));
        }
    }
    lemma_upsert_keeps_wf(mid, user, pool_id, data);
    assert(next == FarmView { positions: upsert(mid.positions, user, pool_id, data), ..mid });
}

/// `withdraw` keeps the invariant.
pub proof fn lemma_withdraw_keeps_wf(s: FarmView, user: Address, amount: i128, pool_id: u32, now: u64)
    requires
        s.wf(),
        s.withdraw(user, amount, pool_id, now) is Ok,
    ensures
        s.withdraw(user, amount, pool_id, now)->Ok_0.0.wf(),
        s.withdraw(user, amount, pool_id, now)->Ok_0.1.reward1 >= 0,
        s.withdraw(user, amount, pool_id, now)->Ok_0.1.reward2 >= 0,
{
    let next = s.withdraw(user, amount, pool_id, now)->Ok_0.0;
    let config = s.config->Some_0;
    let pool = s.pools[pool_id as int];
    let ratio1 = pool.reward_ratio1;
    let ratio2 = config.ratio2(pool);
    let k = position_index(s.positions, user, pool_id);
    assert(is_first_match(s.positions, user, pool_id, k));
    assert(s.position_wf(s.positions[k]));
    let before = s.positions[k].data;
    lemma_accrued_position_wf(before, ratio1, ratio2, now, config.maturity);
    let mid = FarmView {
        allocated_rewards1: next.allocated_rewards1,
        allocated_rewards2: next.allocated_rewards2,
        ..s
    };
    assert(mid.wf()) by {
        assert forall|i: int| 0 <= i < mid.positions.len() implies mid.position_wf(
            #[trigger] mid.positions[i],
        ) by {
            assert(s.position_wf(s.positions[i]));
        }
    }
    let left = UserData {
        deposited: (before.deposited - amount) as i128,
        deposit_time: if now < config.maturity {
            now
        } else {
            config.maturity
        },
        accrued_rewards1: 0,
        accrued_rewards2: 0,
    };
    if left.deposited > 0 {
        lemma_upsert_keeps_wf(mid, user, pool_id, left);
        assert(next == FarmView { positions: upsert(mid.positions, user, pool_id, left), ..mid });
    } else {
        lemma_without_keeps_wf(mid, user, pool_id);
        assert(next == FarmView { positions: without(mid.positions, user, pool_id), ..mid });
    }
}

} // verus!
