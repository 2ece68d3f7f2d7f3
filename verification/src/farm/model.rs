//! What each entry point of the farm does, as functions on mathematical values.
//!
//! A call either yields the next state or an error and leaves the state as it
//! was. Sums and products are taken over the integers; where a value that the
//! farm has to hold does not fit its type, the call fails with
//! `ArithmeticError`.

use vstd::prelude::*;
use crate::address::Address;
use crate::fixed::{elapsed_time, fits_i128, reward, reward_fits};
use crate::farm::types::{FarmConfig, FarmError, FarmView, Pool, Position, UserData, Withdrawal};

verus! {

/// Whether the position is the one of `user` in the pool `pool_id`.
pub open spec fn holds_key(p: Position, user: Address, pool_id: u32) -> bool {
    p.user == user && p.pool_id == pool_id
}

/// Whether `i` is the first place in `ps` that holds the position of `user`
/// in the pool `pool_id`.
pub open spec fn is_first_match(ps: Seq<Position>, user: Address, pool_id: u32, i: int) -> bool {
    &&& 0 <= i < ps.len()
    &&& holds_key(ps[i], user, pool_id)
    &&& forall|j: int| 0 <= j < i ==> !holds_key(#[trigger] ps[j], user, pool_id)
}

/// Whether `user` has a position in the pool `pool_id`.
pub open spec fn has_position(ps: Seq<Position>, user: Address, pool_id: u32) -> bool {
    exists|i: int| is_first_match(ps, user, pool_id, i)
}

/// The place of the position of `user` in the pool `pool_id`.
pub open spec fn position_index(ps: Seq<Position>, user: Address, pool_id: u32) -> int
    recommends
        has_position(ps, user, pool_id),
{
    choose|i: int| is_first_match(ps, user, pool_id, i)
}

/// What `user` holds in the pool `pool_id`, if anything.
pub open spec fn lookup(ps: Seq<Position>, user: Address, pool_id: u32) -> Option<UserData> {
    if has_position(ps, user, pool_id) {
        Some(ps[position_index(ps, user, pool_id)].data)
    } else {
        None
    }
}

/// The positions after `user` holds `data` in the pool `pool_id`: the entry is
/// replaced where it exists and added at the end where it does not.
pub open spec fn upsert(ps: Seq<Position>, user: Address, pool_id: u32, data: UserData) -> Seq<
    Position,
> {
    if has_position(ps, user, pool_id) {
        ps.update(position_index(ps, user, pool_id), Position { user, pool_id, data })
    } else {
        ps.push(Position { user, pool_id, data })
    }
}

/// The positions without that of `user` in the pool `pool_id`.
pub open spec fn without(ps: Seq<Position>, user: Address, pool_id: u32) -> Seq<Position> {
    if has_position(ps, user, pool_id) {
        ps.remove(position_index(ps, user, pool_id))
    } else {
        ps
    }
}

/// No user has two positions in one pool.
pub open spec fn keys_unique(ps: Seq<Position>) -> bool {
    forall|i: int, j: int|
        0 <= i < j < ps.len() ==> !holds_key(#[trigger] ps[i], ps[j].user, (#[trigger] ps[j]).pool_id)
}

impl FarmConfig {
    /// Whether rewards of a second token accrue.
    pub open spec fn has_track2(self) -> bool {
        self.reward_token2 is Some
    }

    /// The ratio at which the second track of `pool` accrues: that of the
    /// pool where the farm has a second reward token, else zero.
    pub open spec fn ratio2(self, pool: Pool) -> i128 {
        if self.has_track2() {
            pool.reward_ratio2
        } else {
            0
        }
    }
}

/// The position that a first deposit at `now` starts from.
pub open spec fn fresh_position(now: u64) -> UserData {
    UserData { deposited: 0, deposit_time: now, accrued_rewards1: 0, accrued_rewards2: 0 }
}

/// The seconds for which `data` has earned at `now` since its window began.
pub open spec fn window(data: UserData, now: u64, maturity: u64) -> int {
    elapsed_time(now as int, data.deposit_time as int, maturity as int)
}

/// What `data` has earned in its running window at `ratio`.
pub open spec fn fresh_yield(data: UserData, ratio: i128, now: u64, maturity: u64) -> int {
    reward(data.deposited as int, ratio as int, window(data, now, maturity))
}

/// Whether the running window of `data` and what it has earned in it at both
/// ratios can be computed.
pub open spec fn yields_fit(data: UserData, ratio1: i128, ratio2: i128, now: u64, maturity: u64) -> bool {
    &&& data.deposit_time <= now
    &&& data.deposit_time <= maturity
    &&& reward_fits(data.deposited as int, ratio1 as int, window(data, now, maturity))
    &&& reward_fits(data.deposited as int, ratio2 as int, window(data, now, maturity))
}

/// What `amount` units will earn at `ratio` from `now` to `maturity`: the
/// commitment that a deposit creates and an early withdrawal gives back.
pub open spec fn commitment(amount: i128, ratio: i128, now: u64, maturity: u64) -> int {
    reward(amount as int, ratio as int, maturity - now)
}

/// Whether the commitment can be computed: maturity is not yet past and the
/// products fit.
pub open spec fn commitment_fits(amount: i128, ratio: i128, now: u64, maturity: u64) -> bool {
    now <= maturity && reward_fits(amount as int, ratio as int, maturity - now)
}

/// The position `data` with what it has earned in its running window added
/// to its accrued rewards, or `None` where that cannot be computed or held.
pub open spec fn accrued_position(
    data: UserData,
    ratio1: i128,
    ratio2: i128,
    now: u64,
    maturity: u64,
) -> Option<UserData> {
    let total1 = data.accrued_rewards1 + fresh_yield(data, ratio1, now, maturity);
    let total2 = data.accrued_rewards2 + fresh_yield(data, ratio2, now, maturity);
    if yields_fit(data, ratio1, ratio2, now, maturity) && fits_i128(total1) && fits_i128(total2) {
        Some(UserData { accrued_rewards1: total1 as i128, accrued_rewards2: total2 as i128, ..data })
    } else {
        None
    }
}

/// Whether the farm holds enough reward tokens for what it would then have
/// promised. Without a second reward token nothing may be promised of it.
pub open spec fn rewards_suffice(
    config: FarmConfig,
    required1: int,
    required2: int,
    available1: i128,
    available2: i128,
) -> bool {
    &&& available1 >= required1
    &&& if config.has_track2() {
        available2 >= required2
    } else {
        required2 == 0
    }
}

impl FarmView {
    /// A farm that has not been initialized.
    pub open spec fn empty() -> FarmView {
        FarmView {
            config: None,
            stopped: false,
            allocated_rewards1: 0,
            allocated_rewards2: 0,
            pools: Seq::empty(),
            positions: Seq::empty(),
        }
    }

    /// Whether the position is one that the farm can have reached: in a pool
    /// that exists, holding something, anchored no later than maturity, with
    /// no negative reward and none on a track that the farm lacks.
    pub open spec fn position_wf(self, p: Position) -> bool {
        &&& p.pool_id < self.pools.len()
        &&& p.data.deposited > 0
        &&& p.data.accrued_rewards1 >= 0
        &&& p.data.accrued_rewards2 >= 0
        &&& self.config matches Some(config) && p.data.deposit_time <= config.maturity && (
        !config.has_track2() ==> p.data.accrued_rewards2 == 0)
    }

    /// The invariant of the farm's state.
    pub open spec fn wf(self) -> bool {
        &&& self.pools.len() <= u32::MAX
        &&& keys_unique(self.positions)
        &&& forall|i: int| 0 <= i < self.positions.len() ==> self.position_wf(#[trigger] self.positions[i])
        &&& match self.config {
            None => self == FarmView::empty(),
            Some(config) => !config.has_track2() ==> self.allocated_rewards2 == 0,
        }
    }

    /// What `initialize` does: it sets the configuration, once. The reward
    /// tokens must differ from the pool's asset and from each other.
    pub open spec fn initialize(self, config: FarmConfig) -> Result<FarmView, FarmError> {
        if self.config is Some {
            Err(FarmError::AlreadyInitialized)
        } else if config.reward_token1 == config.pool_token {
            Err(FarmError::TokenConflict)
        } else if config.reward_token2 == Some(config.pool_token) {
            Err(FarmError::TokenConflict)
        } else if config.reward_token2 == Some(config.reward_token1) {
            Err(FarmError::SameRewardTokens)
        } else {
            Ok(
                FarmView {
                    config: Some(config),
                    allocated_rewards1: 0,
                    allocated_rewards2: 0,
                    pools: Seq::empty(),
                    ..self
                },
            )
        }
    }

    /// Whether a new pool may have the given ratios: the first within its cap,
    /// the second present exactly when the farm has a cap for it, and within it.
    pub open spec fn ratios_allowed(config: FarmConfig, ratio1: i128, ratio2: Option<i128>) -> bool {
        &&& ratio1 <= config.max_reward_ratio1
        &&& match (ratio2, config.max_reward_ratio2) {
            (Some(ratio), Some(cap)) => ratio <= cap,
            (None, None) => true,
            _ => false,
        }
    }

    /// What `create_pool` does: the administrator adds a pool, which gets the
    /// next id. The result holds the next state and that id.
    pub open spec fn create_pool(
        self,
        caller: Address,
        start_time: u64,
        ratio1: i128,
        ratio2: Option<i128>,
    ) -> Result<(FarmView, u32), FarmError> {
        match self.config {
            None => Err(FarmError::NotInitialized),
            Some(config) => {
                if caller != config.admin {
                    Err(FarmError::NotAuthorized)
                } else if !Self::ratios_allowed(config, ratio1, ratio2) {
                    Err(FarmError::InvalidAmount)
                } else if self.pools.len() >= u32::MAX {
                    Err(FarmError::ArithmeticError)
                } else {
                    let pool = Pool {
                        start_time,
                        reward_ratio1: ratio1,
                        reward_ratio2: match ratio2 {
                            Some(ratio) => ratio,
                            None => 0,
                        },
                    };
                    Ok((FarmView { pools: self.pools.push(pool), ..self }, self.pools.len() as u32))
                }
            },
        }
    }

    /// What `deposit` does. The position is first brought up to `now`, then
    /// grows by `amount` and is anchored at `now`. The deposit is taken only
    /// if the farm holds, of each reward token, what it has promised so far
    /// and what `amount` will earn until maturity.
    pub open spec fn deposit(
        self,
        user: Address,
        amount: i128,
        pool_id: u32,
        now: u64,
        available1: i128,
        available2: i128,
    ) -> Result<FarmView, FarmError> {
        if self.stopped {
            Err(FarmError::ContractStopped)
        } else if amount <= 0 {
            Err(FarmError::InvalidAmount)
        } else if pool_id >= self.pools.len() {
            Err(FarmError::PoolNotFound)
        } else {
            match self.config {
                None => Err(FarmError::NotInitialized),
                Some(config) => {
                    let pool = self.pools[pool_id as int];
                    let ratio1 = pool.reward_ratio1;
                    let ratio2 = config.ratio2(pool);
                    let before = match lookup(self.positions, user, pool_id) {
                        Some(data) => data,
                        None => fresh_position(now),
                    };
                    let required1 = self.allocated_rewards1 + commitment(
                        amount,
                        ratio1,
                        now,
                        config.maturity,
                    );
                    let required2 = self.allocated_rewards2 + commitment(
                        amount,
                        ratio2,
                        now,
                        config.maturity,
                    );
                    if now >= config.maturity || now < pool.start_time {
                        Err(FarmError::PoolNotActive)
                    } else if !yields_fit(before, ratio1, ratio2, now, config.maturity)
                        || !commitment_fits(amount, ratio1, now, config.maturity)
                        || !commitment_fits(amount, ratio2, now, config.maturity) || !fits_i128(
                        required1,
                    ) || !fits_i128(required2) {
                        Err(FarmError::ArithmeticError)
                    } else if !rewards_suffice(config, required1, required2, available1, available2) {
                        Err(FarmError::InsufficientRewards)
                    } else {
                        match accrued_position(before, ratio1, ratio2, now, config.maturity) {
                            None => Err(FarmError::ArithmeticError),
                            Some(accrued) => {
                                if !fits_i128(accrued.deposited + amount) {
                                    Err(FarmError::ArithmeticError)
                                } else {
                                    Ok(
                                        FarmView {
                                            allocated_rewards1: required1 as i128,
                                            allocated_rewards2: required2 as i128,
                                            positions: upsert(
                                                self.positions,
                                                user,
                                                pool_id,
                                                UserData {
                                                    deposited: (accrued.deposited + amount) as i128,
                                                    deposit_time: now,
                                                    ..accrued
                                                },
                                            ),
                                            ..self
                                        },
                                    )
                                }
                            },
                        }
                    }
                },
            }
        }
    }

    /// What `withdraw` does. The position is brought up to `now`; all its
    /// rewards are paid and `amount` of its principal is returned. What was
    /// paid leaves the promised rewards, and before maturity so does what
    /// `amount` would still have earned. The position is anchored anew and
    /// is dropped once it is empty.
    pub open spec fn withdraw(self, user: Address, amount: i128, pool_id: u32, now: u64) -> Result<
        (FarmView, Withdrawal),
        FarmError,
    > {
        if amount < 0 {
            Err(FarmError::InvalidAmount)
        } else if pool_id >= self.pools.len() {
            Err(FarmError::PoolNotFound)
        } else {
            match (self.config, lookup(self.positions, user, pool_id)) {
                (None, _) => Err(FarmError::NotInitialized),
                (Some(_), None) => Err(FarmError::UserNotFound),
                (Some(config), Some(before)) => {
                    let pool = self.pools[pool_id as int];
                    let ratio1 = pool.reward_ratio1;
                    let ratio2 = config.ratio2(pool);
                    let early = now < config.maturity;
                    let refund1 = if early {
                        commitment(amount, ratio1, now, config.maturity)
                    } else {
                        0
                    };
                    let refund2 = if early {
                        commitment(amount, ratio2, now, config.maturity)
                    } else {
                        0
                    };
                    if amount > before.deposited {
                        Err(FarmError::InvalidAmount)
                    } else if now < pool.start_time {
                        Err(FarmError::PoolNotActive)
                    } else {
                        match accrued_position(before, ratio1, ratio2, now, config.maturity) {
                            None => Err(FarmError::ArithmeticError),
                            Some(accrued) => {
                                let paid1 = accrued.accrued_rewards1;
                                let paid2 = accrued.accrued_rewards2;
                                let rest1 = self.allocated_rewards1 - paid1 - refund1;
                                let rest2 = self.allocated_rewards2 - paid2 - refund2;
                                if !fits_i128(self.allocated_rewards1 - paid1) || !fits_i128(
                                    self.allocated_rewards2 - paid2,
                                ) || (early && !(commitment_fits(amount, ratio1, now, config.maturity)
                                    && commitment_fits(amount, ratio2, now, config.maturity)))
                                    || !fits_i128(rest1) || !fits_i128(rest2) {
                                    Err(FarmError::ArithmeticError)
                                } else {
                                    let left = UserData {
                                        deposited: (before.deposited - amount) as i128,
                                        deposit_time: if early {
                                            now
                                        } else {
                                            config.maturity
                                        },
                                        accrued_rewards1: 0,
                                        accrued_rewards2: 0,
                                    };
                                    Ok(
                                        (
                                            FarmView {
                                                allocated_rewards1: rest1 as i128,
                                                allocated_rewards2: rest2 as i128,
                                                positions: if left.deposited > 0 {
                                                    upsert(self.positions, user, pool_id, left)
                                                } else {
                                                    without(self.positions, user, pool_id)
                                                },
                                                ..self
                                            },
                                            Withdrawal { amount, reward1: paid1, reward2: paid2 },
                                        ),
                                    )
                                }
                            },
                        }
                    }
                },
            }
        }
    }

    /// What `get_user_info` reports: the position with its rewards as of
    /// `now`, the state left as it is.
    pub open spec fn user_info(self, user: Address, pool_id: u32, now: u64) -> Result<
        UserData,
        FarmError,
    > {
        match lookup(self.positions, user, pool_id) {
            None => Err(FarmError::UserNotFound),
            Some(data) => {
                if pool_id >= self.pools.len() {
                    Err(FarmError::PoolNotFound)
                } else {
                    match self.config {
                        None => Err(FarmError::NotInitialized),
                        Some(config) => {
                            let pool = self.pools[pool_id as int];
                            match accrued_position(
                                data,
                                pool.reward_ratio1,
                                config.ratio2(pool),
                                now,
                                config.maturity,
                            ) {
                                None => Err(FarmError::ArithmeticError),
                                Some(accrued) => Ok(accrued),
                            }
                        },
                    }
                }
            },
        }
    }

    /// What `withdraw_unallocated_rewards` hands to the administrator after
    /// maturity: of each reward token, what the farm holds beyond what it has
    /// promised. A farm without a second reward token holds none of it.
    pub open spec fn unallocated_rewards(
        self,
        caller: Address,
        now: u64,
        available1: i128,
        available2: i128,
    ) -> Result<(i128, i128), FarmError> {
        match self.config {
            None => Err(FarmError::NotInitialized),
            Some(config) => {
                let held2 = if config.has_track2() {
                    available2
                } else {
                    0
                };
                let free1 = available1 - self.allocated_rewards1;
                let free2 = held2 - self.allocated_rewards2;
                if caller != config.admin || now < config.maturity {
                    Err(FarmError::NotAuthorized)
                } else if !fits_i128(free1) || !fits_i128(free2) {
                    Err(FarmError::ArithmeticError)
                } else {
                    Ok(
                        (
                            if free1 > 0 {
                                free1 as i128
                            } else {
                                0
                            },
                            if free2 > 0 {
                                free2 as i128
                            } else {
                                0
                            },
                        ),
                    )
                }
            },
        }
    }

    /// What `set_admin` does: the administrator names a successor.
    pub open spec fn set_admin(self, caller: Address, new_admin: Address) -> Result<
        FarmView,
        FarmError,
    > {
        match self.config {
            None => Err(FarmError::NotInitialized),
            Some(config) => {
                if caller != config.admin {
                    Err(FarmError::NotAuthorized)
                } else {
                    Ok(FarmView { config: Some(FarmConfig { admin: new_admin, ..config }), ..self })
                }
            },
        }
    }

    /// What `set_contract_stopped` does: the administrator stops or reopens
    /// the taking of deposits.
    pub open spec fn set_stopped(self, caller: Address, stopped: bool) -> Result<
        FarmView,
        FarmError,
    > {
        match self.config {
            None => Err(FarmError::NotInitialized),
            Some(config) => {
                if caller != config.admin {
                    Err(FarmError::NotAuthorized)
                } else {
                    Ok(FarmView { stopped, ..self })
                }
            },
        }
    }
}

} // verus!
