//! The farm's entry points.
//!
//! Each one is held to the function of the same purpose in the model: on
//! success the state becomes what the model says, on failure it stays as it
//! was and the model's error is returned.

use vstd::prelude::*;
use crate::address::Address;
use crate::fixed::{accrued_reward, elapsed_since};
use crate::farm::wellformed::{
    lemma_create_pool_keeps_wf,
    lemma_deposit_keeps_wf,
    lemma_first_match_is_index,
    lemma_initialize_keeps_wf,
    lemma_no_match_no_position,
    lemma_set_admin_keeps_wf,
    lemma_set_stopped_keeps_wf,
    lemma_withdraw_keeps_wf,
};
use crate::farm::model::{
    accrued_position,
    commitment,
    commitment_fits,
    fresh_yield,
    holds_key,
    is_first_match,
    lookup,
    rewards_suffice,
    yields_fit,
};
use crate::farm::types::{
    check_nonnegative_amount,
    check_nonzero_amount,
    Farm,
    FarmConfig,
    FarmError,
    FarmView,
    Pool,
    Position,
    UserData,
    Withdrawal,
};

verus! {

/// Finds the place of the position of `user` in the pool `pool_id`.
pub fn find_position(positions: &Vec<Position>, user: Address, pool_id: u32) -> (found: Option<
    usize,
>)
    ensures
        match found {
            Some(i) => is_first_match(positions@, user, pool_id, i as int),
            None => forall|j: int|
                0 <= j < positions@.len() ==> !holds_key(#[trigger] positions@[j], user, pool_id),
        },
        found is Some <==> lookup(positions@, user, pool_id) is Some,
        found matches Some(i) ==> lookup(positions@, user, pool_id) == Some(positions@[i as int].data),
{
    let mut i: usize = 0;
    while i < positions.len()
        invariant
            i <= positions@.len(),
            forall|j: int| 0 <= j < i ==> !holds_key(#[trigger] positions@[j], user, pool_id),
        decreases positions@.len() - i,
    {
        let p = positions[i];
        if p.user.same_as(&user) && p.pool_id == pool_id {
            proof {
                lemma_first_match_is_index(positions@, user, pool_id, i as int);
            }
            return Some(i);
        }
        i = i + 1;
    }
    proof {
        lemma_no_match_no_position(positions@, user, pool_id);
    }
    None
}

/// Computes what `data` has earned in its running window on both tracks.
/// Returns `None` exactly when the window or one of the products cannot be
/// computed.
pub fn fresh_yields(data: &UserData, ratio1: i128, ratio2: i128, now: u64, maturity: u64) -> (r:
    Option<(i128, i128)>)
    ensures
        yields_fit(*data, ratio1, ratio2, now, maturity) <==> r is Some,
        r matches Some((yield1, yield2)) ==> yield1 == fresh_yield(*data, ratio1, now, maturity)
            && yield2 == fresh_yield(*data, ratio2, now, maturity),
{
    let elapsed = match elapsed_since(now, data.deposit_time, maturity) {
        None => { return None; },
        Some(elapsed) => elapsed,
    };
    let yield1 = match accrued_reward(data.deposited, ratio1, elapsed) {
        None => { return None; },
        Some(earned) => earned,
    };
    let yield2 = match accrued_reward(data.deposited, ratio2, elapsed) {
        None => { return None; },
        Some(earned) => earned,
    };
    Some((yield1, yield2))
}

/// Brings a position up to `now`: what it has earned since its window began,
/// and no later than `maturity`, is added to its accrued rewards. Its deposit
/// and its anchor stay. Returns `None` exactly when that cannot be computed
/// or held.
pub fn accrue(data: &UserData, ratio1: i128, ratio2: i128, now: u64, maturity: u64) -> (r: Option<
    UserData,
>)
    ensures
        r == accrued_position(*data, ratio1, ratio2, now, maturity),
{
    let (yield1, yield2) = match fresh_yields(data, ratio1, ratio2, now, maturity) {
        None => { return None; },
        Some(yields) => yields,
    };
    let total1 = match data.accrued_rewards1.checked_add(yield1) {
        None => { return None; },
        Some(total) => total,
    };
    let total2 = match data.accrued_rewards2.checked_add(yield2) {
        None => { return None; },
        Some(total) => total,
    };
    Some(
        UserData {
            deposited: data.deposited,
            deposit_time: data.deposit_time,
            accrued_rewards1: total1,
            accrued_rewards2: total2,
        },
    )
}

/// Computes what `amount` will earn from `now` to `maturity`. Returns `None`
/// exactly when maturity is past or one of the products does not fit.
pub fn commitment_of(amount: i128, ratio: i128, now: u64, maturity: u64) -> (r: Option<i128>)
    ensures
        commitment_fits(amount, ratio, now, maturity) <==> r is Some,
        r matches Some(v) ==> v == commitment(amount, ratio, now, maturity),
{
    if now > maturity {
        return None;
    }
    accrued_reward(amount, ratio, maturity - now)
}

impl Farm {
    /// A farm that has not been initialized.
    pub fn new() -> (farm: Farm)
        ensures
            farm@ == FarmView::empty(),
            farm@.wf(),
    {
        let farm = Farm {
            config: None,
            stopped: false,
            allocated_rewards1: 0,
            allocated_rewards2: 0,
            pools: Vec::new(),
            positions: Vec::new(),
        };
        assert(farm@.pools =~= Seq::<Pool>::empty());
        assert(farm@.positions =~= Seq::<Position>::empty());
        farm
    }

    /// Sets the farm up, once. Returns the word `Ok`.
    pub fn initialize(
        &mut self,
        admin: Address,
        rewarded_token1: Address,
        rewarded_token2: Option<Address>,
        pool_token: Address,
        maturity: u64,
        max_reward_ratio1: i128,
        max_reward_ratio2: Option<i128>,
    ) -> (r: Result<String, FarmError>)
        ensures
            match old(self)@.initialize(
                FarmConfig {
                    admin,
                    reward_token1: rewarded_token1,
                    reward_token2: rewarded_token2,
                    pool_token,
                    maturity,
                    max_reward_ratio1,
                    max_reward_ratio2,
                },
            ) {
                Ok(next) => r matches Ok(done) && done@ == "Ok"@ && final(self)@ == next,
                Err(e) => r == Err::<String, FarmError>(e) && *final(self) == *old(self),
            },
            old(self).config is Some ==> r == Err::<String, FarmError>(
                FarmError::AlreadyInitialized,
            ),
            old(self)@.wf() ==> final(self)@.wf(),
    {
        if self.config.is_some() {
            return Err(FarmError::AlreadyInitialized);
        }
        if rewarded_token1.same_as(&pool_token) {
            return Err(FarmError::TokenConflict);
        }
        match rewarded_token2 {
            Some(token2) => {
                if token2.same_as(&pool_token) {
                    return Err(FarmError::TokenConflict);
                }
                if token2.same_as(&rewarded_token1) {
                    return Err(FarmError::SameRewardTokens);
                }
            },
            None => {},
        }
        let config = FarmConfig {
            admin,
            reward_token1: rewarded_token1,
            reward_token2: rewarded_token2,
            pool_token,
            maturity,
            max_reward_ratio1,
            max_reward_ratio2,
        };
        self.config = Some(config);
        self.allocated_rewards1 = 0;
        self.allocated_rewards2 = 0;
        self.pools = Vec::new();
        proof {
            let next = old(self)@.initialize(config)->Ok_0;
            assert(self@.pools =~= next.pools);
            assert(self@ == next);
            if old(self)@.wf() {
                lemma_initialize_keeps_wf(old(self)@, config);
            }
        }
        Ok("Ok".to_string())
    }

    /// Adds a pool. Returns its id.
    pub fn create_pool(
        &mut self,
        caller: Address,
        start_time: u64,
        reward_ratio1: i128,
        reward_ratio2: Option<i128>,
    ) -> (r: Result<u32, FarmError>)
        ensures
            match old(self)@.create_pool(caller, start_time, reward_ratio1, reward_ratio2) {
                Ok((next, id)) => r == Ok::<u32, FarmError>(id) && final(self)@ == next,
                Err(e) => r == Err::<u32, FarmError>(e) && *final(self) == *old(self),
            },
            old(self)@.wf() ==> final(self)@.wf(),
    {
        let config = match self.config {
            None => { return Err(FarmError::NotInitialized); },
            Some(config) => config,
        };
        if !caller.same_as(&config.admin) {
            return Err(FarmError::NotAuthorized);
        }
        if reward_ratio1 > config.max_reward_ratio1 {
            return Err(FarmError::InvalidAmount);
        }
        let ratio2: i128 = match reward_ratio2 {
            Some(ratio) => match config.max_reward_ratio2 {
                Some(cap) => {
                    if ratio > cap {
                        return Err(FarmError::InvalidAmount);
                    }
                    ratio
                },
                None => { return Err(FarmError::InvalidAmount); },
            },
            None => {
                if config.max_reward_ratio2.is_some() {
                    return Err(FarmError::InvalidAmount);
                }
                0
            },
        };
        if self.pools.len() >= u32::MAX as usize {
            return Err(FarmError::ArithmeticError);
        }
        let id = self.pools.len() as u32;
        self.pools.push(Pool { start_time, reward_ratio1, reward_ratio2: ratio2 });
        proof {
            let next = old(self)@.create_pool(caller, start_time, reward_ratio1, reward_ratio2)->Ok_0.0;
            assert(self@.pools =~= next.pools);
            assert(self@ == next);
            if old(self)@.wf() {
                lemma_create_pool_keeps_wf(
                    old(self)@,
                    caller,
                    start_time,
                    reward_ratio1,
                    reward_ratio2,
                );
            }
        }
        Ok(id)
    }

    /// Takes a deposit of `amount` into the pool `pool_id` at `now`, given
    /// what the farm holds of each reward token. Returns the amount to pull
    /// from the depositor.
    pub fn deposit(
        &mut self,
        depositor: Address,
        amount: i128,
        pool_id: u32,
        now: u64,
        available1: i128,
        available2: i128,
    ) -> (r: Result<i128, FarmError>)
        ensures
            match old(self)@.deposit(depositor, amount, pool_id, now, available1, available2) {
                Ok(next) => r == Ok::<i128, FarmError>(amount) && final(self)@ == next,
                Err(e) => r == Err::<i128, FarmError>(e) && *final(self) == *old(self),
            },
            old(self)@.wf() ==> final(self)@.wf(),
    {
        if self.stopped {
            return Err(FarmError::ContractStopped);
        }
        check_nonnegative_amount(amount)?;
        check_nonzero_amount(amount)?;
        if pool_id as usize >= self.pools.len() {
            return Err(FarmError::PoolNotFound);
        }
        let pool = self.pools[pool_id as usize];
        let config = match self.config {
            None => { return Err(FarmError::NotInitialized); },
            Some(config) => config,
        };
        if now >= config.maturity || now < pool.start_time {
            return Err(FarmError::PoolNotActive);
        }
        let ratio1 = pool.reward_ratio1;
        let ratio2: i128 = if config.reward_token2.is_some() {
            pool.reward_ratio2
        } else {
            0
        };
        let found = find_position(&self.positions, depositor, pool_id);
        let before = match found {
            Some(i) => self.positions[i].data,
            None => UserData {
                deposited: 0,
                deposit_time: now,
                accrued_rewards1: 0,
                accrued_rewards2: 0,
            },
        };
        if fresh_yields(&before, ratio1, ratio2, now, config.maturity).is_none() {
            return Err(FarmError::ArithmeticError);
        }
        let potential1 = match commitment_of(amount, ratio1, now, config.maturity) {
            None => { return Err(FarmError::ArithmeticError); },
            Some(potential) => potential,
        };
        let potential2 = match commitment_of(amount, ratio2, now, config.maturity) {
            None => { return Err(FarmError::ArithmeticError); },
            Some(potential) => potential,
        };
        let required1 = match self.allocated_rewards1.checked_add(potential1) {
            None => { return Err(FarmError::ArithmeticError); },
            Some(required) => required,
        };
        let required2 = match self.allocated_rewards2.checked_add(potential2) {
            None => { return Err(FarmError::ArithmeticError); },
            Some(required) => required,
        };
        if !has_sufficient_rewards(&config, required1, required2, available1, available2) {
            return Err(FarmError::InsufficientRewards);
        }
        let accrued = match accrue(&before, ratio1, ratio2, now, config.maturity) {
            None => { return Err(FarmError::ArithmeticError); },
            Some(accrued) => accrued,
        };
        let deposited = match accrued.deposited.checked_add(amount) {
            None => { return Err(FarmError::ArithmeticError); },
            Some(deposited) => deposited,
        };
        let entry = Position {
            user: depositor,
            pool_id,
            data: UserData {
                deposited,
                deposit_time: now,
                accrued_rewards1: accrued.accrued_rewards1,
                accrued_rewards2: accrued.accrued_rewards2,
            },
        };
        self.allocated_rewards1 = required1;
        self.allocated_rewards2 = required2;
        match found {
            Some(i) => {
                self.positions.set(i, entry);
            },
            None => {
                self.positions.push(entry);
            },
        }
        proof {
            let next = old(self)@.deposit(
                depositor,
                amount,
                pool_id,
                now,
                available1,
                available2,
            )->Ok_0;
            assert(self@.positions =~= next.positions);
            assert(self@.pools =~= next.pools);
            assert(self@ == next);
            if old(self)@.wf() {
                lemma_deposit_keeps_wf(
                    old(self)@,
                    depositor,
                    amount,
                    pool_id,
                    now,
                    available1,
                    available2,
                );
            }
        }
        Ok(amount)
    }

    /// Withdraws `amount` from the position of `withdrawer` in the pool
    /// `pool_id` at `now`. Returns what to hand out: the principal and the
    /// rewards of both tracks.
    pub fn withdraw(&mut self, withdrawer: Address, amount: i128, pool_id: u32, now: u64) -> (r:
        Result<Withdrawal, FarmError>)
        ensures
            match old(self)@.withdraw(withdrawer, amount, pool_id, now) {
                Ok((next, paid)) => r == Ok::<Withdrawal, FarmError>(paid) && final(self)@ == next,
                Err(e) => r == Err::<Withdrawal, FarmError>(e) && *final(self) == *old(self),
            },
            old(self)@.wf() ==> final(self)@.wf(),
    {
        check_nonnegative_amount(amount)?;
        if pool_id as usize >= self.pools.len() {
            return Err(FarmError::PoolNotFound);
        }
        let pool = self.pools[pool_id as usize];
        let config = match self.config {
            None => { return Err(FarmError::NotInitialized); },
            Some(config) => config,
        };
        let place = match find_position(&self.positions, withdrawer, pool_id) {
            None => { return Err(FarmError::UserNotFound); },
            Some(place) => place,
        };
        let before = self.positions[place].data;
        if amount > before.deposited {
            return Err(FarmError::InvalidAmount);
        }
        if now < pool.start_time {
            return Err(FarmError::PoolNotActive);
        }
        let ratio1 = pool.reward_ratio1;
        let ratio2: i128 = if config.reward_token2.is_some() {
            pool.reward_ratio2
        } else {
            0
        };
        let accrued = match accrue(&before, ratio1, ratio2, now, config.maturity) {
            None => { return Err(FarmError::ArithmeticError); },
            Some(accrued) => accrued,
        };
        let paid1 = accrued.accrued_rewards1;
        let paid2 = accrued.accrued_rewards2;
        let mut rest1 = match self.allocated_rewards1.checked_sub(paid1) {
            None => { return Err(FarmError::ArithmeticError); },
            Some(rest) => rest,
        };
        let mut rest2 = match self.allocated_rewards2.checked_sub(paid2) {
            None => { return Err(FarmError::ArithmeticError); },
            Some(rest) => rest,
        };
        let early = now < config.maturity;
        if early {
            let refund1 = match commitment_of(amount, ratio1, now, config.maturity) {
                None => { return Err(FarmError::ArithmeticError); },
                Some(refund) => refund,
            };
            let refund2 = match commitment_of(amount, ratio2, now, config.maturity) {
                None => { return Err(FarmError::ArithmeticError); },
                Some(refund) => refund,
            };
            rest1 = match rest1.checked_sub(refund1) {
                None => { return Err(FarmError::ArithmeticError); },
                Some(rest) => rest,
            };
            rest2 = match rest2.checked_sub(refund2) {
                None => { return Err(FarmError::ArithmeticError); },
                Some(rest) => rest,
            };
        }
        let left = UserData {
            deposited: before.deposited - amount,
            deposit_time: if early {
                now
            } else {
                config.maturity
            },
            accrued_rewards1: 0,
            accrued_rewards2: 0,
        };
        self.allocated_rewards1 = rest1;
        self.allocated_rewards2 = rest2;
        if left.deposited > 0 {
            self.positions.set(place, Position { user: withdrawer, pool_id, data: left });
        } else {
            self.positions.remove(place);
        }
        proof {
            let next = old(self)@.withdraw(withdrawer, amount, pool_id, now)->Ok_0.0;
            assert(self@.positions =~= next.positions);
            assert(self@.pools =~= next.pools);
            assert(self@ == next);
            if old(self)@.wf() {
                lemma_withdraw_keeps_wf(old(self)@, withdrawer, amount, pool_id, now);
            }
        }
        Ok(Withdrawal { amount, reward1: paid1, reward2: paid2 })
    }

    /// Names a new administrator. Returns the word `Ok`.
    pub fn set_admin(&mut self, caller: Address, new_admin: Address) -> (r: Result<
        String,
        FarmError,
    >)
        ensures
            match old(self)@.set_admin(caller, new_admin) {
                Ok(next) => r matches Ok(done) && done@ == "Ok"@ && final(self)@ == next,
                Err(e) => r == Err::<String, FarmError>(e) && *final(self) == *old(self),
            },
            old(self)@.wf() ==> final(self)@.wf(),
    {
        let config = match self.config {
            None => { return Err(FarmError::NotInitialized); },
            Some(config) => config,
        };
        if !caller.same_as(&config.admin) {
            return Err(FarmError::NotAuthorized);
        }
        self.config = Some(
            FarmConfig {
                admin: new_admin,
                reward_token1: config.reward_token1,
                reward_token2: config.reward_token2,
                pool_token: config.pool_token,
                maturity: config.maturity,
                max_reward_ratio1: config.max_reward_ratio1,
                max_reward_ratio2: config.max_reward_ratio2,
            },
        );
        proof {
            if old(self)@.wf() {
                lemma_set_admin_keeps_wf(old(self)@, caller, new_admin);
            }
        }
        Ok("Ok".to_string())
    }

    /// Hands to the administrator, after maturity, what the farm holds of
    /// each reward token beyond what it has promised. Returns the two
    /// amounts to send; the state stays as it is.
    pub fn withdraw_unallocated_rewards(
        &self,
        caller: Address,
        now: u64,
        available1: i128,
        available2: i128,
    ) -> (r: Result<(i128, i128), FarmError>)
        ensures
            r == self@.unallocated_rewards(caller, now, available1, available2),
    {
        let config = match self.config {
            None => { return Err(FarmError::NotInitialized); },
            Some(config) => config,
        };
        if !caller.same_as(&config.admin) || now < config.maturity {
            return Err(FarmError::NotAuthorized);
        }
        let held2: i128 = if config.reward_token2.is_some() {
            available2
        } else {
            0
        };
        let free1 = match available1.checked_sub(self.allocated_rewards1) {
            None => { return Err(FarmError::ArithmeticError); },
            Some(free) => free,
        };
        let free2 = match held2.checked_sub(self.allocated_rewards2) {
            None => { return Err(FarmError::ArithmeticError); },
            Some(free) => free,
        };
        Ok((if free1 > 0 {
            free1
        } else {
            0
        }, if free2 > 0 {
            free2
        } else {
            0
        }))
    }

    /// Stops or reopens the taking of deposits. Withdrawals stay open.
    /// Returns the words `Contract stopped`, whichever way the switch went.
    pub fn set_contract_stopped(&mut self, caller: Address, stopped: bool) -> (r: Result<
        String,
        FarmError,
    >)
        ensures
            match old(self)@.set_stopped(caller, stopped) {
                Ok(next) => r matches Ok(done) && done@ == "Contract stopped"@ && final(self)@
                    == next,
                Err(e) => r == Err::<String, FarmError>(e) && *final(self) == *old(self),
            },
            old(self)@.wf() ==> final(self)@.wf(),
    {
        let config = match self.config {
            None => { return Err(FarmError::NotInitialized); },
            Some(config) => config,
        };
        if !caller.same_as(&config.admin) {
            return Err(FarmError::NotAuthorized);
        }
        self.stopped = stopped;
        proof {
            if old(self)@.wf() {
                lemma_set_stopped_keeps_wf(old(self)@, caller, stopped);
            }
        }
        Ok("Contract stopped".to_string())
    }

    /// The number of pools created so far, which is the id of the next one.
    pub fn get_current_pool_counter(&self) -> (r: Result<u32, FarmError>)
        ensures
            self@.pools.len() <= u32::MAX ==> r == Ok::<u32, FarmError>(self@.pools.len() as u32),
            self@.pools.len() > u32::MAX ==> r == Err::<u32, FarmError>(
                FarmError::ArithmeticError,
            ),
    {
        if self.pools.len() > u32::MAX as usize {
            return Err(FarmError::ArithmeticError);
        }
        Ok(self.pools.len() as u32)
    }

    /// When accrual stops.
    pub fn get_maturity_date(&self) -> (r: Result<u64, FarmError>)
        ensures
            match self.config {
                Some(config) => r == Ok::<u64, FarmError>(config.maturity),
                None => r == Err::<u64, FarmError>(FarmError::NotInitialized),
            },
    {
        match self.config {
            Some(config) => Ok(config.maturity),
            None => Err(FarmError::NotInitialized),
        }
    }

    /// The rewards of both tokens that are promised and not yet paid.
    pub fn get_global_allocated_rewards(&self) -> (r: Result<(i128, i128), FarmError>)
        ensures
            r == Ok::<(i128, i128), FarmError>((self.allocated_rewards1, self.allocated_rewards2)),
    {
        Ok((self.allocated_rewards1, self.allocated_rewards2))
    }

    /// The administrator.
    pub fn get_admin_address(&self) -> (r: Result<Address, FarmError>)
        ensures
            match self.config {
                Some(config) => r == Ok::<Address, FarmError>(config.admin),
                None => r == Err::<Address, FarmError>(FarmError::NotInitialized),
            },
    {
        match self.config {
            Some(config) => Ok(config.admin),
            None => Err(FarmError::NotInitialized),
        }
    }

    /// The pool with the given id.
    pub fn get_pool_info(&self, pool_id: u32) -> (r: Result<Pool, FarmError>)
        ensures
            pool_id < self@.pools.len() ==> r == Ok::<Pool, FarmError>(self@.pools[pool_id as int]),
            pool_id >= self@.pools.len() ==> r == Err::<Pool, FarmError>(FarmError::PoolNotFound),
    {
        if pool_id as usize >= self.pools.len() {
            return Err(FarmError::PoolNotFound);
        }
        Ok(self.pools[pool_id as usize])
    }

    /// What `user` holds in the pool `pool_id`, with the rewards as of `now`.
    pub fn get_user_info(&self, user: Address, pool_id: u32, now: u64) -> (r: Result<
        UserData,
        FarmError,
    >)
        ensures
            r == self@.user_info(user, pool_id, now),
    {
        let data = match find_position(&self.positions, user, pool_id) {
            None => { return Err(FarmError::UserNotFound); },
            Some(place) => self.positions[place].data,
        };
        if pool_id as usize >= self.pools.len() {
            return Err(FarmError::PoolNotFound);
        }
        let pool = self.pools[pool_id as usize];
        let config = match self.config {
            None => { return Err(FarmError::NotInitialized); },
            Some(config) => config,
        };
        let ratio2: i128 = if config.reward_token2.is_some() {
            pool.reward_ratio2
        } else {
            0
        };
        match accrue(&data, pool.reward_ratio1, ratio2, now, config.maturity) {
            None => Err(FarmError::ArithmeticError),
            Some(accrued) => Ok(accrued),
        }
    }

    /// The reward tokens: the first, and the second where the farm has one.
    pub fn get_reward_token_addresses(&self) -> (r: Result<(Address, Option<Address>), FarmError>)
        ensures
            match self.config {
                Some(config) => r == Ok::<(Address, Option<Address>), FarmError>(
                    (config.reward_token1, config.reward_token2),
                ),
                None => r == Err::<(Address, Option<Address>), FarmError>(
                    FarmError::NotInitialized,
                ),
            },
    {
        match self.config {
            Some(config) => Ok((config.reward_token1, config.reward_token2)),
            None => Err(FarmError::NotInitialized),
        }
    }
}

/// Tells whether the farm holds enough of each reward token for what it
/// would have promised. Without a second reward token nothing may be
/// promised of it.
pub fn has_sufficient_rewards(
    config: &FarmConfig,
    required1: i128,
    required2: i128,
    available1: i128,
    available2: i128,
) -> (enough: bool)
    ensures
        enough == rewards_suffice(*config, required1 as int, required2 as int, available1, available2),
{
    if config.reward_token2.is_some() {
        available1 >= required1 && available2 >= required2
    } else {
        available1 >= required1 && required2 == 0
    }
}

} // verus!
