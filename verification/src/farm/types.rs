//! The records of the farm and the reasons for which it turns a call down.

use vstd::prelude::*;
use crate::address::Address;

verus! {

/// The slots under which a deployed farm keeps its state.
#[derive(Clone, Copy, Debug, PartialEq, Eq, Structural)]
pub enum DataKey {
    Admin,
    RewardedToken1,
    RewardedToken2,
    AllocatedRewards1,
    AllocatedRewards2,
    PoolCounter,
    Maturity,
    Initialized,
    PoolData,
    UserData,
    PoolToken,
    Stopped,
    MaxRewardRatio1,
    MaxRewardRatio2,
}

impl DataKey {
    /// The number of the slot, counted from zero in the order of declaration.
    pub open spec fn spec_index(self) -> u32 {
        match self {
            DataKey::Admin => 0,
            DataKey::RewardedToken1 => 1,
            DataKey::RewardedToken2 => 2,
            DataKey::AllocatedRewards1 => 3,
            DataKey::AllocatedRewards2 => 4,
            DataKey::PoolCounter => 5,
            DataKey::Maturity => 6,
            DataKey::Initialized => 7,
            DataKey::PoolData => 8,
            DataKey::UserData => 9,
            DataKey::PoolToken => 10,
            DataKey::Stopped => 11,
            DataKey::MaxRewardRatio1 => 12,
            DataKey::MaxRewardRatio2 => 13,
        }
    }

    /// Returns the number of the slot.
    #[verifier::when_used_as_spec(spec_index)]
    pub fn index(self) -> (i: u32)
        ensures
            i == self.spec_index(),
    {
        match self {
            DataKey::Admin => 0,
            DataKey::RewardedToken1 => 1,
            DataKey::RewardedToken2 => 2,
            DataKey::AllocatedRewards1 => 3,
            DataKey::AllocatedRewards2 => 4,
            DataKey::PoolCounter => 5,
            DataKey::Maturity => 6,
            DataKey::Initialized => 7,
            DataKey::PoolData => 8,
            DataKey::UserData => 9,
            DataKey::PoolToken => 10,
            DataKey::Stopped => 11,
            DataKey::MaxRewardRatio1 => 12,
            DataKey::MaxRewardRatio2 => 13,
        }
    }
}

/// Why the farm turned a call down.
#[derive(Clone, Copy, Debug, PartialEq, Eq, PartialOrd, Ord, Structural)]
pub enum FarmError {
    InvalidAmount,
    NotInitialized,
    NotAuthorized,
    PoolNotActive,
    WithdrawError,
    InsufficientRewards,
    PoolNotFound,
    UserNotFound,
    SameRewardTokens,
    TokenConflict,
    AlreadyInitialized,
    ContractStopped,
    /// An intermediate value is outside the range of its type.
    ArithmeticError,
}

impl FarmError {
    /// The number under which the error is reported, counted from one in the
    /// order of declaration.
    pub open spec fn spec_code(self) -> u32 {
        match self {
            FarmError::InvalidAmount => 1,
            FarmError::NotInitialized => 2,
            FarmError::NotAuthorized => 3,
            FarmError::PoolNotActive => 4,
            FarmError::WithdrawError => 5,
            FarmError::InsufficientRewards => 6,
            FarmError::PoolNotFound => 7,
            FarmError::UserNotFound => 8,
            FarmError::SameRewardTokens => 9,
            FarmError::TokenConflict => 10,
            FarmError::AlreadyInitialized => 11,
            FarmError::ContractStopped => 12,
            FarmError::ArithmeticError => 13,
        }
    }

    /// Returns the number under which the error is reported.
    #[verifier::when_used_as_spec(spec_code)]
    pub fn code(self) -> (c: u32)
        ensures
            c == self.spec_code(),
    {
        match self {
            FarmError::InvalidAmount => 1,
            FarmError::NotInitialized => 2,
            FarmError::NotAuthorized => 3,
            FarmError::PoolNotActive => 4,
            FarmError::WithdrawError => 5,
            FarmError::InsufficientRewards => 6,
            FarmError::PoolNotFound => 7,
            FarmError::UserNotFound => 8,
            FarmError::SameRewardTokens => 9,
            FarmError::TokenConflict => 10,
            FarmError::AlreadyInitialized => 11,
            FarmError::ContractStopped => 12,
            FarmError::ArithmeticError => 13,
        }
    }
}

/// One reward schedule. A pool never changes once it is created.
#[derive(Clone, Copy, Debug, PartialEq, Eq)]
pub struct Pool {
    /// The first moment at which the pool takes deposits.
    pub start_time: u64,
    /// Reward of the first token per deposited unit and second, scaled.
    pub reward_ratio1: i128,
    /// Reward of the second token per deposited unit and second, scaled; zero
    /// where the farm has no second reward track.
    pub reward_ratio2: i128,
}

/// What one user holds in one pool.
#[derive(Clone, Copy, Debug, PartialEq, Eq)]
pub struct UserData {
    pub deposited: i128,
    /// The start of the running accrual window: the time of the last deposit
    /// or withdrawal, not that of the first deposit.
    pub deposit_time: u64,
    /// Rewards earned before the running window and not yet paid.
    pub accrued_rewards1: i128,
    pub accrued_rewards2: i128,
}

/// A user's holding together with the key under which it is kept.
#[derive(Clone, Copy, Debug, PartialEq, Eq)]
pub struct Position {
    pub user: Address,
    pub pool_id: u32,
    pub data: UserData,
}

/// What is fixed when the farm is initialized; only the administrator changes.
#[derive(Clone, Copy, Debug, PartialEq, Eq)]
pub struct FarmConfig {
    pub admin: Address,
    pub reward_token1: Address,
    /// The second reward token. Without it nothing accrues on the second track.
    pub reward_token2: Option<Address>,
    /// The asset that every pool takes in.
    pub pool_token: Address,
    /// When accrual stops, for every pool.
    pub maturity: u64,
    /// The cap on the first ratio of a new pool.
    pub max_reward_ratio1: i128,
    /// The cap on the second ratio of a new pool. A new pool has a second
    /// ratio exactly when the farm has this cap.
    pub max_reward_ratio2: Option<i128>,
}

/// What a withdrawal hands out: principal and rewards of both tracks.
#[derive(Clone, Copy, Debug, PartialEq, Eq)]
pub struct Withdrawal {
    pub amount: i128,
    pub reward1: i128,
    pub reward2: i128,
}

/// The whole state of one farm.
#[derive(Debug)]
pub struct Farm {
    /// `None` until the farm is initialized.
    pub config: Option<FarmConfig>,
    /// While set, no deposit is taken.
    pub stopped: bool,
    /// Rewards of the first token promised to depositors and not yet paid.
    pub allocated_rewards1: i128,
    pub allocated_rewards2: i128,
    /// The pools; a pool's id is its place in this list.
    pub pools: Vec<Pool>,
    /// The open positions, at most one for each user and pool.
    pub positions: Vec<Position>,
}

/// The farm as a mathematical value.
pub struct FarmView {
    pub config: Option<FarmConfig>,
    pub stopped: bool,
    pub allocated_rewards1: i128,
    pub allocated_rewards2: i128,
    pub pools: Seq<Pool>,
    pub positions: Seq<Position>,
}

impl View for Farm {
    type V = FarmView;

    open spec fn view(&self) -> FarmView {
        FarmView {
            config: self.config,
            stopped: self.stopped,
            allocated_rewards1: self.allocated_rewards1,
            allocated_rewards2: self.allocated_rewards2,
            pools: self.pools@,
            positions: self.positions@,
        }
    }
}

impl Clone for Farm {
    /// A copy of the farm in the same state.
    fn clone(&self) -> (copy: Farm)
        ensures
            copy@ == self@,
    {
        let mut pools: Vec<Pool> = Vec::new();
        let mut i: usize = 0;
        while i < self.pools.len()
            invariant
                i <= self.pools@.len(),
                pools@ == self.pools@.take(i as int),
            decreases self.pools@.len() - i,
        {
            pools.push(self.pools[i]);
            i = i + 1;
            assert(pools@ =~= self.pools@.take(i as int));
        }
        assert(pools@ =~= self.pools@);
        let mut positions: Vec<Position> = Vec::new();
        let mut j: usize = 0;
        while j < self.positions.len()
            invariant
                j <= self.positions@.len(),
                positions@ == self.positions@.take(j as int),
            decreases self.positions@.len() - j,
        {
            positions.push(self.positions[j]);
            j = j + 1;
            assert(positions@ =~= self.positions@.take(j as int));
        }
        assert(positions@ =~= self.positions@);
        Farm {
            config: self.config,
            stopped: self.stopped,
            allocated_rewards1: self.allocated_rewards1,
            allocated_rewards2: self.allocated_rewards2,
            pools,
            positions,
        }
    }
}

/// The key under which the pool with the given id is stored.
pub fn pool_data_key(pool_id: u32) -> (key: (u32, u32))
    ensures
        key == (DataKey::PoolData.spec_index(), pool_id),
        key.0 == 8,
{
    (DataKey::PoolData.index(), pool_id)
}

/// The key under which a user's position in a pool is stored.
pub fn user_data_key(user: Address, pool_id: u32) -> (key: (Address, u32))
    ensures
        key == (user, pool_id),
{
    (user, pool_id)
}

/// Rejects a negative amount.
pub fn check_nonnegative_amount(amount: i128) -> (r: Result<(), FarmError>)
    ensures
        amount < 0 ==> r == Err::<(), FarmError>(FarmError::InvalidAmount),
        amount >= 0 ==> r == Ok::<(), FarmError>(()),
{
    if amount < 0 {
        Err(FarmError::InvalidAmount)
    } else {
        Ok(())
    }
}

/// Rejects an amount of zero.
pub fn check_nonzero_amount(amount: i128) -> (r: Result<(), FarmError>)
    ensures
        amount == 0 ==> r == Err::<(), FarmError>(FarmError::InvalidAmount),
        amount != 0 ==> r == Ok::<(), FarmError>(()),
{
    if amount == 0 {
        Err(FarmError::InvalidAmount)
    } else {
        Ok(())
    }
}

} // verus!
