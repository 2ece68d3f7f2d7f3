//! The bond vault: deposits against an expiring quote, redeemed pro rata
//! after maturity.
//!
//! The vault walks through four stages. It starts uninitialized, is open for
//! deposits from its start time to its end time, is matured once the end time
//! has passed, and redeems once the total redemption value has been posted.

pub mod custody;
pub mod timing;

use vstd::prelude::*;
use crate::address::Address;
use crate::fixed::{fits_i128, trunc_div};

verus! {

/// The slots under which a deployed vault keeps its state.
#[derive(Clone, Copy, Debug, PartialEq, Eq, Structural)]
pub enum DataKey {
    Token,
    TokenShare,
    Admin,
    StartTime,
    EndTime,
    TotalShares,
    Reserve,
    TotalReserve,
    CurrentQuote,
    QuoteExpiration,
    QuotePeriod,
    Treasury,
}

impl DataKey {
    /// The number of the slot, counted from zero in the order of declaration.
    pub open spec fn spec_index(self) -> u32 {
        match self {
            DataKey::Token => 0,
            DataKey::TokenShare => 1,
            DataKey::Admin => 2,
            DataKey::StartTime => 3,
            DataKey::EndTime => 4,
            DataKey::TotalShares => 5,
            DataKey::Reserve => 6,
            DataKey::TotalReserve => 7,
            DataKey::CurrentQuote => 8,
            DataKey::QuoteExpiration => 9,
            DataKey::QuotePeriod => 10,
            DataKey::Treasury => 11,
        }
    }

    /// Returns the number of the slot.
    #[verifier::when_used_as_spec(spec_index)]
    pub fn index(self) -> (i: u32)
        ensures
            i == self.spec_index(),
    {
        match self {
            DataKey::Token => 0,
            DataKey::TokenShare => 1,
            DataKey::Admin => 2,
            DataKey::StartTime => 3,
            DataKey::EndTime => 4,
            DataKey::TotalShares => 5,
            DataKey::Reserve => 6,
            DataKey::TotalReserve => 7,
            DataKey::CurrentQuote => 8,
            DataKey::QuoteExpiration => 9,
            DataKey::QuotePeriod => 10,
            DataKey::Treasury => 11,
        }
    }
}

/// Why the vault turned a call down.
#[derive(Clone, Copy, Debug, PartialEq, Eq, Structural)]
pub enum VaultError {
    /// The amount is negative, below the minimum deposit, or more shares than exist.
    InvalidAmount,
    /// The vault has not been initialized.
    NotInitialized,
    /// The caller is not the administrator.
    NotAuthorized,
    /// The vault has been initialized before.
    AlreadyInitialized,
    /// A deposit came after the end time.
    MaturityReached,
    /// A deposit came before the start time.
    NotOpenYet,
    /// The end time has not been reached.
    MaturityNotReached,
    /// No live quote is posted.
    QuoteRequired,
    /// A live quote is posted and cannot be replaced.
    QuoteAlreadySet,
    /// The total redemption value has not been posted.
    AvailableRedemptionNotSet,
    /// The total redemption value has been posted before.
    RedemptionAlreadySet,
    /// An intermediate value is outside the range of its type, or a division by zero.
    ArithmeticError,
}

/// What is fixed when the vault is initialized.
#[derive(Clone, Copy, Debug, PartialEq, Eq)]
pub struct VaultConfig {
    /// The underlying asset.
    pub token: Address,
    /// The receipt token that the vault alone mints and burns.
    pub token_share: Address,
    pub admin: Address,
    /// Where deposited principal is swept to.
    pub treasury: Address,
    pub start_time: u64,
    /// The maturity.
    pub end_time: u64,
    /// For how long a posted quote stays live.
    pub quote_period: u64,
    /// The smallest deposit that is accepted.
    pub min_deposit: u128,
}

/// The shares that one unit of the underlying asset buys, with the time up to
/// which that holds.
#[derive(Clone, Copy, Debug, PartialEq, Eq)]
pub struct Quote {
    pub value: i128,
    pub expires_at: u64,
}

impl Quote {
    /// A quote is live while it is non-zero, has an expiry, and the expiry has
    /// not passed.
    pub open spec fn is_live(self, now: u64) -> bool {
        self.value != 0 && self.expires_at != 0 && now <= self.expires_at
    }

    /// What the quote reads as at `now`: its value while live, zero afterwards.
    pub open spec fn read(self, now: u64) -> i128 {
        if self.is_live(now) {
            self.value
        } else {
            0
        }
    }

    /// Reads the quote at `now`.
    pub fn current(&self, now: u64) -> (v: i128)
        ensures
            v == self.read(now),
    {
        if self.value != 0 && self.expires_at != 0 && now <= self.expires_at {
            self.value
        } else {
            0
        }
    }
}

/// The whole state of one vault.
#[derive(Clone, Copy, Debug, PartialEq, Eq)]
pub struct Vault {
    /// `None` until the vault is initialized.
    pub config: Option<VaultConfig>,
    /// All outstanding shares.
    pub total_shares: i128,
    /// Principal deposited so far.
    pub reserve: i128,
    /// The asset value that backs all outstanding shares; zero while not posted.
    pub total_redemption: i128,
    pub quote: Quote,
}

/// The shares that a deposit of `amount` buys at `quote`: their product.
pub open spec fn shares_for(amount: int, quote: int) -> int {
    amount * quote
}

/// The redemption value of one share: the whole redemption value divided by
/// the number of all shares, in whole units, before anything is multiplied.
/// What the division cuts off is paid to nobody.
pub open spec fn redemption_rate(total_redemption: int, total_shares: int) -> int
    recommends
        total_shares > 0,
{
    trunc_div(total_redemption, total_shares)
}

/// The asset paid for `amount` shares: so many times the value of one share.
pub open spec fn payout_for(total_redemption: int, total_shares: int, amount: int) -> int
    recommends
        total_shares > 0,
{
    redemption_rate(total_redemption, total_shares) * amount
}

/// Rejects a negative amount.
pub fn check_nonnegative_amount(amount: i128) -> (r: Result<(), VaultError>)
    ensures
        amount < 0 ==> r == Err::<(), VaultError>(VaultError::InvalidAmount),
        amount >= 0 ==> r == Ok::<(), VaultError>(()),
{
    if amount < 0 {
        Err(VaultError::InvalidAmount)
    } else {
        Ok(())
    }
}

/// Computes the redemption value of one share. Returns `None` exactly when
/// the number of shares is not positive.
pub fn rate_of(total_redemption: i128, total_shares: i128) -> (r: Option<i128>)
    ensures
        total_shares > 0 <==> r is Some,
        r matches Some(v) ==> v == redemption_rate(total_redemption as int, total_shares as int),
{
    if total_shares <= 0 {
        return None;
    }
    Some(total_redemption / total_shares)
}

impl Vault {
    /// The vault holds no negative total, and its quote is not negative.
    pub open spec fn wf(self) -> bool {
        &&& self.total_shares >= 0
        &&& self.reserve >= 0
        &&& self.total_redemption >= 0
        &&& self.quote.value >= 0
        &&& self.config is None ==> self.total_shares == 0 && self.reserve == 0
            && self.total_redemption == 0 && self.quote.value == 0
    }

    /// A vault that has not been initialized.
    pub fn new() -> (v: Vault)
        ensures
            v.config is None,
            v.total_shares == 0,
            v.reserve == 0,
            v.total_redemption == 0,
            v.quote == (Quote { value: 0, expires_at: 0 }),
            v.wf(),
    {
        Vault {
            config: None,
            total_shares: 0,
            reserve: 0,
            total_redemption: 0,
            quote: Quote { value: 0, expires_at: 0 },
        }
    }

    /// What `initialize` does to a vault: it fills in the configuration once.
    pub open spec fn initialize_spec(self, config: VaultConfig) -> Result<Vault, VaultError> {
        if self.config is Some {
            Err(VaultError::AlreadyInitialized)
        } else {
            Ok(
                Vault {
                    config: Some(config),
                    total_shares: 0,
                    reserve: 0,
                    total_redemption: 0,
                    quote: Quote { value: 0, expires_at: 0 },
                },
            )
        }
    }

    /// What `set_quote` does: the administrator posts `value`, which stays
    /// live for the quote period from `now`. A live quote is never replaced.
    pub open spec fn set_quote_spec(self, caller: Address, value: i128, now: u64) -> Result<
        Vault,
        VaultError,
    > {
        match self.config {
            None => Err(VaultError::NotInitialized),
            Some(config) => {
                if caller != config.admin {
                    Err(VaultError::NotAuthorized)
                } else if value < 0 {
                    Err(VaultError::InvalidAmount)
                } else if self.quote.is_live(now) {
                    Err(VaultError::QuoteAlreadySet)
                } else if now + config.quote_period > u64::MAX {
                    Err(VaultError::ArithmeticError)
                } else {
                    Ok(
                        Vault {
                            quote: Quote { value, expires_at: (now + config.quote_period) as u64 },
                            ..self
                        },
                    )
                }
            },
        }
    }

    /// What `deposit` does: between start and end, and against a live quote,
    /// `amount` of the asset buys `amount * quote` shares. The result holds
    /// the next state and the shares to mint.
    pub open spec fn deposit_spec(self, amount: i128, now: u64) -> Result<
        (Vault, i128),
        VaultError,
    > {
        match self.config {
            None => Err(VaultError::NotInitialized),
            Some(config) => {
                let quote = self.quote.read(now);
                let shares = shares_for(amount as int, quote as int);
                if amount < 0 || amount < config.min_deposit {
                    Err(VaultError::InvalidAmount)
                } else if now > config.end_time {
                    Err(VaultError::MaturityReached)
                } else if now < config.start_time {
                    Err(VaultError::NotOpenYet)
                } else if quote == 0 {
                    Err(VaultError::QuoteRequired)
                } else if !fits_i128(shares) || !fits_i128(self.total_shares + shares)
                    || !fits_i128(self.reserve + amount) {
                    Err(VaultError::ArithmeticError)
                } else {
                    Ok(
                        (
                            Vault {
                                total_shares: (self.total_shares + shares) as i128,
                                reserve: (self.reserve + amount) as i128,
                                ..self
                            },
                            shares as i128,
                        ),
                    )
                }
            },
        }
    }

    /// What `withdraw` does: once the redemption value is posted, `amount`
    /// shares are redeemed, each at the whole redemption value divided by
    /// the number of all shares. No more shares are redeemed than exist. The
    /// result holds the next state and the asset to pay out.
    pub open spec fn withdraw_spec(self, amount: i128, now: u64) -> Result<
        (Vault, i128),
        VaultError,
    > {
        match self.config {
            None => Err(VaultError::NotInitialized),
            Some(config) => {
                let payout = payout_for(
                    self.total_redemption as int,
                    self.total_shares as int,
                    amount as int,
                );
                if amount < 0 {
                    Err(VaultError::InvalidAmount)
                } else if now < config.end_time {
                    Err(VaultError::MaturityNotReached)
                } else if self.total_redemption == 0 {
                    Err(VaultError::AvailableRedemptionNotSet)
                } else if amount > self.total_shares {
                    Err(VaultError::InvalidAmount)
                } else if self.total_shares == 0 || !fits_i128(payout) || !fits_i128(
                    self.total_redemption - payout,
                ) {
                    Err(VaultError::ArithmeticError)
                } else {
                    Ok(
                        (
                            Vault {
                                total_shares: (self.total_shares - amount) as i128,
                                total_redemption: (self.total_redemption - payout) as i128,
                                ..self
                            },
                            payout as i128,
                        ),
                    )
                }
            },
        }
    }

    /// What `set_total_redemption` does: after maturity the administrator
    /// posts, once, the asset value that backs all outstanding shares.
    pub open spec fn set_total_redemption_spec(
        self,
        caller: Address,
        amount: i128,
        now: u64,
    ) -> Result<Vault, VaultError> {
        match self.config {
            None => Err(VaultError::NotInitialized),
            Some(config) => {
                if amount < 0 {
                    Err(VaultError::InvalidAmount)
                } else if now < config.end_time {
                    Err(VaultError::MaturityNotReached)
                } else if self.total_redemption != 0 {
                    Err(VaultError::RedemptionAlreadySet)
                } else if caller != config.admin {
                    Err(VaultError::NotAuthorized)
                } else {
                    Ok(Vault { total_redemption: amount, ..self })
                }
            },
        }
    }

    /// What `set_treasury` does: the administrator redirects the principal.
    pub open spec fn set_treasury_spec(self, caller: Address, treasury: Address) -> Result<
        Vault,
        VaultError,
    > {
        match self.config {
            None => Err(VaultError::NotInitialized),
            Some(config) => {
                if caller != config.admin {
                    Err(VaultError::NotAuthorized)
                } else {
                    Ok(Vault { config: Some(VaultConfig { treasury, ..config }), ..self })
                }
            },
        }
    }

    /// What `set_admin` does: the administrator names a successor.
    pub open spec fn set_admin_spec(self, caller: Address, new_admin: Address) -> Result<
        Vault,
        VaultError,
    > {
        match self.config {
            None => Err(VaultError::NotInitialized),
            Some(config) => {
                if caller != config.admin {
                    Err(VaultError::NotAuthorized)
                } else {
                    Ok(Vault { config: Some(VaultConfig { admin: new_admin, ..config }), ..self })
                }
            },
        }
    }

    /// Sets the vault up, once. Every total and the quote start at zero.
    /// Returns the word `Ok`.
    pub fn initialize(
        &mut self,
        token: Address,
        token_share: Address,
        admin: Address,
        start_time: u64,
        end_time: u64,
        quote_period: u64,
        treasury: Address,
        min_deposit: u128,
    ) -> (r: Result<String, VaultError>)
        ensures
            match old(self).initialize_spec(
                VaultConfig {
                    token,
                    token_share,
                    admin,
                    treasury,
                    start_time,
                    end_time,
                    quote_period,
                    min_deposit,
                },
            ) {
                Ok(next) => r matches Ok(done) && done@ == "Ok"@ && *final(self) == next,
                Err(e) => r == Err::<String, VaultError>(e) && *final(self) == *old(self),
            },
            old(self).config is Some ==> r == Err::<String, VaultError>(
                VaultError::AlreadyInitialized,
            ),
            r is Ok ==> final(self).wf(),
    {
        if self.config.is_some() {
            return Err(VaultError::AlreadyInitialized);
        }
        self.config = Some(
            VaultConfig {
                token,
                token_share,
                admin,
                treasury,
                start_time,
                end_time,
                quote_period,
                min_deposit,
            },
        );
        self.total_shares = 0;
        self.reserve = 0;
        self.total_redemption = 0;
        self.quote = Quote { value: 0, expires_at: 0 };
        Ok("Ok".to_string())
    }

    /// Reads the quote at `now`: the posted value while it is live, else zero.
    pub fn quote(&self, now: u64) -> (r: Result<i128, VaultError>)
        ensures
            self.config is None ==> r == Err::<i128, VaultError>(VaultError::NotInitialized),
            self.config is Some ==> r == Ok::<i128, VaultError>(self.quote.read(now)),
    {
        if self.config.is_none() {
            return Err(VaultError::NotInitialized);
        }
        Ok(self.quote.current(now))
    }

    /// Posts a quote. Returns the posted value.
    pub fn set_quote(&mut self, caller: Address, value: i128, now: u64) -> (r: Result<
        i128,
        VaultError,
    >)
        ensures
            match old(self).set_quote_spec(caller, value, now) {
                Ok(next) => r == Ok::<i128, VaultError>(value) && *final(self) == next,
                Err(e) => r == Err::<i128, VaultError>(e) && *final(self) == *old(self),
            },
            old(self).wf() ==> final(self).wf(),
    {
        let config = match self.config {
            None => { return Err(VaultError::NotInitialized); },
            Some(config) => config,
        };
        if !caller.same_as(&config.admin) {
            return Err(VaultError::NotAuthorized);
        }
        check_nonnegative_amount(value)?;
        if self.quote.current(now) != 0 {
            return Err(VaultError::QuoteAlreadySet);
        }
        match now.checked_add(config.quote_period) {
            None => Err(VaultError::ArithmeticError),
            Some(expires_at) => {
                self.quote = Quote { value, expires_at };
                Ok(value)
            },
        }
    }

    /// Takes a deposit of `amount` of the asset at `now`. Returns the shares
    /// to mint for the depositor; the principal goes to the treasury.
    pub fn deposit(&mut self, amount: i128, now: u64) -> (r: Result<i128, VaultError>)
        ensures
            match old(self).deposit_spec(amount, now) {
                Ok((next, shares)) => r == Ok::<i128, VaultError>(shares) && *final(self) == next,
                Err(e) => r == Err::<i128, VaultError>(e) && *final(self) == *old(self),
            },
            old(self).wf() ==> final(self).wf(),
    {
        let config = match self.config {
            None => { return Err(VaultError::NotInitialized); },
            Some(config) => config,
        };
        check_nonnegative_amount(amount)?;
        if (amount as u128) < config.min_deposit {
            return Err(VaultError::InvalidAmount);
        }
        if now > config.end_time {
            return Err(VaultError::MaturityReached);
        }
        if now < config.start_time {
            return Err(VaultError::NotOpenYet);
        }
        let quote = self.quote.current(now);
        if quote == 0 {
            return Err(VaultError::QuoteRequired);
        }
        let shares = match amount.checked_mul(quote) {
            None => { return Err(VaultError::ArithmeticError); },
            Some(shares) => shares,
        };
        let total_shares = match self.total_shares.checked_add(shares) {
            None => { return Err(VaultError::ArithmeticError); },
            Some(total) => total,
        };
        let reserve = match self.reserve.checked_add(amount) {
            None => { return Err(VaultError::ArithmeticError); },
            Some(reserve) => reserve,
        };
        proof {
            if old(self).wf() {
                lemma_shares_not_negative(amount as int, quote as int);
            }
        }
        self.total_shares = total_shares;
        self.reserve = reserve;
        Ok(shares)
    }

    /// Redeems `amount` shares at `now`. Returns the asset to pay out; the
    /// shares are to be burned.
    pub fn withdraw(&mut self, amount: i128, now: u64) -> (r: Result<i128, VaultError>)
        ensures
            match old(self).withdraw_spec(amount, now) {
                Ok((next, payout)) => r == Ok::<i128, VaultError>(payout) && *final(self) == next,
                Err(e) => r == Err::<i128, VaultError>(e) && *final(self) == *old(self),
            },
            old(self).wf() ==> final(self).wf(),
    {
        let config = match self.config {
            None => { return Err(VaultError::NotInitialized); },
            Some(config) => config,
        };
        check_nonnegative_amount(amount)?;
        if now < config.end_time {
            return Err(VaultError::MaturityNotReached);
        }
        if self.total_redemption == 0 {
            return Err(VaultError::AvailableRedemptionNotSet);
        }
        if amount > self.total_shares {
            return Err(VaultError::InvalidAmount);
        }
        let rate = match rate_of(self.total_redemption, self.total_shares) {
            None => { return Err(VaultError::ArithmeticError); },
            Some(rate) => rate,
        };
        let payout = match rate.checked_mul(amount) {
            None => { return Err(VaultError::ArithmeticError); },
            Some(payout) => payout,
        };
        let total_redemption = match self.total_redemption.checked_sub(payout) {
            None => { return Err(VaultError::ArithmeticError); },
            Some(rest) => rest,
        };
        proof {
            if old(self).wf() {
                lemma_payout_bounded(
                    self.total_redemption as int,
                    self.total_shares as int,
                    amount as int,
                );
            }
        }
        self.total_shares = self.total_shares - amount;
        self.total_redemption = total_redemption;
        Ok(payout)
    }

    /// Posts the total redemption value. Returns the posted value, which the
    /// administrator has to bring into the vault's custody.
    pub fn set_total_redemption(&mut self, caller: Address, amount: i128, now: u64) -> (r: Result<
        i128,
        VaultError,
    >)
        ensures
            match old(self).set_total_redemption_spec(caller, amount, now) {
                Ok(next) => r == Ok::<i128, VaultError>(amount) && *final(self) == next,
                Err(e) => r == Err::<i128, VaultError>(e) && *final(self) == *old(self),
            },
            old(self).wf() ==> final(self).wf(),
    {
        let config = match self.config {
            None => { return Err(VaultError::NotInitialized); },
            Some(config) => config,
        };
        check_nonnegative_amount(amount)?;
        if now < config.end_time {
            return Err(VaultError::MaturityNotReached);
        }
        if self.total_redemption != 0 {
            return Err(VaultError::RedemptionAlreadySet);
        }
        if !caller.same_as(&config.admin) {
            return Err(VaultError::NotAuthorized);
        }
        self.total_redemption = amount;
        Ok(amount)
    }

    /// Redirects the principal of later deposits.
    pub fn set_treasury(&mut self, caller: Address, treasury: Address) -> (r: Result<
        (),
        VaultError,
    >)
        ensures
            match old(self).set_treasury_spec(caller, treasury) {
                Ok(next) => r is Ok && *final(self) == next,
                Err(e) => r == Err::<(), VaultError>(e) && *final(self) == *old(self),
            },
            old(self).wf() ==> final(self).wf(),
    {
        let config = match self.config {
            None => { return Err(VaultError::NotInitialized); },
            Some(config) => config,
        };
        if !caller.same_as(&config.admin) {
            return Err(VaultError::NotAuthorized);
        }
        self.config = Some(
            VaultConfig {
                token: config.token,
                token_share: config.token_share,
                admin: config.admin,
                treasury,
                start_time: config.start_time,
                end_time: config.end_time,
                quote_period: config.quote_period,
                min_deposit: config.min_deposit,
            },
        );
        Ok(())
    }

    /// Names a new administrator.
    pub fn set_admin(&mut self, caller: Address, new_admin: Address) -> (r: Result<(), VaultError>)
        ensures
            match old(self).set_admin_spec(caller, new_admin) {
                Ok(next) => r is Ok && *final(self) == next,
                Err(e) => r == Err::<(), VaultError>(e) && *final(self) == *old(self),
            },
            old(self).wf() ==> final(self).wf(),
    {
        let config = match self.config {
            None => { return Err(VaultError::NotInitialized); },
            Some(config) => config,
        };
        if !caller.same_as(&config.admin) {
            return Err(VaultError::NotAuthorized);
        }
        self.config = Some(
            VaultConfig {
                token: config.token,
                token_share: config.token_share,
                admin: new_admin,
                treasury: config.treasury,
                start_time: config.start_time,
                end_time: config.end_time,
                quote_period: config.quote_period,
                min_deposit: config.min_deposit,
            },
        );
        Ok(())
    }

    /// The receipt token.
    pub fn bond_id(&self) -> (r: Result<Address, VaultError>)
        ensures
            match self.config {
                Some(config) => r == Ok::<Address, VaultError>(config.token_share),
                None => r == Err::<Address, VaultError>(VaultError::NotInitialized),
            },
    {
        match self.config {
            Some(config) => Ok(config.token_share),
            None => Err(VaultError::NotInitialized),
        }
    }

    /// The administrator.
    pub fn admin(&self) -> (r: Result<Address, VaultError>)
        ensures
            match self.config {
                Some(config) => r == Ok::<Address, VaultError>(config.admin),
                None => r == Err::<Address, VaultError>(VaultError::NotInitialized),
            },
    {
        match self.config {
            Some(config) => Ok(config.admin),
            None => Err(VaultError::NotInitialized),
        }
    }

    /// Where deposited principal goes.
    pub fn treasury_account(&self) -> (r: Result<Address, VaultError>)
        ensures
            match self.config {
                Some(config) => r == Ok::<Address, VaultError>(config.treasury),
                None => r == Err::<Address, VaultError>(VaultError::NotInitialized),
            },
    {
        match self.config {
            Some(config) => Ok(config.treasury),
            None => Err(VaultError::NotInitialized),
        }
    }

    /// The end time.
    pub fn maturity(&self) -> (r: Result<u64, VaultError>)
        ensures
            match self.config {
                Some(config) => r == Ok::<u64, VaultError>(config.end_time),
                None => r == Err::<u64, VaultError>(VaultError::NotInitialized),
            },
    {
        match self.config {
            Some(config) => Ok(config.end_time),
            None => Err(VaultError::NotInitialized),
        }
    }

    /// The principal deposited so far.
    pub fn reserves(&self) -> (r: i128)
        ensures
            r == self.reserve,
    {
        self.reserve
    }

    /// All outstanding shares.
    pub fn total_bonds(&self) -> (r: i128)
        ensures
            r == self.total_shares,
    {
        self.total_shares
    }

    /// The redemption value that is left; zero while it is not posted.
    pub fn total_redemption(&self) -> (r: i128)
        ensures
            r == self.total_redemption,
    {
        self.total_redemption
    }
}

/// An amount and a quote that are not negative buy no negative number of shares.
pub proof fn lemma_shares_not_negative(amount: int, quote: int)
    requires
        amount >= 0,
        quote >= 0,
    ensures
        shares_for(amount, quote) >= 0,
{
    assert(amount * quote >= 0) by (nonlinear_arith)
        requires
            amount >= 0,
            quote >= 0,
    ;
}

/// Redeeming no more shares than exist pays out no more than the redemption
/// value holds, and nothing negative.
pub proof fn lemma_payout_bounded(total_redemption: int, total_shares: int, amount: int)
    requires
        total_redemption >= 0,
        total_shares > 0,
        0 <= amount <= total_shares,
    ensures
        0 <= payout_for(total_redemption, total_shares, amount) <= total_redemption,
{
    let rate = redemption_rate(total_redemption, total_shares);
    assert(0 <= rate && rate * total_shares <= total_redemption) by (nonlinear_arith)
        requires
            total_redemption >= 0,
            total_shares > 0,
            rate == total_redemption / total_shares,
    ;
    assert(0 <= rate * amount <= rate * total_shares) by (nonlinear_arith)
        requires
            0 <= rate,
            0 <= amount <= total_shares,
    ;
}

/// Every share is worth the same: what is paid for shares redeemed together
/// is what is paid for them redeemed apart at the same state, and redeeming
/// all shares pays the redemption value but for what does not divide.
pub proof fn lemma_payout_per_share(total_redemption: int, total_shares: int, first: int, second: int)
    requires
        total_redemption >= 0,
        total_shares > 0,
    ensures
        payout_for(total_redemption, total_shares, first + second) == payout_for(
            total_redemption,
            total_shares,
            first,
        ) + payout_for(total_redemption, total_shares, second),
        payout_for(total_redemption, total_shares, total_shares) == total_redemption
            - total_redemption % total_shares,
{
    let rate = redemption_rate(total_redemption, total_shares);
    assert(rate * (first + second) == rate * first + rate * second) by (nonlinear_arith);
    assert(rate * total_shares == total_redemption - total_redemption % total_shares)
        by (nonlinear_arith)
        requires
            total_shares > 0,
            rate == total_redemption / total_shares,
    ;
}

} // verus!
