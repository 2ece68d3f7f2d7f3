//! What the vault's clock and its stages rule out.

use vstd::prelude::*;
use crate::address::Address;
use crate::vault::{Vault, VaultConfig, VaultError};

verus! {

/// A vault is set up only once: after `initialize` has succeeded, it fails
/// with `AlreadyInitialized` whatever it is given.
pub proof fn lemma_initialized_once(vault: Vault, first: VaultConfig, second: VaultConfig)
    requires
        vault.initialize_spec(first) is Ok,
    ensures
        vault.initialize_spec(first)->Ok_0.initialize_spec(second) == Err::<Vault, VaultError>(
            VaultError::AlreadyInitialized,
        ),
{
}

/// No call takes a vault back to the uninitialized stage.
pub proof fn lemma_stays_initialized(
    vault: Vault,
    caller: Address,
    other: Address,
    amount: i128,
    now: u64,
)
    requires
        vault.config is Some,
    ensures
        vault.set_quote_spec(caller, amount, now) matches Ok(next) ==> next.config is Some,
        vault.deposit_spec(amount, now) matches Ok(next) ==> next.0.config is Some,
        vault.withdraw_spec(amount, now) matches Ok(next) ==> next.0.config is Some,
        vault.set_total_redemption_spec(caller, amount, now) matches Ok(next) ==> next.config is Some,
        vault.set_treasury_spec(caller, other) matches Ok(next) ==> next.config is Some,
        vault.set_admin_spec(caller, other) matches Ok(next) ==> next.config is Some,
{
}

/// A quote goes stale by itself. Once it has been posted at `posted_at`, it
/// reads as zero at every time after `posted_at` plus the quote period, and
/// no deposit is taken then: one that is otherwise in order fails with
/// `QuoteRequired`.
pub proof fn lemma_quote_goes_stale(
    vault: Vault,
    caller: Address,
    value: i128,
    posted_at: u64,
    amount: i128,
    now: u64,
)
    requires
        vault.set_quote_spec(caller, value, posted_at) is Ok,
        now > posted_at + vault.config->Some_0.quote_period,
    ensures
        ({
            let posted = vault.set_quote_spec(caller, value, posted_at)->Ok_0;
            let config = posted.config->Some_0;
            &&& posted.quote.read(now) == 0
            &&& posted.deposit_spec(amount, now) is Err
            &&& amount >= config.min_deposit && config.start_time <= now <= config.end_time
                ==> posted.deposit_spec(amount, now) == Err::<(Vault, i128), VaultError>(
                VaultError::QuoteRequired,
            )
        }),
{
}

/// Until it goes stale, a posted quote reads as posted, and it cannot be
/// replaced while it is not zero.
pub proof fn lemma_quote_stays_live(
    vault: Vault,
    caller: Address,
    value: i128,
    posted_at: u64,
    other: i128,
    now: u64,
)
    requires
        vault.set_quote_spec(caller, value, posted_at) is Ok,
        now <= posted_at + vault.config->Some_0.quote_period,
        posted_at + vault.config->Some_0.quote_period > 0,
    ensures
        ({
            let posted = vault.set_quote_spec(caller, value, posted_at)->Ok_0;
            &&& posted.quote.read(now) == value
            &&& value != 0 ==> posted.set_quote_spec(caller, other, now) is Err
            &&& value != 0 && other >= 0 ==> posted.set_quote_spec(caller, other, now) == Err::<
                Vault,
                VaultError,
            >(VaultError::QuoteAlreadySet)
        }),
{
}

/// Deposits are taken only while the vault is open: whatever the amount, a
/// deposit before the start time or after the end time fails.
pub proof fn lemma_deposit_only_while_open(vault: Vault, amount: i128, now: u64)
    requires
        vault.deposit_spec(amount, now) is Ok,
    ensures
        vault.config is Some,
        vault.config->Some_0.start_time <= now <= vault.config->Some_0.end_time,
        vault.quote.is_live(now),
        amount >= 0,
{
}

/// Shares are redeemed only after maturity and only once the redemption
/// value is posted: whatever the amount, a withdrawal before the end time
/// fails.
pub proof fn lemma_withdraw_only_after_maturity(vault: Vault, amount: i128, now: u64)
    requires
        vault.withdraw_spec(amount, now) is Ok,
    ensures
        vault.config is Some,
        now >= vault.config->Some_0.end_time,
        vault.total_redemption != 0,
        0 <= amount <= vault.total_shares,
{
}

/// The redemption value is posted only after maturity, and only once.
pub proof fn lemma_redemption_posted_once(
    vault: Vault,
    caller: Address,
    amount: i128,
    now: u64,
    again: i128,
    later: u64,
)
    requires
        vault.set_total_redemption_spec(caller, amount, now) is Ok,
        amount != 0,
    ensures
        now >= vault.config->Some_0.end_time,
        vault.set_total_redemption_spec(caller, amount, now)->Ok_0.set_total_redemption_spec(
            caller,
            again,
            later,
        ) is Err,
{
}

} // verus!
