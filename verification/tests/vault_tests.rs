use bond_farm::address::Address;
use bond_farm::vault::{Quote, Vault, VaultError};

/// Token balances, as the token programs would keep them.
struct Ledger {
    entries: Vec<(Address, Address, i128)>,
}

impl Ledger {
    fn new() -> Ledger {
        Ledger { entries: Vec::new() }
    }

    fn balance(&self, token: Address, holder: Address) -> i128 {
        for (t, h, amount) in self.entries.iter() {
            if *t == token && *h == holder {
                return *amount;
            }
        }
        0
    }

    fn set(&mut self, token: Address, holder: Address, amount: i128) {
        for entry in self.entries.iter_mut() {
            if entry.0 == token && entry.1 == holder {
                entry.2 = amount;
                return;
            }
        }
        self.entries.push((token, holder, amount));
    }

    fn mint(&mut self, token: Address, to: Address, amount: i128) {
        let balance = self.balance(token, to);
        self.set(token, to, balance + amount);
    }

    fn burn(&mut self, token: Address, from: Address, amount: i128) {
        let balance = self.balance(token, from);
        assert!(amount >= 0 && balance >= amount, "balance is not sufficient to spend");
        self.set(token, from, balance - amount);
    }

    fn transfer(&mut self, token: Address, from: Address, to: Address, amount: i128) {
        self.burn(token, from, amount);
        self.mint(token, to, amount);
    }
}

/// A vault with the tokens around it and a clock.
struct Bench {
    vault: Vault,
    ledger: Ledger,
    now: u64,
    token: Address,
    share: Address,
    contract: Address,
}

impl Bench {
    fn new() -> Bench {
        Bench {
            vault: Vault::new(),
            ledger: Ledger::new(),
            now: 0,
            token: Address::contract(0, 1),
            share: Address::contract(0, 2),
            contract: Address::contract(0, 3),
        }
    }

    fn initialize(
        &mut self,
        admin: Address,
        start_time: u64,
        end_time: u64,
        quote_period: u64,
        treasury: Address,
        min_deposit: u128,
    ) -> Result<String, VaultError> {
        self.vault.initialize(
            self.token,
            self.share,
            admin,
            start_time,
            end_time,
            quote_period,
            treasury,
            min_deposit,
        )
    }

    fn set_quote(&mut self, value: i128) -> Result<i128, VaultError> {
        let admin = self.vault.admin()?;
        self.vault.set_quote(admin, value, self.now)
    }

    fn deposit(&mut self, from: Address, amount: i128) -> Result<i128, VaultError> {
        let shares = self.vault.deposit(amount, self.now)?;
        let treasury = self.vault.treasury_account()?;
        self.ledger.transfer(self.token, from, treasury, amount);
        self.ledger.mint(self.share, from, shares);
        Ok(shares)
    }

    fn withdraw(&mut self, to: Address, amount: i128) -> Result<i128, VaultError> {
        let payout = self.vault.withdraw(amount, self.now)?;
        self.ledger.transfer(self.share, to, self.contract, amount);
        self.ledger.transfer(self.token, self.contract, to, payout);
        self.ledger.burn(self.share, self.contract, amount);
        Ok(payout)
    }

    fn set_total_redemption(&mut self, amount: i128) -> Result<i128, VaultError> {
        let admin = self.vault.admin()?;
        let posted = self.vault.set_total_redemption(admin, amount, self.now)?;
        self.ledger.transfer(self.token, admin, self.contract, posted);
        Ok(posted)
    }
}

fn admin() -> Address {
    Address::account(1, 1)
}

fn user() -> Address {
    Address::account(1, 2)
}

#[test]
#[should_panic(expected = "AlreadyInitialized")]
fn test_not_double_initialization() {
    let mut b = Bench::new();
    let admin = admin();
    let vault_result = b.initialize(admin, b.now, b.now + 600, 300, admin, 100);
    assert_eq!(vault_result, Ok(String::from("Ok")));

    b.token = Address::contract(0, 9);
    b.initialize(admin, b.now, b.now + 600, 300, admin, 100).unwrap();
}

#[test]
#[should_panic(expected = "QuoteRequired")]
fn try_deposit_without_quote() {
    let mut b = Bench::new();
    let admin = admin();
    let user = user();
    let vault_result = b.initialize(admin, b.now, b.now + 600, 300, admin, 100);
    assert_eq!(vault_result, Ok(String::from("Ok")));

    b.ledger.mint(b.token, user, 1000);
    let deposit_amount = 200;
    b.deposit(user, deposit_amount).unwrap();
}

#[test]
#[should_panic(expected = "MaturityNotReached")]
fn test_withdraw_before_maturity() {
    let mut b = Bench::new();
    let admin = admin();
    let user = user();
    let _ = b.initialize(admin, b.now, b.now + 600, 300, admin, 100);
    b.ledger.mint(b.token, user, 1000);

    b.set_quote(10000000).unwrap();
    b.deposit(user, 200).unwrap();

    b.withdraw(user, 200).unwrap();
}

#[test]
#[should_panic(expected = "QuoteAlreadySet")]
fn test_override_quote() {
    let mut b = Bench::new();
    let admin = admin();
    let user = user();
    let _ = b.initialize(admin, b.now, b.now + 600, 300, admin, 100);
    b.ledger.mint(b.token, user, 1000);

    b.set_quote(10000000).unwrap();
    b.set_quote(20000000).unwrap();
}

#[test]
fn test_full() {
    let mut b = Bench::new();
    let admin = admin();
    let user = user();
    let vault_result = b.initialize(admin, b.now, b.now + 600, 300, admin, 100);
    assert_eq!(vault_result, Ok(String::from("Ok")));

    b.ledger.mint(b.token, user, 1000);

    let set_quote_result = b.set_quote(10000000).unwrap();
    assert_eq!(set_quote_result, 10000000);

    let deposit_amount = 200;

    let share_address = b.vault.bond_id().unwrap();
    let share_balance = b.ledger.balance(share_address, user);
    assert_eq!(share_balance, 0);

    // Each unit of the asset buys as many shares as the quote says.
    let deposit_result = b.deposit(user, deposit_amount).unwrap();
    assert_eq!(deposit_result, 2_000_000_000);

    let total_deposit = b.vault.reserves();
    assert_eq!(total_deposit, 200);

    let total_bonds = b.vault.total_bonds();
    assert_eq!(total_bonds, 2_000_000_000);

    b.now = b.now + 601;

    b.ledger.mint(b.token, admin, 1000);

    let set_redemption_result = b.set_total_redemption(300).unwrap();
    assert_eq!(set_redemption_result, 300);

    let share_balance = b.ledger.balance(share_address, user);
    assert_eq!(share_balance, 2_000_000_000);

    // A share is worth 300 / 2_000_000_000, which is nothing in whole units.
    let withdraw_result = b.withdraw(user, share_balance).unwrap();
    assert_eq!(withdraw_result, 0);
    assert_eq!(b.vault.total_redemption(), 300);
    assert_eq!(b.vault.total_bonds(), 0);
}

#[test]
#[should_panic(expected = "AlreadyInitialized")]
fn try_reinitialize_after_maturity() {
    let mut b = Bench::new();
    let admin = admin();
    let _ = b.initialize(admin, b.now, b.now + 10, 300, admin, 100);

    b.now = b.now + 11;

    b.initialize(admin, b.now, b.now + 600, 300, admin, 100).unwrap();
}

#[test]
fn send_bonds_to_another_wallet_and_withdraw() {
    let mut b = Bench::new();
    let admin = admin();
    let user1 = Address::account(1, 2);
    let user2 = Address::account(1, 3);
    let _ = b.initialize(admin, b.now, b.now + 600, 300, admin, 100);

    b.ledger.mint(b.token, user1, 1000);

    b.set_quote(10000000).unwrap();
    b.deposit(user1, 200).unwrap();

    let bond_id = b.vault.bond_id().unwrap();
    b.ledger.transfer(bond_id, user1, user2, 200);

    b.now = b.now + 601;

    b.ledger.mint(b.token, admin, 1000);

    b.set_total_redemption(300).unwrap();

    let share_balance = b.ledger.balance(bond_id, user2);
    assert_eq!(share_balance, 200);

    // The 200 shares are a small part of the 2_000_000_000 that exist, and a
    // share is worth 300 / 2_000_000_000, which is nothing in whole units.
    let withdraw_result = b.withdraw(user2, share_balance).unwrap();
    assert_eq!(withdraw_result, 0);
    assert_eq!(b.ledger.balance(bond_id, user2), 0);
    assert_eq!(b.ledger.balance(bond_id, user1), 2_000_000_000 - 200);
    assert_eq!(b.vault.total_bonds(), 2_000_000_000 - 200);
}

#[test]
fn test_set_admin() {
    let mut b = Bench::new();
    let admin1 = Address::account(1, 1);
    let admin2 = Address::account(1, 4);
    let treasury = Address::account(1, 5);

    let start_time = b.now;
    let end_time = start_time + 100000;
    let quote_period = 600;
    let min_deposit = 100;
    b.initialize(admin1, start_time, end_time, quote_period, treasury, min_deposit).unwrap();

    b.vault.set_admin(admin1, admin2).unwrap();
    assert_eq!(b.vault.admin().unwrap(), admin2);
}

#[test]
fn test_error_cases() {
    let mut b = Bench::new();
    let admin1 = admin();
    let user1 = user();
    let treasury = Address::account(1, 5);

    let start_time = b.now;
    let end_time = start_time + 100000;
    let quote_period = 600;
    let min_deposit = 100;
    b.initialize(admin1, start_time, end_time, quote_period, treasury, min_deposit).unwrap();

    let result = b.deposit(user1, 100);
    assert_eq!(result, Err(VaultError::QuoteRequired));

    b.set_quote(1).unwrap();

    let result = b.deposit(user1, 99);
    assert_eq!(result, Err(VaultError::InvalidAmount));

    let result = b.withdraw(user1, 100);
    assert_eq!(result, Err(VaultError::MaturityNotReached));

    b.now = end_time + 1;

    let result = b.withdraw(user1, 100);
    assert_eq!(result, Err(VaultError::AvailableRedemptionNotSet));
}

#[test]
fn redeeming_all_shares_pays_whole_units_per_share() {
    let mut vault = Vault::new();
    vault
        .initialize(Address::contract(0, 1), Address::contract(0, 2), admin(), 0, 600, 300, admin(), 0)
        .unwrap();
    vault.total_shares = 200;
    vault.total_redemption = 300;

    // A share is worth 300 / 200, which is one whole unit.
    let payout = vault.withdraw(200, 600);
    assert_eq!(payout, Ok(200));
    assert_eq!(vault.total_redemption(), 100);
    assert_eq!(vault.total_bonds(), 0);
}

#[test]
fn the_value_of_a_share_is_cut_off_before_it_is_multiplied() {
    let mut vault = Vault::new();
    vault
        .initialize(Address::contract(0, 1), Address::contract(0, 2), admin(), 0, 600, 300, admin(), 0)
        .unwrap();
    vault.total_shares = 2;
    vault.total_redemption = 5;
    // 5 / 2 is 2, twice is 4; multiplying first would have paid 5.
    assert_eq!(vault.withdraw(2, 700), Ok(4));
    assert_eq!(vault.total_redemption(), 1);

    vault.total_shares = 3;
    vault.total_redemption = 11;
    // All three at once: 11 / 3 is 3, three times is 9.
    assert_eq!(vault.withdraw(3, 700), Ok(9));
    assert_eq!(vault.total_redemption(), 2);

    vault.total_shares = 3;
    vault.total_redemption = 11;
    // One after the other: the first share pays 3, and then two shares of 8
    // are worth 4 each. Who comes late gains what the early one left.
    assert_eq!(vault.withdraw(1, 700), Ok(3));
    assert_eq!(vault.total_redemption(), 8);
    assert_eq!(vault.total_bonds(), 2);
    assert_eq!(vault.withdraw(2, 700), Ok(8));
    assert_eq!(vault.total_redemption(), 0);
    assert_eq!(vault.total_bonds(), 0);

    // Fewer shares than would make a whole unit each pay nothing.
    vault.total_shares = 10;
    vault.total_redemption = 9;
    assert_eq!(vault.withdraw(10, 700), Ok(0));
    assert_eq!(vault.total_redemption(), 9);
}

#[test]
fn quote_reads_zero_once_stale() {
    let mut b = Bench::new();
    let admin = admin();
    b.initialize(admin, 0, 10_000, 300, admin, 0).unwrap();
    b.now = 1000;
    b.set_quote(25_000_000).unwrap();
    assert_eq!(b.vault.quote, Quote { value: 25_000_000, expires_at: 1300 });

    assert_eq!(b.vault.quote(1000), Ok(25_000_000));
    assert_eq!(b.vault.quote(1300), Ok(25_000_000));
    assert_eq!(b.vault.quote(1301), Ok(0));

    assert_eq!(b.vault.deposit(10, 1301), Err(VaultError::QuoteRequired));
    // At the last live second ten units buy ten times the quote in shares.
    assert_eq!(b.vault.deposit(10, 1300), Ok(250_000_000));
    assert_eq!(b.vault.total_bonds(), 250_000_000);
    assert_eq!(b.vault.reserves(), 10);

    // A stale quote can be replaced.
    b.now = 1301;
    assert_eq!(b.set_quote(10_000_000), Ok(10_000_000));
}

#[test]
fn deposits_are_taken_from_start_to_end() {
    let mut b = Bench::new();
    let admin = admin();
    b.initialize(admin, 100, 600, 1000, admin, 0).unwrap();
    b.now = 50;
    b.set_quote(10_000_000).unwrap();

    assert_eq!(b.vault.deposit(5, 99), Err(VaultError::NotOpenYet));
    assert_eq!(b.vault.deposit(5, 100), Ok(50_000_000));
    assert_eq!(b.vault.deposit(5, 600), Ok(50_000_000));
    assert_eq!(b.vault.deposit(5, 601), Err(VaultError::MaturityReached));
    assert_eq!(b.vault.deposit(-1, 300), Err(VaultError::InvalidAmount));
}

#[test]
fn calls_before_initialization_fail() {
    let mut vault = Vault::new();
    assert_eq!(vault.quote(0), Err(VaultError::NotInitialized));
    assert_eq!(vault.deposit(1, 0), Err(VaultError::NotInitialized));
    assert_eq!(vault.withdraw(1, 0), Err(VaultError::NotInitialized));
    assert_eq!(vault.set_quote(admin(), 1, 0), Err(VaultError::NotInitialized));
    assert_eq!(vault.set_total_redemption(admin(), 1, 0), Err(VaultError::NotInitialized));
    assert_eq!(vault.bond_id(), Err(VaultError::NotInitialized));
    assert_eq!(vault.maturity(), Err(VaultError::NotInitialized));
    assert_eq!(vault.set_treasury(admin(), user()), Err(VaultError::NotInitialized));
}

#[test]
fn only_the_administrator_posts() {
    let mut b = Bench::new();
    let admin = admin();
    b.initialize(admin, 0, 600, 300, admin, 0).unwrap();
    assert_eq!(b.vault.set_quote(user(), 1, 0), Err(VaultError::NotAuthorized));
    assert_eq!(b.vault.set_quote(admin, -1, 0), Err(VaultError::InvalidAmount));
    assert_eq!(b.vault.set_total_redemption(user(), 1, 600), Err(VaultError::NotAuthorized));
    assert_eq!(b.vault.set_total_redemption(admin, 1, 599), Err(VaultError::MaturityNotReached));
    assert_eq!(b.vault.set_total_redemption(admin, -1, 600), Err(VaultError::InvalidAmount));
    assert_eq!(b.vault.set_total_redemption(admin, 300, 600), Ok(300));
    assert_eq!(
        b.vault.set_total_redemption(admin, 300, 601),
        Err(VaultError::RedemptionAlreadySet)
    );
    assert_eq!(b.vault.set_admin(user(), user()), Err(VaultError::NotAuthorized));
    assert_eq!(b.vault.set_treasury(admin, user()), Ok(()));
    assert_eq!(b.vault.treasury_account(), Ok(user()));
    assert_eq!(b.vault.maturity(), Ok(600));
}

#[test]
fn vault_arithmetic_faults_are_reported() {
    let mut b = Bench::new();
    let admin = admin();
    b.initialize(admin, 0, 600, u64::MAX, admin, 0).unwrap();
    assert_eq!(b.vault.set_quote(admin, 1, 1), Err(VaultError::ArithmeticError));

    let mut vault = Vault::new();
    vault
        .initialize(Address::contract(0, 1), Address::contract(0, 2), admin, 0, 600, 300, admin, 0)
        .unwrap();
    vault.set_quote(admin, i128::MAX, 0).unwrap();
    assert_eq!(vault.deposit(2, 1), Err(VaultError::ArithmeticError));
    assert_eq!(vault.total_bonds(), 0);
    // The shares fit, the new total of shares does not.
    assert_eq!(vault.deposit(1, 1), Ok(i128::MAX));
    assert_eq!(vault.deposit(1, 1), Err(VaultError::ArithmeticError));
    assert_eq!(vault.total_bonds(), i128::MAX);
    assert_eq!(vault.reserves(), 1);
    vault.total_shares = 0;

    // Nothing can be redeemed where there are no shares.
    vault.set_total_redemption(admin, 300, 600).unwrap();
    assert_eq!(vault.withdraw(0, 600), Err(VaultError::ArithmeticError));
    assert_eq!(vault.withdraw(1, 600), Err(VaultError::InvalidAmount));
}

#[test]
fn redemptions_are_covered_until_the_last_share() {
    let mut b = Bench::new();
    let admin = admin();
    let (alice, bob) = (Address::account(2, 1), Address::account(2, 2));
    b.initialize(admin, 0, 600, 300, Address::account(1, 5), 1).unwrap();
    b.ledger.mint(b.token, alice, 1000);
    b.ledger.mint(b.token, bob, 1000);
    b.ledger.mint(b.token, admin, 1000);

    b.set_quote(3).unwrap();
    assert_eq!(b.deposit(alice, 101), Ok(303));
    assert_eq!(b.deposit(bob, 33), Ok(99));
    assert_eq!(b.vault.total_bonds(), 402);
    assert_eq!(b.vault.reserves(), 134);
    assert_eq!(b.ledger.balance(b.token, Address::account(1, 5)), 134);
    assert_eq!(b.ledger.balance(b.token, b.contract), 0);

    b.now = 600;
    assert_eq!(b.set_total_redemption(1000), Ok(1000));
    // A share is worth 1000 / 402 = 2, then 982 / 393 = 2, 376 / 90 = 4 and 216 / 50 = 4.
    for (who, shares, payout) in [(bob, 9, 18), (alice, 303, 606), (bob, 40, 160), (bob, 50, 200)] {
        assert!(b.vault.total_redemption() <= b.ledger.balance(b.token, b.contract));
        assert_eq!(b.withdraw(who, shares), Ok(payout));
        assert!(b.vault.total_redemption() <= b.ledger.balance(b.token, b.contract));
    }
    assert_eq!(b.vault.total_bonds(), 0);
    // What did not divide stays in the vault.
    assert_eq!(b.vault.total_redemption(), 16);
    assert_eq!(b.ledger.balance(b.token, b.contract), 16);
    assert_eq!(b.ledger.balance(b.share, alice), 0);
    assert_eq!(b.ledger.balance(b.share, bob), 0);
}

#[test]
fn test_vault_contract() {
    let mut b = Bench::new();
    let admin1 = admin();
    let user1 = user();
    let treasury = Address::account(1, 5);

    let start_time = b.now;
    let end_time = start_time + 100000;
    let quote_period = 600;
    let min_deposit = 100;
    b.initialize(admin1, start_time, end_time, quote_period, treasury, min_deposit).unwrap();

    let contract_share = b.vault.bond_id().unwrap();

    b.ledger.mint(b.token, user1, 1000);
    assert_eq!(b.ledger.balance(b.token, user1), 1000);

    // Admin sets the quote
    b.set_quote(1).unwrap();
    assert_eq!(b.vault.quote(b.now).unwrap(), 1);

    // User deposits to mint bonds
    assert_eq!(b.deposit(user1, 200), Ok(200));

    assert_eq!(b.ledger.balance(contract_share, user1), 200);
    assert_eq!(b.ledger.balance(b.token, user1), 800);
    assert_eq!(b.ledger.balance(b.token, treasury), 200);
    assert_eq!(b.ledger.balance(b.token, b.contract), 0);

    // Fast forward time to after maturity
    b.now = end_time + 1;

    // Admin sets the total redemption amount (principal + rewards), out of
    // what the issuer of the asset can always send.
    b.ledger.mint(b.token, admin1, 300);
    b.set_total_redemption(300).unwrap();

    // User withdraws by burning bonds. A bond is worth 300 / 200, which is
    // one whole unit; the odd hundred stays in the vault.
    assert_eq!(b.withdraw(user1, 200), Ok(200));

    assert_eq!(b.ledger.balance(b.token, user1), 1000);
    assert_eq!(b.ledger.balance(contract_share, user1), 0);
    assert_eq!(b.ledger.balance(b.token, b.contract), 100);
    assert_eq!(b.vault.total_redemption(), 100);
}
