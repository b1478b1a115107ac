use std::collections::HashMap;

use remittance_pool::pool::PoolError;
use remittance_pool::{AccountId, LendingPool, Transfer};

fn account(tag: u8) -> AccountId {
    AccountId::new(vec![tag; 32])
}

/// Balances of one fungible token, with the usual transfer rule.
struct Token {
    id: AccountId,
    balances: HashMap<Vec<u8>, i128>,
}

impl Token {
    fn new(id: AccountId) -> Token {
        Token { id, balances: HashMap::new() }
    }

    fn balance(&self, who: &AccountId) -> i128 {
        *self.balances.get(&who.bytes).unwrap_or(&0)
    }

    fn mint(&mut self, to: &AccountId, amount: i128) {
        let b = self.balance(to);
        self.balances.insert(to.bytes.clone(), b + amount);
    }

    fn move_funds(&mut self, from: &AccountId, to: &AccountId, amount: i128) {
        let have = self.balance(from);
        assert!(have >= amount, "transfer exceeds balance");
        self.balances.insert(from.bytes.clone(), have - amount);
        let b = self.balance(to);
        self.balances.insert(to.bytes.clone(), b + amount);
    }

    fn apply(&mut self, t: &Transfer) {
        assert_eq!(t.token.bytes, self.id.bytes);
        self.move_funds(&t.from, &t.to, t.amount);
    }
}

struct Setup {
    token: Token,
    pool: LendingPool,
    pool_id: AccountId,
    provider: AccountId,
}

fn setup() -> Setup {
    let token_id = account(1);
    let pool_id = account(2);
    let mut pool = LendingPool::new(pool_id.clone());
    pool.initialize(&token_id).unwrap();
    Setup { token: Token::new(token_id), pool, pool_id, provider: account(3) }
}

fn deposit(s: &mut Setup, amount: i128) -> Result<(), PoolError> {
    let signers = vec![s.provider.clone()];
    let t = s.pool.deposit(&signers, &s.provider, amount)?;
    s.token.apply(&t);
    Ok(())
}

fn withdraw(s: &mut Setup, amount: i128) -> Result<(), PoolError> {
    let signers = vec![s.provider.clone()];
    let liquidity = s.token.balance(&s.pool_id);
    let t = s.pool.withdraw(&signers, &s.provider, amount, liquidity)?;
    s.token.apply(&t);
    Ok(())
}

#[test]
fn test_deposit_flow() {
    let mut s = setup();
    s.token.mint(&s.provider.clone(), 5000);
    assert_eq!(s.token.balance(&s.provider), 5000);

    deposit(&mut s, 3000).unwrap();

    assert_eq!(s.token.balance(&s.provider), 2000);
    assert_eq!(s.token.balance(&s.pool_id), 3000);
    assert_eq!(s.pool.get_deposit(&s.provider), 3000);
}

#[test]
fn test_negative_deposit_panic() {
    let mut s = setup();
    assert_eq!(deposit(&mut s, 0), Err(PoolError::InvalidAmount));
    assert_eq!(s.pool.get_deposit(&s.provider), 0);
}

#[test]
fn test_deposit_unauthorized() {
    let mut s = setup();
    s.token.mint(&s.provider.clone(), 5000);
    let r = s.pool.deposit(&vec![], &s.provider, 1000);
    assert!(matches!(r, Err(PoolError::Unauthorized)));
    assert_eq!(s.pool.get_deposit(&s.provider), 0);
    assert_eq!(s.token.balance(&s.provider), 5000);
}

#[test]
fn test_withdraw_flow() {
    let mut s = setup();
    s.token.mint(&s.provider.clone(), 5000);

    deposit(&mut s, 3000).unwrap();
    assert_eq!(s.token.balance(&s.provider), 2000);
    assert_eq!(s.token.balance(&s.pool_id), 3000);
    assert_eq!(s.pool.get_deposit(&s.provider), 3000);

    withdraw(&mut s, 1000).unwrap();

    assert_eq!(s.token.balance(&s.provider), 3000);
    assert_eq!(s.token.balance(&s.pool_id), 2000);
    assert_eq!(s.pool.get_deposit(&s.provider), 2000);
}

#[test]
fn test_negative_withdraw_panic() {
    let mut s = setup();
    assert_eq!(withdraw(&mut s, 0), Err(PoolError::InvalidAmount));
}

#[test]
fn test_insufficient_balance_withdraw_panic() {
    let mut s = setup();
    s.token.mint(&s.provider.clone(), 5000);
    deposit(&mut s, 1000).unwrap();

    assert_eq!(withdraw(&mut s, 2000), Err(PoolError::InsufficientBalance));
    assert_eq!(s.pool.get_deposit(&s.provider), 1000);
}

#[test]
fn test_insufficient_pool_liquidity_withdraw_panic() {
    let mut s = setup();
    let borrower = account(4);
    s.token.mint(&s.provider.clone(), 5000);
    deposit(&mut s, 1000).unwrap();

    // Tokens leave the pool outside the ledger, as an active loan would take them.
    let pool_id = s.pool_id.clone();
    s.token.move_funds(&pool_id, &borrower, 800);
    assert_eq!(s.token.balance(&s.pool_id), 200);
    assert_eq!(s.pool.get_deposit(&s.provider), 1000);

    assert_eq!(withdraw(&mut s, 500), Err(PoolError::InsufficientLiquidity));
    assert_eq!(s.pool.get_deposit(&s.provider), 1000);
    assert_eq!(s.token.balance(&s.pool_id), 200);
}

#[test]
fn test_deposit_withdraw_invariants() {
    let scenarios: &[(i128, i128)] = &[
        (1, 1),
        (100, 1),
        (100, 50),
        (100, 100),
        (3_000, 1_000),
        (10_000, 9_999),
    ];

    for &(deposit_amount, withdraw_amount) in scenarios {
        let mut s = setup();
        s.token.mint(&s.provider.clone(), deposit_amount);
        deposit(&mut s, deposit_amount).unwrap();

        let deposit_balance = s.pool.get_deposit(&s.provider);
        assert!(deposit_balance >= 0, "Deposit balance should never be negative");
        assert_eq!(deposit_balance, deposit_amount, "Deposit balance should match deposit amount");

        withdraw(&mut s, withdraw_amount).unwrap();

        let final_balance = s.pool.get_deposit(&s.provider);
        assert!(final_balance >= 0, "Final balance should never be negative");
        assert_eq!(
            final_balance,
            deposit_amount - withdraw_amount,
            "Final balance should equal deposit minus withdrawal"
        );
    }
}

#[test]
fn round_trip_restores_record_and_balances() {
    let mut s = setup();
    s.token.mint(&s.provider.clone(), 700);
    deposit(&mut s, 250).unwrap();
    withdraw(&mut s, 250).unwrap();
    assert_eq!(s.pool.get_deposit(&s.provider), 0);
    assert_eq!(s.token.balance(&s.provider), 700);
    assert_eq!(s.token.balance(&s.pool_id), 0);
}

#[test]
fn record_is_deposits_minus_successful_withdrawals() {
    let mut s = setup();
    s.token.mint(&s.provider.clone(), 10_000);
    deposit(&mut s, 400).unwrap();
    deposit(&mut s, 600).unwrap();
    withdraw(&mut s, 300).unwrap();
    assert_eq!(withdraw(&mut s, 900), Err(PoolError::InsufficientBalance));
    assert_eq!(deposit(&mut s, -5), Err(PoolError::InvalidAmount));
    withdraw(&mut s, 700).unwrap();
    deposit(&mut s, 50).unwrap();
    assert_eq!(s.pool.get_deposit(&s.provider), 400 + 600 + 50 - 300 - 700);
}

#[test]
fn reading_twice_gives_the_same_record() {
    let mut s = setup();
    s.token.mint(&s.provider.clone(), 900);
    deposit(&mut s, 900).unwrap();
    let a = s.pool.get_deposit(&s.provider);
    let b = s.pool.get_deposit(&s.provider);
    assert_eq!(a, b);
    assert_eq!(a, 900);
}

#[test]
fn unknown_depositor_reads_zero() {
    let s = setup();
    assert_eq!(s.pool.get_deposit(&account(9)), 0);
}

#[test]
fn withdraw_without_signature_is_refused() {
    let mut s = setup();
    s.token.mint(&s.provider.clone(), 1000);
    deposit(&mut s, 1000).unwrap();
    let other = account(5);
    let r = s.pool.withdraw(&vec![other], &s.provider, 500, 1000);
    assert!(matches!(r, Err(PoolError::Unauthorized)));
    assert_eq!(s.pool.get_deposit(&s.provider), 1000);
}

#[test]
fn initialize_twice_is_refused() {
    let mut s = setup();
    assert_eq!(s.pool.initialize(&account(7)), Err(PoolError::AlreadyInitialized));
    assert_eq!(s.pool.token().unwrap().bytes, vec![1u8; 32]);
}

#[test]
fn calls_before_initialize_are_refused() {
    let provider = account(3);
    let mut pool = LendingPool::new(account(2));
    let signers = vec![provider.clone()];
    assert!(matches!(pool.deposit(&signers, &provider, 10), Err(PoolError::NotInitialized)));
    assert!(matches!(pool.withdraw(&signers, &provider, 10, 100), Err(PoolError::NotInitialized)));
    assert!(pool.token().is_none());
}

#[test]
fn transfers_name_token_pool_and_depositor() {
    let mut s = setup();
    let signers = vec![s.provider.clone()];
    let t = s.pool.deposit(&signers, &s.provider, 40).unwrap();
    assert_eq!(t.token.bytes, vec![1u8; 32]);
    assert_eq!(t.from.bytes, s.provider.bytes);
    assert_eq!(t.to.bytes, s.pool_id.bytes);
    assert_eq!(t.amount, 40);
    let w = s.pool.withdraw(&signers, &s.provider, 15, 40).unwrap();
    assert_eq!(w.from.bytes, s.pool_id.bytes);
    assert_eq!(w.to.bytes, s.provider.bytes);
    assert_eq!(w.amount, 15);
    assert_eq!(s.pool.get_deposit(&s.provider), 25);
    assert_eq!(s.pool.address().bytes, vec![2u8; 32]);
}

#[test]
fn withdrawal_of_whole_record_at_exact_liquidity() {
    let mut s = setup();
    s.token.mint(&s.provider.clone(), 100);
    deposit(&mut s, 100).unwrap();
    let signers = vec![s.provider.clone()];
    assert!(matches!(s.pool.withdraw(&signers, &s.provider, 100, 99), Err(PoolError::InsufficientLiquidity)));
    assert!(s.pool.withdraw(&signers, &s.provider, 100, 100).is_ok());
    assert_eq!(s.pool.get_deposit(&s.provider), 0);
}
