use amm_core::custody::{Authority, TokenAccount};
use amm_core::errors::AmmError;
use amm_core::state::Config;
use amm_core::swap::Swap;

const MINT_X: u64 = 10;
const MINT_Y: u64 = 11;
const USER: u64 = 7;

fn pool(vault_x: u64, vault_y: u64, user_x: u64, user_y: u64, fee: u16, locked: bool) -> Swap {
    let config = Config { seed: 1, mint_x: MINT_X, mint_y: MINT_Y, fee, locked, config_bump: 254 };
    let authority = Authority::PoolDerived { seed: 1, bump: 254 };
    Swap {
        user: USER,
        config,
        vault_x: TokenAccount { asset: MINT_X, owner: authority, balance: vault_x },
        vault_y: TokenAccount { asset: MINT_Y, owner: authority, balance: vault_y },
        user_x: TokenAccount { asset: MINT_X, owner: Authority::User(USER), balance: user_x },
        user_y: TokenAccount { asset: MINT_Y, owner: Authority::User(USER), balance: user_y },
    }
}

fn balances(s: &Swap) -> (u64, u64, u64, u64) {
    (s.vault_x.balance, s.vault_y.balance, s.user_x.balance, s.user_y.balance)
}

#[test]
fn swap_concrete_scenario_succeeds() {
    // reserves (1000, 1000), 3% fee, amount 100: output 88, minimum 88 is met
    let mut s = pool(1000, 1000, 500, 0, 300, false);
    assert_eq!(s.swap(true, 100, 88), Ok(()));
    assert_eq!(balances(&s), (1100, 912, 400, 88));
}

#[test]
fn swap_slippage_exceeded() {
    // same trade, minimum 89: refused, and no funds move
    let mut s = pool(1000, 1000, 500, 0, 300, false);
    assert_eq!(s.swap(true, 100, 89), Err(AmmError::SlippageExceeded));
    assert_eq!(balances(&s), (1000, 1000, 500, 0));
}

#[test]
fn swap_zero_amount_rejected() {
    let mut s = pool(1000, 1000, 500, 0, 300, false);
    assert_eq!(s.swap(true, 0, 0), Err(AmmError::InvalidAmount));
    assert_eq!(balances(&s), (1000, 1000, 500, 0));
    let mut t = pool(1000, 1000, 500, 0, 300, false);
    assert_eq!(t.swap(false, 0, 0), Err(AmmError::InvalidAmount));
    assert_eq!(balances(&t), (1000, 1000, 500, 0));
}

#[test]
fn swap_locked_pool_rejected() {
    let mut s = pool(1000, 1000, 500, 0, 300, true);
    assert_eq!(s.swap(true, 100, 0), Err(AmmError::PoolLocked));
    assert_eq!(balances(&s), (1000, 1000, 500, 0));
    // the lock wins over every other failure, a zero amount included
    assert_eq!(s.swap(false, 0, u64::MAX), Err(AmmError::PoolLocked));
    assert_eq!(balances(&s), (1000, 1000, 500, 0));
}

#[test]
fn swap_insufficient_user_balance() {
    let mut s = pool(1000, 1000, 99, 0, 300, false);
    assert_eq!(s.swap(true, 100, 0), Err(AmmError::InsufficientBalance));
    assert_eq!(balances(&s), (1000, 1000, 99, 0));
}

#[test]
fn swap_drained_pool_underflows() {
    // a fee of the whole trade and a zero input reserve: pricing is refused
    let mut s = pool(0, 1000, 500, 0, 10000, false);
    assert_eq!(s.swap(true, 100, 0), Err(AmmError::Underflow));
    assert_eq!(balances(&s), (0, 1000, 500, 0));
}

#[test]
fn swap_other_direction() {
    // input reserve 500 (asset y), output reserve 2000 (asset x), 3% fee:
    // fee = 3, net = 97, output = floor(97 * 2000 / 597) = 324
    let mut s = pool(2000, 500, 0, 500, 300, false);
    assert_eq!(s.swap(false, 100, 324), Ok(()));
    assert_eq!(balances(&s), (1676, 600, 324, 400));
}

#[test]
fn swap_round_trip_returns_less() {
    // forward: 100 x for 88 y; straight back: 88 y for 94 x — a strict loss
    let mut s = pool(1000, 1000, 500, 0, 300, false);
    assert_eq!(s.swap(true, 100, 0), Ok(()));
    assert_eq!(balances(&s), (1100, 912, 400, 88));
    assert_eq!(s.swap(false, 88, 0), Ok(()));
    assert_eq!(balances(&s), (1006, 1000, 494, 0));
    assert!(s.user_x.balance < 500);
}

#[test]
fn swap_withdraw_overflow_rolls_back() {
    // the user's output account cannot take the credit: the deposit leg is
    // undone and the whole pool state is exactly as before
    let mut s = pool(1000, 1000, 500, u64::MAX, 300, false);
    assert_eq!(s.swap(true, 100, 0), Err(AmmError::Overflow));
    assert_eq!(balances(&s), (1000, 1000, 500, u64::MAX));
}

#[test]
fn swap_vault_overflow_rejected() {
    // the reserve cannot take the gross deposit
    let mut s = pool(u64::MAX, 1000, 500, 0, 300, false);
    assert_eq!(s.swap(true, 100, 0), Err(AmmError::Overflow));
    assert_eq!(balances(&s), (u64::MAX, 1000, 500, 0));
}

#[test]
fn deposit_tokens_moves_gross_amount() {
    let mut s = pool(1000, 1000, 500, 0, 300, false);
    assert_eq!(s.deposit_tokens(true, 100), Ok(()));
    assert_eq!(balances(&s), (1100, 1000, 400, 0));
}

#[test]
fn withdraw_tokens_pays_from_reserve() {
    let mut s = pool(1000, 1000, 500, 0, 300, false);
    assert_eq!(s.withdraw_tokens(false, 88), Ok(()));
    assert_eq!(balances(&s), (1000, 912, 500, 88));
}

#[test]
fn withdraw_tokens_insufficient_reserve() {
    let mut s = pool(1000, 50, 500, 0, 300, false);
    assert_eq!(s.withdraw_tokens(false, 88), Err(AmmError::InsufficientBalance));
    assert_eq!(balances(&s), (1000, 50, 500, 0));
}
