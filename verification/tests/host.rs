use casino_simple::accounts::ErrorCode;
use casino_simple::host::Host;

const RESERVE: u64 = 50;

fn pool_with_user() -> Host {
    let mut h = Host::new(RESERVE);
    assert_eq!(h.fund(1, 1_000), Ok(()));
    assert_eq!(h.init_pool(1), Ok(()));
    assert_eq!(h.fund(2, 1_000), Ok(()));
    assert_eq!(h.init_user(2, 1), Ok(()));
    h
}

fn custody_of(h: &Host, authority: u64) -> u64 {
    h.pools
        .iter()
        .find(|p| p.casino.authority == authority)
        .expect("pool exists")
        .custody
}

fn holding(h: &Host, owner: u64) -> u64 {
    h.holdings.iter().find(|e| e.owner == owner).map(|e| e.lamports).unwrap_or(0)
}

#[test]
fn init_pool_charges_the_reserve_and_zeroes_counters() {
    let mut h = Host::new(RESERVE);
    assert_eq!(h.fund(1, 200), Ok(()));
    assert_eq!(h.init_pool(1), Ok(()));
    assert_eq!(holding(&h, 1), 150);
    assert_eq!(custody_of(&h, 1), RESERVE);
    assert_eq!(h.get_balance(1), Ok(0));
}

#[test]
fn init_pool_twice_fails() {
    let mut h = Host::new(RESERVE);
    assert_eq!(h.fund(1, 200), Ok(()));
    assert_eq!(h.init_pool(1), Ok(()));
    assert_eq!(h.init_pool(1), Err(ErrorCode::AccountAlreadyExists));
}

#[test]
fn init_pool_without_funds_for_the_reserve_fails() {
    let mut h = Host::new(RESERVE);
    assert_eq!(h.fund(1, RESERVE - 1), Ok(()));
    assert_eq!(h.init_pool(1), Err(ErrorCode::InsufficientHolding));
}

#[test]
fn init_user_requires_the_pool() {
    let mut h = Host::new(RESERVE);
    assert_eq!(h.init_user(2, 1), Err(ErrorCode::AccountNotFound));
}

#[test]
fn init_user_twice_fails() {
    let mut h = pool_with_user();
    assert_eq!(h.init_user(2, 1), Err(ErrorCode::AccountAlreadyExists));
}

#[test]
fn deposit_without_a_user_record_fails() {
    let mut h = Host::new(RESERVE);
    assert_eq!(h.fund(1, 200), Ok(()));
    assert_eq!(h.init_pool(1), Ok(()));
    assert_eq!(h.deposit(2, 1, 10), Err(ErrorCode::AccountNotFound));
}

#[test]
fn two_pools_do_not_interfere() {
    let mut h = Host::new(RESERVE);
    assert_eq!(h.fund(1, 200), Ok(()));
    assert_eq!(h.fund(3, 200), Ok(()));
    assert_eq!(h.init_pool(1), Ok(()));
    assert_eq!(h.init_pool(3), Ok(()));
    assert_eq!(h.fund(2, 500), Ok(()));
    assert_eq!(h.init_user(2, 1), Ok(()));
    assert_eq!(h.init_user(2, 3), Ok(()));
    assert_eq!(h.deposit(2, 1, 100), Ok(()));
    assert_eq!(h.get_user_balance(2, 1), Ok(100));
    assert_eq!(h.get_user_balance(2, 3), Ok(0));
    assert_eq!(h.get_balance(1), Ok(100));
    assert_eq!(h.get_balance(3), Ok(0));
}

#[test]
fn unauthorized_callers_mutate_nothing() {
    let mut h = pool_with_user();
    assert_eq!(h.deposit(2, 1, 600), Ok(()));
    let custody_before = custody_of(&h, 1);
    assert_eq!(h.emergency_withdraw(9, 1), Err(ErrorCode::Unauthorized));
    assert_eq!(h.owner_deposit(9, 1, 10), Err(ErrorCode::Unauthorized));
    assert_eq!(h.payout(9, 1, 9, 10), Err(ErrorCode::Unauthorized));
    assert_eq!(custody_of(&h, 1), custody_before);
    assert_eq!(h.get_user_balance(2, 1), Ok(600));
    assert_eq!(holding(&h, 9), 0);
}

#[test]
fn scenario_full_lifecycle() {
    let mut h = pool_with_user();

    assert_eq!(h.deposit(2, 1, 1_000), Ok(()));
    assert_eq!(h.get_user_balance(2, 1), Ok(1_000));
    assert_eq!(h.pools[0].casino.total_deposits, 1_000);

    assert_eq!(h.withdraw(2, 1, 400), Ok(()));
    assert_eq!(h.get_user_balance(2, 1), Ok(600));
    assert_eq!(h.users[0].total_withdrawals, 400);
    assert_eq!(h.pools[0].casino.total_withdrawals, 400);

    assert_eq!(h.withdraw(2, 1, 700), Err(ErrorCode::InsufficientBalance));
    assert_eq!(h.get_user_balance(2, 1), Ok(600));

    let custody_before = custody_of(&h, 1);
    assert_eq!(h.payout(1, 1, 7, 300), Ok(()));
    assert_eq!(custody_of(&h, 1), custody_before - 300);
    assert_eq!(holding(&h, 7), 300);
    assert_eq!(h.pools[0].casino.total_deposits, 1_000);
    assert_eq!(h.pools[0].casino.total_withdrawals, 400);

    assert_eq!(h.emergency_withdraw(1, 1), Ok(()));
    assert_eq!(custody_of(&h, 1), RESERVE);
    // The sweep leaves the recorded balance standing, now unbacked.
    assert_eq!(h.get_user_balance(2, 1), Ok(600));
    assert_eq!(h.get_balance(1), Ok(0));
}

#[test]
fn owner_deposit_tops_up_without_touching_statistics() {
    let mut h = pool_with_user();
    assert_eq!(h.owner_deposit(1, 1, 100), Ok(()));
    assert_eq!(custody_of(&h, 1), RESERVE + 100);
    assert_eq!(h.pools[0].casino.total_deposits, 0);
    assert_eq!(h.get_balance(1), Ok(100));
    assert_eq!(h.owner_deposit(1, 1, 0), Err(ErrorCode::InvalidBetAmount));
    assert_eq!(h.payout(1, 1, 4, 0), Err(ErrorCode::InvalidBetAmount));
}

#[test]
fn payout_below_the_reserve_floors_the_balance_query_at_zero() {
    let mut h = pool_with_user();
    assert_eq!(h.payout(1, 1, 7, 30), Ok(()));
    assert_eq!(custody_of(&h, 1), RESERVE - 30);
    assert_eq!(h.get_balance(1), Ok(0));
    assert_eq!(h.emergency_withdraw(1, 1), Err(ErrorCode::InsufficientBalance));
}

#[test]
fn fund_rejects_an_overflowing_holding() {
    let mut h = Host::new(RESERVE);
    assert_eq!(h.fund(1, u64::MAX), Ok(()));
    assert_eq!(h.fund(1, 1), Err(ErrorCode::ArithmeticOverflow));
    assert_eq!(holding(&h, 1), u64::MAX);
}

#[test]
fn withdraw_on_missing_records_fails() {
    let mut h = Host::new(RESERVE);
    assert_eq!(h.withdraw(2, 1, 10), Err(ErrorCode::AccountNotFound));
    assert_eq!(h.fund(1, 200), Ok(()));
    assert_eq!(h.init_pool(1), Ok(()));
    assert_eq!(h.withdraw(2, 1, 10), Err(ErrorCode::AccountNotFound));
}

#[test]
fn queries_on_missing_records_fail() {
    let h = Host::new(RESERVE);
    assert_eq!(h.get_balance(1), Err(ErrorCode::AccountNotFound));
    assert_eq!(h.get_user_balance(2, 1), Err(ErrorCode::AccountNotFound));
}
