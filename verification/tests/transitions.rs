use casino_simple::accounts::Casino;
use casino_simple::accounts::ErrorCode;
use casino_simple::accounts::UserAccount;
use casino_simple::transitions::deposit;
use casino_simple::transitions::emergency_withdraw;
use casino_simple::transitions::get_balance;
use casino_simple::transitions::get_user_balance;
use casino_simple::transitions::initialize_casino;
use casino_simple::transitions::initialize_user_account;
use casino_simple::transitions::owner_deposit;
use casino_simple::transitions::payout;
use casino_simple::transitions::withdraw;

fn fresh(authority: u64, user: u64) -> (Casino, UserAccount) {
    (initialize_casino(authority), initialize_user_account(user, authority))
}

#[test]
fn initialize_casino_zeroes_counters() {
    let c = initialize_casino(7);
    assert_eq!(c.authority, 7);
    assert_eq!(c.total_deposits, 0);
    assert_eq!(c.total_withdrawals, 0);
}

#[test]
fn initialize_user_account_zeroes_all_fields() {
    let ua = initialize_user_account(5, 7);
    assert_eq!(ua.user, 5);
    assert_eq!(ua.casino, 7);
    assert_eq!(ua.balance, 0);
    assert_eq!(ua.total_deposits, 0);
    assert_eq!(ua.total_withdrawals, 0);
    assert_eq!(ua.total_winnings, 0);
    assert_eq!(ua.total_losses, 0);
}

#[test]
fn two_deposits_accumulate() {
    let (mut c, mut ua) = fresh(1, 2);
    let mut holding: u64 = 1_000;
    let mut custody: u64 = 50;
    assert_eq!(deposit(&mut c, &mut ua, &mut holding, &mut custody, 300), Ok(()));
    assert_eq!(deposit(&mut c, &mut ua, &mut holding, &mut custody, 200), Ok(()));
    assert_eq!(ua.balance, 500);
    assert_eq!(ua.total_deposits, 500);
    assert_eq!(c.total_deposits, 500);
    assert_eq!(holding, 500);
    assert_eq!(custody, 550);
}

#[test]
fn deposit_of_zero_is_accepted() {
    let (mut c, mut ua) = fresh(1, 2);
    let mut holding: u64 = 0;
    let mut custody: u64 = 50;
    assert_eq!(deposit(&mut c, &mut ua, &mut holding, &mut custody, 0), Ok(()));
    assert_eq!(ua.balance, 0);
    assert_eq!(c.total_deposits, 0);
    assert_eq!(custody, 50);
}

#[test]
fn deposit_beyond_holding_fails_without_effect() {
    let (mut c, mut ua) = fresh(1, 2);
    let mut holding: u64 = 100;
    let mut custody: u64 = 50;
    assert_eq!(
        deposit(&mut c, &mut ua, &mut holding, &mut custody, 101),
        Err(ErrorCode::InsufficientHolding)
    );
    assert_eq!(ua.balance, 0);
    assert_eq!(c.total_deposits, 0);
    assert_eq!(holding, 100);
    assert_eq!(custody, 50);
}

#[test]
fn deposit_overflowing_custody_fails_without_effect() {
    let (mut c, mut ua) = fresh(1, 2);
    let mut holding: u64 = u64::MAX;
    let mut custody: u64 = 1;
    assert_eq!(
        deposit(&mut c, &mut ua, &mut holding, &mut custody, u64::MAX),
        Err(ErrorCode::ArithmeticOverflow)
    );
    assert_eq!(ua.balance, 0);
    assert_eq!(holding, u64::MAX);
    assert_eq!(custody, 1);
}

#[test]
fn deposit_overflowing_user_counter_fails_without_effect() {
    let (mut c, mut ua) = fresh(1, 2);
    let mut holding: u64 = u64::MAX;
    let mut custody: u64 = 0;
    assert_eq!(deposit(&mut c, &mut ua, &mut holding, &mut custody, u64::MAX), Ok(()));
    let mut topup: u64 = 10;
    assert_eq!(
        deposit(&mut c, &mut ua, &mut topup, &mut custody, 1),
        Err(ErrorCode::ArithmeticOverflow)
    );
    assert_eq!(ua.balance, u64::MAX);
    assert_eq!(topup, 10);
    assert_eq!(custody, u64::MAX);
}

#[test]
fn withdraw_reduces_balance_by_exactly_the_amount() {
    let (mut c, mut ua) = fresh(1, 2);
    let mut holding: u64 = 1_000;
    let mut custody: u64 = 50;
    assert_eq!(deposit(&mut c, &mut ua, &mut holding, &mut custody, 600), Ok(()));
    assert_eq!(withdraw(&mut c, &mut ua, &mut holding, &mut custody, 400), Ok(()));
    assert_eq!(ua.balance, 200);
    assert_eq!(ua.total_withdrawals, 400);
    assert_eq!(c.total_withdrawals, 400);
    assert_eq!(holding, 800);
    assert_eq!(custody, 250);
}

#[test]
fn withdraw_beyond_balance_fails_without_effect() {
    let (mut c, mut ua) = fresh(1, 2);
    let mut holding: u64 = 1_000;
    let mut custody: u64 = 50;
    assert_eq!(deposit(&mut c, &mut ua, &mut holding, &mut custody, 600), Ok(()));
    assert_eq!(
        withdraw(&mut c, &mut ua, &mut holding, &mut custody, 601),
        Err(ErrorCode::InsufficientBalance)
    );
    assert_eq!(ua.balance, 600);
    assert_eq!(ua.total_withdrawals, 0);
    assert_eq!(c.total_withdrawals, 0);
    assert_eq!(holding, 400);
    assert_eq!(custody, 650);
}

#[test]
fn withdraw_of_zero_is_accepted() {
    let (mut c, mut ua) = fresh(1, 2);
    let mut holding: u64 = 10;
    let mut custody: u64 = 50;
    assert_eq!(withdraw(&mut c, &mut ua, &mut holding, &mut custody, 0), Ok(()));
    assert_eq!(ua.balance, 0);
    assert_eq!(holding, 10);
}

#[test]
fn withdraw_unbacked_by_custody_fails_without_effect() {
    // After a sweep the balance can exceed what custody can pay out: the
    // low-level debit would underflow and the transition aborts whole.
    let (mut c, mut ua) = fresh(1, 2);
    let mut holding: u64 = 1_000;
    let mut custody: u64 = 0;
    assert_eq!(deposit(&mut c, &mut ua, &mut holding, &mut custody, 600), Ok(()));
    custody = 100;
    assert_eq!(
        withdraw(&mut c, &mut ua, &mut holding, &mut custody, 500),
        Err(ErrorCode::ArithmeticOverflow)
    );
    assert_eq!(ua.balance, 600);
    assert_eq!(custody, 100);
}

#[test]
fn emergency_withdraw_drains_custody_to_the_reserve() {
    let c = initialize_casino(1);
    let mut holding: u64 = 0;
    let mut custody: u64 = 650;
    assert_eq!(emergency_withdraw(&c, 1, &mut holding, &mut custody, 50), Ok(()));
    assert_eq!(custody, 50);
    assert_eq!(holding, 600);
}

#[test]
fn emergency_withdraw_with_nothing_above_reserve_fails() {
    let c = initialize_casino(1);
    let mut holding: u64 = 0;
    let mut custody: u64 = 50;
    assert_eq!(
        emergency_withdraw(&c, 1, &mut holding, &mut custody, 50),
        Err(ErrorCode::InsufficientBalance)
    );
    assert_eq!(custody, 50);
    assert_eq!(holding, 0);
}

#[test]
fn emergency_withdraw_by_non_authority_fails() {
    let c = initialize_casino(1);
    let mut holding: u64 = 0;
    let mut custody: u64 = 650;
    assert_eq!(
        emergency_withdraw(&c, 2, &mut holding, &mut custody, 50),
        Err(ErrorCode::Unauthorized)
    );
    assert_eq!(custody, 650);
    assert_eq!(holding, 0);
}

#[test]
fn owner_deposit_of_zero_is_invalid() {
    let c = initialize_casino(1);
    let mut holding: u64 = 100;
    let mut custody: u64 = 50;
    assert_eq!(
        owner_deposit(&c, 1, &mut holding, &mut custody, 0),
        Err(ErrorCode::InvalidBetAmount)
    );
    assert_eq!(holding, 100);
    assert_eq!(custody, 50);
}

#[test]
fn owner_deposit_moves_value_without_touching_counters() {
    let c = initialize_casino(1);
    let mut holding: u64 = 100;
    let mut custody: u64 = 50;
    assert_eq!(owner_deposit(&c, 1, &mut holding, &mut custody, 60), Ok(()));
    assert_eq!(holding, 40);
    assert_eq!(custody, 110);
    assert_eq!(c.total_deposits, 0);
    assert_eq!(c.total_withdrawals, 0);
}

#[test]
fn owner_deposit_by_non_authority_fails() {
    let c = initialize_casino(1);
    let mut holding: u64 = 100;
    let mut custody: u64 = 50;
    assert_eq!(
        owner_deposit(&c, 9, &mut holding, &mut custody, 60),
        Err(ErrorCode::Unauthorized)
    );
    assert_eq!(holding, 100);
    assert_eq!(custody, 50);
}

#[test]
fn payout_of_zero_is_invalid() {
    let c = initialize_casino(1);
    let mut recipient: u64 = 0;
    let mut custody: u64 = 500;
    assert_eq!(payout(&c, 1, &mut recipient, &mut custody, 0), Err(ErrorCode::InvalidBetAmount));
    assert_eq!(recipient, 0);
    assert_eq!(custody, 500);
}

#[test]
fn payout_positive_never_fails_the_positivity_check() {
    let c = initialize_casino(1);
    let mut recipient: u64 = 0;
    let mut custody: u64 = 500;
    assert_eq!(payout(&c, 1, &mut recipient, &mut custody, 1), Ok(()));
    let mut empty_custody: u64 = 0;
    // A positive amount can still fail, but never with the invalid-amount error.
    assert_eq!(
        payout(&c, 1, &mut recipient, &mut empty_custody, 1),
        Err(ErrorCode::ArithmeticOverflow)
    );
}

#[test]
fn payout_debits_custody_and_credits_the_recipient() {
    let c = initialize_casino(1);
    let mut recipient: u64 = 7;
    let mut custody: u64 = 500;
    assert_eq!(payout(&c, 1, &mut recipient, &mut custody, 300), Ok(()));
    assert_eq!(recipient, 307);
    assert_eq!(custody, 200);
    assert_eq!(c.total_deposits, 0);
    assert_eq!(c.total_withdrawals, 0);
}

#[test]
fn payout_by_non_authority_fails() {
    let c = initialize_casino(1);
    let mut recipient: u64 = 0;
    let mut custody: u64 = 500;
    assert_eq!(payout(&c, 9, &mut recipient, &mut custody, 300), Err(ErrorCode::Unauthorized));
    assert_eq!(recipient, 0);
    assert_eq!(custody, 500);
}

#[test]
fn get_balance_is_custody_less_reserve() {
    assert_eq!(get_balance(650, 50), 600);
    assert_eq!(get_balance(50, 50), 0);
    assert_eq!(get_balance(20, 50), 0);
    assert_eq!(get_balance(u64::MAX, 0), u64::MAX);
}

#[test]
fn get_user_balance_reads_the_stored_field() {
    let mut ua = initialize_user_account(5, 7);
    assert_eq!(get_user_balance(&ua), 0);
    ua.balance = 123;
    assert_eq!(get_user_balance(&ua), 123);
}
