//! State-transition operations on individual records.
//!
//! Each operation has a `spec` transition function giving its exact meaning:
//! either the next state of every record and holding it touches, or the error
//! it is rejected with. The executable operation is proved to apply that
//! function atomically: on success every listed effect happens, on any error
//! nothing changes.
//!
//! External holdings (`u64` amounts owned by an identity outside the pool) and
//! the pool's custodied value are passed in as plain mutable values; the host
//! model in [`crate::host`] supplies them from its store. A standard value
//! transfer (deposit, owner deposit) fails when the sender's holding is too
//! small; the low-level balance move (withdraw, emergency withdraw, payout)
//! fails when the pool's custodied value is too small to debit.

use vstd::prelude::*;

use crate::accounts::Casino;
use crate::accounts::ErrorCode;
use crate::accounts::UserAccount;

verus! {

/// Meaning of a user deposit of `amount` against pool record `c`, user record
/// `ua`, the user's external holding and the pool's custodied value.
///
/// The transfer moves `amount` from the user's holding into pool custody;
/// the user's balance, the user's lifetime deposits and the pool's aggregate
/// deposits each grow by `amount`. Any overflow rejects the whole transition.
/// A zero amount is accepted: this path has no positivity check.
pub open spec fn deposit_spec(
    c: Casino,
    ua: UserAccount,
    holding: u64,
    custody: u64,
    amount: u64,
) -> Result<(Casino, UserAccount, u64, u64), ErrorCode> {
    if holding < amount {
        Err(ErrorCode::InsufficientHolding)
    } else if custody + amount > u64::MAX || ua.balance + amount > u64::MAX
        || ua.total_deposits + amount > u64::MAX || c.total_deposits + amount > u64::MAX {
        Err(ErrorCode::ArithmeticOverflow)
    } else {
        Ok((
            Casino {
                authority: c.authority,
                total_deposits: (c.total_deposits + amount) as u64,
                total_withdrawals: c.total_withdrawals,
            },
            UserAccount {
                user: ua.user,
                casino: ua.casino,
                balance: (ua.balance + amount) as u64,
                total_deposits: (ua.total_deposits + amount) as u64,
                total_withdrawals: ua.total_withdrawals,
                total_winnings: ua.total_winnings,
                total_losses: ua.total_losses,
            },
            (holding - amount) as u64,
            (custody + amount) as u64,
        ))
    }
}

/// Deposit `amount` from the user's external holding into the pool.
///
/// The host has already resolved `user_account` as the caller's own record
/// under `casino`; the body itself performs no identity check, mirroring the
/// transition surface where ownership is a resolution constraint.
pub fn deposit(
    casino: &mut Casino,
    user_account: &mut UserAccount,
    user_holding: &mut u64,
    casino_custody: &mut u64,
    amount: u64,
) -> (r: Result<(), ErrorCode>)
    ensures
        (match deposit_spec(*old(casino), *old(user_account), *old(user_holding), *old(casino_custody), amount) {
            Ok(next) => {
                &&& r is Ok
                &&& *final(casino) == next.0
                &&& *final(user_account) == next.1
                &&& *final(user_holding) == next.2
                &&& *final(casino_custody) == next.3
            },
            Err(e) => {
                &&& r == Err::<(), ErrorCode>(e)
                &&& *final(casino) == *old(casino)
                &&& *final(user_account) == *old(user_account)
                &&& *final(user_holding) == *old(user_holding)
                &&& *final(casino_custody) == *old(casino_custody)
            },
        }),
{
    if *user_holding < amount {
        return Err(ErrorCode::InsufficientHolding);
    }
    if amount > u64::MAX - *casino_custody
        || amount > u64::MAX - user_account.balance
        || amount > u64::MAX - user_account.total_deposits
        || amount > u64::MAX - casino.total_deposits
    {
        return Err(ErrorCode::ArithmeticOverflow);
    }
    *user_holding = *user_holding - amount;
    *casino_custody = *casino_custody + amount;
    user_account.balance = user_account.balance + amount;
    user_account.total_deposits = user_account.total_deposits + amount;
    casino.total_deposits = casino.total_deposits + amount;
    Ok(())
}

/// Meaning of a user withdrawal of `amount`.
///
/// An amount above the user's spendable balance is rejected outright with no
/// effect. Otherwise the low-level move debits pool custody and credits the
/// user's holding, the balance falls by exactly `amount`, and both lifetime
/// withdrawal counters grow by `amount`; underflow of the custodied value or
/// overflow of a holding or counter rejects the whole transition.
pub open spec fn withdraw_spec(
    c: Casino,
    ua: UserAccount,
    holding: u64,
    custody: u64,
    amount: u64,
) -> Result<(Casino, UserAccount, u64, u64), ErrorCode> {
    if ua.balance < amount {
        Err(ErrorCode::InsufficientBalance)
    } else if custody < amount || holding + amount > u64::MAX
        || ua.total_withdrawals + amount > u64::MAX || c.total_withdrawals + amount > u64::MAX {
        Err(ErrorCode::ArithmeticOverflow)
    } else {
        Ok((
            Casino {
                authority: c.authority,
                total_deposits: c.total_deposits,
                total_withdrawals: (c.total_withdrawals + amount) as u64,
            },
            UserAccount {
                user: ua.user,
                casino: ua.casino,
                balance: (ua.balance - amount) as u64,
                total_deposits: ua.total_deposits,
                total_withdrawals: (ua.total_withdrawals + amount) as u64,
                total_winnings: ua.total_winnings,
                total_losses: ua.total_losses,
            },
            (holding + amount) as u64,
            (custody - amount) as u64,
        ))
    }
}

/// Withdraw `amount` from the caller's spendable balance back to their
/// external holding, by the low-level balance move on pool custody.
pub fn withdraw(
    casino: &mut Casino,
    user_account: &mut UserAccount,
    user_holding: &mut u64,
    casino_custody: &mut u64,
    amount: u64,
) -> (r: Result<(), ErrorCode>)
    ensures
        (match withdraw_spec(*old(casino), *old(user_account), *old(user_holding), *old(casino_custody), amount) {
            Ok(next) => {
                &&& r is Ok
                &&& *final(casino) == next.0
                &&& *final(user_account) == next.1
                &&& *final(user_holding) == next.2
                &&& *final(casino_custody) == next.3
            },
            Err(e) => {
                &&& r == Err::<(), ErrorCode>(e)
                &&& *final(casino) == *old(casino)
                &&& *final(user_account) == *old(user_account)
                &&& *final(user_holding) == *old(user_holding)
                &&& *final(casino_custody) == *old(casino_custody)
            },
        }),
{
    if user_account.balance < amount {
        return Err(ErrorCode::InsufficientBalance);
    }
    if *casino_custody < amount
        || amount > u64::MAX - *user_holding
        || amount > u64::MAX - user_account.total_withdrawals
        || amount > u64::MAX - casino.total_withdrawals
    {
        return Err(ErrorCode::ArithmeticOverflow);
    }
    *casino_custody = *casino_custody - amount;
    *user_holding = *user_holding + amount;
    user_account.balance = user_account.balance - amount;
    user_account.total_withdrawals = user_account.total_withdrawals + amount;
    casino.total_withdrawals = casino.total_withdrawals + amount;
    Ok(())
}

/// Meaning of an authority emergency sweep.
///
/// Only the pool's stored authority may sweep. The withdrawable value is the
/// custodied value less the host's minimum reserve, clamped at zero; a zero
/// withdrawable value is rejected as insufficient. On success the whole
/// withdrawable value moves to the caller's holding, so custody lands on
/// exactly the reserve. The pool record and every user ledger stay untouched.
/// The result is the next (caller holding, pool custody) pair.
pub open spec fn emergency_withdraw_spec(
    c: Casino,
    caller: u64,
    holding: u64,
    custody: u64,
    reserve: u64,
) -> Result<(u64, u64), ErrorCode> {
    if caller != c.authority {
        Err(ErrorCode::Unauthorized)
    } else if withdrawable_value(custody, reserve) == 0 {
        Err(ErrorCode::InsufficientBalance)
    } else if holding + withdrawable_value(custody, reserve) > u64::MAX {
        Err(ErrorCode::ArithmeticOverflow)
    } else {
        Ok((
            (holding + withdrawable_value(custody, reserve)) as u64,
            (custody - withdrawable_value(custody, reserve)) as u64,
        ))
    }
}

/// The value a pool can part with: custodied value less the minimum reserve,
/// clamped at zero.
pub open spec fn withdrawable_value(custody: u64, reserve: u64) -> u64 {
    if custody >= reserve { (custody - reserve) as u64 } else { 0 }
}

/// Sweep everything above the minimum reserve from pool custody to the
/// caller, who must be the pool's authority.
pub fn emergency_withdraw(
    casino: &Casino,
    caller: u64,
    caller_holding: &mut u64,
    casino_custody: &mut u64,
    reserve_minimum: u64,
) -> (r: Result<(), ErrorCode>)
    ensures
        (match emergency_withdraw_spec(*casino, caller, *old(caller_holding), *old(casino_custody), reserve_minimum) {
            Ok(next) => {
                &&& r is Ok
                &&& *final(caller_holding) == next.0
                &&& *final(casino_custody) == next.1
            },
            Err(e) => {
                &&& r == Err::<(), ErrorCode>(e)
                &&& *final(caller_holding) == *old(caller_holding)
                &&& *final(casino_custody) == *old(casino_custody)
            },
        }),
        r is Ok ==> *final(casino_custody) == reserve_minimum,
{
    if caller != casino.authority {
        return Err(ErrorCode::Unauthorized);
    }
    let withdrawable: u64 = if *casino_custody >= reserve_minimum {
        *casino_custody - reserve_minimum
    } else {
        0
    };
    if withdrawable == 0 {
        return Err(ErrorCode::InsufficientBalance);
    }
    if withdrawable > u64::MAX - *caller_holding {
        return Err(ErrorCode::ArithmeticOverflow);
    }
    *casino_custody = *casino_custody - withdrawable;
    *caller_holding = *caller_holding + withdrawable;
    Ok(())
}

/// Meaning of an authority top-up of `amount`.
///
/// Only the authority may top up, the amount must be strictly positive, and
/// the standard transfer moves it from the caller's holding into custody.
/// No counter of any record changes. The result is the next
/// (caller holding, pool custody) pair.
pub open spec fn owner_deposit_spec(
    c: Casino,
    caller: u64,
    holding: u64,
    custody: u64,
    amount: u64,
) -> Result<(u64, u64), ErrorCode> {
    if caller != c.authority {
        Err(ErrorCode::Unauthorized)
    } else if amount == 0 {
        Err(ErrorCode::InvalidBetAmount)
    } else if holding < amount {
        Err(ErrorCode::InsufficientHolding)
    } else if custody + amount > u64::MAX {
        Err(ErrorCode::ArithmeticOverflow)
    } else {
        Ok(((holding - amount) as u64, (custody + amount) as u64))
    }
}

/// Top up pool custody from the authority's own holding, leaving every
/// deposit and withdrawal statistic as it was.
pub fn owner_deposit(
    casino: &Casino,
    caller: u64,
    caller_holding: &mut u64,
    casino_custody: &mut u64,
    amount: u64,
) -> (r: Result<(), ErrorCode>)
    ensures
        (match owner_deposit_spec(*casino, caller, *old(caller_holding), *old(casino_custody), amount) {
            Ok(next) => {
                &&& r is Ok
                &&& *final(caller_holding) == next.0
                &&& *final(casino_custody) == next.1
            },
            Err(e) => {
                &&& r == Err::<(), ErrorCode>(e)
                &&& *final(caller_holding) == *old(caller_holding)
                &&& *final(casino_custody) == *old(casino_custody)
            },
        }),
{
    if caller != casino.authority {
        return Err(ErrorCode::Unauthorized);
    }
    if amount == 0 {
        return Err(ErrorCode::InvalidBetAmount);
    }
    if *caller_holding < amount {
        return Err(ErrorCode::InsufficientHolding);
    }
    if amount > u64::MAX - *casino_custody {
        return Err(ErrorCode::ArithmeticOverflow);
    }
    *caller_holding = *caller_holding - amount;
    *casino_custody = *casino_custody + amount;
    Ok(())
}

/// Meaning of an authority payout of `amount` to an arbitrary recipient.
///
/// Only the authority may pay out, the amount must be strictly positive, and
/// the low-level move debits pool custody and credits the recipient's
/// holding, with no ledger relationship required and no counter changed.
/// The result is the next (recipient holding, pool custody) pair.
pub open spec fn payout_spec(
    c: Casino,
    caller: u64,
    recipient_holding: u64,
    custody: u64,
    amount: u64,
) -> Result<(u64, u64), ErrorCode> {
    if caller != c.authority {
        Err(ErrorCode::Unauthorized)
    } else if amount == 0 {
        Err(ErrorCode::InvalidBetAmount)
    } else if custody < amount || recipient_holding + amount > u64::MAX {
        Err(ErrorCode::ArithmeticOverflow)
    } else {
        Ok(((recipient_holding + amount) as u64, (custody - amount) as u64))
    }
}

/// Pay `amount` of pool custody out to any recipient, on the authority's
/// word alone.
pub fn payout(
    casino: &Casino,
    caller: u64,
    recipient_holding: &mut u64,
    casino_custody: &mut u64,
    amount: u64,
) -> (r: Result<(), ErrorCode>)
    ensures
        (match payout_spec(*casino, caller, *old(recipient_holding), *old(casino_custody), amount) {
            Ok(next) => {
                &&& r is Ok
                &&& *final(recipient_holding) == next.0
                &&& *final(casino_custody) == next.1
            },
            Err(e) => {
                &&& r == Err::<(), ErrorCode>(e)
                &&& *final(recipient_holding) == *old(recipient_holding)
                &&& *final(casino_custody) == *old(casino_custody)
            },
        }),
{
    if caller != casino.authority {
        return Err(ErrorCode::Unauthorized);
    }
    if amount == 0 {
        return Err(ErrorCode::InvalidBetAmount);
    }
    if *casino_custody < amount {
        return Err(ErrorCode::ArithmeticOverflow);
    }
    if amount > u64::MAX - *recipient_holding {
        return Err(ErrorCode::ArithmeticOverflow);
    }
    *casino_custody = *casino_custody - amount;
    *recipient_holding = *recipient_holding + amount;
    Ok(())
}

/// The pool's withdrawable value: custodied value less the minimum reserve,
/// exactly, clamped at zero so it is never negative.
pub fn get_balance(casino_custody: u64, reserve_minimum: u64) -> (r: u64)
    ensures
        r == withdrawable_value(casino_custody, reserve_minimum),
        casino_custody >= reserve_minimum ==> r == casino_custody - reserve_minimum,
        casino_custody < reserve_minimum ==> r == 0,
{
    if casino_custody >= reserve_minimum {
        casino_custody - reserve_minimum
    } else {
        0
    }
}

/// The user's stored spendable balance, read directly.
pub fn get_user_balance(user_account: &UserAccount) -> (r: u64)
    ensures
        r == user_account.balance,
{
    user_account.balance
}

/// A fresh pool record: the caller becomes the immutable authority and both
/// aggregate counters start at zero.
pub fn initialize_casino(authority: u64) -> (c: Casino)
    ensures
        c == (Casino { authority, total_deposits: 0, total_withdrawals: 0 }),
{
    Casino { authority, total_deposits: 0, total_withdrawals: 0 }
}

/// A fresh user record under `casino`: owner and pool back-reference set,
/// every numeric field zero.
pub fn initialize_user_account(user: u64, casino: u64) -> (ua: UserAccount)
    ensures
        ua == (UserAccount {
            user,
            casino,
            balance: 0,
            total_deposits: 0,
            total_withdrawals: 0,
            total_winnings: 0,
            total_losses: 0,
        }),
{
    UserAccount {
        user,
        casino,
        balance: 0,
        total_deposits: 0,
        total_withdrawals: 0,
        total_winnings: 0,
        total_losses: 0,
    }
}

/// Two accepted deposits against a fresh user record and a fresh pool record
/// accumulate exactly: the user's balance and lifetime deposits, and the
/// pool's aggregate deposits, all land on the sum of the two amounts (the
/// `u64` result of each accepted step already being proof that no counter
/// overflowed).
pub proof fn lemma_consecutive_deposits_accumulate(
    c0: Casino, u0: UserAccount, h0: u64, cu0: u64, a1: u64, a2: u64,
    c1: Casino, u1: UserAccount, h1: u64, cu1: u64,
    c2: Casino, u2: UserAccount, h2: u64, cu2: u64,
)
    requires
        u0.balance == 0,
        u0.total_deposits == 0,
        c0.total_deposits == 0,
        deposit_spec(c0, u0, h0, cu0, a1) == Ok::<(Casino, UserAccount, u64, u64), ErrorCode>((c1, u1, h1, cu1)),
        deposit_spec(c1, u1, h1, cu1, a2) == Ok::<(Casino, UserAccount, u64, u64), ErrorCode>((c2, u2, h2, cu2)),
    ensures
        u2.balance == a1 + a2,
        u2.total_deposits == a1 + a2,
        c2.total_deposits == a1 + a2,
{
}

/// A withdrawal of more than the stored balance is rejected as insufficient
/// with no effect; any other withdrawal is accepted and lowers the balance by
/// exactly the amount, provided custody backs the balance and no lifetime
/// counter or holding is at the end of its range.
pub proof fn lemma_withdraw_exact(c: Casino, ua: UserAccount, h: u64, cu: u64, amount: u64)
    requires
        ua.balance <= cu,
        h + amount <= u64::MAX,
        ua.total_withdrawals + amount <= u64::MAX,
        c.total_withdrawals + amount <= u64::MAX,
    ensures
        amount > ua.balance ==> withdraw_spec(c, ua, h, cu, amount)
            == Err::<(Casino, UserAccount, u64, u64), ErrorCode>(ErrorCode::InsufficientBalance),
        amount <= ua.balance ==> (withdraw_spec(c, ua, h, cu, amount)
            matches Ok(next) && next.1.balance == ua.balance - amount),
{
}

/// A zero amount is rejected as invalid by both authority funding paths, and
/// a positive amount never trips that check in either.
pub proof fn lemma_positive_amount_check(c: Casino, caller: u64, h: u64, cu: u64, amount: u64)
    ensures
        caller == c.authority && amount == 0 ==> owner_deposit_spec(c, caller, h, cu, amount)
            == Err::<(u64, u64), ErrorCode>(ErrorCode::InvalidBetAmount),
        caller == c.authority && amount == 0 ==> payout_spec(c, caller, h, cu, amount)
            == Err::<(u64, u64), ErrorCode>(ErrorCode::InvalidBetAmount),
        amount > 0 ==> owner_deposit_spec(c, caller, h, cu, amount)
            != Err::<(u64, u64), ErrorCode>(ErrorCode::InvalidBetAmount),
        amount > 0 ==> payout_spec(c, caller, h, cu, amount)
            != Err::<(u64, u64), ErrorCode>(ErrorCode::InvalidBetAmount),
{
}

/// Every accepted transfer is a paired debit and credit: the sum of the
/// moving holding and the pool's custodied value is the same before and
/// after each of the four value-moving transitions, so no transition mints
/// or destroys value.
pub proof fn lemma_transfers_balanced(
    c: Casino, ua: UserAccount, h: u64, cu: u64, amount: u64, reserve: u64,
)
    ensures
        (deposit_spec(c, ua, h, cu, amount) matches Ok(next) ==> next.2 + next.3 == h + cu),
        (withdraw_spec(c, ua, h, cu, amount) matches Ok(next) ==> next.2 + next.3 == h + cu),
        (emergency_withdraw_spec(c, c.authority, h, cu, reserve) matches Ok(next)
            ==> next.0 + next.1 == h + cu),
        (owner_deposit_spec(c, c.authority, h, cu, amount) matches Ok(next)
            ==> next.0 + next.1 == h + cu),
        (payout_spec(c, c.authority, h, cu, amount) matches Ok(next)
            ==> next.0 + next.1 == h + cu),
{
}

/// A caller other than the pool's stored authority is always rejected as
/// unauthorized by the sweep, the top-up and the payout, whatever the
/// amounts and holdings; the operations' contracts then leave every record
/// and value unchanged.
pub proof fn lemma_unauthorized_rejected(
    c: Casino, caller: u64, h: u64, cu: u64, amount: u64, reserve: u64,
)
    requires
        caller != c.authority,
    ensures
        emergency_withdraw_spec(c, caller, h, cu, reserve)
            == Err::<(u64, u64), ErrorCode>(ErrorCode::Unauthorized),
        owner_deposit_spec(c, caller, h, cu, amount)
            == Err::<(u64, u64), ErrorCode>(ErrorCode::Unauthorized),
        payout_spec(c, caller, h, cu, amount)
            == Err::<(u64, u64), ErrorCode>(ErrorCode::Unauthorized),
{
}

} // verus!
