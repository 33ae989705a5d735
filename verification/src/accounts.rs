//! Persistent record types and the error taxonomy.

use vstd::prelude::*;

verus! {

/// The pool ledger: the singleton-per-authority custodial record.
///
/// `authority` is the sole administrator, set once at creation and immutable
/// thereafter. The two counters are lifetime aggregates over accepted user
/// deposits and user withdrawals; authority top-ups, payouts and emergency
/// sweeps deliberately leave them untouched.
#[derive(Clone, Copy, PartialEq, Eq, Structural, Debug)]
pub struct Casino {
    /// Identity of the sole administrator.
    pub authority: u64,
    /// Sum of all accepted user deposit amounts; never decreases.
    pub total_deposits: u64,
    /// Sum of all accepted user withdrawal amounts; never decreases.
    pub total_withdrawals: u64,
}

/// A user ledger: one record per (user, pool) pair.
///
/// `balance` is the user's spendable amount. `total_winnings` and
/// `total_losses` are reserved schema fields: no transition updates them.
#[derive(Clone, Copy, PartialEq, Eq, Structural, Debug)]
pub struct UserAccount {
    /// Owning identity, immutable once set.
    pub user: u64,
    /// The authority of the owning pool, immutable once set.
    pub casino: u64,
    /// Spendable amount; mutated only by this user's deposits and withdrawals.
    pub balance: u64,
    /// Lifetime sum of this user's accepted deposits.
    pub total_deposits: u64,
    /// Lifetime sum of this user's accepted withdrawals.
    pub total_withdrawals: u64,
    /// Reserved for a future gameplay layer; never updated.
    pub total_winnings: u64,
    /// Reserved for a future gameplay layer; never updated.
    pub total_losses: u64,
}

/// Why a transition was rejected. Every rejection is total: the transition
/// mutates nothing.
///
/// The first three variants are the checks a transition body makes itself;
/// the rest surface conditions the execution host enforces around the body —
/// a failed value transfer, arithmetic leaving its range, a record missing or
/// already present at its derived key.
#[derive(Clone, Copy, PartialEq, Eq, Structural, Debug)]
pub enum ErrorCode {
    /// A requested amount exceeds the available balance or withdrawable value.
    InsufficientBalance,
    /// The caller is not the pool's stored authority.
    Unauthorized,
    /// An amount that must be strictly positive was zero.
    InvalidBetAmount,
    /// An addition or subtraction would leave the fixed-width range of a
    /// counter, a custodied value or a holding.
    ArithmeticOverflow,
    /// The standard value transfer failed: the sender's external holding is
    /// smaller than the amount to move.
    InsufficientHolding,
    /// A record to be created already exists at its derived key.
    AccountAlreadyExists,
    /// A record named by the caller does not exist at its derived key.
    AccountNotFound,
}

} // verus!
