//! A verified custodial balance ledger.
//!
//! An authority-controlled pool accepts deposits from many users, tracks each
//! user's spendable balance, and allows user withdrawals, authority-only
//! emergency sweeps, authority top-ups, and payouts to arbitrary recipients.
//!
//! The crate is split in three layers:
//! - [`accounts`]: the persistent record types (pool ledger, user ledger) and
//!   the error taxonomy;
//! - [`transitions`]: the state-transition operations on individual records,
//!   each specified by a mathematical transition function and proved to apply
//!   it atomically (all effects, or none and the stated error);
//! - [`host`]: an in-memory model of the execution host, keying records by
//!   their owning identities (exactly one pool per authority, one user ledger
//!   per user/pool pair), tracking each identity's external holding and each
//!   pool's custodied value, and running whole transitions atomically.

pub mod accounts;
pub mod host;
pub mod transitions;
