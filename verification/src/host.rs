//! An in-memory model of the execution host.
//!
//! The host resolves records by their derived keys — exactly one pool per
//! authority, exactly one user ledger per (user, pool authority) pair — and
//! holds, besides the records themselves, each identity's external holding
//! and each pool's custodied value. Every entry point resolves the records a
//! transition touches, then runs the transition of [`crate::transitions`]
//! atomically: either every effect is applied to the store, or the store is
//! returned exactly as it was, with the stated error.
//!
//! Record resolution stands in for the derivation and signature layer: a
//! caller identity handed to an entry point is taken as already
//! authenticated, and a record is found by its key or reported missing.

use vstd::prelude::*;

use crate::accounts::Casino;
use crate::accounts::ErrorCode;
use crate::accounts::UserAccount;
use crate::transitions;

verus! {

/// A pool record together with the value the host custodies for it.
#[derive(Clone, Copy, PartialEq, Eq, Structural, Debug)]
pub struct PoolEntry {
    /// The pool ledger record.
    pub casino: Casino,
    /// The value the host currently holds under this record's control.
    pub custody: u64,
}

/// An identity's external holding: value it owns outside any pool.
#[derive(Clone, Copy, PartialEq, Eq, Structural, Debug)]
pub struct Holding {
    /// The owning identity.
    pub owner: u64,
    /// The amount held.
    pub lamports: u64,
}

/// No two pool entries share an authority: the derived pool key is the
/// authority identity, and keys are unique.
pub open spec fn pools_wf(s: Seq<PoolEntry>) -> bool {
    forall|i: int, j: int|
        0 <= i < j < s.len() ==> (#[trigger] s[i]).casino.authority != (#[trigger] s[j]).casino.authority
}

/// Some pool entry carries authority `a`.
pub open spec fn has_pool_in(s: Seq<PoolEntry>, a: u64) -> bool {
    exists|i: int| 0 <= i < s.len() && (#[trigger] s[i]).casino.authority == a
}

/// The pool entry carrying authority `a` (meaningful only under
/// [`has_pool_in`] and [`pools_wf`]).
pub open spec fn pool_in(s: Seq<PoolEntry>, a: u64) -> PoolEntry {
    s[choose|i: int| 0 <= i < s.len() && (#[trigger] s[i]).casino.authority == a]
}

/// No two user records share a (user, pool authority) key pair.
pub open spec fn users_wf(s: Seq<UserAccount>) -> bool {
    forall|i: int, j: int|
        0 <= i < j < s.len() ==> !((#[trigger] s[i]).user == (#[trigger] s[j]).user
            && s[i].casino == s[j].casino)
}

/// Some user record carries the key pair (`u`, `a`).
pub open spec fn has_user_in(s: Seq<UserAccount>, u: u64, a: u64) -> bool {
    exists|i: int| 0 <= i < s.len() && (#[trigger] s[i]).user == u && s[i].casino == a
}

/// The user record with key pair (`u`, `a`) (meaningful only under
/// [`has_user_in`] and [`users_wf`]).
pub open spec fn user_in(s: Seq<UserAccount>, u: u64, a: u64) -> UserAccount {
    s[choose|i: int| 0 <= i < s.len() && (#[trigger] s[i]).user == u && s[i].casino == a]
}

/// No two holdings share an owner.
pub open spec fn holdings_wf(s: Seq<Holding>) -> bool {
    forall|i: int, j: int|
        0 <= i < j < s.len() ==> (#[trigger] s[i]).owner != (#[trigger] s[j]).owner
}

/// Some holding entry belongs to `o`.
pub open spec fn has_holding_in(s: Seq<Holding>, o: u64) -> bool {
    exists|i: int| 0 <= i < s.len() && (#[trigger] s[i]).owner == o
}

/// The external holding of `o`: the amount of its entry, or zero where no
/// entry exists — an identity with no recorded holding owns nothing.
pub open spec fn holding_of_in(s: Seq<Holding>, o: u64) -> u64 {
    if has_holding_in(s, o) {
        s[choose|i: int| 0 <= i < s.len() && (#[trigger] s[i]).owner == o].lamports
    } else {
        0
    }
}

proof fn lemma_pool_at(s: Seq<PoolEntry>, a: u64, k: int)
    requires
        pools_wf(s),
        0 <= k < s.len(),
        s[k].casino.authority == a,
    ensures
        has_pool_in(s, a),
        pool_in(s, a) == s[k],
{
    assert(has_pool_in(s, a));
    let i = choose|i: int| 0 <= i < s.len() && (#[trigger] s[i]).casino.authority == a;
    assert(s[i].casino.authority == a);
    if i != k {
        assert(s[i].casino.authority != s[k].casino.authority);
    }
}

proof fn lemma_user_at(s: Seq<UserAccount>, u: u64, a: u64, k: int)
    requires
        users_wf(s),
        0 <= k < s.len(),
        s[k].user == u,
        s[k].casino == a,
    ensures
        has_user_in(s, u, a),
        user_in(s, u, a) == s[k],
{
    assert(has_user_in(s, u, a));
    let i = choose|i: int| 0 <= i < s.len() && (#[trigger] s[i]).user == u && s[i].casino == a;
    if i != k {
        assert(!(s[i].user == s[k].user && s[i].casino == s[k].casino));
    }
}

proof fn lemma_holding_at(s: Seq<Holding>, o: u64, k: int)
    requires
        holdings_wf(s),
        0 <= k < s.len(),
        s[k].owner == o,
    ensures
        has_holding_in(s, o),
        holding_of_in(s, o) == s[k].lamports,
{
    assert(has_holding_in(s, o));
    let i = choose|i: int| 0 <= i < s.len() && (#[trigger] s[i]).owner == o;
    if i != k {
        assert(s[i].owner != s[k].owner);
    }
}

proof fn lemma_pool_update(s: Seq<PoolEntry>, k: int, e: PoolEntry)
    requires
        pools_wf(s),
        0 <= k < s.len(),
        e.casino.authority == s[k].casino.authority,
    ensures
        pools_wf(s.update(k, e)),
        forall|a: u64| has_pool_in(s.update(k, e), a) <==> has_pool_in(s, a),
        forall|a: u64|
            a != e.casino.authority && has_pool_in(s, a)
                ==> pool_in(s.update(k, e), a) == pool_in(s, a),
        pool_in(s.update(k, e), e.casino.authority) == e,
{
    let t = s.update(k, e);
    assert forall|a: u64| has_pool_in(t, a) implies has_pool_in(s, a) by {
        let i = choose|i: int| 0 <= i < t.len() && (#[trigger] t[i]).casino.authority == a;
        assert(s[i].casino.authority == a);
    }
    assert forall|a: u64| has_pool_in(s, a) implies has_pool_in(t, a) by {
        let i = choose|i: int| 0 <= i < s.len() && (#[trigger] s[i]).casino.authority == a;
        assert(t[i].casino.authority == a);
    }
    assert forall|a: u64|
        a != e.casino.authority && has_pool_in(s, a) implies pool_in(t, a) == pool_in(s, a) by {
        let i = choose|i: int| 0 <= i < t.len() && (#[trigger] t[i]).casino.authority == a;
        assert(i != k);
        assert(t[i] == s[i]);
        lemma_pool_at(s, a, i);
    }
    lemma_pool_at(s, e.casino.authority, k);
    let i = choose|i: int| 0 <= i < t.len() && (#[trigger] t[i]).casino.authority == e.casino.authority;
    assert(t[k].casino.authority == e.casino.authority);
    if i != k {
        assert(s[i].casino.authority != s[k].casino.authority);
    }
    assert(pool_in(t, e.casino.authority) == e);
}

proof fn lemma_pool_push(s: Seq<PoolEntry>, e: PoolEntry)
    requires
        pools_wf(s),
        !has_pool_in(s, e.casino.authority),
    ensures
        pools_wf(s.push(e)),
        has_pool_in(s.push(e), e.casino.authority),
        pool_in(s.push(e), e.casino.authority) == e,
        forall|a: u64|
            a != e.casino.authority ==> (has_pool_in(s.push(e), a) <==> has_pool_in(s, a)),
        forall|a: u64|
            a != e.casino.authority && has_pool_in(s, a)
                ==> pool_in(s.push(e), a) == pool_in(s, a),
{
    let t = s.push(e);
    assert(t[s.len() as int] == e);
    assert forall|i: int, j: int|
        0 <= i < j < t.len() implies (#[trigger] t[i]).casino.authority
            != (#[trigger] t[j]).casino.authority by {
        if j < s.len() {
            assert(t[i] == s[i] && t[j] == s[j]);
        } else {
            assert(t[i] == s[i] && t[j] == e);
            assert(s[i].casino.authority != e.casino.authority);
        }
    }
    lemma_pool_at(t, e.casino.authority, s.len() as int);
    assert forall|a: u64|
        a != e.casino.authority && has_pool_in(t, a) implies has_pool_in(s, a) by {
        let i = choose|i: int| 0 <= i < t.len() && (#[trigger] t[i]).casino.authority == a;
        assert(i != s.len());
        assert(s[i].casino.authority == a);
    }
    assert forall|a: u64|
        a != e.casino.authority && has_pool_in(s, a) implies has_pool_in(t, a)
            && pool_in(t, a) == pool_in(s, a) by {
        let i = choose|i: int| 0 <= i < s.len() && (#[trigger] s[i]).casino.authority == a;
        assert(t[i].casino.authority == a);
        lemma_pool_at(t, a, i);
        lemma_pool_at(s, a, i);
    }
}

proof fn lemma_user_update(s: Seq<UserAccount>, k: int, e: UserAccount)
    requires
        users_wf(s),
        0 <= k < s.len(),
        e.user == s[k].user,
        e.casino == s[k].casino,
    ensures
        users_wf(s.update(k, e)),
        forall|u: u64, a: u64| has_user_in(s.update(k, e), u, a) <==> has_user_in(s, u, a),
        forall|u: u64, a: u64|
            !(u == e.user && a == e.casino) && has_user_in(s, u, a)
                ==> user_in(s.update(k, e), u, a) == user_in(s, u, a),
        user_in(s.update(k, e), e.user, e.casino) == e,
{
    let t = s.update(k, e);
    assert forall|u: u64, a: u64| has_user_in(t, u, a) implies has_user_in(s, u, a) by {
        let i = choose|i: int|
            0 <= i < t.len() && (#[trigger] t[i]).user == u && t[i].casino == a;
        assert(s[i].user == u && s[i].casino == a);
    }
    assert forall|u: u64, a: u64| has_user_in(s, u, a) implies has_user_in(t, u, a) by {
        let i = choose|i: int|
            0 <= i < s.len() && (#[trigger] s[i]).user == u && s[i].casino == a;
        assert(t[i].user == u && t[i].casino == a);
    }
    assert forall|u: u64, a: u64|
        !(u == e.user && a == e.casino) && has_user_in(s, u, a)
            implies user_in(t, u, a) == user_in(s, u, a) by {
        let i = choose|i: int|
            0 <= i < t.len() && (#[trigger] t[i]).user == u && t[i].casino == a;
        assert(i != k);
        assert(t[i] == s[i]);
        lemma_user_at(s, u, a, i);
    }
    lemma_user_at(s, e.user, e.casino, k);
    let i = choose|i: int|
        0 <= i < t.len() && (#[trigger] t[i]).user == e.user && t[i].casino == e.casino;
    assert(t[k].user == e.user && t[k].casino == e.casino);
    if i != k {
        assert(!(s[i].user == s[k].user && s[i].casino == s[k].casino));
    }
    assert(user_in(t, e.user, e.casino) == e);
}

proof fn lemma_user_push(s: Seq<UserAccount>, e: UserAccount)
    requires
        users_wf(s),
        !has_user_in(s, e.user, e.casino),
    ensures
        users_wf(s.push(e)),
        has_user_in(s.push(e), e.user, e.casino),
        user_in(s.push(e), e.user, e.casino) == e,
        forall|u: u64, a: u64|
            !(u == e.user && a == e.casino)
                ==> (has_user_in(s.push(e), u, a) <==> has_user_in(s, u, a)),
        forall|u: u64, a: u64|
            !(u == e.user && a == e.casino) && has_user_in(s, u, a)
                ==> user_in(s.push(e), u, a) == user_in(s, u, a),
{
    let t = s.push(e);
    assert(t[s.len() as int] == e);
    assert forall|i: int, j: int|
        0 <= i < j < t.len() implies !((#[trigger] t[i]).user == (#[trigger] t[j]).user
            && t[i].casino == t[j].casino) by {
        if j < s.len() {
            assert(t[i] == s[i] && t[j] == s[j]);
        } else {
            assert(t[i] == s[i] && t[j] == e);
            assert(!(s[i].user == e.user && s[i].casino == e.casino));
        }
    }
    lemma_user_at(t, e.user, e.casino, s.len() as int);
    assert forall|u: u64, a: u64|
        !(u == e.user && a == e.casino) && has_user_in(t, u, a) implies has_user_in(s, u, a) by {
        let i = choose|i: int|
            0 <= i < t.len() && (#[trigger] t[i]).user == u && t[i].casino == a;
        assert(i != s.len());
        assert(s[i].user == u && s[i].casino == a);
    }
    assert forall|u: u64, a: u64|
        !(u == e.user && a == e.casino) && has_user_in(s, u, a) implies has_user_in(t, u, a)
            && user_in(t, u, a) == user_in(s, u, a) by {
        let i = choose|i: int|
            0 <= i < s.len() && (#[trigger] s[i]).user == u && s[i].casino == a;
        assert(t[i].user == u && t[i].casino == a);
        lemma_user_at(t, u, a, i);
        lemma_user_at(s, u, a, i);
    }
}

proof fn lemma_holding_update(s: Seq<Holding>, k: int, e: Holding)
    requires
        holdings_wf(s),
        0 <= k < s.len(),
        e.owner == s[k].owner,
    ensures
        holdings_wf(s.update(k, e)),
        holding_of_in(s.update(k, e), e.owner) == e.lamports,
        forall|o: u64|
            o != e.owner ==> holding_of_in(s.update(k, e), o) == holding_of_in(s, o),
{
    let t = s.update(k, e);
    assert forall|o: u64| has_holding_in(t, o) implies has_holding_in(s, o) by {
        let i = choose|i: int| 0 <= i < t.len() && (#[trigger] t[i]).owner == o;
        assert(s[i].owner == o);
    }
    assert forall|o: u64| has_holding_in(s, o) implies has_holding_in(t, o) by {
        let i = choose|i: int| 0 <= i < s.len() && (#[trigger] s[i]).owner == o;
        assert(t[i].owner == o);
    }
    lemma_holding_at(t, e.owner, k);
    assert forall|o: u64|
        o != e.owner implies holding_of_in(t, o) == holding_of_in(s, o) by {
        if has_holding_in(t, o) {
            let i = choose|i: int| 0 <= i < t.len() && (#[trigger] t[i]).owner == o;
            assert(i != k);
            assert(t[i] == s[i]);
            lemma_holding_at(t, o, i);
            lemma_holding_at(s, o, i);
        }
    }
}

proof fn lemma_holding_push(s: Seq<Holding>, e: Holding)
    requires
        holdings_wf(s),
        !has_holding_in(s, e.owner),
    ensures
        holdings_wf(s.push(e)),
        holding_of_in(s.push(e), e.owner) == e.lamports,
        forall|o: u64| o != e.owner ==> holding_of_in(s.push(e), o) == holding_of_in(s, o),
{
    let t = s.push(e);
    assert(t[s.len() as int] == e);
    assert forall|i: int, j: int|
        0 <= i < j < t.len() implies (#[trigger] t[i]).owner != (#[trigger] t[j]).owner by {
        if j < s.len() {
            assert(t[i] == s[i] && t[j] == s[j]);
        } else {
            assert(t[i] == s[i] && t[j] == e);
            assert(s[i].owner != e.owner);
        }
    }
    lemma_holding_at(t, e.owner, s.len() as int);
    assert forall|o: u64|
        o != e.owner implies holding_of_in(t, o) == holding_of_in(s, o) by {
        if has_holding_in(t, o) {
            let i = choose|i: int| 0 <= i < t.len() && (#[trigger] t[i]).owner == o;
            assert(i != s.len());
            assert(s[i].owner == o);
            lemma_holding_at(t, o, i);
            lemma_holding_at(s, o, i);
        }
        if has_holding_in(s, o) {
            let i = choose|i: int| 0 <= i < s.len() && (#[trigger] s[i]).owner == o;
            assert(t[i].owner == o);
        }
    }
}

/// The execution host's store: every pool entry, every user record, every
/// external holding, and the host-mandated minimum reserve a pool record must
/// retain to stay persisted.
///
/// All pool records have one shape, so one reserve value covers them all.
pub struct Host {
    /// The pool entries, keyed by their authority.
    pub pools: Vec<PoolEntry>,
    /// The user records, keyed by (user, pool authority).
    pub users: Vec<UserAccount>,
    /// The external holdings, keyed by owner.
    pub holdings: Vec<Holding>,
    /// The minimum value a pool record must keep custodied.
    pub pool_reserve: u64,
}

impl Host {
    /// Well-formedness: all three key spaces are free of duplicates.
    pub open spec fn wf(self) -> bool {
        pools_wf(self.pools@) && users_wf(self.users@) && holdings_wf(self.holdings@)
    }

    /// A pool with authority `a` exists.
    pub open spec fn has_pool(self, a: u64) -> bool {
        has_pool_in(self.pools@, a)
    }

    /// The pool entry with authority `a`.
    pub open spec fn pool(self, a: u64) -> PoolEntry {
        pool_in(self.pools@, a)
    }

    /// A user record with key (`u`, `a`) exists.
    pub open spec fn has_user(self, u: u64, a: u64) -> bool {
        has_user_in(self.users@, u, a)
    }

    /// The user record with key (`u`, `a`).
    pub open spec fn user(self, u: u64, a: u64) -> UserAccount {
        user_in(self.users@, u, a)
    }

    /// The external holding of `o`, zero where none is recorded.
    pub open spec fn holding_of(self, o: u64) -> u64 {
        holding_of_in(self.holdings@, o)
    }

    /// An empty store under a given pool reserve: no pools, no user records,
    /// every holding zero.
    pub fn new(pool_reserve: u64) -> (h: Host)
        ensures
            h.wf(),
            h.pool_reserve == pool_reserve,
            forall|a: u64| !h.has_pool(a),
            forall|u: u64, a: u64| !h.has_user(u, a),
            forall|o: u64| h.holding_of(o) == 0,
    {
        Host { pools: Vec::new(), users: Vec::new(), holdings: Vec::new(), pool_reserve }
    }

    fn find_pool(&self, a: u64) -> (r: Option<usize>)
        ensures
            (match r {
                Some(i) => i < self.pools.len() && self.pools@[i as int].casino.authority == a,
                None => !self.has_pool(a),
            }),
    {
        let mut i: usize = 0;
        while i < self.pools.len()
            invariant
                i <= self.pools.len(),
                forall|j: int| 0 <= j < i ==> (#[trigger] self.pools@[j]).casino.authority != a,
            decreases self.pools.len() - i,
        {
            if self.pools[i].casino.authority == a {
                return Some(i);
            }
            i = i + 1;
        }
        None
    }

    fn find_user(&self, u: u64, a: u64) -> (r: Option<usize>)
        ensures
            (match r {
                Some(i) => i < self.users.len() && self.users@[i as int].user == u
                    && self.users@[i as int].casino == a,
                None => !self.has_user(u, a),
            }),
    {
        let mut i: usize = 0;
        while i < self.users.len()
            invariant
                i <= self.users.len(),
                forall|j: int|
                    0 <= j < i ==> !((#[trigger] self.users@[j]).user == u
                        && self.users@[j].casino == a),
            decreases self.users.len() - i,
        {
            if self.users[i].user == u && self.users[i].casino == a {
                return Some(i);
            }
            i = i + 1;
        }
        None
    }

    fn find_holding(&self, o: u64) -> (r: Option<usize>)
        ensures
            (match r {
                Some(i) => i < self.holdings.len() && self.holdings@[i as int].owner == o,
                None => !has_holding_in(self.holdings@, o),
            }),
    {
        let mut i: usize = 0;
        while i < self.holdings.len()
            invariant
                i <= self.holdings.len(),
                forall|j: int| 0 <= j < i ==> (#[trigger] self.holdings@[j]).owner != o,
            decreases self.holdings.len() - i,
        {
            if self.holdings[i].owner == o {
                return Some(i);
            }
            i = i + 1;
        }
        None
    }

    fn holding_balance(&self, o: u64) -> (r: u64)
        requires
            self.wf(),
        ensures
            r == self.holding_of(o),
    {
        match self.find_holding(o) {
            Some(i) => {
                proof {
                    lemma_holding_at(self.holdings@, o, i as int);
                }
                self.holdings[i].lamports
            },
            None => 0,
        }
    }

    fn set_holding(&mut self, o: u64, v: u64)
        requires
            old(self).wf(),
        ensures
            final(self).wf(),
            final(self).pools == old(self).pools,
            final(self).users == old(self).users,
            final(self).pool_reserve == old(self).pool_reserve,
            final(self).holding_of(o) == v,
            forall|p: u64| p != o ==> final(self).holding_of(p) == old(self).holding_of(p),
    {
        match self.find_holding(o) {
            Some(i) => {
                self.holdings[i] = Holding { owner: o, lamports: v };
                proof {
                    lemma_holding_update(old(self).holdings@, i as int, Holding { owner: o, lamports: v });
                }
            },
            None => {
                self.holdings.push(Holding { owner: o, lamports: v });
                proof {
                    lemma_holding_push(old(self).holdings@, Holding { owner: o, lamports: v });
                }
            },
        }
    }
    /// Credit `amount` to the external holding of `o`: value arriving from
    /// outside the modelled system. Rejected only where the holding would
    /// leave its range, and then without effect.
    pub fn fund(&mut self, o: u64, amount: u64) -> (r: Result<(), ErrorCode>)
        requires
            old(self).wf(),
        ensures
            final(self).wf(),
            forall|a: u64| final(self).has_pool(a) <==> old(self).has_pool(a),
            forall|a: u64| old(self).has_pool(a) ==> final(self).pool(a) == old(self).pool(a),
            forall|u: u64, a: u64| final(self).has_user(u, a) <==> old(self).has_user(u, a),
            forall|u: u64, a: u64|
                old(self).has_user(u, a) ==> final(self).user(u, a) == old(self).user(u, a),
            final(self).pool_reserve == old(self).pool_reserve,
            old(self).holding_of(o) + amount > u64::MAX ==> r == Err::<(), ErrorCode>(
                ErrorCode::ArithmeticOverflow,
            ) && *final(self) == *old(self),
            old(self).holding_of(o) + amount <= u64::MAX ==> r is Ok
                && final(self).holding_of(o) == old(self).holding_of(o) + amount,
            forall|p: u64| p != o ==> final(self).holding_of(p) == old(self).holding_of(p),
    {
        let h = self.holding_balance(o);
        if amount > u64::MAX - h {
            return Err(ErrorCode::ArithmeticOverflow);
        }
        self.set_holding(o, h + amount);
        Ok(())
    }

    /// Create the pool for `authority`: the sole creation path, rejected if
    /// the derived key is already taken. The caller funds the record's
    /// minimum reserve out of their own holding, so the fresh pool custodies
    /// exactly the reserve and its withdrawable value starts at zero.
    pub fn init_pool(&mut self, authority: u64) -> (r: Result<(), ErrorCode>)
        requires
            old(self).wf(),
        ensures
            final(self).wf(),
            forall|u: u64, a: u64| final(self).has_user(u, a) <==> old(self).has_user(u, a),
            forall|u: u64, a: u64|
                old(self).has_user(u, a) ==> final(self).user(u, a) == old(self).user(u, a),
            final(self).pool_reserve == old(self).pool_reserve,
            old(self).has_pool(authority) ==> r == Err::<(), ErrorCode>(
                ErrorCode::AccountAlreadyExists,
            ) && *final(self) == *old(self),
            !old(self).has_pool(authority) && old(self).holding_of(authority)
                < old(self).pool_reserve ==> r == Err::<(), ErrorCode>(
                ErrorCode::InsufficientHolding,
            ) && *final(self) == *old(self),
            !old(self).has_pool(authority) && old(self).holding_of(authority)
                >= old(self).pool_reserve ==> {
                &&& r is Ok
                &&& final(self).has_pool(authority)
                &&& final(self).pool(authority) == (PoolEntry {
                    casino: Casino { authority, total_deposits: 0, total_withdrawals: 0 },
                    custody: old(self).pool_reserve,
                })
                &&& final(self).holding_of(authority) == old(self).holding_of(authority)
                    - old(self).pool_reserve
                &&& forall|a: u64| a != authority ==> (final(self).has_pool(a) <==> old(self).has_pool(a))
                &&& forall|a: u64|
                    a != authority && old(self).has_pool(a) ==> final(self).pool(a) == old(self).pool(a)
                &&& forall|o: u64| o != authority ==> final(self).holding_of(o) == old(self).holding_of(o)
            },
    {
        if let Some(_) = self.find_pool(authority) {
            return Err(ErrorCode::AccountAlreadyExists);
        }
        let h = self.holding_balance(authority);
        if h < self.pool_reserve {
            return Err(ErrorCode::InsufficientHolding);
        }
        let reserve = self.pool_reserve;
        self.set_holding(authority, h - reserve);
        let entry = PoolEntry { casino: transitions::initialize_casino(authority), custody: reserve };
        proof {
            lemma_pool_push(self.pools@, entry);
        }
        self.pools.push(entry);
        Ok(())
    }

    /// Create the user record for (`user`, `pool_authority`): rejected if the
    /// pool does not exist or the derived key is already taken. The fresh
    /// record carries the owner, the pool back-reference and six zeroed
    /// numeric fields.
    pub fn init_user(&mut self, user: u64, pool_authority: u64) -> (r: Result<(), ErrorCode>)
        requires
            old(self).wf(),
        ensures
            final(self).wf(),
            forall|a: u64| final(self).has_pool(a) <==> old(self).has_pool(a),
            forall|a: u64| old(self).has_pool(a) ==> final(self).pool(a) == old(self).pool(a),
            forall|o: u64| final(self).holding_of(o) == old(self).holding_of(o),
            final(self).pool_reserve == old(self).pool_reserve,
            !old(self).has_pool(pool_authority) ==> r == Err::<(), ErrorCode>(
                ErrorCode::AccountNotFound,
            ) && *final(self) == *old(self),
            old(self).has_pool(pool_authority) && old(self).has_user(user, pool_authority)
                ==> r == Err::<(), ErrorCode>(ErrorCode::AccountAlreadyExists)
                    && *final(self) == *old(self),
            old(self).has_pool(pool_authority) && !old(self).has_user(user, pool_authority) ==> {
                &&& r is Ok
                &&& final(self).has_user(user, pool_authority)
                &&& final(self).user(user, pool_authority) == (UserAccount {
                    user,
                    casino: pool_authority,
                    balance: 0,
                    total_deposits: 0,
                    total_withdrawals: 0,
                    total_winnings: 0,
                    total_losses: 0,
                })
                &&& forall|u: u64, a: u64|
                    !(u == user && a == pool_authority)
                        ==> (final(self).has_user(u, a) <==> old(self).has_user(u, a))
                &&& forall|u: u64, a: u64|
                    !(u == user && a == pool_authority) && old(self).has_user(u, a)
                        ==> final(self).user(u, a) == old(self).user(u, a)
            },
    {
        if self.find_pool(pool_authority).is_none() {
            return Err(ErrorCode::AccountNotFound);
        }
        if let Some(_) = self.find_user(user, pool_authority) {
            return Err(ErrorCode::AccountAlreadyExists);
        }
        let rec = transitions::initialize_user_account(user, pool_authority);
        proof {
            lemma_user_push(self.users@, rec);
        }
        self.users.push(rec);
        Ok(())
    }

    /// Run a user deposit against the store: resolve the pool by its
    /// authority and the caller's own record under it, then apply
    /// [`transitions::deposit_spec`] atomically to the resolved records, the
    /// caller's holding and the pool's custody.
    pub fn deposit(&mut self, caller: u64, pool_authority: u64, amount: u64) -> (r: Result<
        (),
        ErrorCode,
    >)
        requires
            old(self).wf(),
        ensures
            final(self).wf(),
            final(self).pool_reserve == old(self).pool_reserve,
            !old(self).has_pool(pool_authority) ==> r == Err::<(), ErrorCode>(
                ErrorCode::AccountNotFound,
            ) && *final(self) == *old(self),
            old(self).has_pool(pool_authority) && !old(self).has_user(caller, pool_authority)
                ==> r == Err::<(), ErrorCode>(ErrorCode::AccountNotFound)
                    && *final(self) == *old(self),
            old(self).has_pool(pool_authority) && old(self).has_user(caller, pool_authority)
                ==> (match transitions::deposit_spec(
                old(self).pool(pool_authority).casino,
                old(self).user(caller, pool_authority),
                old(self).holding_of(caller),
                old(self).pool(pool_authority).custody,
                amount,
            ) {
                Ok(next) => {
                    &&& r is Ok
                    &&& final(self).pool(pool_authority) == (PoolEntry {
                        casino: next.0,
                        custody: next.3,
                    })
                    &&& final(self).user(caller, pool_authority) == next.1
                    &&& final(self).holding_of(caller) == next.2
                    &&& forall|a: u64| final(self).has_pool(a) <==> old(self).has_pool(a)
                    &&& forall|a: u64|
                        a != pool_authority && old(self).has_pool(a) ==> final(self).pool(a)
                            == old(self).pool(a)
                    &&& forall|u: u64, a: u64|
                        final(self).has_user(u, a) <==> old(self).has_user(u, a)
                    &&& forall|u: u64, a: u64|
                        !(u == caller && a == pool_authority) && old(self).has_user(u, a)
                            ==> final(self).user(u, a) == old(self).user(u, a)
                    &&& forall|o: u64|
                        o != caller ==> final(self).holding_of(o) == old(self).holding_of(o)
                },
                Err(e) => r == Err::<(), ErrorCode>(e) && *final(self) == *old(self),
            }),
    {
        let kp = match self.find_pool(pool_authority) {
            Some(k) => k,
            None => {
                return Err(ErrorCode::AccountNotFound);
            },
        };
        let ku = match self.find_user(caller, pool_authority) {
            Some(k) => k,
            None => {
                return Err(ErrorCode::AccountNotFound);
            },
        };
        proof {
            lemma_pool_at(self.pools@, pool_authority, kp as int);
            lemma_user_at(self.users@, caller, pool_authority, ku as int);
        }
        let mut entry = self.pools[kp];
        let mut ua = self.users[ku];
        let mut h = self.holding_balance(caller);
        let r = transitions::deposit(&mut entry.casino, &mut ua, &mut h, &mut entry.custody, amount);
        match r {
            Ok(_) => {
                self.pools[kp] = entry;
                self.users[ku] = ua;
                proof {
                    lemma_pool_update(old(self).pools@, kp as int, entry);
                    lemma_user_update(old(self).users@, ku as int, ua);
                }
                self.set_holding(caller, h);
                Ok(())
            },
            Err(e) => Err(e),
        }
    }

    /// Run a user withdrawal against the store, applying
    /// [`transitions::withdraw_spec`] atomically to the resolved records, the
    /// caller's holding and the pool's custody.
    pub fn withdraw(&mut self, caller: u64, pool_authority: u64, amount: u64) -> (r: Result<
        (),
        ErrorCode,
    >)
        requires
            old(self).wf(),
        ensures
            final(self).wf(),
            final(self).pool_reserve == old(self).pool_reserve,
            !old(self).has_pool(pool_authority) ==> r == Err::<(), ErrorCode>(
                ErrorCode::AccountNotFound,
            ) && *final(self) == *old(self),
            old(self).has_pool(pool_authority) && !old(self).has_user(caller, pool_authority)
                ==> r == Err::<(), ErrorCode>(ErrorCode::AccountNotFound)
                    && *final(self) == *old(self),
            old(self).has_pool(pool_authority) && old(self).has_user(caller, pool_authority)
                ==> (match transitions::withdraw_spec(
                old(self).pool(pool_authority).casino,
                old(self).user(caller, pool_authority),
                old(self).holding_of(caller),
                old(self).pool(pool_authority).custody,
                amount,
            ) {
                Ok(next) => {
                    &&& r is Ok
                    &&& final(self).pool(pool_authority) == (PoolEntry {
                        casino: next.0,
                        custody: next.3,
                    })
                    &&& final(self).user(caller, pool_authority) == next.1
                    &&& final(self).holding_of(caller) == next.2
                    &&& forall|a: u64| final(self).has_pool(a) <==> old(self).has_pool(a)
                    &&& forall|a: u64|
                        a != pool_authority && old(self).has_pool(a) ==> final(self).pool(a)
                            == old(self).pool(a)
                    &&& forall|u: u64, a: u64|
                        final(self).has_user(u, a) <==> old(self).has_user(u, a)
                    &&& forall|u: u64, a: u64|
                        !(u == caller && a == pool_authority) && old(self).has_user(u, a)
                            ==> final(self).user(u, a) == old(self).user(u, a)
                    &&& forall|o: u64|
                        o != caller ==> final(self).holding_of(o) == old(self).holding_of(o)
                },
                Err(e) => r == Err::<(), ErrorCode>(e) && *final(self) == *old(self),
            }),
    {
        let kp = match self.find_pool(pool_authority) {
            Some(k) => k,
            None => {
                return Err(ErrorCode::AccountNotFound);
            },
        };
        let ku = match self.find_user(caller, pool_authority) {
            Some(k) => k,
            None => {
                return Err(ErrorCode::AccountNotFound);
            },
        };
        proof {
            lemma_pool_at(self.pools@, pool_authority, kp as int);
            lemma_user_at(self.users@, caller, pool_authority, ku as int);
        }
        let mut entry = self.pools[kp];
        let mut ua = self.users[ku];
        let mut h = self.holding_balance(caller);
        let r = transitions::withdraw(&mut entry.casino, &mut ua, &mut h, &mut entry.custody, amount);
        match r {
            Ok(_) => {
                self.pools[kp] = entry;
                self.users[ku] = ua;
                proof {
                    lemma_pool_update(old(self).pools@, kp as int, entry);
                    lemma_user_update(old(self).users@, ku as int, ua);
                }
                self.set_holding(caller, h);
                Ok(())
            },
            Err(e) => Err(e),
        }
    }

    /// Run an authority emergency sweep: everything above the reserve moves
    /// from pool custody to the caller's holding. Every user record — its
    /// balance field in particular — and the pool record itself stay exactly
    /// as they were, whatever the outcome: the sweep is deliberately not
    /// reconciled against outstanding user balances.
    pub fn emergency_withdraw(&mut self, caller: u64, pool_authority: u64) -> (r: Result<
        (),
        ErrorCode,
    >)
        requires
            old(self).wf(),
        ensures
            final(self).wf(),
            final(self).pool_reserve == old(self).pool_reserve,
            forall|u: u64, a: u64| final(self).has_user(u, a) <==> old(self).has_user(u, a),
            forall|u: u64, a: u64|
                old(self).has_user(u, a) ==> final(self).user(u, a) == old(self).user(u, a),
            !old(self).has_pool(pool_authority) ==> r == Err::<(), ErrorCode>(
                ErrorCode::AccountNotFound,
            ) && *final(self) == *old(self),
            old(self).has_pool(pool_authority) ==> (match transitions::emergency_withdraw_spec(
                old(self).pool(pool_authority).casino,
                caller,
                old(self).holding_of(caller),
                old(self).pool(pool_authority).custody,
                old(self).pool_reserve,
            ) {
                Ok(next) => {
                    &&& r is Ok
                    &&& final(self).pool(pool_authority) == (PoolEntry {
                        casino: old(self).pool(pool_authority).casino,
                        custody: next.1,
                    })
                    &&& final(self).holding_of(caller) == next.0
                    &&& forall|a: u64| final(self).has_pool(a) <==> old(self).has_pool(a)
                    &&& forall|a: u64|
                        a != pool_authority && old(self).has_pool(a) ==> final(self).pool(a)
                            == old(self).pool(a)
                    &&& forall|o: u64|
                        o != caller ==> final(self).holding_of(o) == old(self).holding_of(o)
                },
                Err(e) => r == Err::<(), ErrorCode>(e) && *final(self) == *old(self),
            }),
            r is Ok ==> final(self).pool(pool_authority).custody == old(self).pool_reserve,
    {
        let kp = match self.find_pool(pool_authority) {
            Some(k) => k,
            None => {
                return Err(ErrorCode::AccountNotFound);
            },
        };
        proof {
            lemma_pool_at(self.pools@, pool_authority, kp as int);
        }
        let mut entry = self.pools[kp];
        let mut h = self.holding_balance(caller);
        let r = transitions::emergency_withdraw(
            &entry.casino,
            caller,
            &mut h,
            &mut entry.custody,
            self.pool_reserve,
        );
        match r {
            Ok(_) => {
                self.pools[kp] = entry;
                proof {
                    lemma_pool_update(old(self).pools@, kp as int, entry);
                }
                self.set_holding(caller, h);
                Ok(())
            },
            Err(e) => Err(e),
        }
    }

    /// Run an authority top-up: `amount` moves from the caller's holding into
    /// pool custody by the standard transfer, leaving every record — all
    /// deposit and withdrawal statistics included — untouched.
    pub fn owner_deposit(&mut self, caller: u64, pool_authority: u64, amount: u64) -> (r: Result<
        (),
        ErrorCode,
    >)
        requires
            old(self).wf(),
        ensures
            final(self).wf(),
            final(self).pool_reserve == old(self).pool_reserve,
            forall|u: u64, a: u64| final(self).has_user(u, a) <==> old(self).has_user(u, a),
            forall|u: u64, a: u64|
                old(self).has_user(u, a) ==> final(self).user(u, a) == old(self).user(u, a),
            !old(self).has_pool(pool_authority) ==> r == Err::<(), ErrorCode>(
                ErrorCode::AccountNotFound,
            ) && *final(self) == *old(self),
            old(self).has_pool(pool_authority) ==> (match transitions::owner_deposit_spec(
                old(self).pool(pool_authority).casino,
                caller,
                old(self).holding_of(caller),
                old(self).pool(pool_authority).custody,
                amount,
            ) {
                Ok(next) => {
                    &&& r is Ok
                    &&& final(self).pool(pool_authority) == (PoolEntry {
                        casino: old(self).pool(pool_authority).casino,
                        custody: next.1,
                    })
                    &&& final(self).holding_of(caller) == next.0
                    &&& forall|a: u64| final(self).has_pool(a) <==> old(self).has_pool(a)
                    &&& forall|a: u64|
                        a != pool_authority && old(self).has_pool(a) ==> final(self).pool(a)
                            == old(self).pool(a)
                    &&& forall|o: u64|
                        o != caller ==> final(self).holding_of(o) == old(self).holding_of(o)
                },
                Err(e) => r == Err::<(), ErrorCode>(e) && *final(self) == *old(self),
            }),
    {
        let kp = match self.find_pool(pool_authority) {
            Some(k) => k,
            None => {
                return Err(ErrorCode::AccountNotFound);
            },
        };
        proof {
            lemma_pool_at(self.pools@, pool_authority, kp as int);
        }
        let mut entry = self.pools[kp];
        let mut h = self.holding_balance(caller);
        let r = transitions::owner_deposit(
            &entry.casino,
            caller,
            &mut h,
            &mut entry.custody,
            amount,
        );
        match r {
            Ok(_) => {
                self.pools[kp] = entry;
                proof {
                    lemma_pool_update(old(self).pools@, kp as int, entry);
                }
                self.set_holding(caller, h);
                Ok(())
            },
            Err(e) => Err(e),
        }
    }

    /// Run an authority payout: `amount` moves from pool custody to the
    /// holding of an arbitrary `recipient`, with no ledger relationship
    /// required and no record or counter changed.
    pub fn payout(
        &mut self,
        caller: u64,
        pool_authority: u64,
        recipient: u64,
        amount: u64,
    ) -> (r: Result<(), ErrorCode>)
        requires
            old(self).wf(),
        ensures
            final(self).wf(),
            final(self).pool_reserve == old(self).pool_reserve,
            forall|u: u64, a: u64| final(self).has_user(u, a) <==> old(self).has_user(u, a),
            forall|u: u64, a: u64|
                old(self).has_user(u, a) ==> final(self).user(u, a) == old(self).user(u, a),
            !old(self).has_pool(pool_authority) ==> r == Err::<(), ErrorCode>(
                ErrorCode::AccountNotFound,
            ) && *final(self) == *old(self),
            old(self).has_pool(pool_authority) ==> (match transitions::payout_spec(
                old(self).pool(pool_authority).casino,
                caller,
                old(self).holding_of(recipient),
                old(self).pool(pool_authority).custody,
                amount,
            ) {
                Ok(next) => {
                    &&& r is Ok
                    &&& final(self).pool(pool_authority) == (PoolEntry {
                        casino: old(self).pool(pool_authority).casino,
                        custody: next.1,
                    })
                    &&& final(self).holding_of(recipient) == next.0
                    &&& forall|a: u64| final(self).has_pool(a) <==> old(self).has_pool(a)
                    &&& forall|a: u64|
                        a != pool_authority && old(self).has_pool(a) ==> final(self).pool(a)
                            == old(self).pool(a)
                    &&& forall|o: u64|
                        o != recipient ==> final(self).holding_of(o) == old(self).holding_of(o)
                },
                Err(e) => r == Err::<(), ErrorCode>(e) && *final(self) == *old(self),
            }),
    {
        let kp = match self.find_pool(pool_authority) {
            Some(k) => k,
            None => {
                return Err(ErrorCode::AccountNotFound);
            },
        };
        proof {
            lemma_pool_at(self.pools@, pool_authority, kp as int);
        }
        let mut entry = self.pools[kp];
        let mut h = self.holding_balance(recipient);
        let r = transitions::payout(&entry.casino, caller, &mut h, &mut entry.custody, amount);
        match r {
            Ok(_) => {
                self.pools[kp] = entry;
                proof {
                    lemma_pool_update(old(self).pools@, kp as int, entry);
                }
                self.set_holding(recipient, h);
                Ok(())
            },
            Err(e) => Err(e),
        }
    }

    /// The pool's withdrawable value: custodied value less the minimum
    /// reserve, clamped at zero. Read-only; open to any caller.
    pub fn get_balance(&self, pool_authority: u64) -> (r: Result<u64, ErrorCode>)
        requires
            self.wf(),
        ensures
            !self.has_pool(pool_authority) ==> r == Err::<u64, ErrorCode>(
                ErrorCode::AccountNotFound,
            ),
            self.has_pool(pool_authority) ==> r == Ok::<u64, ErrorCode>(
                transitions::withdrawable_value(
                    self.pool(pool_authority).custody,
                    self.pool_reserve,
                ),
            ),
    {
        let kp = match self.find_pool(pool_authority) {
            Some(k) => k,
            None => {
                return Err(ErrorCode::AccountNotFound);
            },
        };
        proof {
            lemma_pool_at(self.pools@, pool_authority, kp as int);
        }
        Ok(transitions::get_balance(self.pools[kp].custody, self.pool_reserve))
    }

    /// The user's stored spendable balance, read directly. Read-only; open to
    /// any caller that can name the records.
    pub fn get_user_balance(&self, user: u64, pool_authority: u64) -> (r: Result<u64, ErrorCode>)
        requires
            self.wf(),
        ensures
            !self.has_pool(pool_authority) ==> r == Err::<u64, ErrorCode>(
                ErrorCode::AccountNotFound,
            ),
            self.has_pool(pool_authority) && !self.has_user(user, pool_authority) ==> r
                == Err::<u64, ErrorCode>(ErrorCode::AccountNotFound),
            self.has_pool(pool_authority) && self.has_user(user, pool_authority) ==> r
                == Ok::<u64, ErrorCode>(self.user(user, pool_authority).balance),
    {
        if self.find_pool(pool_authority).is_none() {
            return Err(ErrorCode::AccountNotFound);
        }
        let ku = match self.find_user(user, pool_authority) {
            Some(k) => k,
            None => {
                return Err(ErrorCode::AccountNotFound);
            },
        };
        proof {
            lemma_user_at(self.users@, user, pool_authority, ku as int);
        }
        Ok(transitions::get_user_balance(&self.users[ku]))
    }
}

} // verus!
