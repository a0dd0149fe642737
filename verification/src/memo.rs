//! The memoizing wrapper for one owner: a cache, a result policy and the
//! protocol of a call.
//!
//! A call looks its key up; a hit returns a clone of the stored value and
//! leaves the computation alone. On a miss the computation runs once, its
//! output passes the result filter, what the filter admits is stored under
//! the key, and the output is returned whether or not it was stored.

use vstd::prelude::*;
use crate::cache::{peek, stored, touched, well_formed, Cache, Entry};
use crate::clock::Clock;
use crate::config::{BackendKind, Plan, ResultPolicy};
use crate::key::exact_eq;
use crate::outcome::{admits, should_store, Outcome};

verus! {

/// A cache with the policy for what goes into it.
pub struct Memo<K, V> {
    cache: Cache<K, V>,
    policy: ResultPolicy,
}

/// What the store step leaves of `before` when `output` was computed for
/// `key`: with an admitted output, the entries after a clone of it was stored
/// at `now`; otherwise the entries as they were.
pub open spec fn kept<K, V: Outcome>(
    kind: BackendKind,
    policy: ResultPolicy,
    before: Seq<Entry<K, V>>,
    after: Seq<Entry<K, V>>,
    key: K,
    output: V,
    now: u64,
) -> bool {
    if admits(policy, output) {
        exists|value: V| #[trigger]
            cloned(output, value) && after == stored(kind, before, key, value, now)
    } else {
        after == before
    }
}

/// What one call does: `out` is returned and `before` becomes `after`, where
/// the lookup happened at `looked_up` and the store, if any, at `stored_at`.
/// `produced` says which outputs the computation can give.
///
/// A hit returns a clone of the stored value, and the computation is no part
/// of it. A miss returns what the computation gave, stored or not.
pub open spec fn served<K, V: Outcome>(
    kind: BackendKind,
    policy: ResultPolicy,
    before: Seq<Entry<K, V>>,
    after: Seq<Entry<K, V>>,
    key: K,
    produced: spec_fn(V) -> bool,
    out: V,
    looked_up: u64,
    stored_at: u64,
) -> bool {
    match peek(kind, before, key, looked_up) {
        Some(value) => cloned(value, out) && after == touched(kind, before, key, looked_up),
        None => produced(out) && kept(
            kind,
            policy,
            touched(kind, before, key, looked_up),
            after,
            key,
            out,
            stored_at,
        ),
    }
}

/// [`served`], for a computation that is a function value: it can give the
/// outputs that its own contract lets it return.
pub open spec fn served_by<K, V: Outcome, F: FnOnce() -> V>(
    kind: BackendKind,
    policy: ResultPolicy,
    before: Seq<Entry<K, V>>,
    after: Seq<Entry<K, V>>,
    key: K,
    compute: F,
    out: V,
    looked_up: u64,
    stored_at: u64,
) -> bool {
    served(
        kind,
        policy,
        before,
        after,
        key,
        |v: V| compute.ensures((), v),
        out,
        looked_up,
        stored_at,
    )
}

/// [`served`], for a computation that is a function value of the inputs: it
/// can give the outputs that its own contract lets it return for `inputs`.
pub open spec fn served_with<K, V: Outcome, A, F: FnOnce(A) -> V>(
    kind: BackendKind,
    policy: ResultPolicy,
    before: Seq<Entry<K, V>>,
    after: Seq<Entry<K, V>>,
    key: K,
    compute: F,
    inputs: A,
    out: V,
    looked_up: u64,
    stored_at: u64,
) -> bool {
    served(
        kind,
        policy,
        before,
        after,
        key,
        |v: V| compute.ensures((inputs,), v),
        out,
        looked_up,
        stored_at,
    )
}

impl<K, V> View for Memo<K, V> {
    type V = Seq<Entry<K, V>>;

    closed spec fn view(&self) -> Seq<Entry<K, V>> {
        self.cache@
    }
}

impl<K, V> Memo<K, V> {
    /// The eviction discipline of the cache.
    pub closed spec fn discipline(&self) -> BackendKind {
        self.cache.discipline()
    }

    /// The policy of the result filter.
    pub closed spec fn filter(&self) -> ResultPolicy {
        self.policy
    }

    /// A wrapper with an empty cache of the given discipline.
    pub fn new(kind: BackendKind, policy: ResultPolicy) -> (memo: Self)
        ensures
            memo@ == Seq::<Entry<K, V>>::empty(),
            memo.discipline() == kind,
            memo.filter() == policy,
    {
        Memo { cache: Cache::new(kind), policy }
    }

    /// A wrapper with an empty cache, as `plan` asks for it.
    pub fn from_plan(plan: &Plan) -> (memo: Self)
        ensures
            memo@ == Seq::<Entry<K, V>>::empty(),
            memo.discipline() == plan.backend,
            memo.filter() == plan.policy,
    {
        Memo::new(plan.backend, plan.policy)
    }

    /// The eviction discipline of the cache.
    pub fn kind(&self) -> (kind: BackendKind)
        ensures
            kind == self.discipline(),
    {
        self.cache.kind()
    }

    /// The policy of the result filter.
    pub fn policy(&self) -> (policy: ResultPolicy)
        ensures
            policy == self.filter(),
    {
        self.policy
    }

    /// The entries of every wrapper are well formed.
    pub proof fn lemma_well_formed(self)
        ensures
            well_formed(self.discipline(), self@),
    {
        self.cache.lemma_well_formed();
    }

    /// The number of entries, stale ones included.
    pub fn len(&self) -> (n: usize)
        ensures
            n == self@.len(),
    {
        self.cache.len()
    }

    /// The time by which a call judges the entries: the reading of `clock`
    /// for a time-bounded cache, zero for the others, which never ask.
    pub(crate) fn time(&self, clock: &Clock) -> (now: u64)
        ensures
            !(self.discipline() is TimeBounded) ==> now == 0,
    {
        match self.cache.kind() {
            BackendKind::TimeBounded(_) => clock.seconds(),
            _ => 0,
        }
    }
}

impl<K: PartialEq, V: Outcome> Memo<K, V> {
    /// The lookup step of a call at time `now`.
    pub fn lookup(&mut self, key: &K, now: u64) -> (found: Option<V>)
        requires
            exact_eq::<K>(),
        ensures
            final(self).discipline() == old(self).discipline(),
            final(self).filter() == old(self).filter(),
            final(self)@ == touched(old(self).discipline(), old(self)@, *key, now),
            match peek(old(self).discipline(), old(self)@, *key, now) {
                Some(value) => found is Some && cloned(value, found->0),
                None => found is None,
            },
    {
        self.cache.get(key, now)
    }

    /// The store step of a call at time `now`: `output`, computed for `key`,
    /// goes through the result filter.
    pub fn store(&mut self, key: K, output: &V, now: u64)
        requires
            exact_eq::<K>(),
        ensures
            final(self).discipline() == old(self).discipline(),
            final(self).filter() == old(self).filter(),
            kept(
                old(self).discipline(),
                old(self).filter(),
                old(self)@,
                final(self)@,
                key,
                *output,
                now,
            ),
    {
        match should_store(self.policy, output) {
            Some(value) => {
                self.cache.set(key, value, now);
            },
            None => {},
        }
    }

    /// One call at time `now`, for a caller that keeps the time itself.
    ///
    /// The computation has to be callable only where the lookup misses: on a
    /// hit it is not run.
    pub fn call_at<F: FnOnce() -> V>(&mut self, key: K, compute: F, now: u64) -> (out: V)
        requires
            exact_eq::<K>(),
            peek(old(self).discipline(), old(self)@, key, now) is None ==> compute.requires(()),
        ensures
            final(self).discipline() == old(self).discipline(),
            final(self).filter() == old(self).filter(),
            served_by(
                old(self).discipline(),
                old(self).filter(),
                old(self)@,
                final(self)@,
                key,
                compute,
                out,
                now,
                now,
            ),
    {
        match self.lookup(&key, now) {
            Some(value) => value,
            None => {
                let out = compute();
                self.store(key, &out, now);
                out
            },
        }
    }

    /// One call, timed by `clock`.
    ///
    /// The clock is read for a time-bounded cache only, once for the lookup
    /// and once for the store, so the outcome is the one that [`served`]
    /// describes for some two readings. For the other disciplines both times
    /// are zero and the outcome is fixed.
    ///
    /// The computation has to be callable only where the lookup can miss: in
    /// a time-bounded cache, whose entries go stale, or where the key is not
    /// found. On a hit it is not run.
    pub fn call<F: FnOnce() -> V>(&mut self, key: K, compute: F, clock: &Clock) -> (out: V)
        requires
            exact_eq::<K>(),
            old(self).discipline() is TimeBounded || peek(
                old(self).discipline(),
                old(self)@,
                key,
                0,
            ) is None ==> compute.requires(()),
        ensures
            final(self).discipline() == old(self).discipline(),
            final(self).filter() == old(self).filter(),
            exists|looked_up: u64, stored_at: u64| #[trigger]
                served_by(
                    old(self).discipline(),
                    old(self).filter(),
                    old(self)@,
                    final(self)@,
                    key,
                    compute,
                    out,
                    looked_up,
                    stored_at,
                ),
            !(old(self).discipline() is TimeBounded) ==> served_by(
                old(self).discipline(),
                old(self).filter(),
                old(self)@,
                final(self)@,
                key,
                compute,
                out,
                0,
                0,
            ),
    {
        let looked_up = self.time(clock);
        match self.lookup(&key, looked_up) {
            Some(value) => {
                assert(served_by(
                    old(self).discipline(),
                    old(self).filter(),
                    old(self)@,
                    self@,
                    key,
                    compute,
                    value,
                    looked_up,
                    looked_up,
                ));
                value
            },
            None => {
                let out = compute();
                let stored_at = self.time(clock);
                self.store(key, &out, stored_at);
                assert(served_by(
                    old(self).discipline(),
                    old(self).filter(),
                    old(self)@,
                    self@,
                    key,
                    compute,
                    out,
                    looked_up,
                    stored_at,
                ));
                out
            },
        }
    }

    /// One call from the inputs, timed by `clock`: the key is derived from
    /// them, and on a miss the computation gets them as they were.
    ///
    /// `derive` is the key deriver: [`crate::key::default_key`] for the
    /// default strategy, a conversion of the caller's for a custom one. It
    /// sees the inputs by reference, so it cannot use them up. What follows
    /// is [`Memo::call`] for the derived key: both times are zero unless the
    /// cache is time-bounded.
    pub fn call_with<A, D: FnOnce(&A) -> K, F: FnOnce(A) -> V>(
        &mut self,
        inputs: A,
        derive: D,
        compute: F,
        clock: &Clock,
    ) -> (out: V)
        requires
            exact_eq::<K>(),
            derive.requires((&inputs,)),
            forall|key: K|
                #[trigger] derive.ensures((&inputs,), key) && (old(self).discipline() is TimeBounded
                    || peek(old(self).discipline(), old(self)@, key, 0) is None)
                    ==> compute.requires((inputs,)),
        ensures
            final(self).discipline() == old(self).discipline(),
            final(self).filter() == old(self).filter(),
            exists|key: K, looked_up: u64, stored_at: u64|
                derive.ensures((&inputs,), key) && #[trigger] served_with(
                    old(self).discipline(),
                    old(self).filter(),
                    old(self)@,
                    final(self)@,
                    key,
                    compute,
                    inputs,
                    out,
                    looked_up,
                    stored_at,
                ),
            !(old(self).discipline() is TimeBounded) ==> exists|key: K|
                derive.ensures((&inputs,), key) && #[trigger] served_with(
                    old(self).discipline(),
                    old(self).filter(),
                    old(self)@,
                    final(self)@,
                    key,
                    compute,
                    inputs,
                    out,
                    0,
                    0,
                ),
    {
        let key = derive(&inputs);
        let ghost derived = key;
        let run = move || -> (v: V)
            requires
                compute.requires((inputs,)),
            ensures
                compute.ensures((inputs,), v),
        {
            compute(inputs)
        };
        let out = self.call(key, run, clock);
        proof {
            let (looked_up, stored_at) = choose|looked_up: u64, stored_at: u64| #[trigger]
                served_by(
                    old(self).discipline(),
                    old(self).filter(),
                    old(self)@,
                    self@,
                    derived,
                    run,
                    out,
                    looked_up,
                    stored_at,
                );
            assert(served_with(
                old(self).discipline(),
                old(self).filter(),
                old(self)@,
                self@,
                derived,
                compute,
                inputs,
                out,
                looked_up,
                stored_at,
            ));
            if !(old(self).discipline() is TimeBounded) {
                assert(served_with(
                    old(self).discipline(),
                    old(self).filter(),
                    old(self)@,
                    self@,
                    derived,
                    compute,
                    inputs,
                    out,
                    0,
                    0,
                ));
            }
        }
        out
    }
}

} // verus!
