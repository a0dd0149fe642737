//! The memoizing wrapper for many callers: one cache instance behind a lock,
//! made on first use.
//!
//! The instance starts out unmade. The first call makes it, exactly once
//! however many callers arrive together, and from then on every call finds
//! the same instance for as long as the wrapper lives. A call holds the lock
//! for its lookup and again for its store, never while the computation runs:
//! callers that miss on one key together may each compute, and the store that
//! comes last stays.

use vstd::prelude::*;
use core::marker::PhantomData;
use once_cell::sync::OnceCell;
use std::sync::{Mutex, MutexGuard, PoisonError};
use crate::cache::{entry_of, lemma_stored, lemma_touched, peek, stored, touched, Entry};
use crate::clock::Clock;
use crate::config::{
    resolve, resolve_spec, BackendKind, Config, ConfigError, Plan, PlanView, ResultPolicy,
};
use crate::key::exact_eq;
use crate::memo::{kept, Memo};
use crate::outcome::{admits, passed, Outcome};

verus! {

/// `once_cell::sync::OnceCell`, a cell that is written at most once. Nothing
/// of it is visible to proofs.
#[verifier::external_type_specification]
#[verifier::external_body]
#[verifier::reject_recursive_types(T)]
pub struct ExOnceCell<T>(once_cell::sync::OnceCell<T>);

/// `std::sync::Mutex`, a lock around a value. Nothing of it is visible to
/// proofs.
#[verifier::external_type_specification]
#[verifier::external_body]
#[verifier::reject_recursive_types(T)]
pub struct ExMutex<T: ?Sized>(std::sync::Mutex<T>);

/// `std::sync::MutexGuard`, the held lock of a `Mutex`. Nothing of it is
/// visible to proofs.
#[verifier::external_type_specification]
#[verifier::external_body]
#[verifier::reject_recursive_types(T)]
pub struct ExMutexGuard<'a, T: ?Sized + 'a>(std::sync::MutexGuard<'a, T>);

/// `std::sync::PoisonError`, which a `Mutex` hands out once a holder of its
/// lock has panicked. Nothing of it is visible to proofs.
#[verifier::external_type_specification]
#[verifier::external_body]
#[verifier::reject_recursive_types(T)]
pub struct ExPoisonError<T>(std::sync::PoisonError<T>);

/// `OnceCell::new` makes an empty cell. Nothing is claimed of the result.
pub assume_specification<T>[ once_cell::sync::OnceCell::<T>::new ]() -> (cell: OnceCell<T>)
;

/// `OnceCell::get` gives the content of the cell, if it has been written.
/// Other callers may write the cell at any time, so nothing is claimed of the
/// result.
pub assume_specification<'a, T>[ once_cell::sync::OnceCell::<T>::get ](
    cell: &'a OnceCell<T>,
) -> (content: Option<&'a T>)
;

/// `Mutex::new` makes an unlocked mutex around `value`. Nothing is claimed of
/// the result.
pub assume_specification<T>[ std::sync::Mutex::<T>::new ](value: T) -> (mutex: Mutex<T>)
;

/// `Mutex::lock` waits for the lock and hands it out, inside an error where a
/// holder has panicked before. Nothing is claimed of the result. `std` leaves
/// open what happens where the calling thread holds the lock already; this
/// library takes the lock only in [`Shared::call`], which has let go of it
/// before it takes it again.
pub assume_specification<'a, T: ?Sized>[ std::sync::Mutex::<T>::lock ](
    mutex: &'a Mutex<T>,
) -> (r: Result<MutexGuard<'a, T>, PoisonError<MutexGuard<'a, T>>>)
;

/// Reaches the value behind a held lock, by the `DerefMut` of `MutexGuard`.
/// Nothing is claimed of the value: other holders may have changed it.
#[verifier::external_body]
fn held<'a, 'b, T>(guard: &'a mut MutexGuard<'b, T>) -> (value: &'a mut T) {
    &mut **guard
}

/// What a cache may hold, and so what a call may return, under each key.
///
/// A shared cache is changed by callers that do not see each other. What each
/// of them can rely on is a statement that all of them keep: every stored
/// value is one that the contract allows for its key.
pub trait Contract<K, V> {
    /// Whether `value` may be stored and returned for `key`.
    spec fn allows(key: K, value: V) -> bool;
}

/// The contract that allows every value.
pub struct Unconstrained;

impl<K, V> Contract<K, V> for Unconstrained {
    open spec fn allows(key: K, value: V) -> bool {
        true
    }
}

/// Whether the contract `P` allows every clone of a value that it allows for
/// `key`.
pub open spec fn allows_clones<K, V: Clone, P: Contract<K, V>>(key: K) -> bool {
    forall|a: V, b: V| #[trigger] P::allows(key, a) && #[trigger] cloned(a, b) ==> P::allows(key, b)
}

/// Whether `value` may come out of a shared cache under `key`: the contract
/// `P` allows it, and it is a clone of an output that `policy` admits.
pub open spec fn vetted<K, V: Outcome, P: Contract<K, V>>(
    policy: ResultPolicy,
    key: K,
    value: V,
) -> bool {
    P::allows(key, value) && passed(policy, value)
}

/// Whether every entry of `s` is vetted.
pub open spec fn all_vetted<K, V: Outcome, P: Contract<K, V>>(
    policy: ResultPolicy,
    s: Seq<Entry<K, V>>,
) -> bool {
    forall|e: Entry<K, V>| #[trigger] s.contains(e) ==> vetted::<K, V, P>(policy, e.key, e.value)
}

/// What the lookup step of a call does at `now`: `before` becomes `after`
/// as a lookup of `key` leaves it, and `found` is a clone of what the lookup
/// finds, or nothing where it finds nothing.
pub open spec fn looked_up<K, V: Clone>(
    kind: BackendKind,
    before: Seq<Entry<K, V>>,
    after: Seq<Entry<K, V>>,
    key: K,
    found: Option<V>,
    now: u64,
) -> bool {
    &&& after == touched(kind, before, key, now)
    &&& match peek(kind, before, key, now) {
        Some(value) => found is Some && cloned(value, found->0),
        None => found is None,
    }
}

/// A wrapper all of whose entries are vetted.
///
/// Each step takes the wrapper out of its place and puts it back when the
/// step is done. Should the `==` of a key or the `clone` of a value panic
/// within the step, what stays behind is an empty cache, which is vetted too.
struct Vetted<K, V: Outcome, P: Contract<K, V>> {
    memo: Memo<K, V>,
    contract: PhantomData<P>,
}

impl<K, V: Outcome, P: Contract<K, V>> Vetted<K, V, P> {
    #[verifier::type_invariant]
    spec fn inv(self) -> bool {
        all_vetted::<K, V, P>(self.memo.filter(), self.memo@)
    }

    /// A wrapper with an empty cache of the given discipline and policy.
    fn new(kind: BackendKind, policy: ResultPolicy) -> (made: Self)
        ensures
            made.memo@ == Seq::<Entry<K, V>>::empty(),
            made.memo.discipline() == kind,
            made.memo.filter() == policy,
    {
        let memo = Memo::new(kind, policy);
        assert(all_vetted::<K, V, P>(policy, memo@));
        Vetted { memo, contract: PhantomData }
    }
}

impl<K: PartialEq, V: Outcome, P: Contract<K, V>> Vetted<K, V, P> {
    /// The lookup step: what is found is a clone of a vetted value.
    ///
    /// An instance is made with the policy of its wrapper. The wrapper names
    /// its policy here all the same, and an instance of another policy finds
    /// nothing and stays as it is: so the contract holds of `policy` without
    /// a word on where the instance came from.
    ///
    /// Where the policies agree, the step is the lookup of the cache at the
    /// time that the clock gives: zero unless the cache is time-bounded.
    fn lookup(&mut self, key: &K, policy: ResultPolicy, clock: &Clock) -> (found: Option<V>)
        requires
            exact_eq::<K>(),
        ensures
            final(self).memo.discipline() == old(self).memo.discipline(),
            final(self).memo.filter() == old(self).memo.filter(),
            old(self).memo.filter() != policy ==> found is None && final(self).memo@ == old(
                self,
            ).memo@,
            old(self).memo.filter() == policy ==> exists|now: u64| #[trigger]
                looked_up(
                    old(self).memo.discipline(),
                    old(self).memo@,
                    final(self).memo@,
                    *key,
                    found,
                    now,
                ),
            old(self).memo.filter() == policy && !(old(self).memo.discipline() is TimeBounded)
                ==> looked_up(
                old(self).memo.discipline(),
                old(self).memo@,
                final(self).memo@,
                *key,
                found,
                0,
            ),
            found matches Some(value) ==> exists|stored: V| #[trigger]
                cloned(stored, value) && vetted::<K, V, P>(policy, *key, stored),
    {
        proof {
            use_type_invariant(&*self);
        }
        if self.memo.policy() != policy {
            return None;
        }
        let now = self.memo.time(clock);
        let mut memo = Memo::new(self.memo.kind(), self.memo.policy());
        std::mem::swap(&mut memo, &mut self.memo);
        let ghost before = memo@;
        proof {
            memo.lemma_well_formed();
        }
        let found = memo.lookup(key, now);
        proof {
            lemma_touched(memo.discipline(), before, *key, now);
            if peek(memo.discipline(), before, *key, now) is Some {
                assert(before.contains(entry_of(before, *key)));
            }
        }
        self.memo = memo;
        assert(looked_up(old(self).memo.discipline(), before, self.memo@, *key, found, now));
        found
    }

    /// The store step, for an output whose clones the contract allows: the
    /// output goes through the result filter, and what the filter admits is
    /// stored under `key` at the time that the clock gives, which is zero
    /// unless the cache is time-bounded.
    fn store(&mut self, key: K, output: &V, clock: &Clock)
        requires
            exact_eq::<K>(),
            forall|value: V| #[trigger] cloned(*output, value) ==> P::allows(key, value),
        ensures
            final(self).memo.discipline() == old(self).memo.discipline(),
            final(self).memo.filter() == old(self).memo.filter(),
            exists|now: u64| #[trigger]
                kept(
                    old(self).memo.discipline(),
                    old(self).memo.filter(),
                    old(self).memo@,
                    final(self).memo@,
                    key,
                    *output,
                    now,
                ),
            !(old(self).memo.discipline() is TimeBounded) ==> kept(
                old(self).memo.discipline(),
                old(self).memo.filter(),
                old(self).memo@,
                final(self).memo@,
                key,
                *output,
                0,
            ),
    {
        proof {
            use_type_invariant(&*self);
        }
        let now = self.memo.time(clock);
        let mut memo = Memo::new(self.memo.kind(), self.memo.policy());
        std::mem::swap(&mut memo, &mut self.memo);
        let ghost before = memo@;
        proof {
            memo.lemma_well_formed();
        }
        memo.store(key, output, now);
        proof {
            if admits(memo.filter(), *output) {
                let value = choose|value: V| #[trigger]
                    cloned(*output, value) && memo@ == stored(
                        memo.discipline(),
                        before,
                        key,
                        value,
                        now,
                    );
                lemma_stored(memo.discipline(), before, key, value, now);
            }
        }
        self.memo = memo;
        assert(kept(
            old(self).memo.discipline(),
            old(self).memo.filter(),
            before,
            self.memo@,
            key,
            *output,
            now,
        ));
    }
}

/// A memoizing wrapper that many callers share.
#[verifier::reject_recursive_types(K)]
#[verifier::reject_recursive_types(V)]
#[verifier::reject_recursive_types(P)]
pub struct Shared<K, V: Outcome, P: Contract<K, V>> {
    name: String,
    kind: BackendKind,
    policy: ResultPolicy,
    clock: Clock,
    cell: OnceCell<Mutex<Vetted<K, V, P>>>,
}

/// Makes the cache instance: an empty cache behind an unlocked mutex.
fn fresh<K, V: Outcome, P: Contract<K, V>>(kind: BackendKind, policy: ResultPolicy) -> Mutex<
    Vetted<K, V, P>,
> {
    Mutex::new(Vetted::new(kind, policy))
}

/// Calls `OnceCell::get_or_init` with [`fresh`] as the initializer: it gives
/// the content of the cell, which it first writes with a fresh instance where
/// the cell is empty, exactly once however many callers arrive together. The
/// content may come from another caller, so nothing is claimed of it.
/// `once_cell` leaves open what happens where an initializer reaches for the
/// same cell; the initializer is fixed here, and it makes a value and touches
/// no cell.
#[verifier::external_body]
fn made_once<'a, K, V: Outcome, P: Contract<K, V>>(
    cell: &'a OnceCell<Mutex<Vetted<K, V, P>>>,
    kind: BackendKind,
    policy: ResultPolicy,
) -> (instance: &'a Mutex<Vetted<K, V, P>>) {
    cell.get_or_init(|| fresh(kind, policy))
}

impl<K, V: Outcome, P: Contract<K, V>> Shared<K, V, P> {
    /// The name of the cache instance.
    pub closed spec fn label(&self) -> Seq<char> {
        self.name@
    }

    /// The eviction discipline of the cache.
    pub closed spec fn discipline(&self) -> BackendKind {
        self.kind
    }

    /// The policy of the result filter.
    pub closed spec fn filter(&self) -> ResultPolicy {
        self.policy
    }

    /// A wrapper whose cache instance is not made yet.
    pub fn new(name: String, kind: BackendKind, policy: ResultPolicy) -> (shared: Self)
        ensures
            shared.label() == name@,
            shared.discipline() == kind,
            shared.filter() == policy,
    {
        Shared { name, kind, policy, clock: Clock::start(), cell: OnceCell::new() }
    }

    /// A wrapper as `plan` asks for it, whose cache instance is not made yet.
    pub fn from_plan(plan: &Plan) -> (shared: Self)
        ensures
            shared.follows(plan@),
    {
        Shared::new(plan.name.clone(), plan.backend, plan.policy)
    }

    /// Whether this is a wrapper as `plan` asks for it.
    pub open spec fn follows(&self, plan: PlanView) -> bool {
        &&& self.label() == plan.name
        &&& self.discipline() == plan.backend
        &&& self.filter() == plan.policy
    }

    /// The name of the cache instance.
    pub fn name(&self) -> (name: &str)
        ensures
            name@ == self.label(),
    {
        self.name.as_str()
    }

    /// The eviction discipline of the cache.
    pub fn kind(&self) -> (kind: BackendKind)
        ensures
            kind == self.discipline(),
    {
        self.kind
    }

    /// The policy of the result filter.
    pub fn policy(&self) -> (policy: ResultPolicy)
        ensures
            policy == self.filter(),
    {
        self.policy
    }

    /// Whether the cache instance has been made. Another caller may make it
    /// at any time, so nothing is promised of the answer.
    pub fn is_ready(&self) -> bool {
        self.cell.get().is_some()
    }

    /// The cache instance, made now if no caller has made it before.
    fn instance(&self) -> &Mutex<Vetted<K, V, P>> {
        made_once(&self.cell, self.kind, self.policy)
    }
}

impl<K: PartialEq, V: Outcome, P: Contract<K, V>> Shared<K, V, P> {
    /// One call.
    ///
    /// The lock is held for the lookup and, after a miss, again for the store;
    /// the computation runs with the lock let go. Where a holder of the lock
    /// has panicked, the cache is left alone and the call computes.
    ///
    /// Other callers change the cache between the steps of this one, so the
    /// contract says what holds whatever they did. The value returned is the
    /// output of the computation, or it is a clone of a stored value, which
    /// the contract `P` allows for `key` and which passed the result filter.
    /// Either way it is one that `P` allows for `key`.
    pub fn call<F: FnOnce() -> V>(&self, key: K, compute: F) -> (out: V)
        requires
            exact_eq::<K>(),
            compute.requires(()),
            forall|v: V| #[trigger] compute.ensures((), v) ==> P::allows(key, v),
            allows_clones::<K, V, P>(key),
        ensures
            P::allows(key, out),
            compute.ensures((), out) || exists|stored: V| #[trigger]
                cloned(stored, out) && vetted::<K, V, P>(self.filter(), key, stored),
    {
        let instance = self.instance();
        let found = match instance.lock() {
            Ok(mut guard) => held(&mut guard).lookup(&key, self.policy, &self.clock),
            Err(_) => None,
        };
        match found {
            Some(value) => value,
            None => {
                let out = compute();
                match instance.lock() {
                    Ok(mut guard) => {
                        held(&mut guard).store(key, &out, &self.clock);
                    },
                    Err(_) => {},
                }
                out
            },
        }
    }
}

impl<K: PartialEq, V: Outcome, P: Contract<K, V>> Shared<K, V, P> {
    /// One call from the inputs: the key is derived from them, and on a miss
    /// the computation gets them as they were.
    ///
    /// `derive` is the key deriver: [`crate::key::default_key`] for the
    /// default strategy, a conversion of the caller's for a custom one. It
    /// sees the inputs by reference, so it cannot use them up.
    pub fn call_with<A, D: FnOnce(&A) -> K, F: FnOnce(A) -> V>(
        &self,
        inputs: A,
        derive: D,
        compute: F,
    ) -> (out: V)
        requires
            exact_eq::<K>(),
            derive.requires((&inputs,)),
            compute.requires((inputs,)),
            forall|key: K, v: V|
                derive.ensures((&inputs,), key) && #[trigger] compute.ensures((inputs,), v)
                    ==> #[trigger] P::allows(key, v),
            forall|key: K| #[trigger]
                derive.ensures((&inputs,), key) ==> allows_clones::<K, V, P>(key),
        ensures
            exists|key: K|
                derive.ensures((&inputs,), key) && #[trigger] P::allows(key, out) && (
                compute.ensures((inputs,), out) || exists|stored: V| #[trigger]
                    cloned(stored, out) && vetted::<K, V, P>(self.filter(), key, stored)),
    {
        let key = derive(&inputs);
        let ghost derived = key;
        let run = move || -> (v: V)
            requires
                compute.requires((inputs,)),
            ensures
                compute.ensures((inputs,), v),
        {
            compute(inputs)
        };
        let out = self.call(key, run);
        out
    }
}

/// Whether `made` is what a resolution came to: the wrapper that its plan
/// asks for, or its refusal.
pub open spec fn made_from<K, V: Outcome, P: Contract<K, V>>(
    made: Result<Shared<K, V, P>, ConfigError>,
    resolved: Result<PlanView, ConfigError>,
) -> bool {
    match (made, resolved) {
        (Ok(shared), Ok(plan)) => shared.follows(plan),
        (Err(refusal), Err(e)) => refusal == e,
        _ => false,
    }
}

/// Makes the memoizing wrapper that `config` describes for the computation of
/// the given name, or refuses the configuration. The cache instance of the
/// wrapper is not made yet: the first call makes it.
///
/// The configuration is resolved as [`resolve`] does it, with the answers of
/// the two syntax checks on a custom key given by the caller.
pub fn cached<K, V: Outcome, P: Contract<K, V>>(
    config: &Config,
    computation: &str,
    key_type_ok: bool,
    convert_ok: bool,
) -> (made: Result<Shared<K, V, P>, ConfigError>)
    ensures
        made_from(made, resolve_spec(config@, computation@, key_type_ok, convert_ok)),
{
    match resolve(config, computation, key_type_ok, convert_ok) {
        Ok(plan) => Ok(Shared::from_plan(&plan)),
        Err(refusal) => Err(refusal),
    }
}

} // verus!
