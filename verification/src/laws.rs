//! What holds of the cache and of the memoizing wrapper, proved over the
//! spec functions that their contracts use.

use vstd::prelude::*;
use crate::cache::{
    entry_of, fresh, holds, lemma_slot, lemma_stored, lemma_touched, peek, retains, stored,
    touched, victim, well_formed, Entry,
};
use crate::config::{
    resolve_spec, selectors, BackendKind, ConfigError, ConfigView, PlanView, ResultPolicy,
};
use crate::key::faithful_clone;
use crate::memo::served;
use crate::outcome::{admits, passed, Outcome};

verus! {

/// A configuration is resolved exactly where it has no fault: its key
/// descriptors come together or not at all and pass their syntax checks, at
/// most one backend is selected, and at most one of the two policy flags is
/// set. Two selected backends, or a key descriptor without the other, are
/// refused whatever else the configuration holds.
pub proof fn lemma_resolution_succeeds_without_fault(
    config: ConfigView,
    computation: Seq<char>,
    key_type_ok: bool,
    convert_ok: bool,
)
    ensures
        resolve_spec(config, computation, key_type_ok, convert_ok) is Ok <==> {
            &&& (config.key is Some) == (config.convert is Some)
            &&& config.key is Some ==> key_type_ok && convert_ok
            &&& selectors(config.unbound, config.size, config.time) <= 1
            &&& !(config.result && config.option)
        },
        selectors(config.unbound, config.size, config.time) > 1 ==> resolve_spec(
            config,
            computation,
            key_type_ok,
            convert_ok,
        ) is Err,
        (config.key is Some) != (config.convert is Some) ==> resolve_spec(
            config,
            computation,
            key_type_ok,
            convert_ok,
        ) == Err::<PlanView, ConfigError>(ConfigError::IncompleteKeySpec),
        config.key is None && config.convert is None && selectors(
            config.unbound,
            config.size,
            config.time,
        ) > 1 ==> resolve_spec(config, computation, key_type_ok, convert_ok) == Err::<
            PlanView,
            ConfigError,
        >(ConfigError::ConflictingBackendSpec),
{
}

/// Whether every stored value is what the pure function `f` gives for its key.
pub open spec fn agrees<K, V>(s: Seq<Entry<K, V>>, f: spec_fn(K) -> V) -> bool {
    forall|e: Entry<K, V>| #[trigger] s.contains(e) ==> e.value == f(e.key)
}

/// A value stored under a key is found under it for as long as it is fresh,
/// in every cache that retains anything.
pub proof fn lemma_stored_value_is_found<K, V>(
    kind: BackendKind,
    s: Seq<Entry<K, V>>,
    key: K,
    value: V,
    stored_at: u64,
    now: u64,
)
    requires
        well_formed(kind, s),
        retains(kind),
        fresh(kind, stored_at, now),
    ensures
        peek(kind, stored(kind, s, key, value, stored_at), key, now) == Some(value),
{
    lemma_stored(kind, s, key, value, stored_at);
}

/// Of two stores under one key the later one stays, and the key has one
/// entry: the earlier value is gone for good.
pub proof fn lemma_last_store_wins<K, V>(
    kind: BackendKind,
    s: Seq<Entry<K, V>>,
    key: K,
    earlier: V,
    later: V,
    earlier_at: u64,
    later_at: u64,
    now: u64,
)
    requires
        well_formed(kind, s),
        retains(kind),
        fresh(kind, later_at, now),
    ensures
        ({
            let first = stored(kind, s, key, earlier, earlier_at);
            let after = stored(kind, first, key, later, later_at);
            &&& well_formed(kind, after)
            &&& peek(kind, after, key, now) == Some(later)
            &&& forall|e: Entry<K, V>| #[trigger]
                after.contains(e) && e.key == key ==> e.value == later
        }),
{
    let first = stored(kind, s, key, earlier, earlier_at);
    lemma_stored(kind, s, key, earlier, earlier_at);
    let after = stored(kind, first, key, later, later_at);
    lemma_stored(kind, first, key, later, later_at);
    assert forall|e: Entry<K, V>| #[trigger] after.contains(e) && e.key == key implies e.value
        == later by {
        let i = choose|i: int| 0 <= i < after.len() && after[i] == e;
        lemma_slot(after, key, i);
    }
}

/// In a time-bounded cache a value is no longer found once the clock has
/// moved on by the lifespan since it was stored.
pub proof fn lemma_stale_value_is_absent<K, V>(
    lifespan: u64,
    s: Seq<Entry<K, V>>,
    key: K,
    value: V,
    stored_at: u64,
    now: u64,
)
    requires
        well_formed(BackendKind::TimeBounded(lifespan), s),
        now - stored_at >= lifespan,
    ensures
        peek(
            BackendKind::TimeBounded(lifespan),
            stored(BackendKind::TimeBounded(lifespan), s, key, value, stored_at),
            key,
            now,
        ) is None,
        !holds(
            touched(
                BackendKind::TimeBounded(lifespan),
                stored(BackendKind::TimeBounded(lifespan), s, key, value, stored_at),
                key,
                now,
            ),
            key,
        ),
{
    let kind = BackendKind::TimeBounded(lifespan);
    lemma_stored(kind, s, key, value, stored_at);
    lemma_touched(kind, stored(kind, s, key, value, stored_at), key, now);
}

/// A size-bounded cache that is full makes room for a new key by dropping its
/// least recently used entry and no other: that key is gone, every other key
/// is found with its value as before, and the cache is as full as it was.
pub proof fn lemma_full_cache_drops_least_recent<K, V>(
    capacity: usize,
    s: Seq<Entry<K, V>>,
    key: K,
    value: V,
    now: u64,
)
    requires
        well_formed(BackendKind::SizeBounded(capacity), s),
        capacity > 0,
        s.len() == capacity,
        !holds(s, key),
    ensures
        ({
            let kind = BackendKind::SizeBounded(capacity);
            let after = stored(kind, s, key, value, now);
            &&& after.len() == capacity
            &&& peek(kind, after, s[0].key, now) is None
            &&& peek(kind, after, key, now) == Some(value)
            &&& forall|k: K|
                k != s[0].key && k != key ==> #[trigger] peek(kind, after, k, now) == peek(
                    kind,
                    s,
                    k,
                    now,
                )
        }),
{
    lemma_stored(BackendKind::SizeBounded(capacity), s, key, value, now);
}

/// A lookup makes the entry it hits the most recently used one of a
/// size-bounded cache, so that it is the last to leave.
pub proof fn lemma_hit_renews_entry<K, V>(capacity: usize, s: Seq<Entry<K, V>>, key: K, now: u64)
    requires
        well_formed(BackendKind::SizeBounded(capacity), s),
        holds(s, key),
    ensures
        ({
            let after = touched(BackendKind::SizeBounded(capacity), s, key, now);
            &&& after.len() == s.len()
            &&& after.last() == entry_of(s, key)
        }),
{
}

/// Entries under different keys are independent. A lookup of one key changes
/// what is found under no other key. A store under one key changes what is
/// found under another only by eviction: the other key is then the victim.
pub proof fn lemma_keys_are_independent<K, V>(
    kind: BackendKind,
    s: Seq<Entry<K, V>>,
    key: K,
    other: K,
    value: V,
    at: u64,
    now: u64,
)
    requires
        well_formed(kind, s),
        key != other,
    ensures
        peek(kind, touched(kind, s, key, at), other, now) == peek(kind, s, other, now),
        victim(kind, s, key) != Some(other) ==> peek(
            kind,
            stored(kind, s, key, value, at),
            other,
            now,
        ) == peek(kind, s, other, now),
        victim(kind, s, key) == Some(other) ==> peek(
            kind,
            stored(kind, s, key, value, at),
            other,
            now,
        ) is None,
        !(kind is SizeBounded) ==> victim(kind, s, key) is None,
{
    lemma_touched(kind, s, key, at);
    lemma_stored(kind, s, key, value, at);
    let looked = touched(kind, s, key, at);
    let after = stored(kind, s, key, value, at);
    assert(holds(looked, other) ==> entry_of(looked, other) == entry_of(s, other));
    assert(holds(after, other) ==> entry_of(after, other) == entry_of(s, other));
}

/// Whether every stored value is a clone of an output that `policy` admits.
pub open spec fn all_passed<K, V: Outcome>(policy: ResultPolicy, s: Seq<Entry<K, V>>) -> bool {
    forall|e: Entry<K, V>| #[trigger] s.contains(e) ==> passed(policy, e.value)
}

/// A lookup changes what is found under no key, but for a stale entry under
/// its own key, which it drops for good.
pub proof fn lemma_lookup_keeps_what_is_found<K, V>(
    kind: BackendKind,
    s: Seq<Entry<K, V>>,
    key: K,
    at: u64,
    any: K,
    now: u64,
)
    requires
        well_formed(kind, s),
    ensures
        any != key || peek(kind, s, key, at) is Some ==> peek(
            kind,
            touched(kind, s, key, at),
            any,
            now,
        ) == peek(kind, s, any, now),
        peek(kind, s, key, at) is None ==> peek(kind, touched(kind, s, key, at), key, now) is None,
{
    lemma_touched(kind, s, key, at);
}

/// Nothing gets into the cache but through the result filter: where every
/// stored value passed it before a call, every stored value passed it after.
pub proof fn lemma_cache_holds_admitted_outputs<K, V: Outcome>(
    kind: BackendKind,
    policy: ResultPolicy,
    before: Seq<Entry<K, V>>,
    after: Seq<Entry<K, V>>,
    key: K,
    produced: spec_fn(V) -> bool,
    out: V,
    looked_up: u64,
    stored_at: u64,
)
    requires
        well_formed(kind, before),
        all_passed(policy, before),
        served(kind, policy, before, after, key, produced, out, looked_up, stored_at),
    ensures
        all_passed(policy, after),
{
    let base = touched(kind, before, key, looked_up);
    lemma_touched(kind, before, key, looked_up);
    if peek(kind, before, key, looked_up) is None && admits(policy, out) {
        let value = choose|value: V| #[trigger]
            cloned(out, value) && after == stored(kind, base, key, value, stored_at);
        lemma_stored(kind, base, key, value, stored_at);
    }
}

/// An output that the policy does not admit leaves the cache as the lookup
/// left it, so that the key is still not found and the next call computes
/// again.
pub proof fn lemma_rejected_output_is_not_stored<K, V: Outcome>(
    kind: BackendKind,
    policy: ResultPolicy,
    before: Seq<Entry<K, V>>,
    after: Seq<Entry<K, V>>,
    key: K,
    produced: spec_fn(V) -> bool,
    out: V,
    looked_up: u64,
    stored_at: u64,
    now: u64,
)
    requires
        well_formed(kind, before),
        served(kind, policy, before, after, key, produced, out, looked_up, stored_at),
        peek(kind, before, key, looked_up) is None,
        !admits(policy, out),
    ensures
        after == touched(kind, before, key, looked_up),
        !holds(after, key),
        peek(kind, after, key, now) is None,
{
    lemma_touched(kind, before, key, looked_up);
}

/// Under the success-only policy a failure is not admitted, and under the
/// present-only policy an absent value is not.
pub proof fn lemma_failure_and_absence_are_rejected<T: Clone, E: Clone>(
    failure: Result<T, E>,
    absence: Option<T>,
)
    requires
        failure is Err,
        absence is None,
    ensures
        !admits(ResultPolicy::OkOnly, failure),
        !admits(ResultPolicy::SomeOnly, absence),
{
}

/// An admitted output of a miss is found by a lookup that follows, for as
/// long as it is fresh: the call that follows is a hit and does not compute.
pub proof fn lemma_call_after_miss_hits<K, V: Outcome>(
    kind: BackendKind,
    policy: ResultPolicy,
    before: Seq<Entry<K, V>>,
    after: Seq<Entry<K, V>>,
    key: K,
    produced: spec_fn(V) -> bool,
    out: V,
    looked_up: u64,
    stored_at: u64,
    now: u64,
)
    requires
        well_formed(kind, before),
        retains(kind),
        served(kind, policy, before, after, key, produced, out, looked_up, stored_at),
        peek(kind, before, key, looked_up) is None,
        admits(policy, out),
        fresh(kind, stored_at, now),
    ensures
        peek(kind, after, key, now) matches Some(value) && cloned(out, value),
{
    let base = touched(kind, before, key, looked_up);
    lemma_touched(kind, before, key, looked_up);
    let value = choose|value: V| #[trigger]
        cloned(out, value) && after == stored(kind, base, key, value, stored_at);
    lemma_stored(kind, base, key, value, stored_at);
}

/// An unbounded cache never loses a key: what was found before a call is
/// found after it, whatever key the call was for.
pub proof fn lemma_unbounded_cache_keeps_keys<K, V: Outcome>(
    policy: ResultPolicy,
    before: Seq<Entry<K, V>>,
    after: Seq<Entry<K, V>>,
    key: K,
    produced: spec_fn(V) -> bool,
    out: V,
    looked_up: u64,
    stored_at: u64,
    other: K,
    now: u64,
)
    requires
        well_formed(BackendKind::Unbounded, before),
        served(
            BackendKind::Unbounded,
            policy,
            before,
            after,
            key,
            produced,
            out,
            looked_up,
            stored_at,
        ),
        holds(before, other),
    ensures
        holds(after, other),
        peek(BackendKind::Unbounded, after, other, now) is Some,
{
    let kind = BackendKind::Unbounded;
    let base = touched(kind, before, key, looked_up);
    lemma_touched(kind, before, key, looked_up);
    if peek(kind, before, key, looked_up) is None && admits(policy, out) {
        let value = choose|value: V| #[trigger]
            cloned(out, value) && after == stored(kind, base, key, value, stored_at);
        lemma_stored(kind, base, key, value, stored_at);
    }
}

/// For a pure computation with a faithful clone, a call returns the value of
/// the function at its key, on a hit as on a miss, and the cache goes on
/// holding only such values.
pub proof fn lemma_call_returns_pure_value<K, V: Outcome>(
    kind: BackendKind,
    policy: ResultPolicy,
    before: Seq<Entry<K, V>>,
    after: Seq<Entry<K, V>>,
    key: K,
    produced: spec_fn(V) -> bool,
    out: V,
    looked_up: u64,
    stored_at: u64,
    f: spec_fn(K) -> V,
)
    requires
        well_formed(kind, before),
        agrees(before, f),
        faithful_clone::<V>(),
        forall|v: V| #[trigger] produced(v) ==> v == f(key),
        served(kind, policy, before, after, key, produced, out, looked_up, stored_at),
    ensures
        out == f(key),
        agrees(after, f),
        well_formed(kind, after),
{
    let base = touched(kind, before, key, looked_up);
    lemma_touched(kind, before, key, looked_up);
    if peek(kind, before, key, looked_up) is Some {
        assert(before.contains(entry_of(before, key)));
    } else if admits(policy, out) {
        let value = choose|value: V| #[trigger]
            cloned(out, value) && after == stored(kind, base, key, value, stored_at);
        lemma_stored(kind, base, key, value, stored_at);
    }
}

/// One step on a cache: the lookup step or the store step of some call.
/// Callers that share a cache take the lock for each step, so whatever they
/// do together is a sequence of such steps.
pub enum Step<K, V> {
    /// A lookup of `key` at time `at`.
    Lookup { key: K, at: u64 },
    /// A store of `value` under `key` at time `at`.
    Store { key: K, value: V, at: u64 },
}

/// The entries after the steps were taken in their order, from `s` on.
pub open spec fn after_steps<K, V>(
    kind: BackendKind,
    s: Seq<Entry<K, V>>,
    steps: Seq<Step<K, V>>,
) -> Seq<Entry<K, V>>
    decreases steps.len(),
{
    if steps.len() == 0 {
        s
    } else {
        let before = after_steps(kind, s, steps.drop_last());
        match steps.last() {
            Step::Lookup { key, at } => touched(kind, before, key, at),
            Step::Store { key, value, at } => stored(kind, before, key, value, at),
        }
    }
}

/// Whatever steps are taken on an empty cache, and in whatever order, the
/// entries stay well formed, and every entry is one that a store step put
/// there: a lookup never finds a value that no call stored under its key.
pub proof fn lemma_entries_come_from_stores<K, V>(kind: BackendKind, steps: Seq<Step<K, V>>)
    ensures
        well_formed(kind, after_steps(kind, Seq::empty(), steps)),
        forall|e: Entry<K, V>| #[trigger]
            after_steps(kind, Seq::empty(), steps).contains(e) ==> steps.contains(
                Step::Store { key: e.key, value: e.value, at: e.stamp },
            ),
    decreases steps.len(),
{
    let start = Seq::<Entry<K, V>>::empty();
    let after = after_steps(kind, start, steps);
    if steps.len() > 0 {
        let earlier = steps.drop_last();
        let before = after_steps(kind, start, earlier);
        lemma_entries_come_from_stores(kind, earlier);
        match steps.last() {
            Step::Lookup { key, at } => {
                lemma_touched(kind, before, key, at);
            },
            Step::Store { key, value, at } => {
                lemma_stored(kind, before, key, value, at);
            },
        }
        assert forall|e: Entry<K, V>| #[trigger] after.contains(e) implies steps.contains(
            Step::Store { key: e.key, value: e.value, at: e.stamp },
        ) by {
            let put = Step::Store { key: e.key, value: e.value, at: e.stamp };
            if before.contains(e) {
                let i = choose|i: int| 0 <= i < earlier.len() && earlier[i] == put;
                assert(steps[i] == put);
            } else {
                assert(steps.last() == put);
            }
        }
    }
}

/// Where every store step stores the value of the pure function `f` at its
/// key, the cache holds nothing but such values, whatever the steps and their
/// order: callers that race for a key leave one of the values they computed.
pub proof fn lemma_steps_keep_pure_values<K, V>(
    kind: BackendKind,
    steps: Seq<Step<K, V>>,
    f: spec_fn(K) -> V,
)
    requires
        forall|i: int|
            0 <= i < steps.len() ==> (#[trigger] steps[i] matches Step::Store { key, value, .. }
                ==> value == f(key)),
    ensures
        agrees(after_steps(kind, Seq::empty(), steps), f),
{
    let after = after_steps(kind, Seq::<Entry<K, V>>::empty(), steps);
    lemma_entries_come_from_stores(kind, steps);
    assert forall|e: Entry<K, V>| #[trigger] after.contains(e) implies e.value == f(e.key) by {
        let put = Step::Store { key: e.key, value: e.value, at: e.stamp };
        let i = choose|i: int| 0 <= i < steps.len() && steps[i] == put;
        assert(steps[i] matches Step::Store { key, value, .. } ==> value == f(key));
    }
}

/// One call of a wrapper, as it was served: its key, the outputs that its
/// computation can give, the value that the call returned, and the times of
/// its lookup and of its store.
#[verifier::reject_recursive_types(V)]
pub struct Call<K, V> {
    pub key: K,
    pub produced: spec_fn(V) -> bool,
    pub out: V,
    pub looked_up: u64,
    pub stored_at: u64,
}

/// Whether call `i` took the entries `states[i]` to `states[i + 1]` as a call
/// of the wrapper does.
pub open spec fn served_in_turn<K, V: Outcome>(
    kind: BackendKind,
    policy: ResultPolicy,
    calls: Seq<Call<K, V>>,
    states: Seq<Seq<Entry<K, V>>>,
    i: int,
) -> bool {
    served(
        kind,
        policy,
        states[i],
        states[i + 1],
        calls[i].key,
        calls[i].produced,
        calls[i].out,
        calls[i].looked_up,
        calls[i].stored_at,
    )
}

/// Whether `states` are the entries before, between and after the `calls`
/// that one owner makes one after the other on a wrapper whose cache starts
/// empty.
pub open spec fn in_sequence<K, V: Outcome>(
    kind: BackendKind,
    policy: ResultPolicy,
    calls: Seq<Call<K, V>>,
    states: Seq<Seq<Entry<K, V>>>,
) -> bool {
    &&& states.len() == calls.len() + 1
    &&& states[0] == Seq::<Entry<K, V>>::empty()
    &&& forall|i: int|
        0 <= i < calls.len() ==> #[trigger] served_in_turn(kind, policy, calls, states, i)
}

/// Whether call `i` runs its computation: its lookup finds nothing.
pub open spec fn computes<K, V>(
    kind: BackendKind,
    calls: Seq<Call<K, V>>,
    states: Seq<Seq<Entry<K, V>>>,
    i: int,
) -> bool {
    peek(kind, states[i], calls[i].key, calls[i].looked_up) is None
}

/// The keys of the first `n` calls.
pub open spec fn keys_asked<K, V>(calls: Seq<Call<K, V>>, n: int) -> Set<K> {
    Set::new(|key: K| exists|j: int| 0 <= j < n && (#[trigger] calls[j]).key == key)
}

/// How many of the first `n` calls run their computation.
pub open spec fn computations<K, V>(
    kind: BackendKind,
    calls: Seq<Call<K, V>>,
    states: Seq<Seq<Entry<K, V>>>,
    n: int,
) -> nat
    decreases n,
{
    if n <= 0 {
        0
    } else {
        let earlier = computations(kind, calls, states, n - 1);
        if computes(kind, calls, states, n - 1) {
            earlier + 1
        } else {
            earlier
        }
    }
}

/// With an unbounded cache and the policy that stores every output, the keys
/// that the cache holds before call `n` of a sequence are the keys of the
/// calls before it.
pub proof fn lemma_unbounded_cache_holds_the_keys_asked<K, V: Outcome>(
    calls: Seq<Call<K, V>>,
    states: Seq<Seq<Entry<K, V>>>,
    n: int,
)
    requires
        in_sequence(BackendKind::Unbounded, ResultPolicy::All, calls, states),
        0 <= n <= calls.len(),
    ensures
        well_formed(BackendKind::Unbounded, states[n]),
        forall|key: K| #[trigger] holds(states[n], key) <==> keys_asked(calls, n).contains(key),
    decreases n,
{
    let kind = BackendKind::Unbounded;
    if n > 0 {
        let i = n - 1;
        let call = calls[i];
        lemma_unbounded_cache_holds_the_keys_asked(calls, states, i);
        assert(served_in_turn(kind, ResultPolicy::All, calls, states, i));
        lemma_touched(kind, states[i], call.key, call.looked_up);
        if peek(kind, states[i], call.key, call.looked_up) is None {
            let value = choose|value: V| #[trigger]
                cloned(call.out, value) && states[n] == stored(
                    kind,
                    states[i],
                    call.key,
                    value,
                    call.stored_at,
                );
            lemma_stored(kind, states[i], call.key, value, call.stored_at);
        }
        assert forall|key: K| #[trigger] holds(states[n], key) <==> keys_asked(calls, n).contains(
            key,
        ) by {
            if keys_asked(calls, n).contains(key) {
                let j = choose|j: int| 0 <= j < n && (#[trigger] calls[j]).key == key;
                if j < i {
                    assert(keys_asked(calls, i).contains(key));
                }
            }
            if holds(states[n], key) && key != call.key {
                assert(keys_asked(calls, i).contains(key));
                let j = choose|j: int| 0 <= j < i && (#[trigger] calls[j]).key == key;
                assert(calls[j].key == key);
            }
            if key == call.key {
                assert(calls[i].key == key);
            }
        }
    }
}

/// With an unbounded cache and the policy that stores every output, a call of
/// a sequence runs its computation exactly where its key was not asked
/// before: the computation runs in the first call of each key and never again
/// for a key already seen.
pub proof fn lemma_computation_runs_for_new_keys_only<K, V: Outcome>(
    calls: Seq<Call<K, V>>,
    states: Seq<Seq<Entry<K, V>>>,
    i: int,
)
    requires
        in_sequence(BackendKind::Unbounded, ResultPolicy::All, calls, states),
        0 <= i < calls.len(),
    ensures
        computes(BackendKind::Unbounded, calls, states, i) <==> !keys_asked(calls, i).contains(
            calls[i].key,
        ),
{
    lemma_unbounded_cache_holds_the_keys_asked(calls, states, i);
}

/// With an unbounded cache and the policy that stores every output, the
/// computation runs as many times in a sequence of calls as the calls have
/// keys that differ.
pub proof fn lemma_computation_runs_once_for_each_key<K, V: Outcome>(
    calls: Seq<Call<K, V>>,
    states: Seq<Seq<Entry<K, V>>>,
    n: int,
)
    requires
        in_sequence(BackendKind::Unbounded, ResultPolicy::All, calls, states),
        0 <= n <= calls.len(),
    ensures
        keys_asked(calls, n).finite(),
        computations(BackendKind::Unbounded, calls, states, n) == keys_asked(calls, n).len(),
    decreases n,
{
    if n == 0 {
        assert(keys_asked(calls, 0) =~= Set::<K>::empty());
    } else {
        let i = n - 1;
        lemma_computation_runs_once_for_each_key(calls, states, i);
        lemma_computation_runs_for_new_keys_only(calls, states, i);
        assert(keys_asked(calls, n) =~= keys_asked(calls, i).insert(calls[i].key)) by {
            assert forall|key: K| keys_asked(calls, n).contains(key) implies keys_asked(
                calls,
                i,
            ).insert(calls[i].key).contains(key) by {
                let j = choose|j: int| 0 <= j < n && (#[trigger] calls[j]).key == key;
                if j < i {
                    assert(keys_asked(calls, i).contains(key));
                }
            }
            assert forall|key: K|
                keys_asked(calls, i).insert(calls[i].key).contains(key) implies keys_asked(
                calls,
                n,
            ).contains(key) by {
                if key == calls[i].key {
                    assert(calls[i].key == key);
                } else {
                    let j = choose|j: int| 0 <= j < i && (#[trigger] calls[j]).key == key;
                    assert(calls[j].key == key);
                }
            }
        }
    }
}

} // verus!
