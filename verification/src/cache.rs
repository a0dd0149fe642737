//! The cache backend: a store of entries under one of three eviction
//! disciplines.
//!
//! The entries are kept in the order of their last use, the least recently
//! used one first. What a lookup finds and what a lookup or a store leaves
//! behind are spec functions on that sequence: [`peek`], [`touched`] and
//! [`stored`].

use vstd::prelude::*;
use crate::config::BackendKind;
use crate::key::exact_eq;

verus! {

/// A stored value with its key and the time, in seconds, at which it was
/// stored.
pub struct Entry<K, V> {
    pub key: K,
    pub value: V,
    pub stamp: u64,
}

/// A cache of one eviction discipline.
pub struct Cache<K, V> {
    kind: BackendKind,
    entries: Vec<Entry<K, V>>,
}

/// Whether `s` has an entry for `key`.
pub open spec fn holds<K, V>(s: Seq<Entry<K, V>>, key: K) -> bool {
    exists|i: int| 0 <= i < s.len() && (#[trigger] s[i]).key == key
}

/// The place of the entry for `key`, where `s` has one.
pub open spec fn slot<K, V>(s: Seq<Entry<K, V>>, key: K) -> int {
    choose|i: int| 0 <= i < s.len() && (#[trigger] s[i]).key == key
}

/// No two entries of `s` have the same key.
pub open spec fn distinct_keys<K, V>(s: Seq<Entry<K, V>>) -> bool {
    forall|i: int, j: int|
        0 <= i < j < s.len() ==> (#[trigger] s[i]).key != (#[trigger] s[j]).key
}

/// What holds of the entries of every cache: their keys are distinct, and a
/// size-bounded cache has no more of them than its capacity.
pub open spec fn well_formed<K, V>(kind: BackendKind, s: Seq<Entry<K, V>>) -> bool {
    &&& distinct_keys(s)
    &&& kind matches BackendKind::SizeBounded(capacity) ==> s.len() <= capacity
}

/// The whole seconds by which `now` is later than `stamp`: zero where it is
/// not later.
pub open spec fn age(stamp: u64, now: u64) -> int {
    if now > stamp {
        now - stamp
    } else {
        0
    }
}

/// Whether an entry stored at `stamp` still counts at `now`. Only a
/// time-bounded cache lets entries expire: an entry is stale once the clock
/// has moved on by the lifespan. Stamps are whole seconds, so an entry may go
/// stale up to a second early, and none older than the lifespan is ever
/// served.
pub open spec fn fresh(kind: BackendKind, stamp: u64, now: u64) -> bool {
    match kind {
        BackendKind::TimeBounded(lifespan) => age(stamp, now) < lifespan,
        _ => true,
    }
}

/// What a lookup of `key` at `now` finds.
pub open spec fn peek<K, V>(kind: BackendKind, s: Seq<Entry<K, V>>, key: K, now: u64) -> Option<
    V,
> {
    if holds(s, key) && fresh(kind, s[slot(s, key)].stamp, now) {
        Some(s[slot(s, key)].value)
    } else {
        None
    }
}

/// The entries after a lookup of `key` at `now`: a stale entry is dropped,
/// and in a size-bounded cache a hit makes its entry the most recently used.
pub open spec fn touched<K, V>(kind: BackendKind, s: Seq<Entry<K, V>>, key: K, now: u64) -> Seq<
    Entry<K, V>,
> {
    if !holds(s, key) {
        s
    } else if !fresh(kind, s[slot(s, key)].stamp, now) {
        s.remove(slot(s, key))
    } else if kind is SizeBounded {
        s.remove(slot(s, key)).push(s[slot(s, key)])
    } else {
        s
    }
}

/// The entries but the one for `key`.
pub open spec fn without<K, V>(s: Seq<Entry<K, V>>, key: K) -> Seq<Entry<K, V>> {
    if holds(s, key) {
        s.remove(slot(s, key))
    } else {
        s
    }
}

/// The entries after `value` was stored under `key` at `now`: the new entry
/// replaces an earlier one for `key` and is the most recently used. Where a
/// size-bounded cache is full, the least recently used entry leaves; one of
/// capacity zero keeps nothing.
pub open spec fn stored<K, V>(
    kind: BackendKind,
    s: Seq<Entry<K, V>>,
    key: K,
    value: V,
    now: u64,
) -> Seq<Entry<K, V>> {
    let rest = without(s, key);
    let entry = Entry { key, value, stamp: now };
    match kind {
        BackendKind::SizeBounded(capacity) => if capacity == 0 {
            rest
        } else if rest.len() >= capacity {
            rest.remove(0).push(entry)
        } else {
            rest.push(entry)
        },
        _ => rest.push(entry),
    }
}

/// With distinct keys, the entry for a key is where the key is seen.
pub proof fn lemma_slot<K, V>(s: Seq<Entry<K, V>>, key: K, i: int)
    requires
        distinct_keys(s),
        0 <= i < s.len(),
        s[i].key == key,
    ensures
        holds(s, key),
        slot(s, key) == i,
{
    let j = slot(s, key);
    assert(s[j].key == s[i].key);
}

/// Where place `j` stands once the entry at another place `gap` is removed.
pub open spec fn closed_up(j: int, gap: int) -> int {
    if j < gap {
        j
    } else {
        j - 1
    }
}

/// Removing an entry keeps the keys distinct, takes its key away and leaves
/// every other key where it was, one place down behind the gap.
pub proof fn lemma_remove<K, V>(s: Seq<Entry<K, V>>, i: int)
    requires
        distinct_keys(s),
        0 <= i < s.len(),
    ensures
        distinct_keys(s.remove(i)),
        !holds(s.remove(i), s[i].key),
        forall|key: K| key != s[i].key ==> holds(s.remove(i), key) == holds(s, key),
        forall|key: K|
            key != s[i].key && holds(s, key) ==> #[trigger] slot(s.remove(i), key) == closed_up(
                slot(s, key),
                i,
            ),
{
    let r = s.remove(i);
    assert forall|key: K| key != s[i].key implies holds(r, key) == holds(s, key) by {
        if holds(s, key) {
            assert(r[closed_up(slot(s, key), i)] == s[slot(s, key)]);
        }
    }
    assert forall|key: K| key != s[i].key && holds(s, key) implies #[trigger] slot(r, key)
        == closed_up(slot(s, key), i) by {
        lemma_slot(r, key, closed_up(slot(s, key), i));
    }
}

/// Appending an entry whose key is new keeps the keys distinct, puts its key
/// at the end and leaves every other key where it was.
pub proof fn lemma_push<K, V>(s: Seq<Entry<K, V>>, entry: Entry<K, V>)
    requires
        distinct_keys(s),
        !holds(s, entry.key),
    ensures
        distinct_keys(s.push(entry)),
        holds(s.push(entry), entry.key),
        slot(s.push(entry), entry.key) == s.len(),
        forall|key: K| key != entry.key ==> holds(s.push(entry), key) == holds(s, key),
        forall|key: K|
            key != entry.key && holds(s, key) ==> #[trigger] slot(s.push(entry), key) == slot(
                s,
                key,
            ),
{
    let p = s.push(entry);
    lemma_slot(p, entry.key, s.len() as int);
    assert forall|key: K| key != entry.key implies holds(p, key) == holds(s, key) by {
        if holds(s, key) {
            assert(p[slot(s, key)] == s[slot(s, key)]);
        }
    }
    assert forall|key: K| key != entry.key && holds(s, key) implies #[trigger] slot(p, key)
        == slot(s, key) by {
        lemma_slot(p, key, slot(s, key));
    }
}

/// The entry for `key`, where `s` has one.
pub open spec fn entry_of<K, V>(s: Seq<Entry<K, V>>, key: K) -> Entry<K, V> {
    s[slot(s, key)]
}

/// Whether a cache of this discipline can keep an entry at all: any but a
/// size-bounded one of capacity zero.
pub open spec fn retains(kind: BackendKind) -> bool {
    kind matches BackendKind::SizeBounded(capacity) ==> capacity > 0
}

/// The key whose entry leaves when a value is stored under `key`: the least
/// recently used one, where `key` is new to a size-bounded cache that is full.
pub open spec fn victim<K, V>(kind: BackendKind, s: Seq<Entry<K, V>>, key: K) -> Option<K> {
    match kind {
        BackendKind::SizeBounded(capacity) => if capacity > 0 && !holds(s, key) && s.len()
            >= capacity {
            Some(s[0].key)
        } else {
            None
        },
        _ => None,
    }
}

/// A lookup of `key` keeps the entries well formed and never adds one. It
/// leaves every other key with its entry, and `key` with its entry exactly
/// where the lookup was a hit.
pub proof fn lemma_touched<K, V>(kind: BackendKind, s: Seq<Entry<K, V>>, key: K, now: u64)
    requires
        well_formed(kind, s),
    ensures
        well_formed(kind, touched(kind, s, key, now)),
        touched(kind, s, key, now).len() <= s.len(),
        forall|e: Entry<K, V>| #[trigger]
            touched(kind, s, key, now).contains(e) ==> s.contains(e),
        holds(touched(kind, s, key, now), key) == (peek(kind, s, key, now) is Some),
        holds(touched(kind, s, key, now), key) ==> entry_of(touched(kind, s, key, now), key)
            == entry_of(s, key),
        forall|k: K| k != key ==> #[trigger] holds(touched(kind, s, key, now), k) == holds(s, k),
        forall|k: K|
            k != key && holds(s, k) ==> #[trigger] entry_of(touched(kind, s, key, now), k)
                == entry_of(s, k),
{
    if holds(s, key) {
        let i = slot(s, key);
        lemma_remove(s, i);
        if fresh(kind, s[i].stamp, now) && kind is SizeBounded {
            lemma_push(s.remove(i), s[i]);
        }
    }
}

/// A store under `key` keeps the entries well formed and adds nothing but the
/// new entry. Where the cache retains anything, `key` then has the new entry.
/// Every other key keeps its entry, but for the victim, which loses it.
pub proof fn lemma_stored<K, V>(
    kind: BackendKind,
    s: Seq<Entry<K, V>>,
    key: K,
    value: V,
    now: u64,
)
    requires
        well_formed(kind, s),
    ensures
        well_formed(kind, stored(kind, s, key, value, now)),
        forall|e: Entry<K, V>| #[trigger]
            stored(kind, s, key, value, now).contains(e) ==> s.contains(e) || e == (Entry {
                key,
                value,
                stamp: now,
            }),
        retains(kind) ==> holds(stored(kind, s, key, value, now), key) && entry_of(
            stored(kind, s, key, value, now),
            key,
        ) == (Entry { key, value, stamp: now }),
        !retains(kind) ==> stored(kind, s, key, value, now).len() == 0,
        forall|k: K|
            k != key ==> #[trigger] holds(stored(kind, s, key, value, now), k) == (holds(s, k)
                && victim(kind, s, key) != Some(k)),
        forall|k: K|
            k != key && holds(stored(kind, s, key, value, now), k) ==> #[trigger] entry_of(
                stored(kind, s, key, value, now),
                k,
            ) == entry_of(s, k),
{
    let rest = without(s, key);
    if holds(s, key) {
        lemma_remove(s, slot(s, key));
    }
    let evicting = kind matches BackendKind::SizeBounded(capacity) && capacity > 0 && rest.len()
        >= capacity;
    let kept = if evicting { rest.remove(0) } else { rest };
    if evicting {
        lemma_remove(rest, 0);
    }
    if retains(kind) {
        lemma_push(kept, Entry { key, value, stamp: now });
    }
}

impl<K, V> View for Cache<K, V> {
    type V = Seq<Entry<K, V>>;

    /// The entries, the least recently used one first.
    closed spec fn view(&self) -> Seq<Entry<K, V>> {
        if well_formed(self.kind, self.entries@) {
            self.entries@
        } else {
            Seq::empty()
        }
    }
}

impl<K, V> Cache<K, V> {
    #[verifier::type_invariant]
    spec fn inv(self) -> bool {
        well_formed(self.kind, self.entries@)
    }

    /// The eviction discipline of this cache.
    pub closed spec fn discipline(&self) -> BackendKind {
        self.kind
    }

    /// The entries of every cache are well formed.
    pub proof fn lemma_well_formed(self)
        ensures
            well_formed(self.discipline(), self@),
    {
    }

    /// An empty cache of the given discipline.
    pub fn new(kind: BackendKind) -> (cache: Self)
        ensures
            cache@ == Seq::<Entry<K, V>>::empty(),
            cache.discipline() == kind,
    {
        Cache { kind, entries: Vec::new() }
    }

    /// The eviction discipline of this cache.
    pub fn kind(&self) -> (kind: BackendKind)
        ensures
            kind == self.discipline(),
    {
        self.kind
    }

    /// The number of entries, stale ones included.
    pub fn len(&self) -> (n: usize)
        ensures
            n == self@.len(),
    {
        proof {
            use_type_invariant(self);
        }
        self.entries.len()
    }
}

impl<K: PartialEq, V: Clone> Cache<K, V> {
    /// Where the entry for `key` stands, if there is one.
    fn find(&self, key: &K) -> (place: Option<usize>)
        requires
            exact_eq::<K>(),
        ensures
            self.entries@ == self@,
            well_formed(self.kind, self.entries@),
            match place {
                Some(i) => holds(self@, *key) && i == slot(self@, *key) && i < self@.len(),
                None => !holds(self@, *key),
            },
    {
        proof {
            use_type_invariant(self);
        }
        let mut i: usize = 0;
        while i < self.entries.len()
            invariant
                i <= self.entries@.len(),
                exact_eq::<K>(),
                well_formed(self.kind, self.entries@),
                forall|j: int| 0 <= j < i ==> (#[trigger] self.entries@[j]).key != *key,
            decreases self.entries@.len() - i,
        {
            if self.entries[i].key == *key {
                proof {
                    lemma_slot(self.entries@, *key, i as int);
                }
                return Some(i);
            }
            i += 1;
        }
        None
    }

    /// Looks `key` up at time `now`. A hit returns a clone of the stored value.
    pub fn get(&mut self, key: &K, now: u64) -> (found: Option<V>)
        requires
            exact_eq::<K>(),
        ensures
            final(self).discipline() == old(self).discipline(),
            final(self)@ == touched(old(self).discipline(), old(self)@, *key, now),
            match peek(old(self).discipline(), old(self)@, *key, now) {
                Some(value) => found is Some && cloned(value, found->0),
                None => found is None,
            },
    {
        let place = self.find(key);
        match place {
            None => None,
            Some(i) => {
                let stamp: u64 = self.entries[i].stamp;
                let stale = match self.kind {
                    BackendKind::TimeBounded(lifespan) => {
                        lifespan == 0 || (now > stamp && now - stamp >= lifespan)
                    },
                    _ => false,
                };
                let sized = match self.kind {
                    BackendKind::SizeBounded(_) => true,
                    _ => false,
                };
                if stale {
                    proof {
                        lemma_remove(self.entries@, i as int);
                    }
                    let mut entries: Vec<Entry<K, V>> = Vec::new();
                    std::mem::swap(&mut entries, &mut self.entries);
                    let _gone = entries.remove(i);
                    self.entries = entries;
                    None
                } else {
                    let value = self.entries[i].value.clone();
                    if sized {
                        proof {
                            lemma_remove(self.entries@, i as int);
                            lemma_push(self.entries@.remove(i as int), self.entries@[i as int]);
                        }
                        let mut entries: Vec<Entry<K, V>> = Vec::new();
                        std::mem::swap(&mut entries, &mut self.entries);
                        let entry = entries.remove(i);
                        entries.push(entry);
                        self.entries = entries;
                    }
                    Some(value)
                }
            },
        }
    }

    /// Stores `value` under `key` at time `now`.
    pub fn set(&mut self, key: K, value: V, now: u64)
        requires
            exact_eq::<K>(),
        ensures
            final(self).discipline() == old(self).discipline(),
            final(self)@ == stored(old(self).discipline(), old(self)@, key, value, now),
    {
        let place = self.find(&key);
        let mut entries: Vec<Entry<K, V>> = Vec::new();
        std::mem::swap(&mut entries, &mut self.entries);
        match place {
            Some(i) => {
                proof {
                    lemma_remove(entries@, i as int);
                }
                let _replaced = entries.remove(i);
            },
            None => {},
        }
        let room = match self.kind {
            BackendKind::SizeBounded(capacity) => {
                if capacity == 0 {
                    false
                } else {
                    if entries.len() >= capacity {
                        proof {
                            lemma_remove(entries@, 0);
                        }
                        let _evicted = entries.remove(0);
                    }
                    true
                }
            },
            _ => true,
        };
        if room {
            proof {
                lemma_push(entries@, Entry { key, value, stamp: now });
            }
            entries.push(Entry { key, value, stamp: now });
        }
        self.entries = entries;
    }
}

} // verus!
