use std::collections::HashMap;
use vstd::prelude::*;

use crate::error::{PetstoreError, PetstoreResult};

verus! {

broadcast use vstd::std_specs::hash::group_hash_axioms;

/// `k` is in `ids`, and no member of `ids` is larger.
pub open spec fn is_max_id(ids: Set<u64>, k: u64) -> bool {
    ids.contains(k) && forall|j: u64| ids.contains(j) ==> j <= k
}

/// The identifier a store whose keys are `ids` hands out next: one past the
/// largest key, or 0 when there is none (a finite set has a largest member
/// unless it is empty).
pub open spec fn next_id(ids: Set<u64>) -> int {
    if exists|k: u64| is_max_id(ids, k) {
        (choose|k: u64| is_max_id(ids, k)) + 1
    } else {
        0
    }
}

/// `s` lists the keys of `m` in strictly ascending order.
pub open spec fn ascending_keys<V>(m: Map<u64, V>, s: Seq<u64>) -> bool {
    &&& forall|i: int, j: int| 0 <= i < j < s.len() ==> s[i] < s[j]
    &&& forall|k: u64| m.contains_key(k) <==> s.contains(k)
}

/// The values of `m` under the keys in `keys` that pass `keep`, in the order of `keys`.
pub open spec fn select<V>(keys: Seq<u64>, m: Map<u64, V>, keep: spec_fn(V) -> bool) -> Seq<V>
    decreases keys.len(),
{
    if keys.len() == 0 {
        Seq::empty()
    } else {
        let rest = select(keys.drop_last(), m, keep);
        let v = m[keys.last()];
        if keep(v) {
            rest.push(v)
        } else {
            rest
        }
    }
}

/// For a map whose ascending keys are `keys`, the next identifier is one past
/// the last key, or 0 when there is none, and exceeds every key.
pub proof fn lemma_next_id_from_keys<V>(m: Map<u64, V>, keys: Seq<u64>)
    requires
        ascending_keys(m, keys),
    ensures
        next_id(m.dom()) == (if keys.len() == 0 {
            0
        } else {
            keys.last() + 1
        }),
        forall|k: u64| m.contains_key(k) ==> k < next_id(m.dom()),
{
    let n = keys.len();
    if n == 0 {
        assert forall|k: u64| !m.contains_key(k) by {
            if m.contains_key(k) {
                assert(keys.contains(k));
            }
        }
        assert forall|k: u64| !is_max_id(m.dom(), k) by {
            assert(!m.contains_key(k));
        }
    } else {
        let last = keys[n - 1];
        assert(is_max_id(m.dom(), last)) by {
            assert(keys.contains(last));
            assert forall|j: u64| m.dom().contains(j) implies j <= last by {
                assert(keys.contains(j));
                let t = choose|t: int| 0 <= t < n && keys[t] == j;
                if t != n - 1 {
                    assert(keys[t] < keys[n - 1]);
                }
            }
        }
        let c = choose|k: u64| is_max_id(m.dom(), k);
        assert(c == last);
        assert forall|k: u64| m.contains_key(k) implies k < next_id(m.dom()) by {
            assert(m.dom().contains(k));
        }
    }
}

/// Identifiers handed out by successive additions are fresh and strictly
/// increasing: the next identifier exceeds every key in use, and once it is
/// taken the following one is exactly one larger.
pub proof fn law_sequential_ids<V>(m: Map<u64, V>, keys: Seq<u64>, v: V)
    requires
        ascending_keys(m, keys),
        next_id(m.dom()) <= u64::MAX,
    ensures
        forall|k: u64| m.contains_key(k) ==> k < next_id(m.dom()),
        next_id(m.insert(next_id(m.dom()) as u64, v).dom()) == next_id(m.dom()) + 1,
{
    lemma_next_id_from_keys(m, keys);
    let id = next_id(m.dom()) as u64;
    let m2 = m.insert(id, v);
    let keys2 = keys.push(id);
    assert forall|i: int, j: int| 0 <= i < j < keys2.len() implies keys2[i] < keys2[j] by {
        if j == keys2.len() - 1 {
            assert(keys.contains(keys2[i]));
        }
    }
    assert forall|k: u64| m2.contains_key(k) <==> keys2.contains(k) by {
        if keys2.contains(k) && k != id {
            let t = choose|t: int| 0 <= t < keys2.len() && keys2[t] == k;
            assert(keys[t] == k);
        }
        if keys.contains(k) {
            let t = choose|t: int| 0 <= t < keys.len() && keys[t] == k;
            assert(keys2[t] == k);
        }
        if k == id {
            assert(keys2[keys2.len() - 1] == id);
        }
    }
    lemma_next_id_from_keys(m2, keys2);
}

/// A map has as many keys as its ascending key list has entries.
pub proof fn lemma_keys_count<V>(m: Map<u64, V>, keys: Seq<u64>)
    requires
        ascending_keys(m, keys),
    ensures
        m.dom().len() == keys.len(),
{
    assert(keys.no_duplicates()) by {
        assert forall|i: int, j: int| 0 <= i < keys.len() && 0 <= j < keys.len() && i != j implies keys[i]
            != keys[j] by {
            if i < j {
                assert(keys[i] < keys[j]);
            } else {
                assert(keys[j] < keys[i]);
            }
        }
    }
    keys.unique_seq_to_set();
    assert(m.dom() =~= keys.to_set());
}

/// A selection holds at most as many values as there are keys.
pub proof fn lemma_select_len<V>(keys: Seq<u64>, m: Map<u64, V>, keep: spec_fn(V) -> bool)
    ensures
        select(keys, m, keep).len() <= keys.len(),
    decreases keys.len(),
{
    if keys.len() > 0 {
        lemma_select_len(keys.drop_last(), m, keep);
    }
}

/// A selection is exact: it holds only values of `m` that pass `keep`, and
/// every value of `m` that passes `keep` is in it.
pub proof fn law_select_exact<V>(keys: Seq<u64>, m: Map<u64, V>, keep: spec_fn(V) -> bool)
    requires
        ascending_keys(m, keys),
    ensures
        forall|i: int|
            0 <= i < select(keys, m, keep).len() ==> keep(#[trigger] select(keys, m, keep)[i])
                && exists|k: u64| m.contains_key(k) && m[k] == select(keys, m, keep)[i],
        forall|k: u64| #[trigger] m.contains_key(k) && keep(m[k]) ==> select(keys, m, keep).contains(m[k]),
{
    lemma_select_members(keys, m, keep);
    assert forall|k: u64| #[trigger] m.contains_key(k) && keep(m[k]) implies select(keys, m, keep).contains(m[k]) by {
        assert(keys.contains(k));
        let t = choose|t: int| 0 <= t < keys.len() && keys[t] == k;
        lemma_select_includes(keys, m, keep, t);
    }
}

proof fn lemma_select_members<V>(keys: Seq<u64>, m: Map<u64, V>, keep: spec_fn(V) -> bool)
    requires
        forall|k: u64| keys.contains(k) ==> m.contains_key(k),
    ensures
        forall|i: int|
            0 <= i < select(keys, m, keep).len() ==> keep(#[trigger] select(keys, m, keep)[i])
                && exists|k: u64| m.contains_key(k) && m[k] == select(keys, m, keep)[i],
    decreases keys.len(),
{
    if keys.len() > 0 {
        let prefix = keys.drop_last();
        assert forall|k: u64| prefix.contains(k) implies m.contains_key(k) by {
            let t = choose|t: int| 0 <= t < prefix.len() && prefix[t] == k;
            assert(keys[t] == k);
            assert(keys.contains(k));
        }
        lemma_select_members(prefix, m, keep);
        let last = keys.last();
        assert(keys.contains(last)) by {
            assert(keys[keys.len() - 1] == last);
        }
        let sel = select(keys, m, keep);
        assert forall|i: int| 0 <= i < sel.len() implies keep(#[trigger] sel[i]) && exists|k: u64|
            m.contains_key(k) && m[k] == sel[i] by {
            if i == select(prefix, m, keep).len() {
                assert(m.contains_key(last) && m[last] == sel[i]);
            } else {
                assert(sel[i] == select(prefix, m, keep)[i]);
            }
        }
    }
}

proof fn lemma_select_includes<V>(keys: Seq<u64>, m: Map<u64, V>, keep: spec_fn(V) -> bool, t: int)
    requires
        0 <= t < keys.len(),
        keep(m[keys[t]]),
    ensures
        select(keys, m, keep).contains(m[keys[t]]),
    decreases keys.len(),
{
    let sel = select(keys, m, keep);
    if t == keys.len() - 1 {
        assert(sel[sel.len() - 1] == m[keys[t]]);
    } else {
        let prefix = keys.drop_last();
        assert(prefix[t] == keys[t]);
        lemma_select_includes(prefix, m, keep, t);
        let inner = select(prefix, m, keep);
        let j = choose|j: int| 0 <= j < inner.len() && inner[j] == m[keys[t]];
        assert(sel[j] == inner[j]);
    }
}

/// A map from 64-bit identifiers to values, with fail-fast arbitration of
/// access: any number of readers, or a single writer, may hold it at a time.
pub struct InMemoryDatabase<V> {
    map: HashMap<u64, V>,
    /// The keys of `map`, ascending.
    ids: Vec<u64>,
    /// Number of outstanding shared holds.
    readers: u64,
    /// Whether an exclusive hold is outstanding.
    writing: bool,
}

impl<V> View for InMemoryDatabase<V> {
    type V = Map<u64, V>;

    closed spec fn view(&self) -> Map<u64, V> {
        self.map@
    }
}

impl<V> InMemoryDatabase<V> {
    /// The internal consistency of the store.
    pub closed spec fn wf(&self) -> bool {
        ascending_keys(self.map@, self.ids@)
    }

    /// The keys of the store in ascending order.
    pub closed spec fn keys(&self) -> Seq<u64> {
        self.ids@
    }

    /// How many shared holds are outstanding.
    pub closed spec fn shared_holds(&self) -> nat {
        self.readers as nat
    }

    /// Whether an exclusive hold is outstanding.
    pub closed spec fn exclusively_held(&self) -> bool {
        self.writing
    }

    /// A read may run now: no write is in progress.
    pub open spec fn can_read(&self) -> bool {
        !self.exclusively_held()
    }

    /// A write may run now: no other access of any kind is in progress.
    pub open spec fn can_write(&self) -> bool {
        !self.exclusively_held() && self.shared_holds() == 0
    }

    /// `other` holds the same entries and the same holds as `self`.
    pub open spec fn same_access(&self, other: &Self) -> bool {
        self.shared_holds() == other.shared_holds() && self.exclusively_held()
            == other.exclusively_held()
    }

    /// The keys of a well-formed store are ascending and are exactly its domain.
    pub proof fn lemma_keys(&self)
        requires
            self.wf(),
        ensures
            ascending_keys(self@, self.keys()),
    {
    }

    /// An empty store, with no access outstanding.
    pub fn new() -> (r: Self)
        ensures
            r.wf(),
            r@ == Map::<u64, V>::empty(),
            r.keys() == Seq::<u64>::empty(),
            r.shared_holds() == 0,
            !r.exclusively_held(),
    {
        let r = InMemoryDatabase { map: HashMap::new(), ids: Vec::new(), readers: 0, writing: false };
        assert(r.ids@ =~= Seq::<u64>::empty());
        assert(r.map@ =~= Map::<u64, V>::empty());
        r
    }

    /// Checks that a read may run now; fails with `AccessConflict` while a write
    /// is in progress.
    pub fn read(&self) -> (r: PetstoreResult<()>)
        ensures
            r == (if self.can_read() {
                Ok::<(), PetstoreError>(())
            } else {
                Err(PetstoreError::AccessConflict)
            }),
    {
        if self.writing {
            Err(PetstoreError::AccessConflict)
        } else {
            Ok(())
        }
    }

    /// Checks that a write may run now; fails with `AccessConflict` while any
    /// other read or write is in progress.
    pub fn write(&self) -> (r: PetstoreResult<()>)
        ensures
            r == (if self.can_write() {
                Ok::<(), PetstoreError>(())
            } else {
                Err(PetstoreError::AccessConflict)
            }),
    {
        if self.writing || self.readers > 0 {
            Err(PetstoreError::AccessConflict)
        } else {
            Ok(())
        }
    }

    /// Takes a shared hold that lasts until `release_shared`; fails with
    /// `AccessConflict`, changing nothing, while a write is in progress.
    pub fn acquire_shared(&mut self) -> (r: PetstoreResult<()>)
        requires
            old(self).shared_holds() < u64::MAX,
        ensures
            final(self)@ == old(self)@,
            final(self).keys() == old(self).keys(),
            final(self).wf() == old(self).wf(),
            final(self).exclusively_held() == old(self).exclusively_held(),
            r == (if old(self).can_read() {
                Ok::<(), PetstoreError>(())
            } else {
                Err(PetstoreError::AccessConflict)
            }),
            r is Ok ==> final(self).shared_holds() == old(self).shared_holds() + 1,
            r is Err ==> final(self).shared_holds() == old(self).shared_holds(),
    {
        if self.writing {
            Err(PetstoreError::AccessConflict)
        } else {
            self.readers = self.readers + 1;
            Ok(())
        }
    }

    /// Gives back one shared hold.
    pub fn release_shared(&mut self)
        requires
            old(self).shared_holds() > 0,
        ensures
            final(self)@ == old(self)@,
            final(self).keys() == old(self).keys(),
            final(self).wf() == old(self).wf(),
            final(self).exclusively_held() == old(self).exclusively_held(),
            final(self).shared_holds() == old(self).shared_holds() - 1,
    {
        self.readers = self.readers - 1;
    }

    /// Takes the exclusive hold, which lasts until `release_exclusive`; fails
    /// with `AccessConflict`, changing nothing, while any other hold is out.
    pub fn acquire_exclusive(&mut self) -> (r: PetstoreResult<()>)
        ensures
            final(self)@ == old(self)@,
            final(self).keys() == old(self).keys(),
            final(self).wf() == old(self).wf(),
            final(self).shared_holds() == old(self).shared_holds(),
            r == (if old(self).can_write() {
                Ok::<(), PetstoreError>(())
            } else {
                Err(PetstoreError::AccessConflict)
            }),
            final(self).exclusively_held() == (old(self).exclusively_held() || r is Ok),
    {
        if self.writing || self.readers > 0 {
            Err(PetstoreError::AccessConflict)
        } else {
            self.writing = true;
            Ok(())
        }
    }

    /// Gives back the exclusive hold.
    pub fn release_exclusive(&mut self)
        ensures
            final(self)@ == old(self)@,
            final(self).keys() == old(self).keys(),
            final(self).wf() == old(self).wf(),
            final(self).shared_holds() == old(self).shared_holds(),
            !final(self).exclusively_held(),
    {
        self.writing = false;
    }

    /// Number of entries.
    pub fn len(&self) -> (r: usize)
        requires
            self.wf(),
        ensures
            r == self.keys().len(),
    {
        self.ids.len()
    }

    /// The `i`-th key in ascending order.
    pub fn key_at(&self, i: usize) -> (r: u64)
        requires
            i < self.keys().len(),
        ensures
            r == self.keys()[i as int],
    {
        self.ids[i]
    }

    /// The value stored under `id`, if any.
    pub fn get(&self, id: u64) -> (r: Option<&V>)
        ensures
            match r {
                Some(v) => self@.contains_key(id) && *v == self@[id],
                None => !self@.contains_key(id),
            },
    {
        self.map.get(&id)
    }

    /// Whether a value is stored under `id`.
    pub fn contains(&self, id: u64) -> (r: bool)
        ensures
            r == self@.contains_key(id),
    {
        self.map.contains_key(&id)
    }

    /// Whether `n` more identifiers can be handed out.
    pub fn has_ids_for(&self, n: u64) -> (r: bool)
        requires
            self.wf(),
        ensures
            r == (next_id(self@.dom()) + n <= u64::MAX + 1),
    {
        proof {
            lemma_next_id_from_keys(self@, self.ids@);
        }
        let len = self.ids.len();
        if len == 0 {
            true
        } else {
            n <= u64::MAX - self.ids[len - 1]
        }
    }

    /// The identifier the next insertion takes.
    pub fn fresh_id(&self) -> (r: u64)
        requires
            self.wf(),
            next_id(self@.dom()) <= u64::MAX,
        ensures
            r == next_id(self@.dom()),
            forall|k: u64| self@.contains_key(k) ==> k < r,
    {
        proof {
            lemma_next_id_from_keys(self@, self.ids@);
        }
        let n = self.ids.len();
        if n == 0 {
            0
        } else {
            self.ids[n - 1] + 1
        }
    }

    /// Stores `v` under the fresh identifier `id`.
    pub fn insert_fresh(&mut self, id: u64, v: V)
        requires
            old(self).wf(),
            id == next_id(old(self)@.dom()),
        ensures
            final(self).wf(),
            final(self)@ == old(self)@.insert(id, v),
            final(self).keys() == old(self).keys().push(id),
            final(self).same_access(old(self)),
    {
        let ghost old_ids = self.ids@;
        proof {
            lemma_next_id_from_keys(self@, old_ids);
        }
        self.map.insert(id, v);
        self.ids.push(id);
        proof {
            let s = self.ids@;
            assert(s =~= old_ids.push(id));
            assert forall|i: int, j: int| 0 <= i < j < s.len() implies s[i] < s[j] by {
                if j == s.len() - 1 {
                    assert(old_ids.contains(s[i]));
                }
            }
            assert forall|k: u64| self.map@.contains_key(k) <==> s.contains(k) by {
                if s.contains(k) && k != id {
                    let t = choose|t: int| 0 <= t < s.len() && s[t] == k;
                    assert(old_ids[t] == k);
                }
                if old_ids.contains(k) {
                    let t = choose|t: int| 0 <= t < old_ids.len() && old_ids[t] == k;
                    assert(s[t] == k);
                }
                if k == id {
                    assert(s[s.len() - 1] == id);
                }
            }
        }
    }

    /// Replaces the value stored under the existing key `id`.
    pub fn replace(&mut self, id: u64, v: V)
        requires
            old(self).wf(),
            old(self)@.contains_key(id),
        ensures
            final(self).wf(),
            final(self)@ == old(self)@.insert(id, v),
            final(self).keys() == old(self).keys(),
            final(self).same_access(old(self)),
    {
        self.map.insert(id, v);
    }

    /// Removes the entry under `id`, handing back its value if there was one.
    pub fn remove(&mut self, id: u64) -> (r: Option<V>)
        requires
            old(self).wf(),
        ensures
            final(self).wf(),
            final(self)@ == old(self)@.remove(id),
            final(self).same_access(old(self)),
            match r {
                Some(v) => old(self)@.contains_key(id) && v == old(self)@[id],
                None => !old(self)@.contains_key(id) && final(self).keys() == old(self).keys(),
            },
    {
        let r = self.map.remove(&id);
        if r.is_some() {
            let ghost old_ids = self.ids@;
            assert(old_ids.contains(id));
            let n = self.ids.len();
            let mut i: usize = 0;
            while self.ids[i] != id
                invariant
                    self.ids@ == old_ids,
                    n == old_ids.len(),
                    0 <= i < old_ids.len(),
                    old_ids.contains(id),
                    forall|t: int| 0 <= t < i ==> old_ids[t] != id,
                decreases old_ids.len() - i,
            {
                i = i + 1;
                proof {
                    if i == old_ids.len() {
                        let t = choose|t: int| 0 <= t < old_ids.len() && old_ids[t] == id;
                        assert(old_ids[t] != id);
                    }
                }
            }
            self.ids.remove(i);
            proof {
                let s = self.ids@;
                assert(s =~= old_ids.remove(i as int));
                assert forall|a: int, b: int| 0 <= a < b < s.len() implies s[a] < s[b] by {
                    if a >= i {
                        assert(s[a] == old_ids[a + 1]);
                    }
                    if b >= i {
                        assert(s[b] == old_ids[b + 1]);
                    }
                }
                assert forall|k: u64| self.map@.contains_key(k) <==> s.contains(k) by {
                    if s.contains(k) {
                        let t = choose|t: int| 0 <= t < s.len() && s[t] == k;
                        if t < i {
                            assert(old_ids[t] == k);
                            assert(k != id);
                        } else {
                            assert(old_ids[t + 1] == k);
                            assert(old_ids[i as int] < old_ids[t + 1]);
                        }
                        assert(old_ids.contains(k));
                    }
                    if self.map@.contains_key(k) {
                        assert(old_ids.contains(k));
                        let t = choose|t: int| 0 <= t < old_ids.len() && old_ids[t] == k;
                        assert(t != i);
                        if t < i {
                            assert(s[t] == k);
                        } else {
                            assert(s[t - 1] == k);
                        }
                    }
                }
            }
        }
        r
    }
}

} // verus!
