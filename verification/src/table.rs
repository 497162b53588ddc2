//! Handler tables keyed by names.
//!
//! A table maps a key (a state name, or a `(state, event)` pair of names) to a handler.
//! Registering a key that is already present replaces the earlier handler, as a hash map
//! would. Entries live in a `Vec`; the table's invariant is that no key occurs twice.

use vstd::prelude::*;

verus! {

/// Keys that can be compared at run time by their view.
pub trait TableKey: View + Sized {
    fn same_key(&self, other: &Self) -> (b: bool)
        ensures
            b == (self@ == other@),
    ;
}

impl TableKey for String {
    fn same_key(&self, other: &Self) -> (b: bool) {
        *self == *other
    }
}

impl TableKey for (String, String) {
    fn same_key(&self, other: &Self) -> (b: bool) {
        self.0 == other.0 && self.1 == other.1
    }
}

/// A table of handlers, viewed as a map from key views to handlers.
pub struct HandlerTable<K, H> {
    entries: Vec<(K, H)>,
}

impl<K: TableKey, H> HandlerTable<K, H> {
    /// The key view stored at position `i`.
    pub closed spec fn key_at(&self, i: int) -> K::V {
        self.entries@[i].0@
    }

    /// Whether some entry holds key `k`.
    pub closed spec fn holds(&self, k: K::V) -> bool {
        exists|i: int| 0 <= i < self.entries@.len() && #[trigger] self.key_at(i) == k
    }

    /// The position of the entry that holds key `k`.
    pub closed spec fn position(&self, k: K::V) -> int {
        choose|i: int| 0 <= i < self.entries@.len() && #[trigger] self.key_at(i) == k
    }

    /// No key occurs twice.
    pub closed spec fn wf(&self) -> bool {
        forall|i: int, j: int|
            0 <= i < self.entries@.len() && 0 <= j < self.entries@.len() && i != j
                ==> #[trigger] self.key_at(i) != #[trigger] self.key_at(j)
    }

    proof fn lemma_position(&self, i: int)
        requires
            self.wf(),
            0 <= i < self.entries@.len(),
        ensures
            self.holds(self.key_at(i)),
            self.position(self.key_at(i)) == i,
    {
        let k = self.key_at(i);
        assert(self.holds(k));
        let j = self.position(k);
        assert(self.key_at(j) == k);
    }

    pub fn new() -> (t: Self)
        ensures
            t.wf(),
            t@ == Map::<K::V, H>::empty(),
    {
        let t = HandlerTable { entries: Vec::new() };
        assert(t@ =~= Map::<K::V, H>::empty());
        t
    }

    /// The position of key `k`, if present.
    fn find(&self, k: &K) -> (r: Option<usize>)
        requires
            self.wf(),
        ensures
            match r {
                Some(i) => i < self.entries@.len() && self.key_at(i as int) == k@,
                None => !self.holds(k@),
            },
    {
        let mut i: usize = 0;
        while i < self.entries.len()
            invariant
                i <= self.entries@.len(),
                forall|j: int| 0 <= j < i ==> #[trigger] self.key_at(j) != k@,
            decreases self.entries@.len() - i,
        {
            if self.entries[i].0.same_key(k) {
                return Some(i);
            }
            i = i + 1;
        }
        None
    }

    /// Whether a handler is registered under `k`.
    pub fn contains(&self, k: &K) -> (b: bool)
        requires
            self.wf(),
        ensures
            b == self@.contains_key(k@),
    {
        self.find(k).is_some()
    }

    /// The handler registered under `k`, if any.
    pub fn get(&self, k: &K) -> (r: Option<&H>)
        requires
            self.wf(),
        ensures
            r == (if self@.contains_key(k@) {
                Some(&self@[k@])
            } else {
                None::<&H>
            }),
    {
        match self.find(k) {
            Some(i) => {
                proof {
                    self.lemma_position(i as int);
                }
                Some(&self.entries[i].1)
            },
            None => None,
        }
    }

    /// Registers `h` under `k`, replacing any earlier handler for `k`.
    /// Returns whether `k` was already present.
    pub fn insert(&mut self, k: K, h: H) -> (existed: bool)
        requires
            old(self).wf(),
        ensures
            final(self).wf(),
            final(self)@ == old(self)@.insert(k@, h),
            existed == old(self)@.contains_key(k@),
    {
        let ghost kv = k@;
        let ghost old_t = *self;
        match self.find(&k) {
            Some(i) => {
                proof {
                    old_t.lemma_position(i as int);
                }
                self.entries.set(i, (k, h));
                proof {
                    assert forall|a: int, b: int|
                        0 <= a < self.entries@.len() && 0 <= b < self.entries@.len() && a != b
                            implies #[trigger] self.key_at(a) != #[trigger] self.key_at(b) by {
                        assert(old_t.key_at(a) != old_t.key_at(b));
                        if a != i as int && b != i as int {
                            assert(self.key_at(a) == old_t.key_at(a));
                            assert(self.key_at(b) == old_t.key_at(b));
                        }
                        if a == i as int {
                            assert(self.key_at(b) == old_t.key_at(b));
                        }
                        if b == i as int {
                            assert(self.key_at(a) == old_t.key_at(a));
                        }
                    }
                    assert forall|q: K::V| #[trigger] self@.contains_key(q) <==> old_t@.insert(kv, h).contains_key(q) by {
                        if old_t.holds(q) {
                            let j = old_t.position(q);
                            assert(self.key_at(j) == q || j == i as int);
                        }
                        if self.holds(q) {
                            let j = self.position(q);
                            assert(old_t.key_at(j) == q || j == i as int);
                        }
                    }
                    assert forall|q: K::V| #[trigger] self@.contains_key(q) implies self@[q] == old_t@.insert(kv, h)[q] by {
                        if q == kv {
                            self.lemma_position(i as int);
                        } else {
                            let j = self.position(q);
                            assert(self.key_at(j) == q);
                            assert(j != i as int);
                            assert(old_t.key_at(j) == q);
                            old_t.lemma_position(j);
                            self.lemma_position(j);
                        }
                    }
                    assert(self@ =~= old_t@.insert(kv, h));
                }
                true
            },
            None => {
                self.entries.push((k, h));
                proof {
                    let n = old_t.entries@.len() as int;
                    assert forall|a: int, b: int|
                        0 <= a < self.entries@.len() && 0 <= b < self.entries@.len() && a != b
                            implies #[trigger] self.key_at(a) != #[trigger] self.key_at(b) by {
                        if a < n && b < n {
                            assert(self.key_at(a) == old_t.key_at(a));
                            assert(self.key_at(b) == old_t.key_at(b));
                        } else if a < n {
                            assert(self.key_at(a) == old_t.key_at(a));
                            assert(self.key_at(b) == kv);
                        } else {
                            assert(self.key_at(b) == old_t.key_at(b));
                            assert(self.key_at(a) == kv);
                        }
                    }
                    assert forall|q: K::V| #[trigger] self@.contains_key(q) <==> old_t@.insert(kv, h).contains_key(q) by {
                        if old_t.holds(q) {
                            let j = old_t.position(q);
                            assert(self.key_at(j) == q);
                        }
                        if q == kv {
                            assert(self.key_at(n) == q);
                        }
                        if self.holds(q) {
                            let j = self.position(q);
                            if j < n {
                                assert(old_t.key_at(j) == q);
                            }
                        }
                    }
                    assert forall|q: K::V| #[trigger] self@.contains_key(q) implies self@[q] == old_t@.insert(kv, h)[q] by {
                        if q == kv {
                            self.lemma_position(n);
                        } else {
                            let j = self.position(q);
                            assert(self.key_at(j) == q);
                            assert(j < n);
                            assert(old_t.key_at(j) == q);
                            old_t.lemma_position(j);
                            self.lemma_position(j);
                        }
                    }
                    assert(self@ =~= old_t@.insert(kv, h));
                }
                false
            },
        }
    }
}

impl<H> HandlerTable<(String, String), H> {
    /// Whether some handler is registered for a pair whose first name is `first`.
    pub fn has_first(&self, first: &String) -> (b: bool)
        requires
            self.wf(),
        ensures
            b == exists|e: Seq<char>| #[trigger] self@.contains_key((first@, e)),
    {
        let mut i: usize = 0;
        while i < self.entries.len()
            invariant
                i <= self.entries@.len(),
                forall|j: int| 0 <= j < i ==> (#[trigger] self.key_at(j)).0 != first@,
            decreases self.entries@.len() - i,
        {
            if self.entries[i].0.0 == *first {
                proof {
                    let k = self.key_at(i as int);
                    assert(self.holds(k));
                    assert(self@.contains_key((first@, k.1)));
                }
                return true;
            }
            i = i + 1;
        }
        proof {
            assert forall|e: Seq<char>| !#[trigger] self@.contains_key((first@, e)) by {
                if self.holds((first@, e)) {
                    let j = self.position((first@, e));
                    assert(self.key_at(j) == (first@, e));
                }
            }
        }
        false
    }
}

impl<K: TableKey, H> View for HandlerTable<K, H> {
    type V = Map<K::V, H>;

    closed spec fn view(&self) -> Map<K::V, H> {
        Map::new(|k: K::V| self.holds(k), |k: K::V| self.entries@[self.position(k)].1)
    }
}

} // verus!
