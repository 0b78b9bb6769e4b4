use vstd::prelude::*;

verus! {

/// A key of an [`LRU`] cache: two keys are the same key when their views are equal.
pub trait LruKey: View + Sized {
    fn same_key(&self, other: &Self) -> (r: bool)
        ensures
            r == (self@ == other@),
    ;
}

impl LruKey for String {
    fn same_key(&self, other: &Self) -> (r: bool) {
        self.eq(other)
    }
}

/// Whether some entry of `s` has key `k`.
pub open spec fn has_key<K, V>(s: Seq<(K, V)>, k: K) -> bool {
    exists|i: int| 0 <= i < s.len() && s[i].0 == k
}

/// No key occurs twice in `s`.
pub open spec fn distinct_keys<K, V>(s: Seq<(K, V)>) -> bool {
    forall|i: int, j: int| 0 <= i < s.len() && 0 <= j < s.len() && i != j ==> s[i].0 != s[j].0
}

/// The position of key `k` in `s` (meaningful when `has_key(s, k)`).
pub open spec fn key_index<K, V>(s: Seq<(K, V)>, k: K) -> int {
    choose|i: int| 0 <= i < s.len() && s[i].0 == k
}

/// The value stored under key `k` (meaningful when `has_key(s, k)`).
pub open spec fn value_of<K, V>(s: Seq<(K, V)>, k: K) -> V {
    s[key_index(s, k)].1
}

/// `s` with the entry of key `k` taken out, if there is one.
pub open spec fn without_key<K, V>(s: Seq<(K, V)>, k: K) -> Seq<(K, V)> {
    if has_key(s, k) {
        s.remove(key_index(s, k))
    } else {
        s
    }
}

/// The recency order after a use of key `k`: its entry moves to the most-recent end.
pub open spec fn touched<K, V>(s: Seq<(K, V)>, k: K) -> Seq<(K, V)> {
    if has_key(s, k) {
        without_key(s, k).push(s[key_index(s, k)])
    } else {
        s
    }
}

/// The entries after inserting `(k, v)` into a cache of capacity `cap`: the pair
/// becomes the most recent entry, and the least recent entry leaves when the
/// cache would otherwise hold more than `cap` entries.
pub open spec fn inserted<K, V>(s: Seq<(K, V)>, k: K, v: V, cap: nat) -> Seq<(K, V)> {
    let t = without_key(s, k).push((k, v));
    if t.len() > cap {
        t.drop_first()
    } else {
        t
    }
}

proof fn lemma_key_index_unique<K, V>(s: Seq<(K, V)>, i: int)
    requires
        distinct_keys(s),
        0 <= i < s.len(),
    ensures
        has_key(s, s[i].0),
        key_index(s, s[i].0) == i,
{
    let k = s[i].0;
    assert(0 <= i < s.len() && s[i].0 == k);
    let j = key_index(s, k);
    assert(0 <= j < s.len() && s[j].0 == k);
}

proof fn lemma_remove_distinct<K, V>(s: Seq<(K, V)>, i: int)
    requires
        distinct_keys(s),
        0 <= i < s.len(),
    ensures
        distinct_keys(s.remove(i)),
        !has_key(s.remove(i), s[i].0),
        forall|k: K| k != s[i].0 ==> (has_key(s.remove(i), k) == has_key(s, k)),
{
    let r = s.remove(i);
    assert forall|a: int, b: int| 0 <= a < r.len() && 0 <= b < r.len() && a != b implies r[a].0
        != r[b].0 by {
        let a2 = if a < i { a } else { a + 1 };
        let b2 = if b < i { b } else { b + 1 };
        assert(r[a] == s[a2] && r[b] == s[b2]);
    }
    if has_key(r, s[i].0) {
        let a = choose|a: int| 0 <= a < r.len() && r[a].0 == s[i].0;
        let a2 = if a < i { a } else { a + 1 };
        assert(r[a] == s[a2]);
    }
    assert forall|k: K| k != s[i].0 implies (has_key(r, k) == has_key(s, k)) by {
        if has_key(s, k) {
            let a = choose|a: int| 0 <= a < s.len() && s[a].0 == k;
            let a2 = if a < i { a } else { a - 1 };
            assert(r[a2] == s[a]);
        }
        if has_key(r, k) {
            let a = choose|a: int| 0 <= a < r.len() && r[a].0 == k;
            let a2 = if a < i { a } else { a + 1 };
            assert(r[a] == s[a2]);
        }
    }
}

proof fn lemma_without_key<K, V>(s: Seq<(K, V)>, k: K)
    requires
        distinct_keys(s),
    ensures
        distinct_keys(without_key(s, k)),
        !has_key(without_key(s, k), k),
        forall|k2: K| k2 != k ==> (has_key(without_key(s, k), k2) == has_key(s, k2)),
{
    if has_key(s, k) {
        let i = key_index(s, k);
        lemma_remove_distinct(s, i);
    }
}

proof fn lemma_push_distinct<K, V>(s: Seq<(K, V)>, p: (K, V))
    requires
        distinct_keys(s),
        !has_key(s, p.0),
    ensures
        distinct_keys(s.push(p)),
{
    let t = s.push(p);
    assert forall|a: int, b: int| 0 <= a < t.len() && 0 <= b < t.len() && a != b implies t[a].0
        != t[b].0 by {
        if a == s.len() {
            assert(t[b] == s[b]);
        } else if b == s.len() {
            assert(t[a] == s[a]);
        } else {
            assert(t[a] == s[a] && t[b] == s[b]);
        }
    }
}

proof fn lemma_drop_first_distinct<K, V>(s: Seq<(K, V)>)
    requires
        distinct_keys(s),
        s.len() > 0,
    ensures
        distinct_keys(s.drop_first()),
{
    let t = s.drop_first();
    assert forall|a: int, b: int| 0 <= a < t.len() && 0 <= b < t.len() && a != b implies t[a].0
        != t[b].0 by {
        assert(t[a] == s[a + 1] && t[b] == s[b + 1]);
    }
}

/// Facts about `touched` and `inserted` on a sequence with distinct keys.
pub proof fn lemma_touched_inserted_distinct<K, V>(s: Seq<(K, V)>, k: K, v: V, cap: nat)
    requires
        distinct_keys(s),
    ensures
        distinct_keys(touched(s, k)),
        touched(s, k).len() == s.len(),
        distinct_keys(inserted(s, k, v, cap)),
        inserted(s, k, v, cap).len() <= s.len() + 1,
        s.len() <= cap ==> inserted(s, k, v, cap).len() <= cap,
{
    lemma_without_key(s, k);
    if has_key(s, k) {
        lemma_push_distinct(without_key(s, k), s[key_index(s, k)]);
    }
    lemma_push_distinct(without_key(s, k), (k, v));
    let t = without_key(s, k).push((k, v));
    if t.len() > cap {
        lemma_drop_first_distinct(t);
    }
}

/// Inserting a key that is not cached into a full cache evicts exactly the least
/// recently used entry: the other entries stay in their order and the new pair
/// becomes the most recent one.
pub proof fn lemma_full_insert_evicts_lru<K, V>(s: Seq<(K, V)>, k: K, v: V, cap: nat)
    requires
        distinct_keys(s),
        s.len() == cap,
        cap > 0,
        !has_key(s, k),
    ensures
        inserted(s, k, v, cap) == s.drop_first().push((k, v)),
        !has_key(inserted(s, k, v, cap), s[0].0),
        forall|i: int| 1 <= i < s.len() ==> has_key(inserted(s, k, v, cap), #[trigger] s[i].0),
{
    let r = inserted(s, k, v, cap);
    assert(r =~= s.drop_first().push((k, v)));
    if has_key(r, s[0].0) {
        let a = choose|a: int| 0 <= a < r.len() && r[a].0 == s[0].0;
        if a < r.len() - 1 {
            assert(r[a] == s[a + 1]);
        } else {
            assert(0 <= 0 < s.len() && s[0].0 == k);
        }
    }
    assert forall|i: int| 1 <= i < s.len() implies has_key(r, #[trigger] s[i].0) by {
        assert(r[i - 1] == s[i]);
    }
}

/// Using a cached key (through `get`, `contains_key` or `insert`) makes it the
/// most recently used entry, and the other entries keep their relative order.
pub proof fn lemma_use_promotes<K, V>(s: Seq<(K, V)>, k: K)
    requires
        distinct_keys(s),
        has_key(s, k),
    ensures
        touched(s, k).len() == s.len(),
        touched(s, k).last() == (k, value_of(s, k)),
        touched(s, k).drop_last() == without_key(s, k),
{
    let i = key_index(s, k);
    assert(touched(s, k).drop_last() =~= without_key(s, k));
}

/// Using the least recently used key of a full cache changes what the next
/// insertion of a new key evicts: that key stays, and the second least recently
/// used one leaves instead.
pub proof fn lemma_use_changes_eviction<K, V>(s: Seq<(K, V)>, k: K, v: V, cap: nat)
    requires
        distinct_keys(s),
        s.len() == cap,
        cap >= 2,
        !has_key(s, k),
    ensures
        has_key(inserted(touched(s, s[0].0), k, v, cap), s[0].0),
        !has_key(inserted(touched(s, s[0].0), k, v, cap), s[1].0),
{
    lemma_key_index_unique(s, 0);
    let t = touched(s, s[0].0);
    assert(t =~= s.drop_first().push(s[0]));
    lemma_touched_inserted_distinct(s, s[0].0, v, cap);
    assert(!has_key(t, k)) by {
        if has_key(t, k) {
            let a = choose|a: int| 0 <= a < t.len() && t[a].0 == k;
            if a < t.len() - 1 {
                assert(t[a] == s[a + 1]);
            }
        }
    }
    lemma_full_insert_evicts_lru(t, k, v, cap);
    let r = inserted(t, k, v, cap);
    assert(r[r.len() - 2] == s[0]);
    assert(0 <= 0 < t.len() && t[0] == s[1]);
}

/// A cache of at most `capacity` entries that drops its least-recently-used
/// entry when it overflows. `get`, `contains_key` and `insert` all count as uses.
///
/// The entries are kept in recency order: the first is the least recently used,
/// the last the most recently used.
pub struct LRU<K, V> {
    capacity: usize,
    data: Vec<(K, V)>,
}

impl<K: LruKey, V> View for LRU<K, V> {
    type V = Seq<(K::V, V)>;

    closed spec fn view(&self) -> Seq<(K::V, V)> {
        self.data@.map_values(|p: (K, V)| (p.0@, p.1))
    }
}

impl<K: LruKey, V> LRU<K, V> {
    /// The capacity that the cache was made with.
    pub closed spec fn cap(&self) -> nat {
        self.capacity as nat
    }

    /// The cache's invariant: keys are distinct and there are at most `cap()` of them.
    pub open spec fn wf(&self) -> bool {
        distinct_keys(self@) && self@.len() <= self.cap()
    }

    pub fn with_capacity(capacity: usize) -> (r: LRU<K, V>)
        ensures
            r.wf(),
            r.cap() == capacity,
            r@ == Seq::<(K::V, V)>::empty(),
    {
        let r = LRU { capacity, data: Vec::new() };
        assert(r@ =~= Seq::<(K::V, V)>::empty());
        r
    }

    /// The position of `key` in the recency order, if it is cached.
    fn find(&self, key: &K) -> (r: Option<usize>)
        requires
            self.wf(),
        ensures
            match r {
                Some(i) => i < self@.len() && has_key(self@, key@) && key_index(self@, key@) == i,
                None => !has_key(self@, key@),
            },
    {
        let mut i: usize = 0;
        while i < self.data.len()
            invariant
                self.wf(),
                i <= self.data@.len(),
                self@.len() == self.data@.len(),
                forall|j: int| 0 <= j < i ==> self@[j].0 != key@,
            decreases self.data@.len() - i,
        {
            if self.data[i].0.same_key(key) {
                proof {
                    lemma_key_index_unique(self@, i as int);
                }
                return Some(i);
            }
            i = i + 1;
        }
        None
    }

    /// Moves the entry at position `i` to the most-recent end.
    fn promote(&mut self, i: usize)
        requires
            old(self).wf(),
            i < old(self)@.len(),
        ensures
            final(self).wf(),
            final(self).cap() == old(self).cap(),
            final(self)@ == old(self)@.remove(i as int).push(old(self)@[i as int]),
    {
        let ghost s = self@;
        let p = self.data.remove(i);
        self.data.push(p);
        assert(self@ =~= s.remove(i as int).push(s[i as int]));
        proof {
            lemma_remove_distinct(s, i as int);
            lemma_push_distinct(s.remove(i as int), s[i as int]);
        }
    }

    /// Looks `key` up; a hit makes it the most recently used entry.
    pub fn get(&mut self, key: &K) -> (r: Option<&V>)
        requires
            old(self).wf(),
        ensures
            final(self).wf(),
            final(self).cap() == old(self).cap(),
            final(self)@ == touched(old(self)@, key@),
            r.is_some() == has_key(old(self)@, key@),
            r.is_some() ==> *r.unwrap() == value_of(old(self)@, key@),
    {
        match self.find(key) {
            Some(i) => {
                let ghost s = self@;
                self.promote(i);
                let n = self.data.len();
                assert(self@[n - 1] == s[i as int]);
                Some(&self.data[n - 1].1)
            },
            None => None,
        }
    }

    /// Whether `key` is cached; a hit makes it the most recently used entry.
    pub fn contains_key(&mut self, key: &K) -> (r: bool)
        requires
            old(self).wf(),
        ensures
            final(self).wf(),
            final(self).cap() == old(self).cap(),
            final(self)@ == touched(old(self)@, key@),
            r == has_key(old(self)@, key@),
    {
        match self.find(key) {
            Some(i) => {
                self.promote(i);
                true
            },
            None => false,
        }
    }

    /// Takes the entry of `key` out, if it is cached, and returns its value.
    pub fn remove(&mut self, key: &K) -> (r: Option<V>)
        requires
            old(self).wf(),
        ensures
            final(self).wf(),
            final(self).cap() == old(self).cap(),
            final(self)@ == without_key(old(self)@, key@),
            r.is_some() == has_key(old(self)@, key@),
            r.is_some() ==> r.unwrap() == value_of(old(self)@, key@),
    {
        let ghost s = self@;
        proof {
            lemma_without_key(s, key@);
        }
        match self.find(key) {
            Some(i) => {
                let p = self.data.remove(i);
                assert(self@ =~= without_key(s, key@));
                Some(p.1)
            },
            None => None,
        }
    }

    /// Stores `value` under `key` as the most recently used entry, replacing an
    /// earlier value of `key`, and drops the least recently used entry when the
    /// cache holds more than its capacity.
    pub fn insert(&mut self, key: K, value: V)
        requires
            old(self).wf(),
        ensures
            final(self).wf(),
            final(self).cap() == old(self).cap(),
            final(self)@ == inserted(old(self)@, key@, value, old(self).cap()),
    {
        let ghost s = self@;
        let ghost k = key@;
        proof {
            lemma_touched_inserted_distinct(s, k, value, self.cap());
        }
        match self.find(&key) {
            Some(i) => {
                self.data.remove(i);
            },
            None => {},
        }
        assert(self@ =~= without_key(s, k));
        self.data.push((key, value));
        assert(self@ =~= without_key(s, k).push((k, value)));
        if self.data.len() > self.capacity {
            self.data.remove(0);
            assert(self@ =~= without_key(s, k).push((k, value)).drop_first());
        }
    }
}

} // verus!
