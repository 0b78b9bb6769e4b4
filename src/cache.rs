use vstd::prelude::*;

use crate::entry::{Entries, Entry, EntryState};
use crate::histogram::{bucket_matches, flags_of, scroll_bar_weights, ColorWeights, SCROLL_BAR_BUCKETS};
use crate::lru::{distinct_keys, has_key, inserted, key_index, touched, value_of, lemma_touched_inserted_distinct, LruKey, LRU};

verus! {

/// The key of a rendered canvas: which entry of which collection, in which state.
pub struct CanvasKey {
    pub entries_id: String,
    pub cursor: usize,
    pub entry_state: EntryState,
}

impl View for CanvasKey {
    type V = (Seq<char>, usize, EntryState);

    open spec fn view(&self) -> (Seq<char>, usize, EntryState) {
        (self.entries_id@, self.cursor, self.entry_state)
    }
}

impl LruKey for CanvasKey {
    fn same_key(&self, other: &Self) -> (r: bool) {
        self.cursor == other.cursor && self.entry_state == other.entry_state && self.entries_id.eq(
            &other.entries_id,
        )
    }
}

/// The capacity of each table of the render cache.
pub const RENDER_CACHE_CAPACITY: usize = 128;

/// The capacity of the resource cache.
pub const RESOURCE_CACHE_CAPACITY: usize = 64;

/// The key under which the placeholder of a resource that failed to load is cached.
pub open spec fn placeholder_key() -> Seq<char> {
    seq!['?']
}

/// Whether `w` is the scroll-bar histogram of `entries`.
pub open spec fn is_scroll_bar_of(w: Seq<ColorWeights>, entries: Seq<Entry>) -> bool {
    &&& w.len() == SCROLL_BAR_BUCKETS
    &&& forall|b: int|
        0 <= b < SCROLL_BAR_BUCKETS ==> bucket_matches(
            #[trigger] w[b],
            flags_of(entries),
            entries.len() as int,
            b,
        )
}

/// What one lookup of `key` does to a memo table of capacity `cap` whose entries
/// go from `before` to `after`: a hit only refreshes the key's recency and
/// computes nothing; a miss computes a value and inserts it.
pub open spec fn memo_step<K, V>(
    before: Seq<(K, V)>,
    key: K,
    cap: nat,
    after: Seq<(K, V)>,
    computed: bool,
) -> bool {
    if has_key(before, key) {
        !computed && after == touched(before, key)
    } else {
        computed && after == inserted(before, key, value_of(after, key), cap)
    }
}

/// Resolving the same key twice computes at most once: after the first lookup the
/// key is cached, so the second one is a hit and yields the same value.
pub proof fn lemma_memo_second_lookup_hits<K, V>(
    s0: Seq<(K, V)>,
    s1: Seq<(K, V)>,
    s2: Seq<(K, V)>,
    key: K,
    cap: nat,
    first: bool,
    second: bool,
)
    requires
        distinct_keys(s0),
        cap > 0,
        memo_step(s0, key, cap, s1, first),
        memo_step(s1, key, cap, s2, second),
    ensures
        !second,
        has_key(s2, key),
        value_of(s2, key) == value_of(s1, key),
{
    lemma_touched_inserted_distinct(s0, key, value_of(s1, key), cap);
    if has_key(s0, key) {
        let i = key_index(s0, key);
        assert(s1.last() == s0[i]);
        assert(s1[s1.len() - 1].0 == key);
    } else {
        let t = crate::lru::without_key(s0, key).push((key, value_of(s1, key)));
        if t.len() > cap {
            assert(s1[s1.len() - 1] == t[t.len() - 1]);
        }
        assert(s1[s1.len() - 1].0 == key);
    }
    assert(has_key(s1, key));
    crate::lru::lemma_use_promotes(s1, key);
    assert(s2[s2.len() - 1].0 == key);
    lemma_touched_inserted_distinct(s1, key, value_of(s1, key), cap);
    let m = key_index(s2, key);
    assert(s2[m].0 == key);
}

/// Memoised rendering results: the canvas of each `(entries id, cursor, state)`
/// and the scroll-bar histogram of each collection.
pub struct RenderCache<G> {
    pub canvas: LRU<CanvasKey, Result<G, String>>,
    pub scroll_bar_colors: LRU<String, Vec<ColorWeights>>,
}

impl<G> RenderCache<G> {
    pub open spec fn wf(&self) -> bool {
        &&& self.canvas.wf()
        &&& self.canvas.cap() > 0
        &&& self.scroll_bar_colors.wf()
        &&& self.scroll_bar_colors.cap() > 0
    }

    pub fn new() -> (r: RenderCache<G>)
        ensures
            r.wf(),
            r.canvas.cap() == RENDER_CACHE_CAPACITY,
            r.scroll_bar_colors.cap() == RENDER_CACHE_CAPACITY,
            r.canvas@.len() == 0,
            r.scroll_bar_colors@.len() == 0,
    {
        RenderCache {
            canvas: LRU::with_capacity(RENDER_CACHE_CAPACITY),
            scroll_bar_colors: LRU::with_capacity(RENDER_CACHE_CAPACITY),
        }
    }

    /// Makes sure that the canvas of entry `cursor` of `entries` in state
    /// `entry_state` is cached, calling the collection's render callback only on a
    /// miss. A failed render is cached too, as its error message. Returns whether
    /// the callback was called.
    pub fn resolve_canvas<P, R: Fn(&Entry, EntryState) -> Result<G, String>>(
        &mut self,
        entries: &Entries<P, R>,
        cursor: usize,
        entry_state: EntryState,
    ) -> (rendered: bool)
        requires
            old(self).wf(),
            cursor < entries.entries@.len(),
            forall|e: &Entry, s: EntryState| entries.render_canvas.requires((e, s)),
        ensures
            final(self).wf(),
            final(self).canvas.cap() == old(self).canvas.cap(),
            final(self).scroll_bar_colors == old(self).scroll_bar_colors,
            memo_step(
                old(self).canvas@,
                (entries.id@, cursor, entry_state),
                old(self).canvas.cap(),
                final(self).canvas@,
                rendered,
            ),
            rendered ==> entries.render_canvas.ensures(
                (&entries.entries@[cursor as int], entry_state),
                value_of(final(self).canvas@, (entries.id@, cursor, entry_state)),
            ),
    {
        let key = CanvasKey { entries_id: entries.id.clone(), cursor, entry_state };
        let ghost k = key@;
        let ghost s = self.canvas@;
        proof {
            lemma_touched_inserted_distinct(s, k, arbitrary(), self.canvas.cap());
        }
        if self.canvas.contains_key(&key) {
            false
        } else {
            let canvas = (entries.render_canvas)(&entries.entries[cursor], entry_state);
            let ghost v = canvas;
            self.canvas.insert(key, canvas);
            proof {
                lemma_inserted_value(s, k, v, self.canvas.cap());
            }
            true
        }
    }

    /// Makes sure that the scroll-bar histogram of `entries` is cached under the
    /// collection's id, computing it only on a miss. Returns whether it was computed.
    pub fn resolve_scroll_bar<P, R>(&mut self, entries: &Entries<P, R>) -> (computed: bool)
        requires
            old(self).wf(),
            4 * entries.entries@.len() <= u64::MAX,
        ensures
            final(self).wf(),
            final(self).scroll_bar_colors.cap() == old(self).scroll_bar_colors.cap(),
            final(self).canvas == old(self).canvas,
            memo_step(
                old(self).scroll_bar_colors@,
                entries.id@,
                old(self).scroll_bar_colors.cap(),
                final(self).scroll_bar_colors@,
                computed,
            ),
            computed ==> is_scroll_bar_of(
                value_of(final(self).scroll_bar_colors@, entries.id@)@,
                entries.entries@,
            ),
    {
        let ghost s = self.scroll_bar_colors@;
        let ghost k = entries.id@;
        proof {
            lemma_touched_inserted_distinct(s, k, arbitrary(), self.scroll_bar_colors.cap());
        }
        if self.scroll_bar_colors.contains_key(&entries.id) {
            false
        } else {
            let weights = scroll_bar_weights(&entries.entries);
            let ghost v = weights;
            self.scroll_bar_colors.insert(entries.id.clone(), weights);
            proof {
                lemma_inserted_value(s, k, v, self.scroll_bar_colors.cap());
            }
            true
        }
    }
}

/// After an insertion into a table of positive capacity, the key is there with
/// the inserted value.
proof fn lemma_inserted_value<K, V>(s: Seq<(K, V)>, k: K, v: V, cap: nat)
    requires
        distinct_keys(s),
        cap > 0,
    ensures
        has_key(inserted(s, k, v, cap), k),
        value_of(inserted(s, k, v, cap), k) == v,
{
    lemma_touched_inserted_distinct(s, k, v, cap);
    let r = inserted(s, k, v, cap);
    let t = crate::lru::without_key(s, k).push((k, v));
    assert(r[r.len() - 1] == t[t.len() - 1]);
    assert(r[r.len() - 1].0 == k);
    let m = key_index(r, k);
    assert(m == r.len() - 1);
}

/// Loaded external resources (such as images), keyed by path. A resource that
/// fails to load is replaced by a placeholder, cached under the key `"?"`, so a
/// failure is not retried on every use.
pub struct ResourceCache<H> {
    pub data: LRU<String, H>,
}

impl<H> ResourceCache<H> {
    pub open spec fn wf(&self) -> bool {
        self.data.wf() && self.data.cap() > 0
    }

    pub fn new() -> (r: ResourceCache<H>)
        ensures
            r.wf(),
            r.data.cap() == RESOURCE_CACHE_CAPACITY,
            r.data@.len() == 0,
    {
        ResourceCache { data: LRU::with_capacity(RESOURCE_CACHE_CAPACITY) }
    }

    /// The cached handle of `path`, if any.
    pub fn get(&mut self, path: &String) -> (r: Option<&H>)
        requires
            old(self).wf(),
        ensures
            final(self).wf(),
            final(self).data.cap() == old(self).data.cap(),
            final(self).data@ == touched(old(self).data@, path@),
            r.is_some() == has_key(old(self).data@, path@),
            r.is_some() ==> *r.unwrap() == value_of(old(self).data@, path@),
    {
        self.data.get(path)
    }

    /// Caches the handle of a resource that loaded, and returns the key that
    /// refers to it: its path.
    pub fn register_loaded(&mut self, path: String, handle: H) -> (r: String)
        requires
            old(self).wf(),
        ensures
            final(self).wf(),
            final(self).data.cap() == old(self).data.cap(),
            final(self).data@ == inserted(old(self).data@, path@, handle, old(self).data.cap()),
            r@ == path@,
    {
        let r = path.clone();
        self.data.insert(path, handle);
        r
    }

    /// Records that a resource failed to load, and returns the key of the
    /// placeholder that stands for it. The placeholder is made (by calling
    /// `make_placeholder`) and cached only when it is not cached yet.
    pub fn register_failed<F: FnOnce() -> H>(&mut self, make_placeholder: F) -> (r: String)
        requires
            old(self).wf(),
            make_placeholder.requires(()),
        ensures
            final(self).wf(),
            final(self).data.cap() == old(self).data.cap(),
            r@ == placeholder_key(),
            has_key(final(self).data@, placeholder_key()),
            has_key(old(self).data@, placeholder_key()) ==> final(self).data@ == touched(
                old(self).data@,
                placeholder_key(),
            ),
            !has_key(old(self).data@, placeholder_key()) ==> make_placeholder.ensures(
                (),
                value_of(final(self).data@, placeholder_key()),
            ) && final(self).data@ == inserted(
                old(self).data@,
                placeholder_key(),
                value_of(final(self).data@, placeholder_key()),
                old(self).data.cap(),
            ),
    {
        let key = "?".to_string();
        proof {
            reveal_strlit("?");
            assert(key@ =~= placeholder_key());
        }
        let ghost s = self.data@;
        proof {
            lemma_touched_inserted_distinct(s, key@, arbitrary(), self.data.cap());
        }
        if !self.data.contains_key(&key) {
            let placeholder = make_placeholder();
            let ghost v = placeholder;
            self.data.insert(key.clone(), placeholder);
            proof {
                lemma_inserted_value(s, placeholder_key(), v, self.data.cap());
            }
        } else {
            proof {
                crate::lru::lemma_use_promotes(s, key@);
                assert(self.data@[self.data@.len() - 1].0 == key@);
            }
        }
        key
    }
}

} // verus!
