use vstd::prelude::*;

use vstd::string::StringExecFns;
use crate::lru::{has_key, inserted, touched, value_of, without_key, LRU};

verus! {

/// How many collections the session remembers a cursor for.
pub const CURSOR_MEMORY_CAPACITY: usize = 1024;

/// `s` with the entries of all of `ids` taken out.
pub open spec fn without_keys<V>(s: Seq<(Seq<char>, V)>, ids: Seq<Seq<char>>) -> Seq<(Seq<char>, V)>
    decreases ids.len(),
{
    if ids.len() == 0 {
        s
    } else {
        without_key(without_keys(s, ids.drop_last()), ids.last())
    }
}

/// The views of a sequence of strings.
pub open spec fn views_of(ids: Seq<String>) -> Seq<Seq<char>> {
    ids.map_values(|s: String| s@)
}

/// The cursor that a transition lands on: the one it carries, else the one
/// remembered for the target in `memory`, else the first entry.
pub open spec fn landing_cursor(memory: Seq<(Seq<char>, usize)>, target: Seq<char>, cursor: Option<usize>) -> usize {
    match cursor {
        Some(c) => c,
        None => if has_key(memory, target) {
            value_of(memory, target)
        } else {
            0
        },
    }
}

/// The length of the longest of `ids`.
pub open spec fn max_len(ids: Seq<Seq<char>>) -> nat
    decreases ids.len(),
{
    if ids.len() == 0 {
        0
    } else {
        let m = max_len(ids.drop_last());
        if ids.last().len() > m {
            ids.last().len()
        } else {
            m
        }
    }
}

proof fn lemma_max_len(ids: Seq<Seq<char>>, i: int)
    requires
        0 <= i < ids.len(),
    ensures
        ids[i].len() <= max_len(ids),
    decreases ids.len(),
{
    if i < ids.len() - 1 {
        lemma_max_len(ids.drop_last(), i);
    }
}

fn is_taken(taken: &Vec<String>, id: &String) -> (r: bool)
    ensures
        r == views_of(taken@).contains(id@),
{
    let mut i: usize = 0;
    while i < taken.len()
        invariant
            i <= taken@.len(),
            forall|j: int| 0 <= j < i ==> taken@[j]@ != id@,
        decreases taken@.len() - i,
    {
        if taken[i].eq(id) {
            assert(views_of(taken@)[i as int] == id@);
            return true;
        }
        i = i + 1;
    }
    assert forall|j: int| 0 <= j < views_of(taken@).len() implies views_of(taken@)[j] != id@ by {
        assert(views_of(taken@)[j] == taken@[j]@);
    }
    false
}

/// An id that starts with `base` and differs from each of `taken`: `base`
/// itself when it is free, else `base` followed by as few `#` as make it free.
pub fn fresh_id(base: &String, taken: &Vec<String>) -> (r: String)
    ensures
        r@.len() >= base@.len(),
        r@.subrange(0, base@.len() as int) == base@,
        forall|k: int| base@.len() <= k < r@.len() ==> r@[k] == '#',
        !views_of(taken@).contains(r@),
        !views_of(taken@).contains(base@) ==> r@ == base@,
{
    let ghost bound = max_len(views_of(taken@));
    let mut id = String::from_str(base.as_str());
    assert(id@.subrange(0, base@.len() as int) =~= base@);
    while is_taken(taken, &id)
        invariant
            bound == max_len(views_of(taken@)),
            id@.len() >= base@.len(),
            id@.subrange(0, base@.len() as int) == base@,
            forall|k: int| base@.len() <= k < id@.len() ==> id@[k] == '#',
            !views_of(taken@).contains(base@) ==> id@ == base@,
        decreases bound + 1 - id@.len(),
    {
        proof {
            let i = choose|i: int| 0 <= i < views_of(taken@).len() && views_of(taken@)[i] == id@;
            lemma_max_len(views_of(taken@), i);
            reveal_strlit("#");
        }
        let ghost before = id@;
        id.append("#");
        proof {
            assert(id@.subrange(0, base@.len() as int) =~= before.subrange(0, base@.len() as int));
        }
    }
    id
}

/// The host's bookkeeping across transitions: the last cursor in each
/// collection, and the ids of the filtered collections that are registered.
pub struct Session {
    pub tmp_entries_ids: Vec<String>,
    pub cursor_memory: LRU<String, usize>,
}

impl Session {
    pub open spec fn wf(&self) -> bool {
        self.cursor_memory.wf()
    }

    pub fn new() -> (r: Session)
        ensures
            r.wf(),
            r.tmp_entries_ids@.len() == 0,
            r.cursor_memory@.len() == 0,
            r.cursor_memory.cap() == CURSOR_MEMORY_CAPACITY,
    {
        Session { tmp_entries_ids: Vec::new(), cursor_memory: LRU::with_capacity(CURSOR_MEMORY_CAPACITY) }
    }

    /// Stops tracking the filtered collections: returns their ids, which the host
    /// must take out of its registry, and forgets their cursors.
    fn drop_tmp_entries(&mut self) -> (r: Vec<String>)
        requires
            old(self).wf(),
        ensures
            final(self).wf(),
            final(self).cursor_memory.cap() == old(self).cursor_memory.cap(),
            r@ == old(self).tmp_entries_ids@,
            final(self).tmp_entries_ids@.len() == 0,
            final(self).cursor_memory@ == without_keys(old(self).cursor_memory@, views_of(r@)),
    {
        let mut ids: Vec<String> = Vec::new();
        std::mem::swap(&mut ids, &mut self.tmp_entries_ids);
        let mut i: usize = 0;
        while i < ids.len()
            invariant
                self.wf(),
                self.cursor_memory.cap() == old(self).cursor_memory.cap(),
                ids@ == old(self).tmp_entries_ids@,
                self.tmp_entries_ids@.len() == 0,
                i <= ids@.len(),
                self.cursor_memory@ == without_keys(old(self).cursor_memory@, views_of(ids@.take(i as int))),
            decreases ids@.len() - i,
        {
            self.cursor_memory.remove(&ids[i]);
            proof {
                assert(views_of(ids@.take(i + 1)).drop_last() =~= views_of(ids@.take(i as int)));
                assert(views_of(ids@.take(i + 1)).last() == ids@[i as int]@);
            }
            i = i + 1;
        }
        assert(ids@.take(i as int) =~= ids@);
        ids
    }

    /// Bookkeeping for a move from collection `from_id`, left at `from_cursor`,
    /// to the registered collection `to_id`: the cursor of `from_id` is
    /// remembered, the filtered collections are dropped (their ids are returned
    /// for the host to deregister), and the second result is the cursor to show
    /// `to_id` at.
    pub fn transit(&mut self, from_id: String, from_cursor: usize, to_id: &String, cursor: Option<usize>) -> (r: (Vec<String>, usize))
        requires
            old(self).wf(),
        ensures
            final(self).wf(),
            r.0@ == old(self).tmp_entries_ids@,
            final(self).tmp_entries_ids@.len() == 0,
            final(self).cursor_memory@ == touched(
                without_keys(
                    inserted(old(self).cursor_memory@, from_id@, from_cursor, old(self).cursor_memory.cap()),
                    views_of(r.0@),
                ),
                to_id@,
            ),
            r.1 == landing_cursor(
                without_keys(
                    inserted(old(self).cursor_memory@, from_id@, from_cursor, old(self).cursor_memory.cap()),
                    views_of(r.0@),
                ),
                to_id@,
                cursor,
            ),
    {
        self.cursor_memory.insert(from_id, from_cursor);
        let stale = self.drop_tmp_entries();
        let remembered = match self.cursor_memory.get(to_id) {
            Some(c) => Some(*c),
            None => None,
        };
        let c = match cursor {
            Some(c) => c,
            None => match remembered {
                Some(c) => c,
                None => 0,
            },
        };
        (stale, c)
    }

    /// Bookkeeping for a move from collection `from_id`, left at `from_cursor`,
    /// to the new filtered collection `tmp_id`: the cursor of `from_id` is
    /// remembered, the filtered collections tracked so far are dropped (their
    /// ids are returned for the host to deregister) and `tmp_id` becomes the
    /// only one tracked. The second result is the cursor to show it at: the one
    /// given, else its first entry.
    pub fn transit_to_tmp(&mut self, from_id: String, from_cursor: usize, tmp_id: String, cursor: Option<usize>) -> (r: (Vec<String>, usize))
        requires
            old(self).wf(),
        ensures
            final(self).wf(),
            r.0@ == old(self).tmp_entries_ids@,
            final(self).tmp_entries_ids@ == seq![tmp_id],
            final(self).cursor_memory@ == without_keys(
                inserted(old(self).cursor_memory@, from_id@, from_cursor, old(self).cursor_memory.cap()),
                views_of(r.0@),
            ),
            r.1 == match cursor {
                Some(c) => c,
                None => 0,
            },
    {
        self.cursor_memory.insert(from_id, from_cursor);
        let stale = self.drop_tmp_entries();
        self.tmp_entries_ids.push(tmp_id);
        assert(self.tmp_entries_ids@ =~= seq![tmp_id]);
        let c = match cursor {
            Some(c) => c,
            None => 0,
        };
        (stale, c)
    }
}

} // verus!
