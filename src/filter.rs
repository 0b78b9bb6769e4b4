use vstd::prelude::*;

use crate::entry::{Entries, Entry, Transition};
use vstd::string::StringExecFns;

verus! {

/// A named predicate over entries. `cond` must be stateless.
pub struct Filter<P> {
    pub name: String,
    pub cond: P,
}

/// The items of `s` at the positions where `keep` holds, in their order.
pub open spec fn kept<T>(s: Seq<T>, keep: Seq<bool>) -> Seq<T>
    decreases s.len(),
{
    if s.len() == 0 || keep.len() == 0 {
        Seq::empty()
    } else if keep.last() {
        kept(s.drop_last(), keep.drop_last()).push(s.last())
    } else {
        kept(s.drop_last(), keep.drop_last())
    }
}

/// How many of `keep` hold.
pub open spec fn count_kept(keep: Seq<bool>) -> nat
    decreases keep.len(),
{
    if keep.len() == 0 {
        0
    } else {
        count_kept(keep.drop_last()) + if keep.last() {
            1nat
        } else {
            0nat
        }
    }
}

/// Where the item at `cursor` lands among the kept items: its rank among them,
/// or `None` when it is not kept.
pub open spec fn filtered_cursor(keep: Seq<bool>, cursor: int) -> Option<nat> {
    if 0 <= cursor < keep.len() && keep[cursor] {
        Some(count_kept(keep.take(cursor)))
    } else {
        None
    }
}

/// The text that separates the source id from the filter name in the id of a filtered view.
pub open spec fn filter_id_separator() -> Seq<char> {
    seq![' ', '|', ' ']
}

/// The id of the view that filter `name` derives from the view `source`. The
/// host registers it under `session::fresh_id` of this id, which differs from
/// every id already registered.
pub open spec fn filtered_id(source: Seq<char>, name: Seq<char>) -> Seq<char> {
    source + filter_id_separator() + name
}

/// The description of the way back from a filtered view.
pub open spec fn exit_filter_description() -> Seq<char> {
    seq!['e', 'x', 'i', 't', ' ', 'f', 'i', 'l', 't', 'e', 'r', ' ', 'v', 'i', 'e', 'w']
}

/// Keeps the entries at the positions where `keep` holds, and maps `cursor` to
/// the position of the same entry among the kept ones (`None` when it is dropped).
pub fn filter_entries(entries: &Vec<Entry>, keep: &Vec<bool>, cursor: usize) -> (r: (
    Vec<Entry>,
    Option<usize>,
))
    requires
        entries@.len() == keep@.len(),
    ensures
        r.0@ == kept(entries@, keep@),
        r.1 == match filtered_cursor(keep@, cursor as int) {
            Some(c) => Some(c as usize),
            None => None::<usize>,
        },
{
    let mut result: Vec<Entry> = Vec::new();
    let mut new_cursor: Option<usize> = None;
    let mut i: usize = 0;
    while i < entries.len()
        invariant
            entries@.len() == keep@.len(),
            i <= entries@.len(),
            result@ == kept(entries@.take(i as int), keep@.take(i as int)),
            result@.len() == count_kept(keep@.take(i as int)),
            new_cursor == (if cursor < i {
                match filtered_cursor(keep@, cursor as int) {
                    Some(c) => Some(c as usize),
                    None => None::<usize>,
                }
            } else {
                None::<usize>
            }),
        decreases entries@.len() - i,
    {
        proof {
            assert(entries@.take(i + 1).drop_last() =~= entries@.take(i as int));
            assert(keep@.take(i + 1).drop_last() =~= keep@.take(i as int));
        }
        if keep[i] {
            if i == cursor {
                new_cursor = Some(result.len());
            }
            result.push(entries[i].duplicate());
        }
        i = i + 1;
    }
    proof {
        assert(entries@.take(i as int) =~= entries@);
        assert(keep@.take(i as int) =~= keep@);
    }
    (result, new_cursor)
}

/// Evaluates `cond` on each entry.
fn evaluate<P: Fn(&Entry) -> bool>(entries: &Vec<Entry>, cond: &P) -> (r: Vec<bool>)
    requires
        forall|e: &Entry| cond.requires((e,)),
    ensures
        r@.len() == entries@.len(),
        forall|i: int| 0 <= i < entries@.len() ==> cond.ensures((&entries@[i],), #[trigger] r@[i]),
{
    let mut r: Vec<bool> = Vec::new();
    let mut i: usize = 0;
    while i < entries.len()
        invariant
            i <= entries@.len(),
            r@.len() == i,
            forall|e: &Entry| cond.requires((e,)),
            forall|j: int| 0 <= j < i ==> cond.ensures((&entries@[j],), #[trigger] r@[j]),
        decreases entries@.len() - i,
    {
        let b = cond(&entries[i]);
        r.push(b);
        i = i + 1;
    }
    r
}

/// Whether `view` is what filter `filter_index` derives from `source`, with `keep`
/// the outcome of the filter's predicate on each entry of `source`.
pub open spec fn is_filtered_view<P, R>(
    view: Entries<P, R>,
    source: Entries<P, R>,
    filter_index: int,
    keep: Seq<bool>,
) -> bool {
    &&& view.id@ == filtered_id(source.id@, source.filters@[filter_index].name@)
    &&& view.title == source.title
    &&& view.entries@ == kept(source.entries@, keep)
    &&& view.entry_state_count == source.entry_state_count
    &&& view.transition.is_some()
    &&& view.transition.unwrap().id@ == source.id@
    &&& view.transition.unwrap().description.is_some()
    &&& view.transition.unwrap().description.unwrap()@ == exit_filter_description()
    &&& view.filters@.len() == 0
    &&& view.render_canvas == source.render_canvas
}

/// Whether `view` and `c` are what filter `n` of `entries` gives for the entry
/// at `cursor`, for some outcome `keep` of the filter's predicate on each entry.
pub open spec fn is_filter_result<P: Fn(&Entry) -> bool, R>(
    view: Entries<P, R>,
    c: Option<usize>,
    n: nat,
    entries: Entries<P, R>,
    cursor: usize,
) -> bool {
    exists|keep: Seq<bool>|
        {
            &&& keep.len() == entries.entries@.len()
            &&& forall|i: int|
                0 <= i < keep.len() ==> entries.filters@[n as int].cond.ensures(
                    (&entries.entries@[i],),
                    #[trigger] keep[i],
                )
            &&& is_filtered_view(view, entries, n as int, keep)
            &&& c == match filtered_cursor(keep, cursor as int) {
                Some(k) => Some(k as usize),
                None => None::<usize>,
            }
        }
}

impl<P: Fn(&Entry) -> bool, R: Copy> Entries<P, R> {
    /// Derives the view of the entries that filter `filter_index` keeps, and the
    /// position in it of the entry at `cursor` (`None` when that entry is dropped).
    /// Returns `None` when there is no such filter.
    pub fn apply_filter(&self, filter_index: usize, cursor: usize) -> (r: Option<
        (Entries<P, R>, Option<usize>),
    >)
        requires
            forall|i: int, e: &Entry|
                0 <= i < self.filters@.len() ==> #[trigger] self.filters@[i].cond.requires((e,)),
        ensures
            r.is_some() == (filter_index < self.filters@.len()),
            r matches Some((view, c)) ==> is_filter_result(view, c, filter_index as nat, *self, cursor),
    {
        if filter_index >= self.filters.len() {
            return None;
        }
        let filter = &self.filters[filter_index];
        proof {
            assert forall|e: &Entry| filter.cond.requires((e,)) by {
                assert(self.filters@[filter_index as int].cond.requires((e,)));
            }
        }
        let keep = evaluate(&self.entries, &filter.cond);
        let (entries, new_cursor) = filter_entries(&self.entries, &keep, cursor);
        let mut id = String::from_str(self.id.as_str());
        id.append(" | ");
        id.append(filter.name.as_str());
        let view = Entries {
            id,
            title: crate::entry::duplicate_string_option(&self.title),
            entries,
            entry_state_count: self.entry_state_count,
            transition: Some(
                Transition {
                    id: self.id.clone(),
                    description: Some("exit filter view".to_string()),
                },
            ),
            filters: Vec::new(),
            render_canvas: self.render_canvas,
        };
        proof {
            reveal_strlit(" | ");
            reveal_strlit("exit filter view");
            assert(view.id@ =~= filtered_id(self.id@, filter.name@));
            assert(view.transition.unwrap().description.unwrap()@ =~= exit_filter_description());
            assert(view.filters@ =~= Seq::<Filter<P>>::empty());
            assert(is_filtered_view(view, *self, filter_index as int, keep@));
        }
        Some((view, new_cursor))
    }
}

} // verus!
