use vstd::prelude::*;

use crate::filter::Filter;
use vstd::std_specs::iter::IteratorSpec;

verus! {

/// An immutable classification of an entry, shown as a colored dot in the side-bar.
#[derive(Clone, Copy, Debug, PartialEq, Eq, Structural, Hash)]
pub enum EntryFlag {
    Unmarked,
    Red,
    Green,
    Blue,
}

impl EntryFlag {
    pub fn is_some(&self) -> (r: bool)
        ensures
            r == (*self != EntryFlag::Unmarked),
    {
        !matches!(self, EntryFlag::Unmarked)
    }
}

/// Which of the display modes of an entry is shown.
#[derive(Clone, Copy, Debug, PartialEq, Eq, Structural, Hash)]
pub struct EntryState(pub u32);

/// A reference to another `Entries`, by its id.
pub struct Transition {
    pub id: String,
    pub description: Option<String>,
}

pub(crate) fn duplicate_string_option(s: &Option<String>) -> (r: Option<String>)
    ensures
        r == *s,
{
    match s {
        Some(s) => Some(s.clone()),
        None => None,
    }
}

impl Transition {
    /// A copy of this transition.
    pub fn duplicate(&self) -> (r: Transition)
        ensures
            r == *self,
    {
        Transition { id: self.id.clone(), description: duplicate_string_option(&self.description) }
    }
}

pub(crate) fn duplicate_transition_option(t: &Option<Transition>) -> (r: Option<Transition>)
    ensures
        r == *t,
{
    match t {
        Some(t) => Some(t.duplicate()),
        None => None,
    }
}

/// One browsable item.
pub struct Entry {
    /// Shown in the side-bar.
    pub side_bar_title: String,
    /// Shown in the top-bar.
    pub top_bar_title: Option<String>,
    /// Payloads that only the render callback of the entry's `Entries` reads.
    pub content: Option<String>,
    pub extra_content: Option<String>,
    /// Tags for jumping to the next or previous category.
    pub category1: Option<String>,
    pub category2: Option<String>,
    /// Ids of other `Entries` that the user can move to from this entry.
    pub transition1: Option<Transition>,
    pub transition2: Option<Transition>,
    pub flag: EntryFlag,
}

impl Entry {
    /// A copy of this entry.
    pub fn duplicate(&self) -> (r: Entry)
        ensures
            r == *self,
    {
        Entry {
            side_bar_title: self.side_bar_title.clone(),
            top_bar_title: duplicate_string_option(&self.top_bar_title),
            content: duplicate_string_option(&self.content),
            extra_content: duplicate_string_option(&self.extra_content),
            category1: duplicate_string_option(&self.category1),
            category2: duplicate_string_option(&self.category2),
            transition1: duplicate_transition_option(&self.transition1),
            transition2: duplicate_transition_option(&self.transition2),
            flag: self.flag,
        }
    }
}

impl Default for Entry {
    fn default() -> (r: Entry)
        ensures
            r.side_bar_title@.len() == 0,
            r.top_bar_title.is_none(),
            r.content.is_none(),
            r.extra_content.is_none(),
            r.category1.is_none(),
            r.category2.is_none(),
            r.transition1.is_none(),
            r.transition2.is_none(),
            r.flag == EntryFlag::Unmarked,
    {
        Entry {
            side_bar_title: String::new(),
            top_bar_title: None,
            content: None,
            extra_content: None,
            category1: None,
            category2: None,
            transition1: None,
            transition2: None,
            flag: EntryFlag::Unmarked,
        }
    }
}

/// A view: a named, ordered collection of entries.
///
/// `P` is the type of the filter predicates and `R` that of the render callback,
/// `(entry, state) -> Result<graphics, error message>`. The callback must be a
/// pure function of its arguments: the engine caches what it returns.
pub struct Entries<P, R> {
    /// Unique key of this collection in the host's registry.
    pub id: String,
    pub title: Option<String>,
    pub entries: Vec<Entry>,
    /// How many display modes an entry has (cycled with the M key).
    pub entry_state_count: u32,
    /// The parent collection, reached with Ctrl+Up.
    pub transition: Option<Transition>,
    pub filters: Vec<Filter<P>>,
    pub render_canvas: R,
}

impl<P, R> Entries<P, R> {
    pub fn len(&self) -> (r: usize)
        ensures
            r == self.entries@.len(),
    {
        self.entries.len()
    }

    pub fn is_empty(&self) -> (r: bool)
        ensures
            r == (self.entries@.len() == 0),
    {
        self.entries.len() == 0
    }

    /// The entries, in order.
    pub fn iter(&self) -> (r: std::slice::Iter<'_, Entry>)
        ensures
            r.remaining() == self.entries@.as_ref(),
    {
        let entries = self.entries.as_slice();
        let r = entries.iter();
        proof {
            vstd::std_specs::slice::axiom_spec_slice_iter(entries);
        }
        r
    }

    pub fn get(&self, index: usize) -> (r: Option<&Entry>)
        ensures
            r.is_some() == (index < self.entries@.len()),
            r.is_some() ==> *r.unwrap() == self.entries@[index as int],
    {
        if index < self.entries.len() {
            Some(&self.entries[index])
        } else {
            None
        }
    }
}

} // verus!
