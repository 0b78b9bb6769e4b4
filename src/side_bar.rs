use vstd::prelude::*;

use crate::cache::RenderCache;
use crate::cache::{is_scroll_bar_of, memo_step};
use crate::lru::value_of;
use crate::entry::{Entries, Entry, EntryState};
use crate::state::State;

verus! {

/// How many rows the side-bar lists.
pub const SIDE_BAR_ROWS: usize = 37;

/// The first row listed: the cursor sits in the middle of the list when it can.
pub open spec fn first_row(cursor: int, len: int) -> int {
    let start = if cursor > 18 { cursor - 18 } else { 0 };
    let end = if start + 37 < len { start + 37 } else { len };
    if end < start + 37 {
        if end > 37 { end - 37 } else { 0 }
    } else {
        start
    }
}

/// The rows `[start, end)` that the side-bar lists for `len` entries with the
/// cursor at `cursor`: 37 rows around the cursor, or all of them when there
/// are fewer.
pub fn side_bar_rows(cursor: usize, len: usize) -> (r: (usize, usize))
    requires
        len > 0 ==> cursor < len,
    ensures
        r.0 == first_row(cursor as int, len as int),
        r.1 == if r.0 + 37 < len { r.0 + 37 } else { len as int },
        r.0 <= r.1 <= len,
        len > 0 ==> r.0 <= cursor < r.1,
{
    let mut start = if cursor > 18 {
        cursor - 18
    } else {
        0
    };
    let end = if start < len && len - start > 37 {
        start + 37
    } else {
        len
    };
    if len < 37 || end - start < 37 {
        start = if end > 37 {
            end - 37
        } else {
            0
        };
    }
    let end = if start < len && len - start > 37 {
        start + 37
    } else {
        len
    };
    (start, end)
}

/// The side-bar row under the pointer `mouse` (in tenths of a logical unit):
/// rows are 17.6 units high, the first one's bottom edge at 20 units, and span
/// the side-bar's width but for 0.5 units on the left and 3.5 on the right.
pub open spec fn row_at(mouse: (i64, i64), wide: bool, start: int, end: int) -> Option<int> {
    let x0: int = if wide { 6050 } else { 9050 };
    let w: int = if wide { 4400 } else { 1400 };
    if x0 <= mouse.0 < x0 + w && mouse.1 >= 24 && (mouse.1 - 24) / 176 < end - start {
        Some(start + (mouse.1 - 24) / 176)
    } else {
        None
    }
}

impl State {
    /// Records which side-bar row is under the pointer, for a collection of
    /// `len` entries.
    pub fn update_hovered(&mut self, mouse: (i64, i64), len: usize)
        requires
            len > 0 ==> old(self).cursor < len,
        ensures
            *final(self) == (State {
                hovered_entry: match row_at(
                    mouse,
                    old(self).wide_side_bar,
                    first_row(old(self).cursor as int, len as int),
                    if first_row(old(self).cursor as int, len as int) + 37 < len {
                        first_row(old(self).cursor as int, len as int) + 37
                    } else {
                        len as int
                    },
                ) {
                    Some(i) => Some(i as usize),
                    None => None::<usize>,
                },
                ..*old(self)
            }),
            final(self).hovered_entry matches Some(i) ==> i < len,
    {
        let (start, end) = side_bar_rows(self.cursor, len);
        let x0: i64 = if self.wide_side_bar {
            6050
        } else {
            9050
        };
        let w: i64 = if self.wide_side_bar {
            4400
        } else {
            1400
        };
        self.hovered_entry = if x0 <= mouse.0 && mouse.0 < x0 + w && mouse.1 >= 24 {
            let k = ((mouse.1 - 24) / 176) as u64;
            if k < (end - start) as u64 {
                Some(start + k as usize)
            } else {
                None
            }
        } else {
            None
        };
    }

    /// Refreshes the render cache for what this state shows of `entries`: the
    /// canvas of the entry at the cursor (when there is one) and the scroll-bar
    /// histogram. Each is computed only when it is not cached yet: the results
    /// say whether the render callback was called and whether the histogram
    /// was computed.
    pub fn update_cache<G, P, R: Fn(&Entry, EntryState) -> Result<G, String>>(
        &self,
        cache: &mut RenderCache<G>,
        entries: &Entries<P, R>,
    ) -> (r: (bool, bool))
        requires
            old(cache).wf(),
            entries.entries@.len() > 0 ==> self.cursor < entries.entries@.len(),
            4 * entries.entries@.len() <= u64::MAX,
            forall|e: &Entry, s: EntryState| entries.render_canvas.requires((e, s)),
        ensures
            final(cache).wf(),
            final(cache).canvas.cap() == old(cache).canvas.cap(),
            final(cache).scroll_bar_colors.cap() == old(cache).scroll_bar_colors.cap(),
            entries.entries@.len() == 0 ==> !r.0 && final(cache).canvas == old(cache).canvas,
            entries.entries@.len() > 0 ==> memo_step(
                old(cache).canvas@,
                (entries.id@, self.cursor, self.entry_state),
                old(cache).canvas.cap(),
                final(cache).canvas@,
                r.0,
            ),
            r.0 ==> entries.render_canvas.ensures(
                (&entries.entries@[self.cursor as int], self.entry_state),
                value_of(final(cache).canvas@, (entries.id@, self.cursor, self.entry_state)),
            ),
            memo_step(
                old(cache).scroll_bar_colors@,
                entries.id@,
                old(cache).scroll_bar_colors.cap(),
                final(cache).scroll_bar_colors@,
                r.1,
            ),
            r.1 ==> is_scroll_bar_of(
                value_of(final(cache).scroll_bar_colors@, entries.id@)@,
                entries.entries@,
            ),
    {
        let rendered = if entries.entries.len() > 0 {
            cache.resolve_canvas(entries, self.cursor, self.entry_state)
        } else {
            false
        };
        let computed = cache.resolve_scroll_bar(entries);
        (rendered, computed)
    }
}

} // verus!
