use vstd::prelude::*;

use crate::entry::Entry;
use vstd::arithmetic::div_mod::{
    lemma_add_mod_noop, lemma_fundamental_div_mod_converse, lemma_small_mod, lemma_sub_mod_noop,
};

verus! {

/// The position `k` steps away from `c` on a ring of `n` positions.
pub open spec fn ring_step(c: int, k: int, n: int, forward: bool) -> int {
    if forward {
        (c + k) % n
    } else {
        (c - k) % n
    }
}

/// The cursor after moving `step` entries down, wrapping past the end.
pub fn next_cursor(cursor: usize, step: usize, len: usize) -> (r: usize)
    requires
        cursor < len,
        step <= len,
    ensures
        r == ring_step(cursor as int, step as int, len as int, true),
        r < len,
{
    if cursor >= len - step {
        proof {
            lemma_fundamental_div_mod_converse(cursor + step, len as int, 1, cursor + step - len);
        }
        cursor - (len - step)
    } else {
        proof {
            lemma_fundamental_div_mod_converse(cursor + step, len as int, 0, cursor + step);
        }
        cursor + step
    }
}

/// The cursor after moving `step` entries up, wrapping past the start.
pub fn prev_cursor(cursor: usize, step: usize, len: usize) -> (r: usize)
    requires
        cursor < len,
        step <= len,
    ensures
        r == ring_step(cursor as int, step as int, len as int, false),
        r < len,
{
    if cursor >= step {
        proof {
            lemma_fundamental_div_mod_converse(cursor - step, len as int, 0, cursor - step);
        }
        cursor - step
    } else {
        proof {
            lemma_fundamental_div_mod_converse(cursor - step, len as int, -1, cursor + len - step);
        }
        cursor + (len - step)
    }
}

/// Moving down from the last entry lands on the first, and moving up from the
/// first lands on the last.
pub proof fn lemma_cursor_wraps(n: int)
    requires
        n > 0,
    ensures
        ring_step(n - 1, 1, n, true) == 0,
        ring_step(0, 1, n, false) == n - 1,
{
    lemma_fundamental_div_mod_converse(n, n, 1, 0);
    lemma_fundamental_div_mod_converse(-1, n, -1, n - 1);
}

/// The cursor that the quick-jump key `n` (0 for key 1, ..., 8 for key 9) selects
/// among `len` entries: evenly spaced from the first entry to the last.
pub open spec fn quick_jump(n: int, len: int) -> int {
    n * (len - 1) / 8
}

pub fn quick_jump_cursor(n: usize, len: usize) -> (r: usize)
    requires
        n <= 8,
        len > 0,
    ensures
        r == quick_jump(n as int, len as int),
        r < len,
{
    proof {
        assert((n as int) * (len - 1) <= 8 * (len - 1)) by (nonlinear_arith)
            requires
                n <= 8,
                len > 0,
        ;
    }
    let q: u128 = (n as u128) * ((len - 1) as u128) / 8;
    q as usize
}

/// How many entries one step of the mouse wheel scrolls.
pub open spec fn scroll_speed(len: int) -> int {
    if len / 32 > 1 {
        len / 32
    } else {
        1
    }
}

/// What a search from entry `origin` looks for.
#[derive(Clone, Copy, Debug, PartialEq, Eq, Structural)]
pub enum Scan {
    /// The next entry whose first category differs.
    Category1,
    /// The next entry whose second category differs.
    Category2,
    /// The next entry with the same flag.
    SameFlag,
}

pub open spec fn string_option_view(s: Option<String>) -> Option<Seq<char>> {
    match s {
        Some(s) => Some(s@),
        None => None,
    }
}

/// Whether entry `e` ends a search of kind `scan` that started at entry `origin`.
pub open spec fn scan_hit(scan: Scan, origin: Entry, e: Entry) -> bool {
    match scan {
        Scan::Category1 => string_option_view(e.category1) != string_option_view(origin.category1),
        Scan::Category2 => string_option_view(e.category2) != string_option_view(origin.category2),
        Scan::SameFlag => e.flag == origin.flag,
    }
}

/// Where a search that has looked at `k - 1` entries past `c` without a hit
/// stops: at the first hit, or back at `c` after a full round.
pub open spec fn scan_from(entries: Seq<Entry>, c: int, forward: bool, scan: Scan, k: int) -> int
    decreases entries.len() - k,
{
    if k >= entries.len() {
        c
    } else if scan_hit(scan, entries[c], entries[ring_step(c, k, entries.len() as int, forward)]) {
        ring_step(c, k, entries.len() as int, forward)
    } else {
        scan_from(entries, c, forward, scan, k + 1)
    }
}

/// Where a search of kind `scan` from entry `c` stops: it looks at most at every
/// entry once, and stays at `c` when nothing matches.
pub open spec fn scan_target(entries: Seq<Entry>, c: int, forward: bool, scan: Scan) -> int {
    scan_from(entries, c, forward, scan, 1)
}

fn string_option_eq(a: &Option<String>, b: &Option<String>) -> (r: bool)
    ensures
        r == (string_option_view(*a) == string_option_view(*b)),
{
    match (a, b) {
        (Some(a), Some(b)) => a.eq(b),
        (None, None) => true,
        _ => false,
    }
}

fn is_scan_hit(scan: Scan, origin: &Entry, e: &Entry) -> (r: bool)
    ensures
        r == scan_hit(scan, *origin, *e),
{
    match scan {
        Scan::Category1 => !string_option_eq(&e.category1, &origin.category1),
        Scan::Category2 => !string_option_eq(&e.category2, &origin.category2),
        Scan::SameFlag => e.flag == origin.flag,
    }
}

/// Searches from entry `cursor` in one direction, wrapping around, for the
/// entry that `scan` looks for.
pub fn scan_cursor(entries: &Vec<Entry>, cursor: usize, forward: bool, scan: Scan) -> (r: usize)
    requires
        cursor < entries@.len(),
    ensures
        r == scan_target(entries@, cursor as int, forward, scan),
        r < entries@.len(),
{
    let len = entries.len();
    let mut k: usize = 1;
    let mut pos: usize = if forward {
        next_cursor(cursor, 1, len)
    } else {
        prev_cursor(cursor, 1, len)
    };
    while k < len
        invariant
            len == entries@.len(),
            cursor < len,
            1 <= k <= len,
            pos < len,
            k < len ==> pos == ring_step(cursor as int, k as int, len as int, forward),
            scan_target(entries@, cursor as int, forward, scan) == scan_from(
                entries@,
                cursor as int,
                forward,
                scan,
                k as int,
            ),
        decreases len - k,
    {
        if is_scan_hit(scan, &entries[cursor], &entries[pos]) {
            return pos;
        }
        pos = if forward {
            next_cursor(pos, 1, len)
        } else {
            prev_cursor(pos, 1, len)
        };
        proof {
            let n = len as int;
            lemma_small_mod(1, n as nat);
            if forward {
                lemma_add_mod_noop(cursor + k, 1, n);
            } else {
                lemma_sub_mod_noop(cursor - k, 1, n);
            }
        }
        k = k + 1;
    }
    cursor
}

} // verus!
