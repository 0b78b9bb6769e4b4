use vstd::prelude::*;

use crate::entry::{Entry, EntryFlag};

verus! {

/// The number of buckets of the scroll-bar histogram.
pub const SCROLL_BAR_BUCKETS: usize = 128;

/// The weight that an entry in bucket `center` adds to bucket `b`, in quarters:
/// 1.0 at its own bucket, 0.5 one bucket away, 0.25 two buckets away.
pub open spec fn kernel(center: int, b: int) -> nat {
    if b == center {
        4
    } else if b == center - 1 || b == center + 1 {
        2
    } else if b == center - 2 || b == center + 2 {
        1
    } else {
        0
    }
}

/// The bucket of the entry at position `i` of `len` entries.
pub open spec fn bucket_of(i: int, len: int) -> int {
    i * SCROLL_BAR_BUCKETS as int / len
}

/// The flags of a sequence of entries.
pub open spec fn flags_of(entries: Seq<Entry>) -> Seq<EntryFlag> {
    entries.map_values(|e: Entry| e.flag)
}

/// The total weight, in quarters, that the first `n` of `flags` with flag `f`
/// add to bucket `b`.
pub open spec fn flag_weight(flags: Seq<EntryFlag>, n: int, f: EntryFlag, b: int) -> nat
    decreases n,
{
    if n <= 0 {
        0
    } else {
        flag_weight(flags, n - 1, f, b) + if flags[n - 1] == f {
            kernel(bucket_of(n - 1, flags.len() as int), b)
        } else {
            0
        }
    }
}

/// The weights of the red, green and blue flags in one bucket, in quarters.
#[derive(Clone, Copy, Debug, PartialEq, Eq, Structural)]
pub struct ColorWeights {
    pub red: u64,
    pub green: u64,
    pub blue: u64,
}

/// Whether `w` is the weight of bucket `b` over the first `n` of `flags`.
pub open spec fn bucket_matches(w: ColorWeights, flags: Seq<EntryFlag>, n: int, b: int) -> bool {
    &&& w.red == flag_weight(flags, n, EntryFlag::Red, b)
    &&& w.green == flag_weight(flags, n, EntryFlag::Green, b)
    &&& w.blue == flag_weight(flags, n, EntryFlag::Blue, b)
}

proof fn lemma_flag_weight_bound(flags: Seq<EntryFlag>, n: int, f: EntryFlag, b: int)
    ensures
        flag_weight(flags, n, f, b) <= 4 * (if n < 0 { 0 } else { n }),
    decreases n,
{
    if n > 0 {
        lemma_flag_weight_bound(flags, n - 1, f, b);
    }
}

/// `w` with `k` added to the weight of `flag`.
pub open spec fn bumped(w: ColorWeights, flag: EntryFlag, k: nat) -> ColorWeights {
    match flag {
        EntryFlag::Red => ColorWeights { red: (w.red + k) as u64, ..w },
        EntryFlag::Green => ColorWeights { green: (w.green + k) as u64, ..w },
        EntryFlag::Blue => ColorWeights { blue: (w.blue + k) as u64, ..w },
        EntryFlag::Unmarked => w,
    }
}

/// Whether each weight of `w` leaves room for `k` more.
pub open spec fn has_room(w: ColorWeights, k: nat) -> bool {
    w.red + k <= u64::MAX && w.green + k <= u64::MAX && w.blue + k <= u64::MAX
}

/// Adds `k` to the weight of `flag` in bucket `b`.
fn add_weight(weights: &mut Vec<ColorWeights>, b: usize, flag: EntryFlag, k: u64)
    requires
        b < old(weights)@.len(),
        has_room(old(weights)@[b as int], k as nat),
    ensures
        final(weights)@ == old(weights)@.update(b as int, bumped(old(weights)@[b as int], flag, k as nat)),
{
    let mut c = weights[b];
    match flag {
        EntryFlag::Red => c.red = c.red + k,
        EntryFlag::Green => c.green = c.green + k,
        EntryFlag::Blue => c.blue = c.blue + k,
        EntryFlag::Unmarked => {},
    }
    weights.set(b, c);
}

/// Adds the weights of one entry with flag `flag` in bucket `j`.
fn spread(weights: &mut Vec<ColorWeights>, j: usize, flag: EntryFlag)
    requires
        old(weights)@.len() == SCROLL_BAR_BUCKETS,
        j < SCROLL_BAR_BUCKETS,
        forall|c: int| 0 <= c < SCROLL_BAR_BUCKETS ==> has_room(#[trigger] old(weights)@[c], 4),
    ensures
        final(weights)@.len() == SCROLL_BAR_BUCKETS,
        forall|c: int|
            0 <= c < SCROLL_BAR_BUCKETS ==> #[trigger] final(weights)@[c] == bumped(
                old(weights)@[c],
                flag,
                kernel(j as int, c),
            ),
{
    let ghost w0 = weights@;
    if j > 1 {
        add_weight(weights, j - 2, flag, 1);
    }
    if j > 0 {
        add_weight(weights, j - 1, flag, 2);
    }
    add_weight(weights, j, flag, 4);
    if j < 127 {
        add_weight(weights, j + 1, flag, 2);
    }
    if j < 126 {
        add_weight(weights, j + 2, flag, 1);
    }
    assert forall|c: int| 0 <= c < SCROLL_BAR_BUCKETS implies #[trigger] weights@[c] == bumped(
        w0[c],
        flag,
        kernel(j as int, c),
    ) by {
        if kernel(j as int, c) == 0 {
            assert(bumped(w0[c], flag, 0) == w0[c]);
        }
    }
}

/// The scroll-bar histogram of `entries`: for each of the 128 buckets, the
/// weights of the red, green and blue flags that fall near it. The entry at
/// position `i` falls in bucket `i * 128 / len` and adds 1.0 there, 0.5 to the
/// neighbouring buckets and 0.25 to those two buckets away (in quarters: 4, 2, 1).
pub fn scroll_bar_weights(entries: &Vec<Entry>) -> (r: Vec<ColorWeights>)
    requires
        4 * entries@.len() <= u64::MAX,
    ensures
        r@.len() == SCROLL_BAR_BUCKETS,
        forall|b: int|
            0 <= b < SCROLL_BAR_BUCKETS ==> bucket_matches(
                #[trigger] r@[b],
                flags_of(entries@),
                entries@.len() as int,
                b,
            ),
{
    let ghost flags = flags_of(entries@);
    let zero = ColorWeights { red: 0, green: 0, blue: 0 };
    let mut weights: Vec<ColorWeights> = Vec::new();
    let mut b: usize = 0;
    while b < SCROLL_BAR_BUCKETS
        invariant
            b <= SCROLL_BAR_BUCKETS,
            weights@.len() == b,
            forall|c: int| 0 <= c < b ==> #[trigger] weights@[c] == zero,
        decreases SCROLL_BAR_BUCKETS - b,
    {
        weights.push(zero);
        b = b + 1;
    }
    let len = entries.len();
    let mut i: usize = 0;
    while i < len
        invariant
            len == entries@.len(),
            flags == flags_of(entries@),
            flags.len() == len,
            4 * len <= u64::MAX,
            i <= len,
            weights@.len() == SCROLL_BAR_BUCKETS,
            forall|c: int|
                0 <= c < SCROLL_BAR_BUCKETS ==> bucket_matches(#[trigger] weights@[c], flags, i as int, c),
        decreases len - i,
    {
        let flag = entries[i].flag;
        assert(flag == flags[i as int]);
        let scaled: u128 = (i as u128) * 128;
        let q: u128 = scaled / (len as u128);
        proof {
            assert((i as int) * 128 < (len as int) * 128) by (nonlinear_arith)
                requires
                    i < len,
            ;
            assert((i as int) * 128 / (len as int) < 128) by (nonlinear_arith)
                requires
                    (i as int) * 128 < (len as int) * 128,
                    len > 0,
            ;
        }
        let j = q as usize;
        proof {
            assert(j as int == bucket_of(i as int, len as int));
            assert forall|c: int| 0 <= c < SCROLL_BAR_BUCKETS implies has_room(
                #[trigger] weights@[c],
                4,
            ) by {
                assert(bucket_matches(weights@[c], flags, i as int, c));
                lemma_flag_weight_bound(flags, i as int, EntryFlag::Red, c);
                lemma_flag_weight_bound(flags, i as int, EntryFlag::Green, c);
                lemma_flag_weight_bound(flags, i as int, EntryFlag::Blue, c);
            }
        }
        let ghost before = weights@;
        spread(&mut weights, j, flag);
        proof {
            assert forall|c: int| 0 <= c < SCROLL_BAR_BUCKETS implies bucket_matches(
                #[trigger] weights@[c],
                flags,
                i + 1,
                c,
            ) by {
                assert(bucket_matches(before[c], flags, i as int, c));
                assert(kernel(j as int, c) == kernel(bucket_of(i as int, flags.len() as int), c));
            }
        }
        i = i + 1;
    }
    weights
}

} // verus!
