use vstd::prelude::*;

verus! {

/// Where the layout of a text box stands after some characters: the characters
/// laid out so far, each with the position of the source character whose color
/// it takes; the column and line; whether the current line has been cut; and
/// whether the box is full.
pub struct Layout {
    pub out: Seq<(char, nat)>,
    pub x: nat,
    pub y: nat,
    pub cut: bool,
    pub full: bool,
}

/// The layout of the first `n` characters of `s` in a box of `max_x + 1`
/// columns and `max_y + 1` lines. A line longer than the box ends in "..."
/// and the rest of it is dropped; a line break past the last line ends the text.
pub open spec fn layout(s: Seq<char>, n: nat, max_x: nat, max_y: nat) -> Layout
    decreases n,
{
    if n == 0 {
        Layout { out: Seq::empty(), x: 0, y: 0, cut: false, full: false }
    } else {
        let l = layout(s, (n - 1) as nat, max_x, max_y);
        let i = (n - 1) as nat;
        if l.full || i >= s.len() {
            l
        } else if s[i as int] == '\n' {
            Layout {
                out: l.out.push(('\n', i)),
                x: 0,
                y: l.y + 1,
                cut: false,
                full: l.y + 1 > max_y,
            }
        } else if l.cut {
            l
        } else if l.x > max_x {
            Layout { out: l.out + seq![('.', i), ('.', i), ('.', i)], cut: true, ..l }
        } else {
            Layout { out: l.out.push((s[i as int], i)), x: l.x + 1, ..l }
        }
    }
}

/// Lays `s` out in a box of `max_x + 1` columns and `max_y + 1` lines (see
/// `layout`). Returns the characters to draw, and for each the position in `s`
/// of the character whose color it takes.
pub fn break_lines(s: &Vec<char>, max_x: usize, max_y: usize) -> (r: (Vec<char>, Vec<usize>))
    ensures
        r.0@.len() == r.1@.len(),
        r.0@.len() == layout(s@, s@.len(), max_x as nat, max_y as nat).out.len(),
        forall|k: int|
            0 <= k < r.0@.len() ==> (#[trigger] r.0@[k], r.1@[k] as nat) == layout(
                s@,
                s@.len(),
                max_x as nat,
                max_y as nat,
            ).out[k],
{
    let mut chars: Vec<char> = Vec::new();
    let mut sources: Vec<usize> = Vec::new();
    let mut x: usize = 0;
    let mut y: usize = 0;
    let mut cut = false;
    let mut i: usize = 0;
    while i < s.len()
        invariant
            i <= s@.len(),
            chars@.len() == sources@.len(),
            ({
                let l = layout(s@, i as nat, max_x as nat, max_y as nat);
                &&& !l.full
                &&& l.x == x
                &&& l.y == y
                &&& l.cut == cut
                &&& l.out.len() == chars@.len()
                &&& forall|k: int|
                    0 <= k < chars@.len() ==> (#[trigger] chars@[k], sources@[k] as nat) == l.out[k]
            }),
            x <= max_x + 1,
            x <= i,
            y <= max_y,
            forall|k: int| 0 <= k < sources@.len() ==> sources@[k] < i,
        decreases s@.len() - i,
    {
        let ghost l0 = layout(s@, i as nat, max_x as nat, max_y as nat);
        let ch = s[i];
        if ch == '\n' {
            chars.push(ch);
            sources.push(i);
            x = 0;
            if y == max_y {
                proof {
                    let l1 = layout(s@, (i + 1) as nat, max_x as nat, max_y as nat);
                    assert(l1.full);
                    assert(l1.out == l0.out.push(('\n', i as nat)));
                    assert forall|n: nat| i + 1 <= n <= s@.len() implies layout(
                        s@,
                        n,
                        max_x as nat,
                        max_y as nat,
                    ) == l1 by {
                        lemma_full_stays(s@, (i + 1) as nat, n, max_x as nat, max_y as nat);
                    }
                    assert(layout(s@, s@.len(), max_x as nat, max_y as nat) == l1);
                    assert forall|k: int| 0 <= k < chars@.len() implies (#[trigger] chars@[k], sources@[k]
                        as nat) == l1.out[k] by {
                        if k < chars@.len() - 1 {
                            assert(l1.out[k] == l0.out[k]);
                        }
                    }
                }
                return (chars, sources);
            }
            y = y + 1;
            cut = false;
        } else if cut {
        } else if x > max_x {
            chars.push('.');
            sources.push(i);
            chars.push('.');
            sources.push(i);
            chars.push('.');
            sources.push(i);
            cut = true;
        } else {
            chars.push(ch);
            sources.push(i);
            x = x + 1;
        }
        proof {
            let l1 = layout(s@, (i + 1) as nat, max_x as nat, max_y as nat);
            assert forall|k: int| 0 <= k < chars@.len() implies (#[trigger] chars@[k], sources@[k] as nat)
                == l1.out[k] by {
                if k < l0.out.len() {
                    assert(l1.out[k] == l0.out[k]);
                }
            }
        }
        i = i + 1;
    }
    (chars, sources)
}

proof fn lemma_full_stays(s: Seq<char>, m: nat, n: nat, max_x: nat, max_y: nat)
    requires
        m <= n,
        layout(s, m, max_x, max_y).full,
    ensures
        layout(s, n, max_x, max_y) == layout(s, m, max_x, max_y),
    decreases n - m,
{
    if m < n {
        lemma_full_stays(s, m, (n - 1) as nat, max_x, max_y);
    }
}

/// How many line breaks `out` holds.
pub open spec fn line_breaks(out: Seq<(char, nat)>) -> nat
    decreases out.len(),
{
    if out.len() == 0 {
        0
    } else {
        line_breaks(out.drop_last()) + if out.last().0 == '\n' {
            1nat
        } else {
            0nat
        }
    }
}

proof fn lemma_line_breaks_append(a: Seq<(char, nat)>, b: Seq<(char, nat)>)
    ensures
        line_breaks(a + b) == line_breaks(a) + line_breaks(b),
    decreases b.len(),
{
    if b.len() > 0 {
        lemma_line_breaks_append(a, b.drop_last());
        assert((a + b).drop_last() =~= a + b.drop_last());
    } else {
        assert(a + b =~= a);
    }
}

/// A layout holds one line break per line started, so at most `max_y + 1` of
/// them; a line holds at most `max_x + 1` characters before it is cut.
pub proof fn lemma_layout_bounds(s: Seq<char>, n: nat, max_x: nat, max_y: nat)
    ensures
        ({
            let l = layout(s, n, max_x, max_y);
            &&& line_breaks(l.out) == l.y
            &&& l.y <= max_y + 1
            &&& !l.full ==> l.y <= max_y
            &&& l.x <= max_x + 1
        }),
    decreases n,
{
    if n > 0 {
        lemma_layout_bounds(s, (n - 1) as nat, max_x, max_y);
        let l = layout(s, (n - 1) as nat, max_x, max_y);
        let i = (n - 1) as nat;
        if !l.full && i < s.len() {
            if s[i as int] == '\n' {
                assert(l.out.push(('\n', i)).drop_last() =~= l.out);
            } else if !l.cut && l.x > max_x {
                lemma_line_breaks_append(l.out, seq![('.', i), ('.', i), ('.', i)]);
                let d = seq![('.', i), ('.', i), ('.', i)];
                assert(d.drop_last().drop_last().drop_last() =~= Seq::<(char, nat)>::empty());
                assert(line_breaks(d) == 0) by {
                    reveal_with_fuel(line_breaks, 4);
                    assert(d.drop_last() =~= seq![('.', i), ('.', i)]);
                    assert(d.drop_last().drop_last() =~= seq![('.', i)]);
                }
            } else if !l.cut {
                assert(l.out.push((s[i as int], i)).drop_last() =~= l.out);
            }
        }
    }
}

} // verus!
