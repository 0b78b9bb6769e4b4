use vstd::prelude::*;

use crate::cursor::{
    next_cursor, prev_cursor, quick_jump, quick_jump_cursor, ring_step, scan_cursor, scan_target,
    scroll_speed, Scan,
};
use crate::entry::{Entries, Entry, Transition};
use crate::filter::is_filter_result;
use crate::input::{digit_of, digit_pressed, has_key_code, Input, KeyCode, Modifiers};
use crate::state::{
    entry_reset, escaped, mode_cycled, popup_ticked, with_popup, Action, PopupMessage, State, POPUP_LIFE,
    ARROW_REPEAT_AFTER, ZOOM_MAX, ZOOM_MIN,
};
use crate::transform::{check_contain, contains_point};

verus! {

/// Where the side-bar starts, in tenths of a logical unit.
pub open spec fn side_bar_start(wide: bool) -> int {
    if wide {
        6000
    } else {
        9000
    }
}

/// The arrow-key hold counter after a step: it counts down while Down is held,
/// up while Up is held, and is 0 when neither is.
pub open spec fn arrow_counter_after(c: i32, down_held: bool, up_held: bool) -> i32 {
    if down_held {
        if c <= -1 {
            if c == i32::MIN {
                c
            } else {
                (c - 1) as i32
            }
        } else {
            -1i32
        }
    } else if up_held {
        if c >= 1 {
            if c == i32::MAX {
                c
            } else {
                (c + 1) as i32
            }
        } else {
            1i32
        }
    } else {
        0i32
    }
}

/// A request to scroll the list: Down or Up pressed, held long enough, or the
/// mouse wheel turned over the side-bar (which scrolls `len / 32` entries at once).
#[derive(Clone, Copy, Debug, PartialEq, Eq, Structural)]
pub struct ScrollRequest {
    pub down: bool,
    pub up: bool,
    pub speed: usize,
}

pub open spec fn scroll_request(input: Input, counter: i32, wide: bool, len: int) -> ScrollRequest {
    let over_list = input.mouse_pos.0 >= side_bar_start(wide);
    let wheel_down = len > 0 && over_list && input.mouse_wheel.1 < 0;
    let wheel_up = len > 0 && over_list && !wheel_down && input.mouse_wheel.1 > 0;
    ScrollRequest {
        down: input.pressed_keys@.contains(KeyCode::Down) || counter < -ARROW_REPEAT_AFTER
            || wheel_down,
        up: input.pressed_keys@.contains(KeyCode::Up) || counter > ARROW_REPEAT_AFTER || wheel_up,
        speed: if wheel_down || wheel_up {
            scroll_speed(len) as usize
        } else {
            1
        },
    }
}

/// The cursor after the list keys, on a non-empty list: Down/Up move by the
/// scroll speed with wrapping (without modifiers); Ctrl+Down and Ctrl+Shift+Down
/// jump to the next first or second category, Ctrl+Shift+Up to the previous
/// second category; Space jumps to the next entry with the same flag, Alt+Space
/// to the previous one; and a digit key without modifiers jumps to a quantile.
pub open spec fn moved_cursor(
    entries: Seq<Entry>,
    c: int,
    req: ScrollRequest,
    space: bool,
    m: Modifiers,
    digit: Option<nat>,
) -> int {
    let len = entries.len() as int;
    let c1 = if req.down {
        if m.ctrl {
            scan_target(entries, c, true, if m.shift { Scan::Category2 } else { Scan::Category1 })
        } else if m.none() {
            ring_step(c, req.speed as int, len, true)
        } else {
            c
        }
    } else if req.up {
        if m.ctrl && m.shift {
            scan_target(entries, c, false, Scan::Category2)
        } else if m.none() {
            ring_step(c, req.speed as int, len, false)
        } else {
            c
        }
    } else if space {
        if m.alt && !m.ctrl && !m.shift {
            scan_target(entries, c, false, Scan::SameFlag)
        } else if m.none() {
            scan_target(entries, c, true, Scan::SameFlag)
        } else {
            c
        }
    } else {
        c
    };
    match digit {
        Some(n) => if m.none() {
            quick_jump(n as int, len)
        } else {
            c1
        },
        None => c1,
    }
}

/// `s` after the keys that work without modifiers: Left widens the side-bar and
/// Right narrows it, H toggles the help (which hides the extra content), C
/// toggles the extra content (or shows a popup when the entry has none), and M
/// cycles the display mode.
pub open spec fn toggled<P, R>(s: State, entries: Entries<P, R>, pressed: Seq<KeyCode>) -> State {
    let s1 = if pressed.contains(KeyCode::Left) {
        State { wide_side_bar: true, ..s }
    } else if pressed.contains(KeyCode::Right) {
        State { wide_side_bar: false, ..s }
    } else {
        s
    };
    let s2 = if pressed.contains(KeyCode::H) {
        State {
            show_help: !s1.show_help,
            show_extra_content: s1.show_extra_content && s1.show_help,
            ..s1
        }
    } else {
        s1
    };
    let s3 = if pressed.contains(KeyCode::C) && !s2.show_help {
        if s2.show_extra_content {
            State { show_extra_content: false, ..s2 }
        } else if entries.entries@.len() == 0 || entries.entries@[s2.cursor as int].extra_content
            is None {
            with_popup(s2, PopupMessage::NoExtraContent)
        } else {
            State { show_extra_content: true, ..s2 }
        }
    } else {
        s2
    };
    if pressed.contains(KeyCode::M) {
        mode_cycled(s3, entries.entry_state_count)
    } else {
        s3
    }
}

/// The transition that Ctrl + `key` follows: Up to the collection's parent, Left
/// and Right to the current entry's first and second transition.
pub open spec fn transition_of<P, R>(entries: Entries<P, R>, cursor: int, key: KeyCode) -> Option<
    Transition,
> {
    if key == KeyCode::Up {
        entries.transition
    } else if 0 <= cursor < entries.entries@.len() {
        if key == KeyCode::Left {
            entries.entries@[cursor].transition1
        } else {
            entries.entries@[cursor].transition2
        }
    } else {
        None
    }
}

/// One key of the Ctrl transitions: when it is pressed, either its transition is
/// taken (the new state and the transition), or a popup says that there is none.
pub open spec fn transit_key<P, R>(
    s: State,
    entries: Entries<P, R>,
    pressed: Seq<KeyCode>,
    key: KeyCode,
) -> (State, Option<Transition>) {
    if !pressed.contains(key) {
        (s, None)
    } else {
        match transition_of(entries, s.cursor as int, key) {
            Some(t) => (
                entry_reset(
                    State { curr_entries_id: t.id, cursor: 0, hovered_entry: None, ..s },
                ),
                Some(t),
            ),
            None => (with_popup(s, PopupMessage::NoTransition(key)), None),
        }
    }
}

/// The Ctrl transitions, tried for Up, Left and Right in turn; the first one
/// taken ends the step.
pub open spec fn transited<P, R>(s: State, entries: Entries<P, R>, pressed: Seq<KeyCode>) -> (
    State,
    Option<Transition>,
) {
    let (s1, t1) = transit_key(s, entries, pressed, KeyCode::Up);
    if t1.is_some() {
        (s1, t1)
    } else {
        let (s2, t2) = transit_key(s1, entries, pressed, KeyCode::Left);
        if t2.is_some() {
            (s2, t2)
        } else {
            transit_key(s2, entries, pressed, KeyCode::Right)
        }
    }
}

/// `x` limited to the range of `i64`.
pub open spec fn saturate(x: int) -> i64 {
    if x < i64::MIN {
        i64::MIN
    } else if x > i64::MAX {
        i64::MAX
    } else {
        x as i64
    }
}

/// `s` after the pan keys: W/A/S/D (or the wheel over the canvas, three times
/// as fast) pan by 10 canvas units, 40 with Shift, divided by the zoom.
pub open spec fn camera_panned(s: State, input: Input, shift: bool) -> State {
    let over_canvas = input.mouse_pos.0 < side_bar_start(s.wide_side_bar);
    let down = input.down_keys@;
    let left = down.contains(KeyCode::A) || (over_canvas && input.mouse_wheel.0 < 0);
    let right = down.contains(KeyCode::D) || (over_canvas && input.mouse_wheel.0 > 0);
    let up = down.contains(KeyCode::W) || (over_canvas && input.mouse_wheel.1 < 0);
    let below = down.contains(KeyCode::S) || (over_canvas && input.mouse_wheel.1 > 0);
    let wheel = over_canvas && (input.mouse_wheel.0 != 0 || input.mouse_wheel.1 != 0);
    let base: int = if shift { 40 } else { 10 };
    let speed: int = base * (if wheel { 3int } else { 1int }) * 10_000_000 / (s.camera_zoom as int);
    let (x, y) = s.camera_pos;
    let y1 = if up { saturate(y - speed) } else { y };
    let x1 = if left { saturate(x - speed) } else { x };
    let y2 = if below { saturate(y1 + speed) } else { y1 };
    let x2 = if right { saturate(x1 + speed) } else { x1 };
    State { camera_pos: (x2, y2), ..s }
}

/// `s` after the zoom keys: Z and X zoom in and out by 1.05 and 0.9523 (1.2 and
/// 0.8333 with Shift), within 0.1 to 8.0.
pub open spec fn camera_zoomed(s: State, input: Input, shift: bool) -> State {
    let down = input.down_keys@;
    let z = s.camera_zoom as int;
    let z1 = if down.contains(KeyCode::Z) {
        let n = z * (if shift { 12000int } else { 10500int }) / 10000;
        if n > ZOOM_MAX { ZOOM_MAX as int } else { n }
    } else {
        z
    };
    let z2 = if down.contains(KeyCode::X) {
        let n = z1 * (if shift { 8333int } else { 9523int }) / 10000;
        if n < ZOOM_MIN { ZOOM_MIN as int } else { n }
    } else {
        z1
    };
    State { camera_zoom: z2 as u32, ..s }
}

/// The expand/collapse button of the side-bar, in tenths of a logical unit.
pub open spec fn side_bar_button(wide: bool) -> [i64; 4] {
    if wide {
        [5840, 3440, 320, 320]
    } else {
        [8840, 3440, 320, 320]
    }
}

/// `s` after a left click: on the side-bar button it narrows or widens the
/// side-bar; on a hovered row it moves the cursor there.
pub open spec fn clicked(s: State, input: Input, len: int) -> State {
    if !input.mouse_pressed[0] {
        s
    } else if contains_point(side_bar_button(s.wide_side_bar), input.mouse_pos) {
        State { wide_side_bar: !s.wide_side_bar, ..s }
    } else {
        match s.hovered_entry {
            Some(i) => if i < len {
                State { cursor: i, ..s }
            } else {
                s
            },
            None => s,
        }
    }
}

/// What a step did, apart from the state it left.
pub enum Outcome {
    Continue,
    Quit,
    Transit(Transition),
    Filter(nat),
}

/// Whether the action `r` carries out `outcome`, for a step on `entries` that
/// started at `cursor`: a filter outcome comes with the view that the filter
/// derives and the position in it of the entry at `cursor`.
pub open spec fn action_matches<P: Fn(&Entry) -> bool, R>(r: Action<P, R>, outcome: Outcome, entries: Entries<P, R>, cursor: usize) -> bool {
    match outcome {
        Outcome::Continue => r is Continue,
        Outcome::Quit => r is Quit,
        Outcome::Transit(t) => r matches Action::Transit { id, cursor } && id@ == t.id@ && cursor is None,
        Outcome::Filter(n) => match r {
            Action::TransitToTmpEntries { entries: view, cursor: c } => is_filter_result(view, c, n, entries, cursor),
            _ => false,
        },
    }
}

/// One step of the state machine, on state `s0`, shown collection `entries`
/// and input `input`: the next state and the outcome. A filter outcome leaves
/// the state as it is after the popup tick; the filtered view is made by
/// `Entries::apply_filter`.
pub open spec fn stepped<P, R>(s0: State, entries: Entries<P, R>, input: Input) -> (State, Outcome) {
    let s1 = popup_ticked(s0);
    let m = Modifiers::of(input.down_keys@);
    let pressed = input.pressed_keys@;
    let len = entries.entries@.len() as int;
    if input.released_keys@.contains(KeyCode::Escape) {
        let (s2, quit) = escaped(s1);
        (s2, if quit { Outcome::Quit } else { Outcome::Continue })
    } else if m.ctrl && digit_of(pressed) is Some && digit_of(pressed).unwrap()
        < entries.filters@.len() {
        (s1, Outcome::Filter(digit_of(pressed).unwrap()))
    } else {
        let (s, t) = navigated(s1, s0.cursor, entries, input);
        (
            s,
            match t {
                Some(t) => Outcome::Transit(t),
                None => Outcome::Continue,
            },
        )
    }
}

/// `s1` after the list and toggle keys: the arrow-key counter, the cursor moves
/// (on a non-empty list) and, without modifiers, the toggles.
pub open spec fn listed<P, R>(s1: State, entries: Entries<P, R>, input: Input) -> State {
    let m = Modifiers::of(input.down_keys@);
    let pressed = input.pressed_keys@;
    let len = entries.entries@.len() as int;
    {
        let counter = arrow_counter_after(
            s1.scrolling_with_arrow_keys,
            input.down_keys@.contains(KeyCode::Down),
            input.down_keys@.contains(KeyCode::Up),
        );
        let s2 = State { scrolling_with_arrow_keys: counter, ..s1 };
        let req = scroll_request(input, counter, s2.wide_side_bar, len);
        let s3 = if len > 0 {
            State {
                cursor: moved_cursor(
                    entries.entries@,
                    s2.cursor as int,
                    req,
                    pressed.contains(KeyCode::Space),
                    m,
                    digit_of(pressed),
                ) as usize,
                ..s2
            }
        } else {
            s2
        };
        if m.none() {
            toggled(s3, entries, pressed)
        } else {
            s3
        }
    }
}

/// The part of a step after Escape and the filter keys, from state `s1`, with
/// `start_cursor` the cursor at the start of the step: the next state, and
/// the transition taken, if any. When the cursor has moved, the entry state is
/// reset.
pub open spec fn navigated<P, R>(s1: State, start_cursor: usize, entries: Entries<P, R>, input: Input) -> (State, Option<Transition>) {
    let m = Modifiers::of(input.down_keys@);
    let pressed = input.pressed_keys@;
    let len = entries.entries@.len() as int;
    {
        let s4 = listed(s1, entries, input);
        let (s5, t) = if m.ctrl_only() {
            transited(s4, entries, pressed)
        } else {
            (s4, None)
        };
        match t {
            Some(t) => (s5, Some(t)),
            None => {
                let s6 = clicked(camera_zoomed(camera_panned(s5, input, m.shift), input, m.shift), input, len);
                (
                    if s6.cursor != start_cursor {
                        entry_reset(s6)
                    } else {
                        s6
                    },
                    None,
                )
            },
        }
    }
}

fn saturating_add(x: i64, d: i64) -> (r: i64)
    ensures
        r == saturate(x + d),
{
    let n = x as i128 + d as i128;
    if n < i64::MIN as i128 {
        i64::MIN
    } else if n > i64::MAX as i128 {
        i64::MAX
    } else {
        n as i64
    }
}

impl State {
    fn count_arrow_keys(&mut self, input: &Input)
        ensures
            *final(self) == (State {
                scrolling_with_arrow_keys: arrow_counter_after(
                    old(self).scrolling_with_arrow_keys,
                    input.down_keys@.contains(KeyCode::Down),
                    input.down_keys@.contains(KeyCode::Up),
                ),
                ..*old(self)
            }),
    {
        let c = self.scrolling_with_arrow_keys;
        self.scrolling_with_arrow_keys = if has_key_code(&input.down_keys, KeyCode::Down) {
            if c <= -1 {
                if c == i32::MIN {
                    c
                } else {
                    c - 1
                }
            } else {
                -1
            }
        } else if has_key_code(&input.down_keys, KeyCode::Up) {
            if c >= 1 {
                if c == i32::MAX {
                    c
                } else {
                    c + 1
                }
            } else {
                1
            }
        } else {
            0
        };
    }

    fn scroll_request(&self, input: &Input, len: usize) -> (r: ScrollRequest)
        ensures
            r == scroll_request(*input, self.scrolling_with_arrow_keys, self.wide_side_bar, len as int),
            len > 0 ==> 1 <= r.speed <= len,
    {
        let start: i64 = if self.wide_side_bar {
            6000
        } else {
            9000
        };
        let over_list = input.mouse_pos.0 >= start;
        let wheel_down = len > 0 && over_list && input.mouse_wheel.1 < 0;
        let wheel_up = len > 0 && over_list && !wheel_down && input.mouse_wheel.1 > 0;
        let c = self.scrolling_with_arrow_keys;
        ScrollRequest {
            down: has_key_code(&input.pressed_keys, KeyCode::Down) || c < -ARROW_REPEAT_AFTER
                || wheel_down,
            up: has_key_code(&input.pressed_keys, KeyCode::Up) || c > ARROW_REPEAT_AFTER
                || wheel_up,
            speed: if wheel_down || wheel_up {
                if len / 32 > 1 {
                    len / 32
                } else {
                    1
                }
            } else {
                1
            },
        }
    }

    fn move_cursor<P, R>(
        &mut self,
        entries: &Entries<P, R>,
        req: ScrollRequest,
        space: bool,
        m: Modifiers,
        digit: Option<usize>,
    )
        requires
            entries.entries@.len() > 0,
            old(self).cursor < entries.entries@.len(),
            1 <= req.speed <= entries.entries@.len(),
            digit matches Some(n) ==> n <= 8,
        ensures
            *final(self) == (State {
                cursor: moved_cursor(
                    entries.entries@,
                    old(self).cursor as int,
                    req,
                    space,
                    m,
                    match digit {
                        Some(n) => Some(n as nat),
                        None => None::<nat>,
                    },
                ) as usize,
                ..*old(self)
            }),
            final(self).cursor < entries.entries@.len(),
    {
        let len = entries.entries.len();
        let c = self.cursor;
        let none = !m.shift && !m.ctrl && !m.alt;
        let c1 = if req.down {
            if m.ctrl {
                scan_cursor(
                    &entries.entries,
                    c,
                    true,
                    if m.shift {
                        Scan::Category2
                    } else {
                        Scan::Category1
                    },
                )
            } else if none {
                next_cursor(c, req.speed, len)
            } else {
                c
            }
        } else if req.up {
            if m.ctrl && m.shift {
                scan_cursor(&entries.entries, c, false, Scan::Category2)
            } else if none {
                prev_cursor(c, req.speed, len)
            } else {
                c
            }
        } else if space {
            if m.alt && !m.ctrl && !m.shift {
                scan_cursor(&entries.entries, c, false, Scan::SameFlag)
            } else if none {
                scan_cursor(&entries.entries, c, true, Scan::SameFlag)
            } else {
                c
            }
        } else {
            c
        };
        self.cursor = match digit {
            Some(n) => if none {
                quick_jump_cursor(n, len)
            } else {
                c1
            },
            None => c1,
        };
    }

    fn toggle<P, R>(&mut self, entries: &Entries<P, R>, input: &Input)
        requires
            entries.entries@.len() > 0 ==> old(self).cursor < entries.entries@.len(),
            entries.entry_state_count >= 2 ==> old(self).entry_state.0 < entries.entry_state_count,
        ensures
            *final(self) == toggled(*old(self), *entries, input.pressed_keys@),
    {
        if has_key_code(&input.pressed_keys, KeyCode::Left) {
            self.wide_side_bar = true;
        } else if has_key_code(&input.pressed_keys, KeyCode::Right) {
            self.wide_side_bar = false;
        }
        if has_key_code(&input.pressed_keys, KeyCode::H) {
            self.show_extra_content = self.show_extra_content && self.show_help;
            self.show_help = !self.show_help;
        }
        if has_key_code(&input.pressed_keys, KeyCode::C) && !self.show_help {
            if self.show_extra_content {
                self.show_extra_content = false;
            } else if entries.entries.len() == 0 || entries.entries[self.cursor].extra_content.is_none() {
                self.show_popup(PopupMessage::NoExtraContent);
            } else {
                self.show_extra_content = true;
            }
        }
        if has_key_code(&input.pressed_keys, KeyCode::M) {
            self.cycle_entry_state(entries.entry_state_count);
        }
    }

    fn transit_key<P, R>(&mut self, entries: &Entries<P, R>, input: &Input, key: KeyCode) -> (r:
        Option<Transition>)
        ensures
            (*final(self), r) == transit_key(*old(self), *entries, input.pressed_keys@, key),
    {
        if !has_key_code(&input.pressed_keys, key) {
            return None;
        }
        let target = if key == KeyCode::Up {
            &entries.transition
        } else if self.cursor < entries.entries.len() {
            if key == KeyCode::Left {
                &entries.entries[self.cursor].transition1
            } else {
                &entries.entries[self.cursor].transition2
            }
        } else {
            &None
        };
        match target {
            Some(t) => {
                self.curr_entries_id = t.id.clone();
                self.reset_entries_state();
                Some(t.duplicate())
            },
            None => {
                self.show_popup(PopupMessage::NoTransition(key));
                None
            },
        }
    }

    fn transit<P, R>(&mut self, entries: &Entries<P, R>, input: &Input) -> (r: Option<Transition>)
        ensures
            (*final(self), r) == transited(*old(self), *entries, input.pressed_keys@),
    {
        let t = self.transit_key(entries, input, KeyCode::Up);
        if t.is_some() {
            return t;
        }
        let t = self.transit_key(entries, input, KeyCode::Left);
        if t.is_some() {
            return t;
        }
        self.transit_key(entries, input, KeyCode::Right)
    }

    fn pan_camera(&mut self, input: &Input, shift: bool)
        requires
            ZOOM_MIN <= old(self).camera_zoom <= ZOOM_MAX,
        ensures
            *final(self) == camera_panned(*old(self), *input, shift),
    {
        let start: i64 = if self.wide_side_bar {
            6000
        } else {
            9000
        };
        let over_canvas = input.mouse_pos.0 < start;
        let left = has_key_code(&input.down_keys, KeyCode::A) || (over_canvas && input.mouse_wheel.0 < 0);
        let right = has_key_code(&input.down_keys, KeyCode::D) || (over_canvas && input.mouse_wheel.0 > 0);
        let up = has_key_code(&input.down_keys, KeyCode::W) || (over_canvas && input.mouse_wheel.1 < 0);
        let below = has_key_code(&input.down_keys, KeyCode::S) || (over_canvas && input.mouse_wheel.1 > 0);
        let wheel = over_canvas && (input.mouse_wheel.0 != 0 || input.mouse_wheel.1 != 0);
        let base: i64 = if shift {
            40
        } else {
            10
        };
        let factor: i64 = if wheel {
            3
        } else {
            1
        };
        let speed: i64 = base * factor * 10_000_000 / (self.camera_zoom as i64);
        let (x, y) = self.camera_pos;
        let y1 = if up {
            saturating_add(y, -speed)
        } else {
            y
        };
        let x1 = if left {
            saturating_add(x, -speed)
        } else {
            x
        };
        let y2 = if below {
            saturating_add(y1, speed)
        } else {
            y1
        };
        let x2 = if right {
            saturating_add(x1, speed)
        } else {
            x1
        };
        self.camera_pos = (x2, y2);
    }

    fn zoom_camera(&mut self, input: &Input, shift: bool)
        requires
            ZOOM_MIN <= old(self).camera_zoom <= ZOOM_MAX,
        ensures
            *final(self) == camera_zoomed(*old(self), *input, shift),
            ZOOM_MIN <= final(self).camera_zoom <= ZOOM_MAX,
    {
        let z = self.camera_zoom as u64;
        let z1: u64 = if has_key_code(&input.down_keys, KeyCode::Z) {
            let n: u64 = z * (if shift {
                12000
            } else {
                10500
            }) / 10000;
            if n > ZOOM_MAX as u64 {
                ZOOM_MAX as u64
            } else {
                n
            }
        } else {
            z
        };
        proof {
            assert(z * 10500 / 10000 >= z) by (nonlinear_arith)
                requires
                    z >= 0,
            ;
            assert(z * 12000 / 10000 >= z) by (nonlinear_arith)
                requires
                    z >= 0,
            ;
        }
        let z2: u64 = if has_key_code(&input.down_keys, KeyCode::X) {
            let n: u64 = z1 * (if shift {
                8333
            } else {
                9523
            }) / 10000;
            if n < ZOOM_MIN as u64 {
                ZOOM_MIN as u64
            } else {
                n
            }
        } else {
            z1
        };
        proof {
            assert(z1 * 9523 / 10000 <= z1) by (nonlinear_arith)
                requires
                    z1 >= 0,
            ;
            assert(z1 * 8333 / 10000 <= z1) by (nonlinear_arith)
                requires
                    z1 >= 0,
            ;
        }
        self.camera_zoom = z2 as u32;
    }

    fn click(&mut self, input: &Input, len: usize)
        ensures
            *final(self) == clicked(*old(self), *input, len as int),
    {
        if !input.mouse_pressed[0] {
            return;
        }
        let button: [i64; 4] = if self.wide_side_bar {
            [5840, 3440, 320, 320]
        } else {
            [8840, 3440, 320, 320]
        };
        if check_contain(button, input.mouse_pos) {
            self.wide_side_bar = !self.wide_side_bar;
        } else {
            match self.hovered_entry {
                Some(i) => if i < len {
                    self.cursor = i;
                },
                None => {},
            }
        }
    }
}

impl State {
    /// One step of navigation: consumes one input sample and says what the host
    /// has to do. See `stepped` for what each key does; on a Ctrl + digit key
    /// with a filter of that number, the step ends with the filtered view.
    pub fn frame<P: Fn(&Entry) -> bool, R: Copy>(
        &mut self,
        entries: &Entries<P, R>,
        input: &Input,
    ) -> (r: Action<P, R>)
        requires
            old(self).wf(entries),
            forall|i: int, e: &Entry|
                0 <= i < entries.filters@.len() ==> #[trigger] entries.filters@[i].cond.requires(
                    (e,),
                ),
        ensures
            final(self).wf(entries) || r is Transit,
            *final(self) == stepped(*old(self), *entries, *input).0,
            action_matches(r, stepped(*old(self), *entries, *input).1, *entries, old(self).cursor),
    {
        let start_cursor = self.cursor;
        self.tick_popup();
        if has_key_code(&input.released_keys, KeyCode::Escape) {
            if self.escape() {
                return Action::Quit;
            }
            return Action::Continue;
        }
        let m = Modifiers::held(input);
        let digit = digit_pressed(&input.pressed_keys);
        if m.ctrl {
            if let Some(n) = digit {
                if let Some((view, cursor)) = entries.apply_filter(n, self.cursor) {
                    return Action::TransitToTmpEntries { entries: view, cursor };
                }
            }
        }
        match self.navigate(entries, input, start_cursor) {
            Some(t) => Action::Transit { id: t.id, cursor: None },
            None => Action::Continue,
        }
    }

    fn list_keys<P, R>(&mut self, entries: &Entries<P, R>, input: &Input)
        requires
            old(self).wf(entries),
        ensures
            *final(self) == listed(*old(self), *entries, *input),
            final(self).wf(entries),
    {
        let m = Modifiers::held(input);
        let digit = digit_pressed(&input.pressed_keys);
        self.count_arrow_keys(input);
        let len = entries.entries.len();
        let req = self.scroll_request(input, len);
        if len > 0 {
            let space = has_key_code(&input.pressed_keys, KeyCode::Space);
            self.move_cursor(entries, req, space, m, digit);
        }
        if !m.shift && !m.ctrl && !m.alt {
            self.toggle(entries, input);
        }
    }

    fn navigate<P, R>(&mut self, entries: &Entries<P, R>, input: &Input, start_cursor: usize) -> (r:
        Option<Transition>)
        requires
            old(self).wf(entries),
        ensures
            (*final(self), r) == navigated(*old(self), start_cursor, *entries, *input),
            final(self).wf(entries) || r.is_some(),
    {
        let m = Modifiers::held(input);
        let len = entries.entries.len();
        self.list_keys(entries, input);
        if m.ctrl && !m.shift && !m.alt {
            let t = self.transit(entries, input);
            if t.is_some() {
                return t;
            }
        }
        self.pan_camera(input, m.shift);
        self.zoom_camera(input, m.shift);
        self.click(input, len);
        if self.cursor != start_cursor {
            self.reset_entry_state();
        }
        None
    }
}

proof fn lemma_toggled_keeps_cursor<P, R>(s: State, entries: Entries<P, R>, pressed: Seq<KeyCode>)
    ensures
        toggled(s, entries, pressed).cursor == s.cursor,
{
}

/// Whether `input`, on a state whose arrow-key counter is `counter`, presses
/// just `key`: no other key is pressed, no modifier is held, Escape is not
/// released, the wheel is still, there is no click, and no held arrow key
/// repeats in this step. Other keys may be held.
pub open spec fn plain_press(input: Input, key: KeyCode, counter: i32) -> bool {
    &&& forall|k: KeyCode| #[trigger] input.pressed_keys@.contains(k) <==> k == key
    &&& Modifiers::of(input.down_keys@).none()
    &&& !input.released_keys@.contains(KeyCode::Escape)
    &&& input.mouse_wheel == (0i32, 0i32)
    &&& !input.mouse_pressed[0]
    &&& -ARROW_REPEAT_AFTER <= arrow_counter_after(
        counter,
        input.down_keys@.contains(KeyCode::Down),
        input.down_keys@.contains(KeyCode::Up),
    ) <= ARROW_REPEAT_AFTER
}

/// On a collection of `n` entries, a step that presses Down moves the cursor
/// to the next entry and one that presses Up to the previous one, wrapping
/// around at the ends; the step continues.
pub proof fn lemma_step_moves_cursor<P, R>(s: State, entries: Entries<P, R>, input: Input, key: KeyCode)
    requires
        0 < entries.entries@.len() <= usize::MAX,
        s.cursor < entries.entries@.len(),
        key == KeyCode::Down || key == KeyCode::Up,
        plain_press(input, key, s.scrolling_with_arrow_keys),
    ensures
        stepped(s, entries, input).1 is Continue,
        key == KeyCode::Down ==> stepped(s, entries, input).0.cursor == ring_step(
            s.cursor as int,
            1,
            entries.entries@.len() as int,
            true,
        ),
        key == KeyCode::Up ==> stepped(s, entries, input).0.cursor == ring_step(
            s.cursor as int,
            1,
            entries.entries@.len() as int,
            false,
        ),
{
    let n = entries.entries@.len() as int;
    let pressed = input.pressed_keys@;
    let m = Modifiers::of(input.down_keys@);
    assert(pressed.contains(key));
    assert(!pressed.contains(KeyCode::Key1) && !pressed.contains(KeyCode::Key2) && !pressed.contains(KeyCode::Key3));
    assert(!pressed.contains(KeyCode::Key4) && !pressed.contains(KeyCode::Key5) && !pressed.contains(KeyCode::Key6));
    assert(!pressed.contains(KeyCode::Key7) && !pressed.contains(KeyCode::Key8) && !pressed.contains(KeyCode::Key9));
    assert(digit_of(pressed) is None);
    let counter = arrow_counter_after(
        s.scrolling_with_arrow_keys,
        input.down_keys@.contains(KeyCode::Down),
        input.down_keys@.contains(KeyCode::Up),
    );
    let s1 = popup_ticked(s);
    let s2 = State { scrolling_with_arrow_keys: counter, ..s1 };
    let req = scroll_request(input, counter, s2.wide_side_bar, n);
    let forward = key == KeyCode::Down;
    if !forward {
        assert(!pressed.contains(KeyCode::Down));
    }
    assert(!pressed.contains(KeyCode::Space));
    assert(req.speed == 1);
    let c = ring_step(s.cursor as int, 1, n, forward);
    assert(moved_cursor(entries.entries@, s.cursor as int, req, false, m, None) == c);
    let s3 = State { cursor: c as usize, ..s2 };
    lemma_toggled_keeps_cursor(s3, entries, pressed);
}

/// A step that presses Down at the last entry lands on the first, and one that
/// presses Up at the first entry lands on the last.
pub proof fn lemma_step_wraps<P, R>(s: State, entries: Entries<P, R>, input: Input, key: KeyCode)
    requires
        0 < entries.entries@.len() <= usize::MAX,
        plain_press(input, key, s.scrolling_with_arrow_keys),
        key == KeyCode::Down && s.cursor == entries.entries@.len() - 1 || key == KeyCode::Up
            && s.cursor == 0,
    ensures
        stepped(s, entries, input).1 is Continue,
        key == KeyCode::Down ==> stepped(s, entries, input).0.cursor == 0,
        key == KeyCode::Up ==> stepped(s, entries, input).0.cursor == entries.entries@.len() - 1,
{
    lemma_step_moves_cursor(s, entries, input, key);
    crate::cursor::lemma_cursor_wraps(entries.entries@.len() as int);
}

/// A step that presses M moves to the next display mode, wrapping around after
/// the last; with a single mode it keeps the mode and posts a popup instead.
/// The cursor stays where it is.
pub proof fn lemma_step_cycles_mode<P, R>(s: State, entries: Entries<P, R>, input: Input)
    requires
        s.wf(&entries),
        plain_press(input, KeyCode::M, s.scrolling_with_arrow_keys),
    ensures
        stepped(s, entries, input).1 is Continue,
        stepped(s, entries, input).0.cursor == s.cursor,
        entries.entry_state_count >= 2 ==> stepped(s, entries, input).0.entry_state.0 == (
        s.entry_state.0 + 1) % (entries.entry_state_count as int),
        entries.entry_state_count >= 2 && s.entry_state.0 + 1 < entries.entry_state_count
            ==> stepped(s, entries, input).0.entry_state.0 == s.entry_state.0 + 1,
        entries.entry_state_count >= 2 && s.entry_state.0 + 1 == entries.entry_state_count
            ==> stepped(s, entries, input).0.entry_state.0 == 0,
        entries.entry_state_count < 2 ==> stepped(s, entries, input).0.entry_state == s.entry_state
            && stepped(s, entries, input).0.popup == Some((POPUP_LIFE, PopupMessage::NoState)),
{
    let pressed = input.pressed_keys@;
    assert(pressed.contains(KeyCode::M));
    assert(!pressed.contains(KeyCode::Key1) && !pressed.contains(KeyCode::Key2) && !pressed.contains(KeyCode::Key3));
    assert(!pressed.contains(KeyCode::Key4) && !pressed.contains(KeyCode::Key5) && !pressed.contains(KeyCode::Key6));
    assert(!pressed.contains(KeyCode::Key7) && !pressed.contains(KeyCode::Key8) && !pressed.contains(KeyCode::Key9));
    assert(digit_of(pressed) is None);
    assert(!pressed.contains(KeyCode::Down) && !pressed.contains(KeyCode::Up) && !pressed.contains(KeyCode::Space));
    assert(!pressed.contains(KeyCode::Left) && !pressed.contains(KeyCode::Right));
    assert(!pressed.contains(KeyCode::H) && !pressed.contains(KeyCode::C));
    let counter = arrow_counter_after(
        s.scrolling_with_arrow_keys,
        input.down_keys@.contains(KeyCode::Down),
        input.down_keys@.contains(KeyCode::Up),
    );
    let s2 = State { scrolling_with_arrow_keys: counter, ..popup_ticked(s) };
    crate::state::lemma_mode_cycles(s2, entries.entry_state_count);
}

} // verus!
