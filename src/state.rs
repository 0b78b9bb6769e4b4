use vstd::prelude::*;

use crate::entry::{Entries, EntryState};
use crate::input::KeyCode;
use crate::transform::{clamp_i64, floor_div};

verus! {

/// How many steps a popup stays on screen.
pub const POPUP_LIFE: u32 = 120;

/// The default camera position, in thousandths of a canvas unit: the center of
/// the 900x600 canvas.
pub const CAMERA_HOME_X: i64 = 450_000;
pub const CAMERA_HOME_Y: i64 = 300_000;

/// The center of the canvas area on the screen, in thousandths of a unit.
pub const CANVAS_CENTER_X: i64 = 450_000;
pub const CANVAS_CENTER_Y: i64 = 420_000;

fn clamp_to_i64(x: i128) -> (r: i64)
    ensures
        r == clamp_i64(x as int),
{
    if x < i64::MIN as i128 {
        i64::MIN
    } else if x > i64::MAX as i128 {
        i64::MAX
    } else {
        x as i64
    }
}

/// Camera zoom in ten-thousandths: 1.0, and the limits 0.1 and 8.0.
pub const ZOOM_ONE: u32 = 10_000;
pub const ZOOM_MIN: u32 = 1_000;
pub const ZOOM_MAX: u32 = 80_000;

/// How many steps an arrow key must be held before it scrolls by itself.
pub const ARROW_REPEAT_AFTER: i32 = 12;

/// The messages that a popup can show.
#[derive(Clone, Copy, Debug, PartialEq, Eq, Structural)]
pub enum PopupMessage {
    NoState,
    NoExtraContent,
    NoTransition(KeyCode),
    /// A transition's target is not registered.
    MissingEntries,
}

/// The text of a popup message.
pub open spec fn popup_text(m: PopupMessage) -> Seq<char> {
    match m {
        PopupMessage::NoState => "There's no state to change!"@,
        PopupMessage::NoExtraContent => "There's no extra content to display."@,
        PopupMessage::NoTransition(KeyCode::Up) => "There's no transition mapped to Ctrl+Up."@,
        PopupMessage::NoTransition(KeyCode::Left) => "There's no transition mapped to Ctrl+Left."@,
        PopupMessage::NoTransition(KeyCode::Right) => "There's no transition mapped to Ctrl+Right."@,
        PopupMessage::NoTransition(_) => "There's no transition mapped to this key."@,
        PopupMessage::MissingEntries => "The entries to transit to are gone."@,
    }
}

impl PopupMessage {
    pub fn text(&self) -> (r: &'static str)
        ensures
            r@ == popup_text(*self),
    {
        match self {
            PopupMessage::NoState => {
                proof {
                    reveal_strlit("There's no state to change!");
                }
                "There's no state to change!"
            },
            PopupMessage::NoExtraContent => {
                proof {
                    reveal_strlit("There's no extra content to display.");
                }
                "There's no extra content to display."
            },
            PopupMessage::NoTransition(KeyCode::Up) => {
                proof {
                    reveal_strlit("There's no transition mapped to Ctrl+Up.");
                }
                "There's no transition mapped to Ctrl+Up."
            },
            PopupMessage::NoTransition(KeyCode::Left) => {
                proof {
                    reveal_strlit("There's no transition mapped to Ctrl+Left.");
                }
                "There's no transition mapped to Ctrl+Left."
            },
            PopupMessage::NoTransition(KeyCode::Right) => {
                proof {
                    reveal_strlit("There's no transition mapped to Ctrl+Right.");
                }
                "There's no transition mapped to Ctrl+Right."
            },
            PopupMessage::NoTransition(_) => {
                proof {
                    reveal_strlit("There's no transition mapped to this key.");
                }
                "There's no transition mapped to this key."
            },
            PopupMessage::MissingEntries => {
                proof {
                    reveal_strlit("The entries to transit to are gone.");
                }
                "The entries to transit to are gone."
            },
        }
    }
}

/// What the host has to do after a step.
pub enum Action<P, R> {
    /// Nothing: go on with the next step.
    Continue,
    /// Show the collection `id`, at `cursor` (or where the host last left it).
    Transit { id: String, cursor: Option<usize> },
    /// Register the filtered collection `entries` and show it, at `cursor` (or
    /// at its first entry).
    TransitToTmpEntries { entries: Entries<P, R>, cursor: Option<usize> },
    /// End the program.
    Quit,
}

/// The navigation state: which collection is shown, where the cursor is, and how.
pub struct State {
    pub curr_entries_id: String,
    /// Index into the shown collection; meaningless when it is empty.
    pub cursor: usize,
    pub entry_state: EntryState,
    pub wide_side_bar: bool,
    /// The side-bar row under the pointer.
    pub hovered_entry: Option<usize>,
    pub show_help: bool,
    pub show_extra_content: bool,
    /// The canvas point shown at the center of the canvas area, in thousandths of a unit.
    pub camera_pos: (i64, i64),
    /// In ten-thousandths.
    pub camera_zoom: u32,
    /// Remaining life and message.
    pub popup: Option<(u32, PopupMessage)>,
    /// Positive while Up is held, negative while Down is held.
    pub scrolling_with_arrow_keys: i32,
}

/// `s` with the state of the shown entry back to its defaults.
pub open spec fn entry_reset(s: State) -> State {
    State {
        entry_state: EntryState(0),
        show_extra_content: false,
        camera_pos: (CAMERA_HOME_X, CAMERA_HOME_Y),
        camera_zoom: ZOOM_ONE,
        ..s
    }
}

/// `s` after one step of popup life: a popup disappears when its life runs out.
pub open spec fn popup_ticked(s: State) -> State {
    State {
        popup: match s.popup {
            Some((life, m)) => if life <= 1 {
                None
            } else {
                Some(((life - 1) as u32, m))
            },
            None => None,
        },
        ..s
    }
}

/// `s` after Escape: it closes the help, else the extra content; the flag says
/// whether neither was open, which asks to quit.
pub open spec fn escaped(s: State) -> (State, bool) {
    if s.show_help {
        (State { show_help: false, ..s }, false)
    } else if s.show_extra_content {
        (State { show_extra_content: false, ..s }, false)
    } else {
        (s, true)
    }
}

/// `s` showing a fresh popup with `message`.
pub open spec fn with_popup(s: State, message: PopupMessage) -> State {
    State { popup: Some((POPUP_LIFE, message)), ..s }
}

/// `s` after the M key: the next of `count` display modes, wrapping around, or
/// a popup (and no other change) when there is a single mode.
pub open spec fn mode_cycled(s: State, count: u32) -> State {
    if count < 2 {
        with_popup(s, PopupMessage::NoState)
    } else {
        State { entry_state: EntryState(((s.entry_state.0 + 1) % (count as int)) as u32), ..s }
    }
}

impl State {
    /// The state's invariant with respect to the shown collection.
    pub open spec fn wf<P, R>(&self, entries: &Entries<P, R>) -> bool {
        &&& entries.entries@.len() > 0 ==> self.cursor < entries.entries@.len()
        &&& entries.entry_state_count >= 2 ==> self.entry_state.0 < entries.entry_state_count
        &&& entries.entry_state_count < 2 ==> self.entry_state.0 == 0
        &&& ZOOM_MIN <= self.camera_zoom <= ZOOM_MAX
    }

    pub fn new(curr_entries_id: String) -> (r: State)
        ensures
            r.curr_entries_id == curr_entries_id,
            r.cursor == 0,
            r.entry_state == EntryState(0),
            !r.wide_side_bar,
            r.hovered_entry.is_none(),
            !r.show_help,
            !r.show_extra_content,
            r.camera_pos == (CAMERA_HOME_X, CAMERA_HOME_Y),
            r.camera_zoom == ZOOM_ONE,
            r.popup.is_none(),
            r.scrolling_with_arrow_keys == 0,
    {
        State {
            curr_entries_id,
            cursor: 0,
            entry_state: EntryState(0),
            wide_side_bar: false,
            hovered_entry: None,
            show_help: false,
            show_extra_content: false,
            camera_pos: (CAMERA_HOME_X, CAMERA_HOME_Y),
            camera_zoom: ZOOM_ONE,
            popup: None,
            scrolling_with_arrow_keys: 0,
        }
    }

    /// Where the camera transform moves the canvas after scaling it by the zoom,
    /// in thousandths of a unit: the camera position goes to the center of the
    /// canvas area, (450, 420) on the screen. A canvas point `p` is drawn at
    /// `p * zoom + offset`.
    pub fn camera_offset(&self) -> (r: (i64, i64))
        ensures
            r.0 == clamp_i64(CANVAS_CENTER_X - (self.camera_pos.0 as int) * (self.camera_zoom as int) / (ZOOM_ONE as int)),
            r.1 == clamp_i64(CANVAS_CENTER_Y - (self.camera_pos.1 as int) * (self.camera_zoom as int) / (ZOOM_ONE as int)),
    {
        proof {
            assert(-0x8000_0000_0000_0000_0000_0000int <= (self.camera_pos.0 as int) * (self.camera_zoom as int) <= 0x8000_0000_0000_0000_0000_0000int) by (nonlinear_arith)
                requires
                    -0x8000_0000_0000_0000int <= self.camera_pos.0 <= 0x8000_0000_0000_0000int,
                    0 <= self.camera_zoom <= 0x1_0000_0000int,
            ;
            assert(-0x8000_0000_0000_0000_0000_0000int <= (self.camera_pos.1 as int) * (self.camera_zoom as int) <= 0x8000_0000_0000_0000_0000_0000int) by (nonlinear_arith)
                requires
                    -0x8000_0000_0000_0000int <= self.camera_pos.1 <= 0x8000_0000_0000_0000int,
                    0 <= self.camera_zoom <= 0x1_0000_0000int,
            ;
        }
        let x = CANVAS_CENTER_X as i128 - floor_div((self.camera_pos.0 as i128) * (self.camera_zoom as i128), ZOOM_ONE as i128);
        let y = CANVAS_CENTER_Y as i128 - floor_div((self.camera_pos.1 as i128) * (self.camera_zoom as i128), ZOOM_ONE as i128);
        (clamp_to_i64(x), clamp_to_i64(y))
    }

    /// A copy of this state.
    pub fn duplicate(&self) -> (r: State)
        ensures
            r == *self,
    {
        State {
            curr_entries_id: self.curr_entries_id.clone(),
            cursor: self.cursor,
            entry_state: self.entry_state,
            wide_side_bar: self.wide_side_bar,
            hovered_entry: self.hovered_entry,
            show_help: self.show_help,
            show_extra_content: self.show_extra_content,
            camera_pos: self.camera_pos,
            camera_zoom: self.camera_zoom,
            popup: self.popup,
            scrolling_with_arrow_keys: self.scrolling_with_arrow_keys,
        }
    }

    /// Shows `message` for `POPUP_LIFE` steps.
    pub fn show_popup(&mut self, message: PopupMessage)
        ensures
            *final(self) == with_popup(*old(self), message),
    {
        self.popup = Some((POPUP_LIFE, message));
    }

    pub fn reset_entry_state(&mut self)
        ensures
            *final(self) == entry_reset(*old(self)),
    {
        self.entry_state = EntryState(0);
        self.show_extra_content = false;
        self.camera_pos = (CAMERA_HOME_X, CAMERA_HOME_Y);
        self.camera_zoom = ZOOM_ONE;
    }

    /// Back to the first entry, with nothing hovered and the entry state reset.
    pub fn reset_entries_state(&mut self)
        ensures
            *final(self) == entry_reset(State { cursor: 0, hovered_entry: None, ..*old(self) }),
    {
        self.cursor = 0;
        self.hovered_entry = None;
        self.reset_entry_state();
    }

    pub(crate) fn tick_popup(&mut self)
        ensures
            *final(self) == popup_ticked(*old(self)),
    {
        let popup = self.popup.take();
        self.popup = match popup {
            Some((life, m)) => if life <= 1 {
                None
            } else {
                Some((life - 1, m))
            },
            None => None,
        };
    }

    pub(crate) fn escape(&mut self) -> (quit: bool)
        ensures
            (*final(self), quit) == escaped(*old(self)),
    {
        if self.show_help {
            self.show_help = false;
            false
        } else if self.show_extra_content {
            self.show_extra_content = false;
            false
        } else {
            true
        }
    }

    /// The M key: moves to the next of `count` display modes, wrapping around,
    /// or shows a popup when there is only one mode.
    pub fn cycle_entry_state(&mut self, count: u32)
        requires
            count >= 2 ==> old(self).entry_state.0 < count,
        ensures
            *final(self) == mode_cycled(*old(self), count),
            count >= 2 ==> final(self).entry_state.0 < count,
    {
        if count < 2 {
            self.show_popup(PopupMessage::NoState);
        } else {
            let next = if self.entry_state.0 + 1 == count {
                0
            } else {
                self.entry_state.0 + 1
            };
            proof {
                vstd::arithmetic::div_mod::lemma_fundamental_div_mod_converse(
                    self.entry_state.0 + 1,
                    count as int,
                    if next == 0 { 1 } else { 0 },
                    next as int,
                );
            }
            self.entry_state = EntryState(next);
        }
    }
}

/// Cycling the display mode walks through `0..count` and wraps back to 0;
/// with a single mode it leaves the mode as it is (at 0) and only posts a popup.
pub proof fn lemma_mode_cycles(s: State, count: u32)
    requires
        count >= 2 ==> s.entry_state.0 < count,
    ensures
        count >= 2 && s.entry_state.0 + 1 < count ==> mode_cycled(s, count).entry_state.0
            == s.entry_state.0 + 1,
        count >= 2 && s.entry_state.0 + 1 == count ==> mode_cycled(s, count).entry_state.0 == 0,
        count < 2 ==> mode_cycled(s, count) == with_popup(s, PopupMessage::NoState),
        count < 2 ==> mode_cycled(s, count).entry_state == s.entry_state,
{
    if count >= 2 {
        let m = s.entry_state.0 as int;
        if m + 1 < count {
            vstd::arithmetic::div_mod::lemma_fundamental_div_mod_converse(m + 1, count as int, 0, m + 1);
        } else {
            vstd::arithmetic::div_mod::lemma_fundamental_div_mod_converse(m + 1, count as int, 1, 0);
        }
    }
}

} // verus!
