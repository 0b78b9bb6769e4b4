use shev::cursor::{next_cursor, prev_cursor, quick_jump_cursor, scan_cursor, Scan};
use shev::entry::{Entries, Entry, EntryFlag, EntryState, Transition};
use shev::filter::Filter;
use shev::input::{Input, KeyCode};
use shev::side_bar::side_bar_rows;
use shev::state::{Action, PopupMessage, State, CAMERA_HOME_X, CAMERA_HOME_Y, POPUP_LIFE, ZOOM_ONE};

type Fp = fn(&Entry) -> bool;
type Fr = fn(&Entry, EntryState) -> Result<Vec<u8>, String>;

fn no_render(_: &Entry, _: EntryState) -> Result<Vec<u8>, String> {
    Ok(vec![])
}

fn is_red(e: &Entry) -> bool {
    e.flag == EntryFlag::Red
}

fn view(n: usize, modes: u32) -> Entries<Fp, Fr> {
    Entries {
        id: String::from("main"),
        title: None,
        entries: (0..n).map(|i| Entry { side_bar_title: i.to_string(), ..Entry::default() }).collect(),
        entry_state_count: modes,
        transition: None,
        filters: vec![],
        render_canvas: no_render as Fr,
    }
}

fn input() -> Input {
    Input {
        mouse_pos: (0, 0),
        mouse_wheel: (0, 0),
        mouse_down: [false; 3],
        mouse_pressed: [false; 3],
        mouse_released: [false; 3],
        down_keys: vec![],
        pressed_keys: vec![],
        released_keys: vec![],
    }
}

fn press(keys: Vec<KeyCode>) -> Input {
    Input { pressed_keys: keys, ..input() }
}

fn press_with(held: Vec<KeyCode>, keys: Vec<KeyCode>) -> Input {
    Input { down_keys: held, pressed_keys: keys, ..input() }
}

fn is_continue(a: &Action<Fp, Fr>) -> bool {
    matches!(a, Action::Continue)
}

#[test]
fn quick_jump_then_down_end_to_end() {
    let entries = view(100, 1);
    let mut state = State::new(String::from("main"));
    state.cursor = 50;
    // Key5 is quick-jump index 4: 4 * 99 / 8 = 49.
    assert!(is_continue(&state.frame(&entries, &press(vec![KeyCode::Key5]))));
    assert_eq!(state.cursor, 49);
    assert!(is_continue(&state.frame(&entries, &press(vec![KeyCode::Down]))));
    assert_eq!(state.cursor, 50);
}

#[test]
fn quick_jump_keys_are_evenly_spaced() {
    let entries = view(100, 1);
    let mut state = State::new(String::from("main"));
    state.frame(&entries, &press(vec![KeyCode::Key1]));
    assert_eq!(state.cursor, 0);
    state.frame(&entries, &press(vec![KeyCode::Key4]));
    assert_eq!(state.cursor, 37);
    state.frame(&entries, &press(vec![KeyCode::Key9]));
    assert_eq!(state.cursor, 99);
    assert_eq!(quick_jump_cursor(4, 100), 49);
}

#[test]
fn cursor_wraps_both_ways() {
    let entries = view(7, 1);
    let mut state = State::new(String::from("main"));
    state.cursor = 6;
    state.frame(&entries, &press(vec![KeyCode::Down]));
    assert_eq!(state.cursor, 0);
    state.frame(&entries, &press(vec![KeyCode::Up]));
    assert_eq!(state.cursor, 6);
    assert_eq!(next_cursor(6, 1, 7), 0);
    assert_eq!(prev_cursor(0, 1, 7), 6);
    assert_eq!(next_cursor(5, 3, 7), 1);
    assert_eq!(prev_cursor(1, 3, 7), 5);
}

#[test]
fn mode_cycles_and_wraps() {
    let entries = view(3, 3);
    let mut state = State::new(String::from("main"));
    state.frame(&entries, &press(vec![KeyCode::M]));
    assert_eq!(state.entry_state, EntryState(1));
    state.frame(&entries, &press(vec![KeyCode::M]));
    assert_eq!(state.entry_state, EntryState(2));
    state.frame(&entries, &press(vec![KeyCode::M]));
    assert_eq!(state.entry_state, EntryState(0));
    assert!(state.popup.is_none());
}

#[test]
fn single_mode_posts_popup() {
    let entries = view(3, 1);
    let mut state = State::new(String::from("main"));
    state.frame(&entries, &press(vec![KeyCode::M]));
    assert_eq!(state.entry_state, EntryState(0));
    assert_eq!(state.popup, Some((POPUP_LIFE, PopupMessage::NoState)));
    assert_eq!(PopupMessage::NoState.text(), "There's no state to change!");
    state.frame(&entries, &input());
    assert_eq!(state.popup, Some((POPUP_LIFE - 1, PopupMessage::NoState)));
}

#[test]
fn popup_disappears_when_life_runs_out() {
    let entries = view(3, 1);
    let mut state = State::new(String::from("main"));
    state.popup = Some((2, PopupMessage::NoState));
    state.frame(&entries, &input());
    assert_eq!(state.popup, Some((1, PopupMessage::NoState)));
    state.frame(&entries, &input());
    assert_eq!(state.popup, None);
}

#[test]
fn moving_cursor_resets_mode_and_camera() {
    let entries = view(5, 3);
    let mut state = State::new(String::from("main"));
    state.entry_state = EntryState(2);
    state.camera_pos = (1, 2);
    state.camera_zoom = 20_000;
    state.frame(&entries, &press(vec![KeyCode::Down]));
    assert_eq!(state.cursor, 1);
    assert_eq!(state.entry_state, EntryState(0));
    assert_eq!(state.camera_pos, (CAMERA_HOME_X, CAMERA_HOME_Y));
    assert_eq!(state.camera_zoom, ZOOM_ONE);
}

#[test]
fn escape_closes_help_then_quits() {
    let entries = view(3, 1);
    let mut state = State::new(String::from("main"));
    state.frame(&entries, &press(vec![KeyCode::H]));
    assert!(state.show_help);
    let esc = Input { released_keys: vec![KeyCode::Escape], ..input() };
    assert!(is_continue(&state.frame(&entries, &esc)));
    assert!(!state.show_help);
    assert!(matches!(state.frame(&entries, &esc), Action::Quit));
}

#[test]
fn side_bar_keys_and_extra_content_popup() {
    let entries = view(3, 1);
    let mut state = State::new(String::from("main"));
    state.frame(&entries, &press(vec![KeyCode::Left]));
    assert!(state.wide_side_bar);
    state.frame(&entries, &press(vec![KeyCode::Right]));
    assert!(!state.wide_side_bar);
    state.frame(&entries, &press(vec![KeyCode::C]));
    assert!(!state.show_extra_content);
    assert_eq!(state.popup, Some((POPUP_LIFE, PopupMessage::NoExtraContent)));
}

#[test]
fn ctrl_up_follows_parent_transition() {
    let mut entries = view(5, 1);
    entries.transition = Some(Transition { id: String::from("parent"), description: None });
    let mut state = State::new(String::from("main"));
    state.cursor = 3;
    let a = state.frame(&entries, &press_with(vec![KeyCode::LeftControl], vec![KeyCode::Up]));
    match a {
        Action::Transit { id, cursor } => {
            assert_eq!(id, "parent");
            assert_eq!(cursor, None);
        },
        _ => panic!("expected a transition"),
    }
    assert_eq!(state.curr_entries_id, "parent");
    assert_eq!(state.cursor, 0);
}

#[test]
fn missing_transition_posts_popup() {
    let entries = view(5, 1);
    let mut state = State::new(String::from("main"));
    let a = state.frame(&entries, &press_with(vec![KeyCode::RightControl], vec![KeyCode::Left]));
    assert!(is_continue(&a));
    assert_eq!(state.popup, Some((POPUP_LIFE, PopupMessage::NoTransition(KeyCode::Left))));
    assert_eq!(PopupMessage::NoTransition(KeyCode::Left).text(), "There's no transition mapped to Ctrl+Left.");
}

#[test]
fn ctrl_digit_applies_filter() {
    let mut entries = view(6, 1);
    entries.entries[2].flag = EntryFlag::Red;
    entries.entries[4].flag = EntryFlag::Red;
    entries.filters = vec![Filter { name: String::from("red"), cond: is_red as Fp }];
    let mut state = State::new(String::from("main"));
    state.cursor = 4;
    let a = state.frame(&entries, &press_with(vec![KeyCode::LeftControl], vec![KeyCode::Key1]));
    match a {
        Action::TransitToTmpEntries { entries: v, cursor } => {
            assert_eq!(v.entries.len(), 2);
            assert_eq!(cursor, Some(1));
            assert_eq!(v.id, "main | red");
        },
        _ => panic!("expected a filtered view"),
    }
}

#[test]
fn space_jumps_to_same_flag() {
    let mut entries = view(6, 1);
    entries.entries[1].flag = EntryFlag::Red;
    entries.entries[4].flag = EntryFlag::Red;
    let mut state = State::new(String::from("main"));
    state.cursor = 1;
    state.frame(&entries, &press(vec![KeyCode::Space]));
    assert_eq!(state.cursor, 4);
    state.frame(&entries, &press(vec![KeyCode::Space]));
    assert_eq!(state.cursor, 1);
    state.frame(&entries, &press_with(vec![KeyCode::LeftAlt], vec![KeyCode::Space]));
    assert_eq!(state.cursor, 4);
}

#[test]
fn category_scan_stops_at_first_difference_or_stays() {
    let mut entries = view(5, 1);
    for (i, e) in entries.entries.iter_mut().enumerate() {
        e.category1 = Some(if i < 3 { String::from("a") } else { String::from("b") });
    }
    assert_eq!(scan_cursor(&entries.entries, 0, true, Scan::Category1), 3);
    assert_eq!(scan_cursor(&entries.entries, 3, false, Scan::Category1), 2);
    let same = view(4, 1);
    assert_eq!(scan_cursor(&same.entries, 2, true, Scan::Category2), 2);
    let mut state = State::new(String::from("main"));
    state.frame(&entries, &press_with(vec![KeyCode::LeftControl], vec![KeyCode::Down]));
    assert_eq!(state.cursor, 3);
}

#[test]
fn holding_down_scrolls_after_twelve_steps() {
    let entries = view(50, 1);
    let mut state = State::new(String::from("main"));
    let held = Input { down_keys: vec![KeyCode::Down], ..input() };
    for _ in 0..12 {
        state.frame(&entries, &held);
    }
    assert_eq!(state.cursor, 0);
    state.frame(&entries, &held);
    assert_eq!(state.cursor, 1);
    assert_eq!(state.scrolling_with_arrow_keys, -13);
    state.frame(&entries, &input());
    assert_eq!(state.scrolling_with_arrow_keys, 0);
}

#[test]
fn wheel_over_list_scrolls_by_len_over_32() {
    let entries = view(100, 1);
    let mut state = State::new(String::from("main"));
    let wheel = Input { mouse_pos: (9500, 3000), mouse_wheel: (0, -1), ..input() };
    state.frame(&entries, &wheel);
    assert_eq!(state.cursor, 3);
}

#[test]
fn camera_pans_and_zooms() {
    let entries = view(1, 1);
    let mut state = State::new(String::from("main"));
    state.frame(&entries, &Input { down_keys: vec![KeyCode::D, KeyCode::W], ..input() });
    assert_eq!(state.camera_pos, (CAMERA_HOME_X + 10_000, CAMERA_HOME_Y - 10_000));
    state.frame(&entries, &Input { down_keys: vec![KeyCode::Z], ..input() });
    assert_eq!(state.camera_zoom, 10_500);
    state.frame(&entries, &Input { down_keys: vec![KeyCode::X, KeyCode::LeftShift], ..input() });
    assert_eq!(state.camera_zoom, 8_749);
    for _ in 0..60 {
        state.frame(&entries, &Input { down_keys: vec![KeyCode::X], ..input() });
    }
    assert_eq!(state.camera_zoom, 1_000);
}

#[test]
fn click_selects_hovered_row_and_button_toggles() {
    let entries = view(10, 1);
    let mut state = State::new(String::from("main"));
    state.update_hovered((9100, 24 + 176 * 4 + 5), 10);
    assert_eq!(state.hovered_entry, Some(4));
    let click = Input { mouse_pos: (9100, 24 + 176 * 4 + 5), mouse_pressed: [true, false, false], ..input() };
    state.frame(&entries, &click);
    assert_eq!(state.cursor, 4);
    let button = Input { mouse_pos: (8850, 3450), mouse_pressed: [true, false, false], ..input() };
    state.frame(&entries, &button);
    assert!(state.wide_side_bar);
}

#[test]
fn side_bar_rows_center_the_cursor() {
    assert_eq!(side_bar_rows(0, 10), (0, 10));
    assert_eq!(side_bar_rows(50, 100), (32, 69));
    assert_eq!(side_bar_rows(99, 100), (63, 100));
    assert_eq!(side_bar_rows(0, 0), (0, 0));
}

#[test]
fn empty_view_ignores_cursor_keys() {
    let entries = view(0, 1);
    let mut state = State::new(String::from("main"));
    assert!(is_continue(&state.frame(&entries, &press(vec![KeyCode::Down, KeyCode::Key3, KeyCode::Space]))));
    assert_eq!(state.cursor, 0);
}

#[test]
fn camera_offset_centers_the_camera_position() {
    let mut state = State::new(String::from("main"));
    // Home position at zoom 1: (450, 300) goes to (450, 420).
    assert_eq!(state.camera_offset(), (0, 120_000));
    state.camera_zoom = 20_000;
    state.camera_pos = (100_000, -50_000);
    assert_eq!(state.camera_offset(), (450_000 - 200_000, 420_000 + 100_000));
    state.camera_zoom = 15_000;
    state.camera_pos = (-1, 1);
    // -1.5 rounds down to -2, and 1.5 down to 1.
    assert_eq!(state.camera_offset(), (450_002, 419_999));
}

#[test]
fn down_moves_with_a_camera_key_held() {
    let entries = view(5, 1);
    let mut state = State::new(String::from("main"));
    state.cursor = 2;
    state.frame(&entries, &press_with(vec![KeyCode::W], vec![KeyCode::Down]));
    assert_eq!(state.cursor, 3);
    state.frame(&entries, &press_with(vec![KeyCode::Z], vec![KeyCode::Up]));
    assert_eq!(state.cursor, 2);
}

#[test]
fn missing_entries_popup_text() {
    assert_eq!(PopupMessage::MissingEntries.text(), "The entries to transit to are gone.");
    let mut state = State::new(String::from("main"));
    state.cursor = 3;
    let copy = state.duplicate();
    assert_eq!(copy.cursor, 3);
    assert_eq!(copy.curr_entries_id, "main");
}
