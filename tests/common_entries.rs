use shev::cache::{CanvasKey, RenderCache, ResourceCache};
use shev::entry::{Entries, Entry, EntryFlag, EntryState, Transition};
use shev::filter::Filter;
use shev::histogram::{scroll_bar_weights, ColorWeights};
use std::cell::Cell;

fn entry(name: &str, flag: EntryFlag) -> Entry {
    Entry { side_bar_title: name.to_string(), flag, ..Entry::default() }
}

fn odd_index(e: &Entry) -> bool {
    e.side_bar_title.parse::<u32>().map(|n| n % 2 == 1 && n < 8).unwrap_or(false)
}

fn render_title(e: &Entry, s: EntryState) -> Result<Vec<String>, String> {
    Ok(vec![format!("{}:{}", e.side_bar_title, s.0)])
}

fn ten_entries() -> Entries<fn(&Entry) -> bool, fn(&Entry, EntryState) -> Result<Vec<String>, String>> {
    Entries {
        id: String::from("numbers"),
        title: Some(String::from("Numbers")),
        entries: (0..10).map(|i| entry(&i.to_string(), EntryFlag::Unmarked)).collect(),
        entry_state_count: 1,
        transition: None,
        filters: vec![Filter { name: String::from("odd"), cond: odd_index as fn(&Entry) -> bool }],
        render_canvas: render_title as fn(&Entry, EntryState) -> Result<Vec<String>, String>,
    }
}

#[test]
fn filter_remaps_cursor_of_kept_entry() {
    let entries = ten_entries();
    let (view, cursor) = entries.apply_filter(0, 5).unwrap();
    assert_eq!(view.entries.len(), 4);
    assert_eq!(cursor, Some(2));
    let names: Vec<&str> = view.entries.iter().map(|e| e.side_bar_title.as_str()).collect();
    assert_eq!(names, vec!["1", "3", "5", "7"]);
}

#[test]
fn filter_drops_cursor_of_filtered_out_entry() {
    let entries = ten_entries();
    let (view, cursor) = entries.apply_filter(0, 2).unwrap();
    assert_eq!(view.entries.len(), 4);
    assert_eq!(cursor, None);
}

#[test]
fn filtered_view_points_back_to_source() {
    let entries = ten_entries();
    let (view, _) = entries.apply_filter(0, 0).unwrap();
    assert_eq!(view.id, "numbers | odd");
    assert!(view.filters.is_empty());
    let back = view.transition.unwrap();
    assert_eq!(back.id, "numbers");
    assert_eq!(back.description.as_deref(), Some("exit filter view"));
    assert_eq!(view.title.as_deref(), Some("Numbers"));
}

#[test]
fn filter_index_out_of_range_is_none() {
    let entries = ten_entries();
    assert!(entries.apply_filter(1, 0).is_none());
}

#[test]
fn entries_accessors() {
    let entries = ten_entries();
    assert_eq!(entries.len(), 10);
    assert!(!entries.is_empty());
    assert_eq!(entries.get(3).unwrap().side_bar_title, "3");
    assert!(entries.get(10).is_none());
    let names: Vec<&str> = entries.iter().map(|e| e.side_bar_title.as_str()).collect();
    assert_eq!(names, vec!["0", "1", "2", "3", "4", "5", "6", "7", "8", "9"]);
}

#[test]
fn entry_flag_is_some() {
    assert!(!EntryFlag::Unmarked.is_some());
    assert!(EntryFlag::Red.is_some());
    assert!(EntryFlag::Green.is_some());
    assert!(EntryFlag::Blue.is_some());
}

#[test]
fn transition_and_entry_duplicate_are_equal_copies() {
    let t = Transition { id: String::from("x"), description: Some(String::from("d")) };
    let c = t.duplicate();
    assert_eq!(c.id, "x");
    assert_eq!(c.description.as_deref(), Some("d"));
    let mut e = entry("e", EntryFlag::Blue);
    e.transition1 = Some(t);
    let d = e.duplicate();
    assert_eq!(d.side_bar_title, "e");
    assert_eq!(d.flag, EntryFlag::Blue);
    assert_eq!(d.transition1.unwrap().id, "x");
}

#[test]
fn resolve_canvas_renders_once_per_key() {
    let calls = Cell::new(0u32);
    let render = |e: &Entry, s: EntryState| -> Result<Vec<String>, String> {
        calls.set(calls.get() + 1);
        Ok(vec![format!("{}:{}", e.side_bar_title, s.0)])
    };
    let entries = Entries {
        id: String::from("v"),
        title: None,
        entries: vec![entry("a", EntryFlag::Unmarked), entry("b", EntryFlag::Unmarked)],
        entry_state_count: 2,
        transition: None,
        filters: Vec::<Filter<fn(&Entry) -> bool>>::new(),
        render_canvas: render,
    };
    let mut cache: RenderCache<Vec<String>> = RenderCache::new();
    assert!(cache.resolve_canvas(&entries, 1, EntryState(0)));
    assert!(!cache.resolve_canvas(&entries, 1, EntryState(0)));
    assert_eq!(calls.get(), 1);
    assert!(cache.resolve_canvas(&entries, 1, EntryState(1)));
    assert_eq!(calls.get(), 2);
    let key = CanvasKey { entries_id: String::from("v"), cursor: 1, entry_state: EntryState(0) };
    assert_eq!(cache.canvas.get(&key), Some(&Ok(vec![String::from("b:0")])));
}

#[test]
fn failed_render_is_cached_as_error() {
    let entries = Entries {
        id: String::from("v"),
        title: None,
        entries: vec![entry("a", EntryFlag::Unmarked)],
        entry_state_count: 1,
        transition: None,
        filters: Vec::<Filter<fn(&Entry) -> bool>>::new(),
        render_canvas: |_: &Entry, _: EntryState| -> Result<Vec<String>, String> { Err(String::from("boom")) },
    };
    let mut cache: RenderCache<Vec<String>> = RenderCache::new();
    assert!(cache.resolve_canvas(&entries, 0, EntryState(0)));
    assert!(!cache.resolve_canvas(&entries, 0, EntryState(0)));
    let key = CanvasKey { entries_id: String::from("v"), cursor: 0, entry_state: EntryState(0) };
    assert_eq!(cache.canvas.get(&key), Some(&Err(String::from("boom"))));
}

#[test]
fn scroll_bar_histogram_is_computed_once() {
    let entries = ten_entries();
    let mut cache: RenderCache<Vec<String>> = RenderCache::new();
    assert!(cache.resolve_scroll_bar(&entries));
    assert!(!cache.resolve_scroll_bar(&entries));
    assert_eq!(cache.scroll_bar_colors.get(&String::from("numbers")).unwrap().len(), 128);
}

#[test]
fn scroll_bar_weights_spread_over_neighbours() {
    let entries = vec![entry("r", EntryFlag::Red), entry("g", EntryFlag::Green)];
    let w = scroll_bar_weights(&entries);
    assert_eq!(w.len(), 128);
    assert_eq!(w[0], ColorWeights { red: 4, green: 0, blue: 0 });
    assert_eq!(w[1], ColorWeights { red: 2, green: 0, blue: 0 });
    assert_eq!(w[2], ColorWeights { red: 1, green: 0, blue: 0 });
    assert_eq!(w[62], ColorWeights { red: 0, green: 1, blue: 0 });
    assert_eq!(w[63], ColorWeights { red: 0, green: 2, blue: 0 });
    assert_eq!(w[64], ColorWeights { red: 0, green: 4, blue: 0 });
    assert_eq!(w[65], ColorWeights { red: 0, green: 2, blue: 0 });
    assert_eq!(w[66], ColorWeights { red: 0, green: 1, blue: 0 });
    assert_eq!(w[3], ColorWeights { red: 0, green: 0, blue: 0 });
    assert_eq!(w[127], ColorWeights { red: 0, green: 0, blue: 0 });
}

#[test]
fn scroll_bar_weights_clip_at_the_last_bucket() {
    let entries = vec![entry("a", EntryFlag::Unmarked), entry("b", EntryFlag::Blue)];
    let mut many = entries;
    for _ in 0..126 {
        many.push(entry("x", EntryFlag::Unmarked));
    }
    many.push(entry("z", EntryFlag::Blue));
    let w = scroll_bar_weights(&many);
    // 129 entries: the last one falls in bucket 127, the second in bucket 0.
    assert_eq!(w[127], ColorWeights { red: 0, green: 0, blue: 4 });
    assert_eq!(w[126], ColorWeights { red: 0, green: 0, blue: 2 });
    assert_eq!(w[0].blue, 4);
    assert_eq!(w[1].blue, 2);
}

#[test]
fn resource_cache_placeholder_is_made_once() {
    let made = Cell::new(0u32);
    let mut cache: ResourceCache<u32> = ResourceCache::new();
    assert_eq!(cache.register_loaded(String::from("a.png"), 7), "a.png");
    assert_eq!(cache.get(&String::from("a.png")), Some(&7));
    let key = cache.register_failed(|| {
        made.set(made.get() + 1);
        99
    });
    assert_eq!(key, "?");
    let key = cache.register_failed(|| {
        made.set(made.get() + 1);
        100
    });
    assert_eq!(key, "?");
    assert_eq!(made.get(), 1);
    assert_eq!(cache.get(&String::from("?")), Some(&99));
    assert_eq!(cache.get(&String::from("b.png")), None);
}

#[test]
fn update_cache_renders_once_and_caches_the_histogram() {
    let calls = Cell::new(0u32);
    let render = |e: &Entry, s: EntryState| -> Result<Vec<String>, String> {
        calls.set(calls.get() + 1);
        if e.side_bar_title == "bad" {
            Err(String::from("cannot render"))
        } else {
            Ok(vec![format!("{}:{}", e.side_bar_title, s.0)])
        }
    };
    let entries = Entries {
        id: String::from("v"),
        title: None,
        entries: vec![entry("a", EntryFlag::Red), entry("bad", EntryFlag::Unmarked)],
        entry_state_count: 1,
        transition: None,
        filters: Vec::<Filter<fn(&Entry) -> bool>>::new(),
        render_canvas: render,
    };
    let mut state = shev::state::State::new(String::from("v"));
    let mut cache: RenderCache<Vec<String>> = RenderCache::new();
    assert_eq!(state.update_cache(&mut cache, &entries), (true, true));
    assert_eq!(state.update_cache(&mut cache, &entries), (false, false));
    assert_eq!(calls.get(), 1);
    let key = CanvasKey { entries_id: String::from("v"), cursor: 0, entry_state: EntryState(0) };
    assert_eq!(cache.canvas.get(&key), Some(&Ok(vec![String::from("a:0")])));
    assert_eq!(cache.scroll_bar_colors.get(&String::from("v")).unwrap()[0], ColorWeights { red: 4, green: 0, blue: 0 });
    state.cursor = 1;
    assert_eq!(state.update_cache(&mut cache, &entries), (true, false));
    let bad = CanvasKey { entries_id: String::from("v"), cursor: 1, entry_state: EntryState(0) };
    assert_eq!(cache.canvas.get(&bad), Some(&Err(String::from("cannot render"))));
    assert_eq!(calls.get(), 2);
}

#[test]
fn update_cache_on_empty_view_renders_nothing() {
    let entries = Entries {
        id: String::from("empty"),
        title: None,
        entries: vec![],
        entry_state_count: 1,
        transition: None,
        filters: Vec::<Filter<fn(&Entry) -> bool>>::new(),
        render_canvas: render_title as fn(&Entry, EntryState) -> Result<Vec<String>, String>,
    };
    let state = shev::state::State::new(String::from("empty"));
    let mut cache: RenderCache<Vec<String>> = RenderCache::new();
    assert_eq!(state.update_cache(&mut cache, &entries), (false, true));
}
