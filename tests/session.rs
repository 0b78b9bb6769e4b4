use shev::entry::{Entries, Entry, EntryState};
use shev::filter::Filter;
use shev::session::{fresh_id, Session};

fn odd(e: &Entry) -> bool {
    e.side_bar_title.parse::<usize>().map(|n| n % 2 == 1 && n < 8).unwrap_or(false)
}

fn none(_: &Entry, _: EntryState) -> Result<(), String> {
    Ok(())
}

#[test]
fn transit_restores_remembered_cursor() {
    let mut session = Session::new();
    let (stale, c) = session.transit(String::from("a"), 5, &String::from("b"), None);
    assert!(stale.is_empty());
    assert_eq!(c, 0);
    let (_, c) = session.transit(String::from("b"), 2, &String::from("a"), None);
    assert_eq!(c, 5);
    let (_, c) = session.transit(String::from("a"), 5, &String::from("b"), Some(7));
    assert_eq!(c, 7);
}

#[test]
fn filtered_views_are_dropped_on_direct_transit() {
    let mut session = Session::new();
    let (stale, c) = session.transit_to_tmp(String::from("a"), 3, String::from("a | f"), Some(1));
    assert!(stale.is_empty());
    assert_eq!(c, 1);
    assert_eq!(session.tmp_entries_ids, vec![String::from("a | f")]);
    let (stale, c) = session.transit_to_tmp(String::from("a"), 3, String::from("a | g"), None);
    assert_eq!(stale, vec![String::from("a | f")]);
    assert_eq!(c, 0);
    let (stale, c) = session.transit(String::from("a | g"), 4, &String::from("a"), None);
    assert_eq!(stale, vec![String::from("a | g")]);
    assert_eq!(c, 3);
    assert!(session.tmp_entries_ids.is_empty());
    assert!(!session.cursor_memory.contains_key(&String::from("a | g")));
}

#[test]
fn filtered_out_cursor_lands_on_first_entry() {
    let entries: Entries<fn(&Entry) -> bool, fn(&Entry, EntryState) -> Result<(), String>> = Entries {
        id: String::from("all"),
        title: None,
        entries: (0..10).map(|i| Entry { side_bar_title: i.to_string(), ..Entry::default() }).collect(),
        entry_state_count: 1,
        transition: None,
        filters: vec![Filter { name: String::from("odd"), cond: odd as fn(&Entry) -> bool }],
        render_canvas: none as fn(&Entry, EntryState) -> Result<(), String>,
    };
    let (view, cursor) = entries.apply_filter(0, 2).unwrap();
    let mut session = Session::new();
    let (_, landed) = session.transit_to_tmp(String::from("all"), 2, view.id.clone(), cursor);
    assert_eq!(landed, 0);
    let (view, cursor) = entries.apply_filter(0, 5).unwrap();
    let (stale, landed) = session.transit_to_tmp(String::from("all"), 5, view.id.clone(), cursor);
    assert_eq!(landed, 2);
    assert_eq!(stale, vec![String::from("all | odd")]);
}

#[test]
fn fresh_id_avoids_registered_ids() {

    let taken = vec![String::from("a | odd"), String::from("a | odd#"), String::from("b")];
    assert_eq!(fresh_id(&String::from("a | odd"), &taken), "a | odd##");
    assert_eq!(fresh_id(&String::from("c"), &taken), "c");
    assert_eq!(fresh_id(&String::from("b"), &vec![]), "b");
}
