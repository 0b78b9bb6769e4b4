use shev::text::break_lines;

fn chars(s: &str) -> Vec<char> {
    s.chars().collect()
}

fn text(v: &[char]) -> String {
    v.iter().collect()
}

#[test]
fn short_lines_are_kept() {
    let (out, sources) = break_lines(&chars("ab\ncd"), 10, 10);
    assert_eq!(text(&out), "ab\ncd");
    assert_eq!(sources, vec![0, 1, 2, 3, 4]);
}

#[test]
fn long_line_ends_in_dots() {
    // Columns 0..=2 fit; the fourth character is replaced by "..." and the rest dropped.
    let (out, sources) = break_lines(&chars("abcdefg\nxy"), 2, 10);
    assert_eq!(text(&out), "abc...\nxy");
    assert_eq!(sources, vec![0, 1, 2, 3, 3, 3, 7, 8, 9]);
}

#[test]
fn lines_past_the_box_are_dropped() {
    let (out, _) = break_lines(&chars("a\nb\nc\nd"), 10, 1);
    assert_eq!(text(&out), "a\nb\n");
}

#[test]
fn empty_text_lays_out_nothing() {
    let (out, sources) = break_lines(&vec![], 3, 3);
    assert!(out.is_empty());
    assert!(sources.is_empty());
}
