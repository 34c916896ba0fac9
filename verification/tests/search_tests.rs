use cag::search::SearchDirection;
use cag::search::build_matcher;
use cag::search::match_ranges;
use cag::search::search;
use cag::ui::HilightSpan;
use cag::ui::hilight_spans;
use cag::ui::hilighted_line_spans;

fn lines_of(xs: &[&str]) -> Vec<String> {
    xs.iter().map(|s| s.to_string()).collect()
}

#[test]
fn forward_search_is_case_insensitive() {
    let store = lines_of(&["BAR", "FOO", "baz"]);
    let found = search(&"foo".to_string(), 0, &store, &SearchDirection::Forward).unwrap();
    assert_eq!(found, Some(1));
}

#[test]
fn absent_term_finds_nothing() {
    let store = lines_of(&["BAR", "FOO", "baz"]);
    let found = search(&"quux".to_string(), 0, &store, &SearchDirection::Forward).unwrap();
    assert_eq!(found, None);
    let found = search(&"quux".to_string(), 3, &store, &SearchDirection::Backwards).unwrap();
    assert_eq!(found, None);
}

#[test]
fn forward_search_starts_at_position() {
    let store = lines_of(&["foo", "bar", "foo", "baz"]);
    let found = search(&"foo".to_string(), 1, &store, &SearchDirection::Forward).unwrap();
    assert_eq!(found, Some(2));
    let found = search(&"foo".to_string(), 3, &store, &SearchDirection::Forward).unwrap();
    assert_eq!(found, None);
}

#[test]
fn backward_search_stays_before_position() {
    let store = lines_of(&["foo", "bar", "foo", "baz"]);
    let found = search(&"foo".to_string(), 2, &store, &SearchDirection::Backwards).unwrap();
    assert_eq!(found, Some(0));
    let found = search(&"foo".to_string(), 4, &store, &SearchDirection::Backwards).unwrap();
    assert_eq!(found, Some(2));
    let found = search(&"foo".to_string(), 0, &store, &SearchDirection::Backwards).unwrap();
    assert_eq!(found, None);
}

#[test]
fn empty_term_matches_the_starting_line() {
    let store = lines_of(&["alpha", "beta"]);
    let found = search(&String::new(), 1, &store, &SearchDirection::Forward).unwrap();
    assert_eq!(found, Some(1));
}

#[test]
fn match_ranges_cover_each_occurrence() {
    let matcher = build_matcher(&"foo".to_string()).unwrap();
    let ranges = match_ranges(&matcher, &"FOO foo".to_string());
    assert_eq!(ranges, vec![(0, 3), (4, 7)]);
}

#[test]
fn hilight_spans_alternate_around_matches() {
    let spans = hilight_spans(&vec![(1, 4)], 5);
    assert_eq!(
        spans,
        vec![
            HilightSpan { start: 0, end: 1, hilighted: false },
            HilightSpan { start: 1, end: 4, hilighted: true },
            HilightSpan { start: 4, end: 5, hilighted: false },
        ]
    );
}

#[test]
fn hilighted_line_spans_split_the_line() {
    let matcher = build_matcher(&"foo".to_string()).unwrap();
    let spans = hilighted_line_spans(&matcher, &"xFoOy".to_string());
    assert_eq!(
        spans,
        vec![
            HilightSpan { start: 0, end: 1, hilighted: false },
            HilightSpan { start: 1, end: 4, hilighted: true },
            HilightSpan { start: 4, end: 5, hilighted: false },
        ]
    );
}

#[test]
fn hilighted_line_spans_without_matches_keep_the_line_plain() {
    let matcher = build_matcher(&"foo".to_string()).unwrap();
    let spans = hilighted_line_spans(&matcher, &"plain text".to_string());
    assert_eq!(spans, vec![HilightSpan { start: 0, end: 10, hilighted: false }]);
}
