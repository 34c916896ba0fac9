use cag::error::Error;
use cag::utils::decrement_scroll_position;
use cag::utils::get_lines;
use cag::utils::increment_scroll_position;

fn lines_of(xs: &[&str]) -> Vec<String> {
    xs.iter().map(|s| s.to_string()).collect()
}

#[test]
fn increment_moves_down_within_the_ceiling() {
    assert_eq!(increment_scroll_position(2, 3, 20, 4), 5);
    assert_eq!(increment_scroll_position(10, 10, 20, 4), 16);
    assert_eq!(increment_scroll_position(16, 1, 20, 4), 16);
}

#[test]
fn increment_clamps_when_the_store_is_short() {
    assert_eq!(increment_scroll_position(0, 5, 3, 10), 0);
    assert_eq!(increment_scroll_position(7, 5, 3, 10), 0);
}

#[test]
fn increment_saturates_on_a_pathological_step() {
    assert_eq!(increment_scroll_position(1, usize::MAX, 10, 2), 8);
}

#[test]
fn decrement_moves_up_and_floors_at_zero() {
    assert_eq!(decrement_scroll_position(5, 2), 3);
    assert_eq!(decrement_scroll_position(1, 5), 0);
    assert_eq!(decrement_scroll_position(0, 1), 0);
}

#[test]
fn get_lines_returns_a_full_window() {
    let store = lines_of(&["a", "b", "c", "d", "e"]);
    let window = get_lines(&store, 1, 2).unwrap();
    assert_eq!(window, lines_of(&["b", "c"]));
}

#[test]
fn get_lines_stops_one_short_near_the_end() {
    let store = lines_of(&["a", "b", "c", "d", "e"]);
    let window = get_lines(&store, 3, 5).unwrap();
    assert_eq!(window, lines_of(&["d"]));
}

#[test]
fn get_lines_fails_outside_the_store() {
    let store = lines_of(&["a", "b"]);
    assert_eq!(get_lines(&store, 2, 3), Err(Error::GetLines));
    let empty: Vec<String> = Vec::new();
    assert_eq!(get_lines(&empty, 0, 3), Err(Error::GetLines));
}
