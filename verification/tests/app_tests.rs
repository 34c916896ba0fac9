use cag::app::Key;
use cag::app::State;
use cag::app::append_lines;
use cag::app::get_hilights;
use cag::app::handle_key_event;
use cag::search::SearchState;

fn lines_of(xs: &[&str]) -> Vec<String> {
    xs.iter().map(|s| s.to_string()).collect()
}

#[test]
fn append_grows_the_store_in_order() {
    let mut store = lines_of(&["a", "b"]);
    let batch = lines_of(&["c", "d", "e"]);
    append_lines(&mut store, batch);
    assert_eq!(store, lines_of(&["a", "b", "c", "d", "e"]));

    let mut empty: Vec<String> = Vec::new();
    append_lines(&mut empty, lines_of(&["x"]));
    assert_eq!(empty, lines_of(&["x"]));
}

#[test]
fn quit_key_exits_from_paging() {
    let store = lines_of(&["a", "b"]);
    let mut state = State::Pager;
    let mut position: usize = 0;
    handle_key_event(Key::Char('q'), &mut state, &mut position, &store, 2).unwrap();
    assert!(matches!(state, State::Exit));
    assert_eq!(position, 0);
}

#[test]
fn arrow_keys_scroll_within_bounds() {
    let store = lines_of(&["a", "b", "c", "d", "e", "f"]);
    let mut state = State::Pager;
    let mut position: usize = 0;
    handle_key_event(Key::Down, &mut state, &mut position, &store, 2).unwrap();
    assert_eq!(position, 1);
    handle_key_event(Key::PageDown, &mut state, &mut position, &store, 2).unwrap();
    assert_eq!(position, 3);
    handle_key_event(Key::PageDown, &mut state, &mut position, &store, 2).unwrap();
    assert_eq!(position, 4);
    handle_key_event(Key::Up, &mut state, &mut position, &store, 2).unwrap();
    assert_eq!(position, 3);
    handle_key_event(Key::PageUp, &mut state, &mut position, &store, 2).unwrap();
    assert_eq!(position, 1);
    assert!(matches!(state, State::Pager));
}

#[test]
fn escape_during_editing_returns_to_paging() {
    // Opening the search, typing a character while the term is still
    // empty, and escaping: back in Paging, the position untouched beyond
    // what the live search on the empty term did (nothing).
    let store = lines_of(&["a", "b", "c"]);
    let mut state = State::Pager;
    let mut position: usize = 1;
    handle_key_event(Key::Char('/'), &mut state, &mut position, &store, 2).unwrap();
    assert!(matches!(state, State::Search(SearchState::GetInput { .. })));
    handle_key_event(Key::Char('x'), &mut state, &mut position, &store, 2).unwrap();
    assert_eq!(position, 1);
    handle_key_event(Key::Esc, &mut state, &mut position, &store, 2).unwrap();
    assert!(matches!(state, State::Pager));
    assert_eq!(position, 1);
}

#[test]
fn typing_runs_a_live_search() {
    let store = lines_of(&["alpha", "beta", "gamma"]);
    let mut state = State::Pager;
    let mut position: usize = 0;
    handle_key_event(Key::Char('/'), &mut state, &mut position, &store, 2).unwrap();
    // The live search runs on the term before the keystroke is added, so
    // the jump to "gamma" happens one key after 'g' is typed.
    handle_key_event(Key::Char('g'), &mut state, &mut position, &store, 2).unwrap();
    assert_eq!(position, 0);
    handle_key_event(Key::Char('a'), &mut state, &mut position, &store, 2).unwrap();
    assert_eq!(position, 2);
    assert_eq!(get_hilights(&state), Some("ga".to_string()));
}

#[test]
fn committed_search_jumps_between_matches() {
    let store = lines_of(&["foo", "bar", "foo", "baz", "Foo"]);
    let mut state = State::Pager;
    let mut position: usize = 0;
    handle_key_event(Key::Char('/'), &mut state, &mut position, &store, 2).unwrap();
    handle_key_event(Key::Char('f'), &mut state, &mut position, &store, 2).unwrap();
    handle_key_event(Key::Char('o'), &mut state, &mut position, &store, 2).unwrap();
    handle_key_event(Key::Char('o'), &mut state, &mut position, &store, 2).unwrap();
    handle_key_event(Key::Enter, &mut state, &mut position, &store, 2).unwrap();
    assert!(matches!(state, State::Search(SearchState::Searching { .. })));
    assert_eq!(position, 0);
    handle_key_event(Key::Char('n'), &mut state, &mut position, &store, 2).unwrap();
    assert_eq!(position, 2);
    handle_key_event(Key::Char('n'), &mut state, &mut position, &store, 2).unwrap();
    assert_eq!(position, 4);
    handle_key_event(Key::Char('n'), &mut state, &mut position, &store, 2).unwrap();
    assert_eq!(position, 4);
    handle_key_event(Key::Char('N'), &mut state, &mut position, &store, 2).unwrap();
    assert_eq!(position, 2);
    handle_key_event(Key::Esc, &mut state, &mut position, &store, 2).unwrap();
    assert!(matches!(state, State::Pager));
}

#[test]
fn editing_keys_shape_the_term() {
    let store = lines_of(&["abc"]);
    let mut state = State::Pager;
    let mut position: usize = 0;
    handle_key_event(Key::Char('/'), &mut state, &mut position, &store, 2).unwrap();
    handle_key_event(Key::Char('a'), &mut state, &mut position, &store, 2).unwrap();
    handle_key_event(Key::Char('b'), &mut state, &mut position, &store, 2).unwrap();
    handle_key_event(Key::Char('c'), &mut state, &mut position, &store, 2).unwrap();
    handle_key_event(Key::Backspace, &mut state, &mut position, &store, 2).unwrap();
    assert_eq!(get_hilights(&state), Some("ab".to_string()));
    handle_key_event(Key::Left, &mut state, &mut position, &store, 2).unwrap();
    handle_key_event(Key::Left, &mut state, &mut position, &store, 2).unwrap();
    handle_key_event(Key::Char('x'), &mut state, &mut position, &store, 2).unwrap();
    assert_eq!(get_hilights(&state), Some("xab".to_string()));
    handle_key_event(Key::Delete, &mut state, &mut position, &store, 2).unwrap();
    assert_eq!(get_hilights(&state), Some("xb".to_string()));
}

#[test]
fn unrecognized_keys_change_nothing_while_paging() {
    let store = lines_of(&["a", "b"]);
    let mut state = State::Pager;
    let mut position: usize = 1;
    handle_key_event(Key::Other, &mut state, &mut position, &store, 2).unwrap();
    handle_key_event(Key::Char('z'), &mut state, &mut position, &store, 2).unwrap();
    assert!(matches!(state, State::Pager));
    assert_eq!(position, 1);
    assert_eq!(get_hilights(&state), None);
}
