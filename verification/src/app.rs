use crate::error::Error;
use crate::query::QueryInput;
use crate::search::SearchDirection;
use crate::search::SearchState;
use crate::search::build_matcher;
use crate::search::first_match_at_or_after;
use crate::search::matcher_builds;
use crate::search::last_match_before;
use crate::search::lemma_first_match_in_range;
use crate::search::lemma_last_match_in_range;
use crate::search::search_with_matcher;
use crate::utils::decrement_scroll_position;
use crate::utils::increment_scroll_position;
use crate::utils::spec_clamp_down;
use crate::utils::spec_clamp_up;
use vstd::prelude::*;

verus! {

/// One abstract keyboard event, as the engine understands it.
#[derive(Debug, Clone, Copy, PartialEq, Eq, Structural)]
pub enum Key {
    Char(char),
    Esc,
    Enter,
    Up,
    Down,
    PageUp,
    PageDown,
    Backspace,
    Delete,
    Left,
    Right,
    Other,
}

/// Where the interaction stands: paging, searching, or about to exit.
pub enum State {
    Exit,
    Pager,
    Search(SearchState),
}

/// A state seen abstractly: the mode, the term's characters, the edit
/// cursor, and the position a committed search started from.
pub enum ModeModel {
    Paging,
    Editing { term: Seq<char>, cursor: int },
    Active { term: Seq<char>, cursor: int, base: int },
    Exit,
}

/// The abstract mode a concrete state stands in.
pub open spec fn state_model(s: State) -> ModeModel {
    match s {
        State::Pager => ModeModel::Paging,
        State::Exit => ModeModel::Exit,
        State::Search(SearchState::GetInput { term }) => ModeModel::Editing {
            term: term@,
            cursor: term.spec_cursor(),
        },
        State::Search(SearchState::Searching { term, position }) => ModeModel::Active {
            term: term@,
            cursor: term.spec_cursor(),
            base: position as int,
        },
    }
}

/// A state is well formed when its term's cursor sits within the term.
pub open spec fn state_wf(s: State) -> bool {
    match s {
        State::Search(SearchState::GetInput { term }) => term.wf(),
        State::Search(SearchState::Searching { term, position: _ }) => term.wf(),
        _ => true,
    }
}

/// The term and cursor after one editing key, as the query buffer applies
/// it: characters insert at the cursor, backspace and delete remove around
/// it, the arrows move it, and every other key leaves it alone.
pub open spec fn spec_edit(term: Seq<char>, cursor: int, key: Key) -> (Seq<char>, int) {
    match key {
        Key::Char(c) => (term.insert(cursor, c), cursor + 1),
        Key::Backspace => if cursor > 0 {
            (term.remove(cursor - 1), cursor - 1)
        } else {
            (term, cursor)
        },
        Key::Delete => if cursor < term.len() {
            (term.remove(cursor), cursor)
        } else {
            (term, cursor)
        },
        Key::Left => (term, if cursor > 0 {
            cursor - 1
        } else {
            0
        }),
        Key::Right => (term, if cursor < term.len() {
            cursor + 1
        } else {
            cursor
        }),
        _ => (term, cursor),
    }
}

/// The term a step must compile into a matcher, if any: the current term
/// for the live search while editing on any key but escape and enter, and
/// the committed term on the next- and previous-match keys. Every other
/// step builds nothing and so cannot fail.
pub open spec fn spec_step_build_term(m: ModeModel, key: Key) -> Option<Seq<char>> {
    match m {
        ModeModel::Editing { term, cursor: _ } => match key {
            Key::Esc => None,
            Key::Enter => None,
            _ => Some(term),
        },
        ModeModel::Active { term, cursor: _, base: _ } => match key {
            Key::Char(c) => if c == 'n' || c == 'N' {
                Some(term)
            } else {
                None
            },
            _ => None,
        },
        _ => None,
    }
}

/// Where a live forward search moves the position: the first matching
/// line at or after `pos`, or `pos` itself when nothing matches.
pub open spec fn spec_live_position(term: Seq<char>, lines: Seq<Seq<char>>, pos: int) -> int {
    match first_match_at_or_after(term, lines, pos) {
        Some(i) => i,
        None => pos,
    }
}

/// One step of the interaction state machine: the mode and scroll
/// position after a key event, over the store's lines and the viewport
/// height. Unrecognized keys change nothing; the Exit mode is terminal.
pub open spec fn spec_step(m: ModeModel, pos: int, key: Key, lines: Seq<Seq<char>>, height: int) -> (
    ModeModel,
    int,
) {
    match m {
        ModeModel::Paging => match key {
            Key::Esc => (ModeModel::Exit, pos),
            Key::Down => (ModeModel::Paging, spec_clamp_down(pos, 1, lines.len() as int, height)),
            Key::Up => (ModeModel::Paging, spec_clamp_up(pos, 1)),
            Key::PageDown => (
                ModeModel::Paging,
                spec_clamp_down(pos, height, lines.len() as int, height),
            ),
            Key::PageUp => (ModeModel::Paging, spec_clamp_up(pos, height)),
            Key::Char(c) => if c == 'q' {
                (ModeModel::Exit, pos)
            } else if c == 'j' {
                (ModeModel::Paging, spec_clamp_down(pos, 1, lines.len() as int, height))
            } else if c == 'k' {
                (ModeModel::Paging, spec_clamp_up(pos, 1))
            } else if c == '/' {
                (ModeModel::Editing { term: Seq::empty(), cursor: 0 }, pos)
            } else {
                (ModeModel::Paging, pos)
            },
            _ => (ModeModel::Paging, pos),
        },
        ModeModel::Editing { term, cursor } => match key {
            Key::Esc => (ModeModel::Paging, pos),
            Key::Enter => (ModeModel::Active { term, cursor, base: pos }, pos),
            _ => {
                let live = spec_live_position(term, lines, pos);
                let (term2, cursor2) = spec_edit(term, cursor, key);
                (ModeModel::Editing { term: term2, cursor: cursor2 }, live)
            },
        },
        ModeModel::Active { term, cursor, base } => match key {
            Key::Esc => (ModeModel::Paging, pos),
            Key::Char(c) => if c == 'q' {
                (ModeModel::Paging, pos)
            } else if c == 'n' {
                let next = match first_match_at_or_after(term, lines, pos + 1) {
                    Some(i) => i,
                    None => pos,
                };
                (m, next)
            } else if c == 'N' {
                let prev = match last_match_before(term, lines, pos) {
                    Some(i) => i,
                    None => pos,
                };
                (m, prev)
            } else if c == '/' {
                (ModeModel::Editing { term: Seq::empty(), cursor: 0 }, pos)
            } else {
                (m, pos)
            },
            _ => (m, pos),
        },
        ModeModel::Exit => (m, pos),
    }
}

/// Appends a freshly received batch to the line store: the store grows by
/// exactly the batch, in order, and every line already stored keeps its
/// index and content.
pub fn append_lines(all_lines: &mut Vec<String>, batch: Vec<String>)
    ensures
        final(all_lines)@ == old(all_lines)@ + batch@,
        final(all_lines)@.len() == old(all_lines)@.len() + batch@.len(),
        forall|i: int| 0 <= i < old(all_lines)@.len() ==> final(all_lines)@[i] == old(all_lines)@[i],
        forall|i: int|
            0 <= i < batch@.len() ==> final(all_lines)@[old(all_lines)@.len() + i] == batch@[i],
{
    let mut incoming = batch;
    all_lines.append(&mut incoming);
}

/// The term to highlight: the search term while one is being edited or
/// jumped through, nothing while paging.
pub fn get_hilights(state: &State) -> (r: Option<String>)
    ensures
        match state_model(*state) {
            ModeModel::Editing { term, cursor: _ } => r matches Some(s) && s@ == term,
            ModeModel::Active { term, cursor: _, base: _ } => r matches Some(s) && s@ == term,
            _ => r is None,
        },
{
    match state {
        State::Search(SearchState::GetInput { term }) => Some(term.value()),
        State::Search(SearchState::Searching { term, position: _ }) => Some(term.value()),
        _ => None,
    }
}

/// Applies one key event: the new mode and scroll position are exactly
/// one step of the state machine. The step succeeds exactly when it needs
/// no matcher or its matcher builds; on a SearchTerm error nothing
/// changes. The position never leaves the store's range.
pub fn handle_key_event(
    key: Key,
    state: &mut State,
    position: &mut usize,
    all_lines: &Vec<String>,
    vertical_size: u16,
) -> (r: Result<(), Error>)
    requires
        !(*old(state) is Exit),
        state_wf(*old(state)),
        *old(position) <= all_lines@.len(),
    ensures
        r is Ok <==> (match spec_step_build_term(state_model(*old(state)), key) {
            Some(t) => matcher_builds(t),
            None => true,
        }),
        r is Ok ==> ({
            let (m2, p2) = spec_step(
                state_model(*old(state)),
                *old(position) as int,
                key,
                all_lines.deep_view(),
                vertical_size as int,
            );
            state_model(*final(state)) == m2 && *final(position) as int == p2
        }),
        r is Err ==> r == Err::<(), Error>(Error::SearchTerm) && *final(state) == *old(state)
            && *final(position) == *old(position),
        state_wf(*final(state)),
        *final(position) <= all_lines@.len(),
{
    let ghost lines = all_lines.deep_view();
    match state {
        State::Pager => {
            match key {
                Key::Esc => {
                    *state = State::Exit;
                },
                Key::Down => {
                    *position = increment_scroll_position(
                        *position,
                        1,
                        all_lines.len(),
                        vertical_size,
                    );
                },
                Key::Up => {
                    *position = decrement_scroll_position(*position, 1);
                },
                Key::PageDown => {
                    *position = increment_scroll_position(
                        *position,
                        vertical_size as usize,
                        all_lines.len(),
                        vertical_size,
                    );
                },
                Key::PageUp => {
                    *position = decrement_scroll_position(*position, vertical_size as usize);
                },
                Key::Char(c) => {
                    if c == 'q' {
                        *state = State::Exit;
                    } else if c == 'j' {
                        *position = increment_scroll_position(
                            *position,
                            1,
                            all_lines.len(),
                            vertical_size,
                        );
                    } else if c == 'k' {
                        *position = decrement_scroll_position(*position, 1);
                    } else if c == '/' {
                        *state = State::Search(SearchState::GetInput { term: QueryInput::new() });
                    }
                },
                _ => {},
            }
        },
        State::Search(SearchState::GetInput { term }) => {
            match key {
                Key::Esc => {
                    *state = State::Pager;
                },
                Key::Enter => {
                    let committed = term.duplicate();
                    let base = *position;
                    *state = State::Search(
                        SearchState::Searching { term: committed, position: base },
                    );
                },
                _ => {
                    let matcher = match build_matcher(&term.value()) {
                        Ok(m) => m,
                        Err(e) => {
                            return Err(e);
                        },
                    };
                    let found = search_with_matcher(
                        &matcher,
                        *position,
                        all_lines,
                        &SearchDirection::Forward,
                    );
                    proof {
                        lemma_first_match_in_range(term@, lines, *old(position) as int);
                    }
                    if let Some(new_position) = found {
                        *position = new_position;
                    }
                    match key {
                        Key::Char(c) => term.insert_char(c),
                        Key::Backspace => term.backspace(),
                        Key::Delete => term.delete_char(),
                        Key::Left => term.move_left(),
                        Key::Right => term.move_right(),
                        _ => {},
                    }
                },
            }
        },
        State::Search(SearchState::Searching { term, position: _base }) => {
            match key {
                Key::Esc => {
                    *state = State::Pager;
                },
                Key::Char(c) => {
                    if c == 'q' {
                        *state = State::Pager;
                    } else if c == 'n' {
                        let matcher = match build_matcher(&term.value()) {
                            Ok(m) => m,
                            Err(e) => {
                                return Err(e);
                            },
                        };
                        let found = if *position < all_lines.len() {
                            search_with_matcher(
                                &matcher,
                                *position + 1,
                                all_lines,
                                &SearchDirection::Forward,
                            )
                        } else {
                            assert(first_match_at_or_after(
                                term@,
                                lines,
                                *old(position) + 1,
                            ) is None);
                            None
                        };
                        proof {
                            lemma_first_match_in_range(term@, lines, *old(position) + 1);
                        }
                        if let Some(new_position) = found {
                            *position = new_position;
                        }
                    } else if c == 'N' {
                        let matcher = match build_matcher(&term.value()) {
                            Ok(m) => m,
                            Err(e) => {
                                return Err(e);
                            },
                        };
                        let found = search_with_matcher(
                            &matcher,
                            *position,
                            all_lines,
                            &SearchDirection::Backwards,
                        );
                        proof {
                            lemma_last_match_in_range(term@, lines, *old(position) as int);
                        }
                        if let Some(new_position) = found {
                            *position = new_position;
                        }
                    } else if c == '/' {
                        *state = State::Search(SearchState::GetInput { term: QueryInput::new() });
                    }
                },
                _ => {},
            }
        },
        State::Exit => {
            proof {
                assert(false);
            }
        },
    }
    Ok(())
}

/// Opening the search from Paging, typing one character while the term is
/// still empty, and escaping lands back in Paging; the live search the
/// keystroke triggers runs on the still-empty term, which matches the
/// line already at the position, so the position stays where it was.
pub proof fn lemma_search_abort_returns_to_paging(
    pos: int,
    typed: char,
    lines: Seq<Seq<char>>,
    height: int,
)
    requires
        0 <= pos <= lines.len(),
    ensures
        ({
            let (m1, p1) = spec_step(ModeModel::Paging, pos, Key::Char('/'), lines, height);
            let (m2, p2) = spec_step(m1, p1, Key::Char(typed), lines, height);
            let (m3, p3) = spec_step(m2, p2, Key::Esc, lines, height);
            m3 == ModeModel::Paging && p3 == pos && p2 == pos && p1 == pos
        }),
{
    let (m1, p1) = spec_step(ModeModel::Paging, pos, Key::Char('/'), lines, height);
    assert(m1 == ModeModel::Editing { term: Seq::<char>::empty(), cursor: 0int });
    if pos < lines.len() {
        assert(crate::search::matches_at(Seq::<char>::empty(), lines[pos], 0));
        assert(crate::search::contains_ci(Seq::<char>::empty(), lines[pos]));
        assert(first_match_at_or_after(Seq::<char>::empty(), lines, pos) == Some(pos));
    } else {
        assert(first_match_at_or_after(Seq::<char>::empty(), lines, pos) is None);
    }
}

} // verus!
