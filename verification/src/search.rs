use crate::error::Error;
use crate::query::QueryInput;
use aho_corasick::AhoCorasick;
use aho_corasick::BuildError;
use vstd::prelude::*;

verus! {

/// Which way a search walks the line store.
#[derive(Debug, Clone, Copy, PartialEq, Eq, Structural)]
pub enum SearchDirection {
    Backwards,
    Forward,
}

/// Where the search interaction stands: still collecting the term, or
/// jumping between matches of a committed one.
pub enum SearchState {
    GetInput { term: QueryInput },
    Searching { term: QueryInput, position: usize },
}

#[verifier::external_type_specification]
#[verifier::external_body]
pub struct ExAhoCorasick(AhoCorasick);

#[verifier::external_type_specification]
#[verifier::external_body]
pub struct ExBuildError(BuildError);

/// A character's scalar value with ASCII upper case folded to lower case.
pub open spec fn fold_ascii_case(c: char) -> int {
    if ('A' as u32) <= (c as u32) && (c as u32) <= ('Z' as u32) {
        c as u32 + 32
    } else {
        c as u32 as int
    }
}

/// `needle` occurs in `hay` starting at character position `i`, the ASCII
/// letters compared without regard to case.
pub open spec fn matches_at(needle: Seq<char>, hay: Seq<char>, i: int) -> bool {
    0 <= i && i + needle.len() <= hay.len() && (forall|j: int|
        0 <= j < needle.len() ==> fold_ascii_case(needle[j]) == fold_ascii_case(hay[i + j]))
}

/// `needle` occurs in `hay` as a contiguous run of characters, the ASCII
/// letters compared without regard to case. An empty needle occurs in
/// every line.
pub open spec fn contains_ci(needle: Seq<char>, hay: Seq<char>) -> bool {
    exists|i: int| #[trigger] matches_at(needle, hay, i)
}

/// Whether the case-insensitive matcher for `term` can be constructed:
/// the build's outcome depends on the one pattern alone.
pub uninterp spec fn matcher_builds(term: Seq<char>) -> bool;

/// The byte ranges at which `term` occurs in `line`, as the matcher
/// reports them: a function of the term and the line alone.
pub uninterp spec fn match_byte_ranges(term: Seq<char>, line: Seq<char>) -> Seq<(usize, usize)>;

/// A compiled case-insensitive substring matcher for one search term.
pub struct Matcher {
    automaton: AhoCorasick,
    term: String,
}

impl Matcher {
    /// The search term this matcher was built from.
    pub closed spec fn term_view(&self) -> Seq<char> {
        self.term@
    }
}

/// Relies on aho_corasick::AhoCorasickBuilder::build with
/// ascii_case_insensitive set: compiles the one pattern, kept beside the
/// automaton as the term it matches. Whether the build succeeds depends
/// on the pattern alone, named here `matcher_builds`.
#[verifier::external_body]
fn build_automaton(term: &String) -> (r: Result<Matcher, BuildError>)
    ensures
        r is Ok <==> matcher_builds(term@),
        r matches Ok(m) ==> m.term_view() == term@,
{
    match AhoCorasick::builder().ascii_case_insensitive(true).build([term.as_str()]) {
        Ok(automaton) => Ok(Matcher { automaton, term: term.clone() }),
        Err(e) => Err(e),
    }
}

/// Relies on aho_corasick::AhoCorasick::is_match: with ASCII case folding
/// enabled, a single pattern matches exactly the haystacks that hold it as
/// a substring up to ASCII case, and an empty pattern matches everywhere.
#[verifier::external_body]
fn automaton_is_match(matcher: &Matcher, line: &String) -> (r: bool)
    ensures
        r == contains_ci(matcher.term_view(), line@),
{
    matcher.automaton.is_match(line.as_str())
}

/// Relies on aho_corasick::AhoCorasick::find_iter: the matches — named
/// `match_byte_ranges` of the term and the line — come back in order of
/// position, non-overlapping, each within the haystack's bytes, and there
/// is at least one exactly when the line holds the term.
#[verifier::external_body]
fn automaton_find_ranges(matcher: &Matcher, line: &String) -> (r: Vec<(usize, usize)>)
    ensures
        r@ == match_byte_ranges(matcher.term_view(), line@),
        r@.len() > 0 <==> contains_ci(matcher.term_view(), line@),
        forall|k: int|
            0 <= k < r@.len() ==> (#[trigger] r@[k]).0 <= r@[k].1
                && r@[k].1 <= vstd::utf8::encode_utf8(line@).len(),
        forall|k: int| 0 <= k < r@.len() - 1 ==> (#[trigger] r@[k]).1 <= r@[k + 1].0,
{
    matcher.automaton.find_iter(line.as_str()).map(|m| (m.start(), m.end())).collect()
}

/// The ordered byte ranges at which the matcher's term occurs in `line`:
/// non-overlapping, within the line's bytes, non-empty exactly when the
/// line holds the term.
pub fn match_ranges(matcher: &Matcher, line: &String) -> (r: Vec<(usize, usize)>)
    ensures
        r@ == match_byte_ranges(matcher.term_view(), line@),
        r@.len() > 0 <==> contains_ci(matcher.term_view(), line@),
        forall|k: int|
            0 <= k < r@.len() ==> (#[trigger] r@[k]).0 <= r@[k].1
                && r@[k].1 <= vstd::utf8::encode_utf8(line@).len(),
        forall|k: int| 0 <= k < r@.len() - 1 ==> (#[trigger] r@[k]).1 <= r@[k + 1].0,
{
    automaton_find_ranges(matcher, line)
}

/// Builds the case-insensitive matcher for `term`, reporting a SearchTerm
/// error exactly when the automaton cannot be constructed.
pub fn build_matcher(term: &String) -> (r: Result<Matcher, Error>)
    ensures
        r is Ok <==> matcher_builds(term@),
        r matches Ok(m) ==> m.term_view() == term@,
        r is Err ==> r == Err::<Matcher, Error>(Error::SearchTerm),
{
    match build_automaton(term) {
        Ok(m) => Ok(m),
        Err(_) => Err(Error::SearchTerm),
    }
}

/// The index of the first line at or after `from` that holds the term,
/// scanning forward; nothing if no line from there on matches.
pub open spec fn first_match_at_or_after(term: Seq<char>, lines: Seq<Seq<char>>, from: int) -> Option<
    int,
>
    decreases lines.len() - from,
{
    if from < 0 || from >= lines.len() {
        None
    } else if contains_ci(term, lines[from]) {
        Some(from)
    } else {
        first_match_at_or_after(term, lines, from + 1)
    }
}

/// The index of the last line strictly before `upto` that holds the term,
/// scanning backward; nothing if no earlier line matches or `upto` lies
/// beyond the store.
pub open spec fn last_match_before(term: Seq<char>, lines: Seq<Seq<char>>, upto: int) -> Option<int>
    decreases upto,
{
    if upto <= 0 || upto > lines.len() {
        None
    } else if contains_ci(term, lines[upto - 1]) {
        Some(upto - 1)
    } else {
        last_match_before(term, lines, upto - 1)
    }
}

/// What a search returns: the nearest match at or after `position` going
/// forward, the nearest match strictly before it going backward.
pub open spec fn spec_search(
    term: Seq<char>,
    position: int,
    lines: Seq<Seq<char>>,
    direction: SearchDirection,
) -> Option<int> {
    match direction {
        SearchDirection::Forward => first_match_at_or_after(term, lines, position),
        SearchDirection::Backwards => last_match_before(term, lines, position),
    }
}

proof fn lemma_first_match_found(term: Seq<char>, lines: Seq<Seq<char>>, from: int, i: int)
    requires
        0 <= from <= i < lines.len(),
        contains_ci(term, lines[i]),
        forall|j: int| from <= j < i ==> !contains_ci(term, lines[j]),
    ensures
        first_match_at_or_after(term, lines, from) == Some(i),
    decreases i - from,
{
    if from < i {
        lemma_first_match_found(term, lines, from + 1, i);
    }
}

proof fn lemma_first_match_none(term: Seq<char>, lines: Seq<Seq<char>>, from: int)
    requires
        0 <= from,
        forall|j: int| from <= j < lines.len() ==> !contains_ci(term, lines[j]),
    ensures
        first_match_at_or_after(term, lines, from) is None,
    decreases lines.len() - from,
{
    if from < lines.len() {
        lemma_first_match_none(term, lines, from + 1);
    }
}

proof fn lemma_last_match_found(term: Seq<char>, lines: Seq<Seq<char>>, upto: int, i: int)
    requires
        0 <= i < upto <= lines.len(),
        contains_ci(term, lines[i]),
        forall|j: int| i < j < upto ==> !contains_ci(term, lines[j]),
    ensures
        last_match_before(term, lines, upto) == Some(i),
    decreases upto,
{
    if i < upto - 1 {
        lemma_last_match_found(term, lines, upto - 1, i);
    }
}

proof fn lemma_last_match_none(term: Seq<char>, lines: Seq<Seq<char>>, upto: int)
    requires
        0 <= upto <= lines.len(),
        forall|j: int| 0 <= j < upto ==> !contains_ci(term, lines[j]),
    ensures
        last_match_before(term, lines, upto) is None,
    decreases upto,
{
    if upto > 0 {
        lemma_last_match_none(term, lines, upto - 1);
    }
}

/// A found match always lies in the scanned range and matches the term.
pub proof fn lemma_first_match_in_range(term: Seq<char>, lines: Seq<Seq<char>>, from: int)
    ensures
        first_match_at_or_after(term, lines, from) matches Some(i) ==> from <= i < lines.len()
            && contains_ci(term, lines[i]),
    decreases lines.len() - from,
{
    if 0 <= from && from < lines.len() && !contains_ci(term, lines[from]) {
        lemma_first_match_in_range(term, lines, from + 1);
    }
}

/// A backward-found match always lies before `upto` and matches the term.
pub proof fn lemma_last_match_in_range(term: Seq<char>, lines: Seq<Seq<char>>, upto: int)
    ensures
        last_match_before(term, lines, upto) matches Some(i) ==> 0 <= i < upto && i < lines.len()
            && contains_ci(term, lines[i]),
    decreases upto,
{
    if 0 < upto && upto <= lines.len() && !contains_ci(term, lines[upto - 1]) {
        lemma_last_match_in_range(term, lines, upto - 1);
    }
}

/// A term that no line of the store holds is never found: the search
/// yields nothing, in either direction.
pub proof fn lemma_search_without_occurrence(
    term: Seq<char>,
    lines: Seq<Seq<char>>,
    position: int,
    direction: SearchDirection,
)
    requires
        0 <= position,
        forall|j: int| 0 <= j < lines.len() ==> !contains_ci(term, lines[j]),
    ensures
        spec_search(term, position, lines, direction) is None,
{
    match direction {
        SearchDirection::Forward => {
            lemma_first_match_none(term, lines, position);
        },
        SearchDirection::Backwards => {
            if position <= lines.len() {
                lemma_last_match_none(term, lines, position);
            }
        },
    }
}

/// Scans the store with an already built matcher and returns the nearest
/// matching line's index, in the given direction from `position`.
pub fn search_with_matcher(
    matcher: &Matcher,
    position: usize,
    all_lines: &Vec<String>,
    direction: &SearchDirection,
) -> (r: Option<usize>)
    requires
        *direction is Backwards ==> position <= all_lines@.len(),
    ensures
        r matches Some(i) ==> spec_search(
            matcher.term_view(),
            position as int,
            all_lines.deep_view(),
            *direction,
        ) == Some(i as int),
        r is None ==> spec_search(
            matcher.term_view(),
            position as int,
            all_lines.deep_view(),
            *direction,
        ) is None,
{
    let ghost term = matcher.term_view();
    let ghost lines = all_lines.deep_view();
    match direction {
        SearchDirection::Forward => {
            let total = all_lines.len();
            if position >= total {
                return None;
            }
            let mut i = position;
            while i < total
                invariant
                    *direction is Forward,
                    position <= i <= total,
                    total == all_lines@.len(),
                    lines == all_lines.deep_view(),
                    term == matcher.term_view(),
                    forall|j: int| position <= j < i ==> !contains_ci(term, lines[j]),
                decreases total - i,
            {
                let line = &all_lines[i];
                assert(line@ == lines[i as int]);
                if automaton_is_match(matcher, line) {
                    proof {
                        lemma_first_match_found(term, lines, position as int, i as int);
                    }
                    return Some(i);
                }
                i += 1;
            }
            proof {
                lemma_first_match_none(term, lines, position as int);
            }
            None
        },
        SearchDirection::Backwards => {
            let mut i = position;
            while i > 0
                invariant
                    *direction is Backwards,
                    i <= position <= all_lines@.len(),
                    lines == all_lines.deep_view(),
                    term == matcher.term_view(),
                    forall|j: int| i <= j < position ==> !contains_ci(term, lines[j]),
                decreases i,
            {
                let k = i - 1;
                let line = &all_lines[k];
                assert(line@ == lines[k as int]);
                if automaton_is_match(matcher, line) {
                    proof {
                        lemma_last_match_found(term, lines, position as int, k as int);
                    }
                    return Some(k);
                }
                i = k;
            }
            proof {
                lemma_last_match_none(term, lines, position as int);
            }
            None
        },
    }
}

/// Searches for `term` in the store from `position` in the given
/// direction: the nearest matching line's index, nothing when no line
/// matches, and a SearchTerm error exactly when the matcher cannot be
/// built — never for want of occurrences.
pub fn search(
    term: &String,
    position: usize,
    all_lines: &Vec<String>,
    direction: &SearchDirection,
) -> (r: Result<Option<usize>, Error>)
    requires
        *direction is Backwards ==> position <= all_lines@.len(),
    ensures
        r is Ok <==> matcher_builds(term@),
        r matches Ok(found) ==> (spec_search(
            term@,
            position as int,
            all_lines.deep_view(),
            *direction,
        ) == (match found {
            Some(i) => Some(i as int),
            None => None::<int>,
        })),
        r is Err ==> r == Err::<Option<usize>, Error>(Error::SearchTerm),
{
    let matcher = match build_matcher(term) {
        Ok(m) => m,
        Err(e) => {
            return Err(e);
        },
    };
    Ok(search_with_matcher(&matcher, position, all_lines, direction))
}

} // verus!
