use crate::error::Error;
use vstd::prelude::*;
use vstd::string::StrSliceExecFns;

verus! {

/// The kinds of input whose block structure the finder understands.
pub enum InputType {
    Git,
}

/// A contiguous run of line indices, both ends included.
#[derive(Debug, Clone, Copy, PartialEq, Eq, Structural)]
pub struct LineRange {
    pub start: usize,
    pub end: usize,
}

/// A hexadecimal digit.
pub open spec fn spec_is_hex_digit(c: char) -> bool {
    (('0' as u32) <= (c as u32) && (c as u32) <= ('9' as u32)) || (('a' as u32) <= (c as u32) && (c
        as u32) <= ('f' as u32)) || (('A' as u32) <= (c as u32) && (c as u32) <= ('F' as u32))
}

/// A block-start line: a commit header, the word "commit" and a space
/// followed by at least one hex digit of the hash.
pub open spec fn spec_is_block_start(line: Seq<char>) -> bool {
    line.len() >= 8 && line[0] == 'c' && line[1] == 'o' && line[2] == 'm' && line[3] == 'm'
        && line[4] == 'i' && line[5] == 't' && line[6] == ' ' && spec_is_hex_digit(line[7])
}

/// A block-boundary line: the next commit header, or a diff separator
/// opening with "diff --git".
pub open spec fn spec_is_block_boundary(line: Seq<char>) -> bool {
    spec_is_block_start(line) || (line.len() >= 10 && line[0] == 'd' && line[1] == 'i' && line[2]
        == 'f' && line[3] == 'f' && line[4] == ' ' && line[5] == '-' && line[6] == '-' && line[7]
        == 'g' && line[8] == 'i' && line[9] == 't')
}

fn is_hex_digit(c: char) -> (r: bool)
    ensures
        r == spec_is_hex_digit(c),
{
    let u = c as u32;
    (('0' as u32) <= u && u <= ('9' as u32)) || (('a' as u32) <= u && u <= ('f' as u32)) || (('A'
        as u32) <= u && u <= ('F' as u32))
}

/// Whether the line opens a block: a commit header line.
pub fn is_block_start(line: &String) -> (r: bool)
    ensures
        r == spec_is_block_start(line@),
{
    let s = line.as_str();
    if s.unicode_len() < 8 {
        return false;
    }
    s.get_char(0) == 'c' && s.get_char(1) == 'o' && s.get_char(2) == 'm' && s.get_char(3) == 'm'
        && s.get_char(4) == 'i' && s.get_char(5) == 't' && s.get_char(6) == ' ' && is_hex_digit(
        s.get_char(7),
    )
}

/// Whether the line bounds a block: another commit header or a diff
/// separator.
pub fn is_block_boundary(line: &String) -> (r: bool)
    ensures
        r == spec_is_block_boundary(line@),
{
    if is_block_start(line) {
        return true;
    }
    let s = line.as_str();
    if s.unicode_len() < 10 {
        return false;
    }
    s.get_char(0) == 'd' && s.get_char(1) == 'i' && s.get_char(2) == 'f' && s.get_char(3) == 'f'
        && s.get_char(4) == ' ' && s.get_char(5) == '-' && s.get_char(6) == '-' && s.get_char(7)
        == 'g' && s.get_char(8) == 'i' && s.get_char(9) == 't'
}

/// The nearest block start strictly before `pos`, scanning backward;
/// nothing when `pos` lies beyond the store or no start precedes it.
pub open spec fn spec_start_line(lines: Seq<Seq<char>>, pos: int) -> Option<int>
    decreases pos,
{
    if pos <= 0 || pos > lines.len() {
        None
    } else if spec_is_block_start(lines[pos - 1]) {
        Some(pos - 1)
    } else {
        spec_start_line(lines, pos - 1)
    }
}

/// The nearest boundary at or after `from` and strictly before `until`.
pub open spec fn spec_first_boundary(lines: Seq<Seq<char>>, from: int, until: int) -> Option<int>
    decreases until - from,
{
    if from < 0 || from >= until || until > lines.len() {
        None
    } else if spec_is_block_boundary(lines[from]) {
        Some(from)
    } else {
        spec_first_boundary(lines, from + 1, until)
    }
}

/// The block around `pos`: from the nearest start line up to one line
/// before the next boundary, or up to `pos - 1` when no boundary has
/// streamed in yet.
pub open spec fn spec_find_range(lines: Seq<Seq<char>>, pos: int) -> Option<(int, int)> {
    match spec_start_line(lines, pos) {
        Some(start) => match spec_first_boundary(lines, start + 1, pos) {
            Some(boundary) => Some((start, boundary - 1)),
            None => Some((start, pos - 1)),
        },
        None => None,
    }
}

/// The slice the finder hands back: the block plus one trailing line, or
/// nothing when that would run past the store's end.
pub open spec fn spec_context_range(lines: Seq<Seq<char>>, pos: int) -> Option<(int, int)> {
    match spec_find_range(lines, pos) {
        Some((start, end)) => if end + 1 < lines.len() {
            Some((start, end + 1))
        } else {
            None
        },
        None => None,
    }
}

proof fn lemma_start_line_found(lines: Seq<Seq<char>>, pos: int, s: int)
    requires
        0 <= s < pos <= lines.len(),
        spec_is_block_start(lines[s]),
        forall|j: int| s < j < pos ==> !spec_is_block_start(lines[j]),
    ensures
        spec_start_line(lines, pos) == Some(s),
    decreases pos,
{
    if s < pos - 1 {
        lemma_start_line_found(lines, pos - 1, s);
    }
}

proof fn lemma_start_line_none(lines: Seq<Seq<char>>, pos: int)
    requires
        0 <= pos <= lines.len(),
        forall|j: int| 0 <= j < pos ==> !spec_is_block_start(lines[j]),
    ensures
        spec_start_line(lines, pos) is None,
    decreases pos,
{
    if pos > 0 {
        lemma_start_line_none(lines, pos - 1);
    }
}

/// A found start always lies before the position it was sought from.
pub proof fn lemma_start_line_in_range(lines: Seq<Seq<char>>, pos: int)
    ensures
        spec_start_line(lines, pos) matches Some(s) ==> 0 <= s < pos && pos <= lines.len()
            && spec_is_block_start(lines[s]),
    decreases pos,
{
    if 0 < pos <= lines.len() && !spec_is_block_start(lines[pos - 1]) {
        lemma_start_line_in_range(lines, pos - 1);
    }
}

proof fn lemma_first_boundary_found(lines: Seq<Seq<char>>, from: int, until: int, b: int)
    requires
        0 <= from <= b < until <= lines.len(),
        spec_is_block_boundary(lines[b]),
        forall|j: int| from <= j < b ==> !spec_is_block_boundary(lines[j]),
    ensures
        spec_first_boundary(lines, from, until) == Some(b),
    decreases b - from,
{
    if from < b {
        lemma_first_boundary_found(lines, from + 1, until, b);
    }
}

proof fn lemma_first_boundary_none(lines: Seq<Seq<char>>, from: int, until: int)
    requires
        0 <= from,
        until <= lines.len(),
        forall|j: int| from <= j < until ==> !spec_is_block_boundary(lines[j]),
    ensures
        spec_first_boundary(lines, from, until) is None,
    decreases until - from,
{
    if from < until {
        lemma_first_boundary_none(lines, from + 1, until);
    }
}

/// A found boundary always lies within the scanned range.
pub proof fn lemma_first_boundary_in_range(lines: Seq<Seq<char>>, from: int, until: int)
    ensures
        spec_first_boundary(lines, from, until) matches Some(b) ==> from <= b < until
            && until <= lines.len() && spec_is_block_boundary(lines[b]),
    decreases until - from,
{
    if 0 <= from && from < until && until <= lines.len() && !spec_is_block_boundary(lines[from]) {
        lemma_first_boundary_in_range(lines, from + 1, until);
    }
}

/// Finds the enclosing block (one commit's header and metadata lines)
/// around a position in the store.
pub struct ContextFinder {
    input_type: InputType,
}

impl ContextFinder {
    /// Builds a finder for the given input kind; construction never fails
    /// for the kinds offered.
    pub fn new(input_type: &InputType) -> (r: Result<Self, Error>)
        ensures
            r is Ok,
    {
        match input_type {
            InputType::Git => Ok(ContextFinder { input_type: InputType::Git }),
        }
    }

    fn start_line_num(&self, lines: &Vec<String>, start_position: usize) -> (r: Option<usize>)
        ensures
            match spec_start_line(lines.deep_view(), start_position as int) {
                Some(s) => r matches Some(u) && u == s,
                None => r is None,
            },
    {
        let ghost view = lines.deep_view();
        if start_position > lines.len() {
            return None;
        }
        let mut i = start_position;
        while i > 0
            invariant
                i <= start_position <= lines@.len(),
                view == lines.deep_view(),
                forall|j: int| i <= j < start_position ==> !spec_is_block_start(view[j]),
            decreases i,
        {
            let k = i - 1;
            assert(view[k as int] == lines@[k as int]@);
            if is_block_start(&lines[k]) {
                proof {
                    lemma_start_line_found(view, start_position as int, k as int);
                }
                return Some(k);
            }
            i = k;
        }
        proof {
            lemma_start_line_none(view, start_position as int);
        }
        None
    }

    fn end_line_num(&self, lines: &Vec<String>, start_position: usize, start_line_num: usize) -> (r:
        Option<usize>)
        requires
            start_line_num < start_position <= lines@.len(),
        ensures
            match spec_first_boundary(
                lines.deep_view(),
                start_line_num + 1,
                start_position as int,
            ) {
                Some(b) => r matches Some(d) && start_line_num + 1 + d == b,
                None => r is None,
            },
    {
        let ghost view = lines.deep_view();
        let from = start_line_num + 1;
        let mut i = from;
        while i < start_position
            invariant
                from == start_line_num + 1,
                from <= i <= start_position <= lines@.len(),
                view == lines.deep_view(),
                forall|j: int| from <= j < i ==> !spec_is_block_boundary(view[j]),
            decreases start_position - i,
        {
            assert(view[i as int] == lines@[i as int]@);
            if is_block_boundary(&lines[i]) {
                proof {
                    lemma_first_boundary_found(view, from as int, start_position as int, i as int);
                }
                return Some(i - from);
            }
            i += 1;
        }
        proof {
            lemma_first_boundary_none(view, from as int, start_position as int);
        }
        None
    }

    /// The block of line indices around `current_position`, from the
    /// nearest commit header down to the line before the next boundary —
    /// or down to the line before `current_position` while the boundary
    /// has not streamed in yet.
    pub fn find_range(&self, lines: &Vec<String>, current_position: usize) -> (r: Option<LineRange>)
        ensures
            match spec_find_range(lines.deep_view(), current_position as int) {
                Some((s, e)) => r matches Some(range) && range.start == s && range.end == e && s
                    <= e < lines@.len(),
                None => r is None,
            },
    {
        let ghost view = lines.deep_view();
        proof {
            lemma_start_line_in_range(view, current_position as int);
        }
        let start = match self.start_line_num(lines, current_position) {
            Some(s) => s,
            None => {
                return None;
            },
        };
        proof {
            lemma_first_boundary_in_range(view, start + 1, current_position as int);
        }
        match self.end_line_num(lines, current_position, start) {
            Some(delta) => Some(LineRange { start, end: start + delta }),
            None => Some(LineRange { start, end: current_position - 1 }),
        }
    }

    /// The context around `current_position`: the enclosing block's lines
    /// with one trailing line past its end, or nothing when no block
    /// encloses the position or the trailing line has not arrived.
    pub fn get_context(&self, all_lines: &Vec<String>, position: usize) -> (r: Option<Vec<String>>)
        ensures
            match spec_context_range(all_lines.deep_view(), position as int) {
                Some((s, e)) => r matches Some(context) && context@.len() == e + 1 - s && (forall|
                    i: int,
                |
                    0 <= i < context@.len() ==> context@[i] == all_lines@[s + i]),
                None => r is None,
            },
    {
        let range = match self.find_range(all_lines, position) {
            Some(range) => range,
            None => {
                return None;
            },
        };
        let total = all_lines.len();
        assert(range.end < total);
        if range.end + 1 < total {
            let last = range.end + 1;
            let mut context: Vec<String> = Vec::new();
            let mut i = range.start;
            while i <= last
                invariant
                    range.start <= i <= last + 1,
                    last < total,
                    total == all_lines@.len(),
                    context@.len() == i - range.start,
                    forall|j: int|
                        0 <= j < context@.len() ==> context@[j] == all_lines@[range.start + j],
                decreases last + 1 - i,
            {
                context.push(all_lines[i].clone());
                i += 1;
            }
            Some(context)
        } else {
            None
        }
    }
}

/// Near the very top there is no room for a block: at position zero, and
/// at position one when the first line is not itself a block start, the
/// finder yields no context.
pub proof fn lemma_no_context_near_top(lines: Seq<Seq<char>>, pos: int)
    requires
        0 <= pos <= 1,
        !(pos == 1 && lines.len() >= 2 && spec_is_block_start(lines[0])),
    ensures
        spec_context_range(lines, pos) is None,
{
    if pos == 0 {
        assert(spec_start_line(lines, 0) is None);
    } else if lines.len() == 0 {
        assert(spec_start_line(lines, 1) is None);
    } else if !spec_is_block_start(lines[0]) {
        lemma_start_line_none(lines, 1);
    } else {
        assert(lines.len() == 1);
        assert(spec_start_line(lines, 1) == Some(0int));
        assert(spec_first_boundary(lines, 1, 1) is None);
        assert(spec_find_range(lines, 1) == Some((0int, 0int)));
    }
}

} // verus!
