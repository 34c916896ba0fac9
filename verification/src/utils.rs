use crate::error::Error;
use vstd::prelude::*;

verus! {

/// The scroll position after moving up by `count`, floored at zero.
pub open spec fn spec_clamp_up(scroll: int, count: int) -> int {
    if scroll >= count {
        scroll - count
    } else {
        0
    }
}

/// The greatest scroll position that still keeps the viewport filled:
/// the store's length less the viewport height, floored at zero.
pub open spec fn spec_scroll_ceiling(total_lines: int, vertical_size: int) -> int {
    if total_lines >= vertical_size {
        total_lines - vertical_size
    } else {
        0
    }
}

/// The scroll position after moving down by `count`, clamped so the last
/// viewport stays fully populated.
pub open spec fn spec_clamp_down(scroll: int, count: int, total_lines: int, vertical_size: int) -> int {
    let ceiling = spec_scroll_ceiling(total_lines, vertical_size);
    if scroll + count <= ceiling {
        scroll + count
    } else {
        ceiling
    }
}

/// Decrements the scroll position by `count`, stopping at the top instead
/// of underflowing.
pub fn decrement_scroll_position(scroll: usize, count: usize) -> (r: usize)
    ensures
        r == spec_clamp_up(scroll as int, count as int),
{
    match scroll.checked_sub(count) {
        Some(position) => position,
        None => 0,
    }
}

/// Increments the scroll position by `count`, never moving past the point
/// where the last `vertical_size` lines fill the viewport, and never
/// wrapping on a pathologically large step.
pub fn increment_scroll_position(
    scroll: usize,
    count: usize,
    max_val: usize,
    vertical_size: u16,
) -> (r: usize)
    ensures
        r == spec_clamp_down(scroll as int, count as int, max_val as int, vertical_size as int),
{
    let ceiling: usize = if max_val >= vertical_size as usize {
        max_val - vertical_size as usize
    } else {
        0
    };
    match scroll.checked_add(count) {
        Some(position) => {
            if position > ceiling {
                ceiling
            } else {
                position
            }
        },
        None => ceiling,
    }
}

/// Moving down always lands between the top and the bottom-anchored
/// ceiling, wherever it started.
pub proof fn lemma_clamp_down_in_range(scroll: int, count: int, total_lines: int, vertical_size: int)
    requires
        0 <= scroll,
        0 <= count,
    ensures
        0 <= spec_clamp_down(scroll, count, total_lines, vertical_size),
        spec_clamp_down(scroll, count, total_lines, vertical_size)
            <= spec_scroll_ceiling(total_lines, vertical_size),
{
}

/// Moving down from a lower position never overtakes moving down from a
/// higher one: the clamp is monotone in the starting position.
pub proof fn lemma_clamp_down_monotone(
    scroll1: int,
    scroll2: int,
    count: int,
    total_lines: int,
    vertical_size: int,
)
    requires
        scroll1 <= scroll2,
    ensures
        spec_clamp_down(scroll1, count, total_lines, vertical_size)
            <= spec_clamp_down(scroll2, count, total_lines, vertical_size),
{
}

/// Moving up never leaves the store's range, and subtracts exactly `count`
/// whenever that stays non-negative.
pub proof fn lemma_clamp_up_floor(scroll: int, count: int)
    requires
        0 <= scroll,
        0 <= count,
    ensures
        0 <= spec_clamp_up(scroll, count),
        scroll - count >= 0 ==> spec_clamp_up(scroll, count) == scroll - count,
{
}

/// Where the visible window ends: one viewport past `position`, or one
/// short of the store's end when fewer lines have arrived.
pub open spec fn spec_window_end(total_lines: int, position: int, vertical_size: int) -> int {
    if position + vertical_size < total_lines {
        position + vertical_size
    } else {
        total_lines - 1
    }
}

/// Retrieves a screenful of lines starting at `position`: a full viewport
/// when enough lines have arrived, otherwise everything up to one line
/// short of the store's end. Fails when `position` lies outside the store.
pub fn get_lines(log_lines: &Vec<String>, position: usize, vertical_size: u16) -> (r: Result<
    Vec<String>,
    Error,
>)
    ensures
        r is Ok <==> (position as int) < log_lines@.len(),
        r matches Ok(window) ==> window@ =~= log_lines@.subrange(
            position as int,
            spec_window_end(log_lines@.len() as int, position as int, vertical_size as int),
        ),
        r is Err ==> r == Err::<Vec<String>, Error>(Error::GetLines),
{
    let total = log_lines.len();
    if position >= total {
        return Err(Error::GetLines);
    }
    let end: usize = match position.checked_add(vertical_size as usize) {
        Some(e) => {
            if e < total {
                e
            } else {
                total - 1
            }
        },
        None => total - 1,
    };
    let mut window: Vec<String> = Vec::new();
    let mut i = position;
    while i < end
        invariant
            position <= i <= end,
            end == spec_window_end(log_lines@.len() as int, position as int, vertical_size as int),
            position < log_lines@.len(),
            end < log_lines@.len(),
            window@ =~= log_lines@.subrange(position as int, i as int),
        decreases end - i,
    {
        window.push(log_lines[i].clone());
        i += 1;
    }
    Ok(window)
}

} // verus!
