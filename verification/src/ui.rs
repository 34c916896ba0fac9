use crate::search::Matcher;
use crate::search::match_byte_ranges;
use crate::search::match_ranges;
use vstd::prelude::*;

verus! {

/// One run of a line's bytes, drawn highlighted or plain.
#[derive(Debug, Clone, Copy, PartialEq, Eq, Structural)]
pub struct HilightSpan {
    pub start: usize,
    pub end: usize,
    pub hilighted: bool,
}

/// Match ranges fit for span building: ordered, non-overlapping, within
/// the line's `line_len` bytes.
pub open spec fn ranges_well_formed(ranges: Seq<(usize, usize)>, line_len: int) -> bool {
    (forall|k: int|
        0 <= k < ranges.len() ==> (#[trigger] ranges[k]).0 <= ranges[k].1 && ranges[k].1
            <= line_len) && (forall|k: int|
        0 <= k < ranges.len() - 1 ==> (#[trigger] ranges[k]).1 <= ranges[k + 1].0)
}

/// The start of the gap that follows match number `k`: the end of that
/// match, or the start of the line for the gap before every match.
pub open spec fn spec_gap_start(ranges: Seq<(usize, usize)>, k: int) -> int {
    if k == 0 {
        0
    } else {
        ranges[k - 1].1 as int
    }
}

/// The spans alternate: the gap before each match, the match itself, and
/// the gap from the last match to the end of the line.
pub open spec fn spans_for_ranges(
    spans: Seq<HilightSpan>,
    ranges: Seq<(usize, usize)>,
    line_len: int,
) -> bool {
    spans.len() == 2 * ranges.len() + 1 && (forall|k: int|
        0 <= k < ranges.len() ==> #[trigger] spans[2 * k + 1] == (HilightSpan {
            start: ranges[k].0,
            end: ranges[k].1,
            hilighted: true,
        })) && (forall|k: int|
        0 <= k < ranges.len() ==> #[trigger] spans[2 * k] == (HilightSpan {
            start: spec_gap_start(ranges, k) as usize,
            end: ranges[k].0,
            hilighted: false,
        })) && spans[spans.len() - 1] == (HilightSpan {
        start: spec_gap_start(ranges, ranges.len() as int) as usize,
        end: line_len as usize,
        hilighted: false,
    })
}

/// Splits the first `line_len` bytes of a line into display spans: each
/// match range highlighted, the gaps around the matches plain, in byte
/// order. Gaps of no width are kept, so the spans always alternate.
pub fn hilight_spans(ranges: &Vec<(usize, usize)>, line_len: usize) -> (r: Vec<HilightSpan>)
    requires
        ranges_well_formed(ranges@, line_len as int),
    ensures
        spans_for_ranges(r@, ranges@, line_len as int),
{
    let mut spans: Vec<HilightSpan> = Vec::new();
    let mut gap_start: usize = 0;
    let mut k: usize = 0;
    while k < ranges.len()
        invariant
            ranges_well_formed(ranges@, line_len as int),
            k <= ranges@.len(),
            gap_start as int == spec_gap_start(ranges@, k as int),
            spans@.len() == 2 * k,
            forall|j: int|
                0 <= j < k ==> #[trigger] spans@[2 * j + 1] == (HilightSpan {
                    start: ranges@[j].0,
                    end: ranges@[j].1,
                    hilighted: true,
                }),
            forall|j: int|
                0 <= j < k ==> #[trigger] spans@[2 * j] == (HilightSpan {
                    start: spec_gap_start(ranges@, j) as usize,
                    end: ranges@[j].0,
                    hilighted: false,
                }),
        decreases ranges@.len() - k,
    {
        let (start, end) = ranges[k];
        spans.push(HilightSpan { start: gap_start, end: start, hilighted: false });
        spans.push(HilightSpan { start, end, hilighted: true });
        gap_start = end;
        k += 1;
    }
    spans.push(HilightSpan { start: gap_start, end: line_len, hilighted: false });
    spans
}

/// The display spans for one line under the matcher's term: exactly the
/// term's match ranges highlighted, everything between and around them
/// plain, covering the line's bytes from start to end.
pub fn hilighted_line_spans(matcher: &Matcher, line: &String) -> (r: Vec<HilightSpan>)
    ensures
        spans_for_ranges(
            r@,
            match_byte_ranges(matcher.term_view(), line@),
            vstd::utf8::encode_utf8(line@).len() as int,
        ),
        r@.len() % 2 == 1,
        r@[0].start == 0,
        r@[r@.len() - 1].end == vstd::utf8::encode_utf8(line@).len(),
        forall|k: int| 0 <= k < r@.len() ==> (#[trigger] r@[k]).start <= r@[k].end,
        forall|k: int| 0 <= k < r@.len() - 1 ==> (#[trigger] r@[k]).end == r@[k + 1].start,
        forall|k: int| 0 <= k < r@.len() ==> ((#[trigger] r@[k]).hilighted <==> k % 2 == 1),
{
    let ranges = match_ranges(matcher, line);
    let line_len = line.as_str().as_bytes().len();
    assert(line_len == vstd::utf8::encode_utf8(line@).len());
    let spans = hilight_spans(&ranges, line_len);
    proof {
        lemma_spans_cover(spans@, ranges@, line_len as int);
    }
    spans
}

/// Alternating spans built from well-formed ranges are contiguous: each
/// span ends where the next begins, the first starts at the line's start,
/// the last ends at the line's end.
pub proof fn lemma_spans_cover(spans: Seq<HilightSpan>, ranges: Seq<(usize, usize)>, line_len: int)
    requires
        ranges_well_formed(ranges, line_len),
        spans_for_ranges(spans, ranges, line_len),
        0 <= line_len <= usize::MAX,
    ensures
        spans.len() % 2 == 1,
        spans[0].start == 0,
        spans[spans.len() - 1].end == line_len,
        forall|k: int| 0 <= k < spans.len() ==> (#[trigger] spans[k]).start <= spans[k].end,
        forall|k: int| 0 <= k < spans.len() - 1 ==> (#[trigger] spans[k]).end == spans[k + 1].start,
        forall|k: int| 0 <= k < spans.len() ==> ((#[trigger] spans[k]).hilighted <==> k % 2 == 1),
{
    assert forall|k: int| 0 <= k < spans.len() implies (#[trigger] spans[k]).start
        <= spans[k].end by {
        if k % 2 == 1 {
            assert(spans[k] == spans[2 * ((k - 1) / 2) + 1]);
        } else if k == spans.len() - 1 {
            if ranges.len() > 0 {
                assert(ranges[ranges.len() - 1].1 <= line_len);
            }
        } else {
            assert(spans[k] == spans[2 * (k / 2)]);
            if k / 2 > 0 {
                assert(ranges[k / 2 - 1].1 <= ranges[k / 2].0);
            }
        }
    }
    assert forall|k: int| 0 <= k < spans.len() - 1 implies (#[trigger] spans[k]).end == spans[k
        + 1].start by {
        if k % 2 == 0 {
            assert(spans[k] == spans[2 * (k / 2)]);
            assert(spans[k + 1] == spans[2 * (k / 2) + 1]);
        } else {
            assert(spans[k] == spans[2 * ((k - 1) / 2) + 1]);
            if k + 1 < spans.len() - 1 {
                assert(spans[k + 1] == spans[2 * ((k + 1) / 2)]);
            }
        }
    }
    assert forall|k: int| 0 <= k < spans.len() implies ((#[trigger] spans[k]).hilighted <==> k % 2
        == 1) by {
        if k % 2 == 1 {
            assert(spans[k] == spans[2 * ((k - 1) / 2) + 1]);
        } else if k < spans.len() - 1 {
            assert(spans[k] == spans[2 * (k / 2)]);
        }
    }
    assert(spans[0].start == 0) by {
        if ranges.len() > 0 {
            assert(spans[0] == spans[2 * 0int]);
        }
    }
}

} // verus!
