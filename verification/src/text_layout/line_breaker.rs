//! Line break opportunities of a text, by the Unicode line breaking
//! algorithm (UAX #14).

use unicode_linebreak::{linebreaks, BreakOpportunity};
use vstd::prelude::*;
use vstd::utf8::encode_utf8;
use crate::text_layout::types::LineBreak;

verus! {

/// The break opportunities that the Unicode line breaking algorithm finds
/// in a text: the byte offset of the character after each break, and
/// whether the break is mandatory.
pub uninterp spec fn uax14_breaks(text: Seq<char>) -> Seq<(usize, bool)>;

/// `unicode_linebreak::linebreaks`, collected: each opportunity as its
/// byte offset and whether it is mandatory. The offsets are taken from the
/// character boundaries of the text and from its length, in order, so they
/// ascend strictly and none lies beyond the end of the text.
#[verifier::external_body]
pub(crate) fn linebreak_list(text: &str) -> (breaks: Vec<(usize, bool)>)
    ensures
        breaks@ == uax14_breaks(text@),
        forall|i: int, j: int|
            0 <= i < j < breaks@.len() ==> (#[trigger] breaks@[i]).0 < (#[trigger] breaks@[j]).0,
        forall|i: int|
            0 <= i < breaks@.len() ==> (#[trigger] breaks@[i]).0 <= encode_utf8(text@).len(),
{
    linebreaks(text).map(|(offset, kind)| (offset, kind == BreakOpportunity::Mandatory)).collect()
}

/// The break opportunities that the Unicode line breaking algorithm finds,
/// as line breaks.
pub open spec fn spec_found_breaks(text: Seq<char>) -> Seq<LineBreak> {
    Seq::new(
        uax14_breaks(text).len(),
        |i: int| LineBreak { offset: uax14_breaks(text)[i].0, required: uax14_breaks(text)[i].1 },
    )
}

/// The breaks of a text: those that the Unicode line breaking algorithm
/// finds, which end with a break at the end of the text; where they do not,
/// a mandatory break at the end of the text follows them.
pub open spec fn spec_find_breaks(text: Seq<char>) -> Seq<LineBreak> {
    let found = spec_found_breaks(text);
    if found.len() > 0 && found.last().offset == encode_utf8(text).len() {
        found
    } else {
        found.push(LineBreak { offset: encode_utf8(text).len() as usize, required: true })
    }
}

/// The breaks among the first `k` of `breaks` whose offsets lie between
/// `start` and `end`, both included, in their order.
pub open spec fn spec_breaks_in_range(breaks: Seq<LineBreak>, k: int, start: usize, end: usize)
    -> Seq<LineBreak>
    decreases k,
{
    if k <= 0 {
        Seq::<LineBreak>::empty()
    } else if start <= breaks[k - 1].offset <= end {
        spec_breaks_in_range(breaks, k - 1, start, end).push(breaks[k - 1])
    } else {
        spec_breaks_in_range(breaks, k - 1, start, end)
    }
}

/// Whether the first break at `offset`, searching from break `k` on, is
/// mandatory; nothing when there is no break at `offset`.
pub open spec fn spec_break_at(breaks: Seq<LineBreak>, k: int, offset: usize) -> Option<bool>
    decreases breaks.len() - k,
{
    if k < 0 || k >= breaks.len() {
        None
    } else if breaks[k].offset == offset {
        Some(breaks[k].required)
    } else {
        spec_break_at(breaks, k + 1, offset)
    }
}

/// Every break that `spec_breaks_in_range` keeps lies in the range, and it
/// keeps every break that does.
pub proof fn lemma_breaks_in_range(breaks: Seq<LineBreak>, k: int, start: usize, end: usize)
    requires
        0 <= k <= breaks.len(),
    ensures
        forall|i: int|
            0 <= i < spec_breaks_in_range(breaks, k, start, end).len() ==> start <= (
            #[trigger] spec_breaks_in_range(breaks, k, start, end)[i]).offset <= end,
        forall|j: int|
            0 <= j < k && start <= (#[trigger] breaks[j]).offset <= end ==> spec_breaks_in_range(
                breaks,
                k,
                start,
                end,
            ).contains(breaks[j]),
        spec_breaks_in_range(breaks, k, start, end).len() <= k,
    decreases k,
{
    if k > 0 {
        lemma_breaks_in_range(breaks, k - 1, start, end);
        let earlier = spec_breaks_in_range(breaks, k - 1, start, end);
        let now = spec_breaks_in_range(breaks, k, start, end);
        assert forall|j: int| 0 <= j < k && start <= (#[trigger] breaks[j]).offset
            <= end implies now.contains(breaks[j]) by {
            if j < k - 1 {
                let i = choose|i: int| 0 <= i < earlier.len() && earlier[i] == breaks[j];
                assert(now[i] == breaks[j]);
            } else {
                assert(now[now.len() - 1] == breaks[j]);
            }
        }
    }
}

/// The breaks of `breaks` whose offsets lie between `start` and `end`,
/// both included.
pub fn breaks_in_range(breaks: &Vec<LineBreak>, start: usize, end: usize) -> (r: Vec<LineBreak>)
    ensures
        r@ == spec_breaks_in_range(breaks@, breaks@.len() as int, start, end),
{
    let mut r: Vec<LineBreak> = Vec::new();
    let mut i: usize = 0;
    while i < breaks.len()
        invariant
            i <= breaks@.len(),
            r@ == spec_breaks_in_range(breaks@, i as int, start, end),
        decreases breaks@.len() - i,
    {
        let b: LineBreak = breaks[i];
        if b.offset >= start && b.offset <= end {
            r.push(b);
        }
        i = i + 1;
    }
    r
}

/// Whether the first break of `breaks` at `offset` is mandatory; nothing
/// when there is no break at `offset`.
pub fn break_at(breaks: &Vec<LineBreak>, offset: usize) -> (r: Option<bool>)
    ensures
        r == spec_break_at(breaks@, 0, offset),
{
    let mut i: usize = 0;
    while i < breaks.len()
        invariant
            i <= breaks@.len(),
            spec_break_at(breaks@, 0, offset) == spec_break_at(breaks@, i as int, offset),
        decreases breaks@.len() - i,
    {
        if breaks[i].offset == offset {
            return Some(breaks[i].required);
        }
        i = i + 1;
    }
    None
}

/// Finds line break opportunities.
#[derive(Debug, Clone, Copy)]
pub struct LineBreaker;

impl LineBreaker {
    /// A line breaker.
    pub fn new() -> (breaker: LineBreaker) {
        LineBreaker
    }

    /// Every break opportunity of `text`, mandatory and optional, in
    /// strictly ascending order of the offsets; no offset lies beyond the end
    /// of the text, and the last break stands at the end of the text.
    pub fn find_breaks(&self, text: &str) -> (breaks: Vec<LineBreak>)
        ensures
            breaks@ == spec_find_breaks(text@),
            forall|i: int, j: int|
                0 <= i < j < breaks@.len() ==> (#[trigger] breaks@[i]).offset < (
                #[trigger] breaks@[j]).offset,
            breaks@.len() > 0,
            breaks@.last().offset == encode_utf8(text@).len(),
    {
        let list: Vec<(usize, bool)> = linebreak_list(text);
        let mut breaks: Vec<LineBreak> = Vec::new();
        let mut i: usize = 0;
        while i < list.len()
            invariant
                i <= list@.len(),
                breaks@.len() == i,
                forall|k: int|
                    0 <= k < i ==> #[trigger] breaks@[k] == (LineBreak {
                        offset: list@[k].0,
                        required: list@[k].1,
                    }),
            decreases list@.len() - i,
        {
            let pair: (usize, bool) = list[i];
            breaks.push(LineBreak { offset: pair.0, required: pair.1 });
            i = i + 1;
        }
        assert(breaks@ =~= spec_found_breaks(text@));
        let end: usize = text.as_bytes().len();
        let n: usize = breaks.len();
        if n == 0 || breaks[n - 1].offset != end {
            breaks.push(LineBreak { offset: end, required: true });
        }
        proof {
            assert(breaks@ =~= spec_find_breaks(text@));
            assert forall|i: int, j: int| 0 <= i < j < breaks@.len() implies (
            #[trigger] breaks@[i]).offset < (#[trigger] breaks@[j]).offset by {
                if j < n {
                    assert(list@[i].0 < list@[j].0);
                } else {
                    assert(list@[i].0 <= encode_utf8(text@).len());
                    if i < n - 1 {
                        assert(list@[i].0 < list@[n - 1].0);
                    }
                }
            }
        }
        breaks
    }

    /// The break opportunities of `text` whose offsets lie between `start`
    /// and `end`, both included.
    pub fn find_breaks_in_range(&self, text: &str, start: usize, end: usize) -> (r: Vec<LineBreak>)
        ensures
            r@ == spec_breaks_in_range(
                spec_find_breaks(text@),
                spec_find_breaks(text@).len() as int,
                start,
                end,
            ),
    {
        let breaks: Vec<LineBreak> = self.find_breaks(text);
        breaks_in_range(&breaks, start, end)
    }

    /// Whether `text` has a break at `offset`, and if so, whether it is
    /// mandatory.
    pub fn is_break_at(&self, text: &str, offset: usize) -> (r: Option<bool>)
        ensures
            r == spec_break_at(spec_find_breaks(text@), 0, offset),
    {
        let breaks: Vec<LineBreak> = self.find_breaks(text);
        break_at(&breaks, offset)
    }
}

impl Default for LineBreaker {
    /// A line breaker.
    fn default() -> (breaker: LineBreaker) {
        LineBreaker::new()
    }
}

} // verus!
