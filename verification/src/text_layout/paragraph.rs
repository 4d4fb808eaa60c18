//! Paragraph layout: a shaped run is fitted into lines, the lines are
//! justified and stacked.

use vstd::prelude::*;
use vstd::string::StringExecFns;
use vstd::utf8::encode_utf8;
use crate::fixed::floor_div;
use crate::font_types::{GlyphId, PositionedGlyph, ShapedText, ShapedTextModel};
use crate::text_layout::justification::{
    lemma_justified_keeps,
    lemma_justified_right_edge,
    spec_justify_among_fits,
    spec_justified_among,
    Justifier,
};
use crate::text_layout::line_breaker::{spec_find_breaks, LineBreaker};
use crate::text_layout::types::{
    spec_fits,
    spec_line_models,
    LayoutError,
    LayoutLine,
    LayoutLineModel,
    LayoutOptions,
    LayoutResult,
    LineBreak,
};

verus! {

/// The sum of the horizontal advances of the glyphs from `a` up to `b`.
pub open spec fn spec_advance_sum(glyphs: Seq<PositionedGlyph>, a: int, b: int) -> int
    decreases b - a,
{
    if b <= a {
        0
    } else {
        spec_advance_sum(glyphs, a, b - 1) + glyphs[b - 1].advance.x
    }
}

/// The greatest offset among the first `n` breaks that lies after `lo`
/// and not after `hi`; `lo` itself when there is no such break.
pub open spec fn spec_last_break(breaks: Seq<LineBreak>, n: int, lo: int, hi: int) -> int
    decreases n,
{
    if n <= 0 {
        lo
    } else {
        let earlier = spec_last_break(breaks, n - 1, lo, hi);
        let offset = breaks[n - 1].offset as int;
        if lo < offset <= hi && offset > earlier {
            offset
        } else {
            earlier
        }
    }
}

/// Whether one of the first `n` breaks lies at `index` and counts: a
/// mandatory break always does, an optional break only when optional
/// breaks are not left out.
pub open spec fn spec_should_break(
    breaks: Seq<LineBreak>,
    n: int,
    index: usize,
    require_optional: bool,
) -> bool
    decreases n,
{
    n > 0 && (spec_should_break(breaks, n - 1, index, require_optional) || (breaks[n - 1].offset
        == index && (breaks[n - 1].required || !require_optional)))
}

/// The width beyond which a line is broken even where no break is
/// allowed: 1.2 times the maximum width.
pub open spec fn spec_emergency_width(max_width: i64) -> int {
    max_width + max_width / 5
}

/// The line made of the glyphs from `a` up to `b`, whose range in the text
/// ends at `end`: as wide as the sum of its advances, as high as the run.
pub open spec fn spec_line(shaped: ShapedTextModel, a: int, b: int, end: int) -> LayoutLineModel {
    LayoutLineModel {
        glyphs: shaped.glyphs.subrange(a, b),
        width: spec_advance_sum(shaped.glyphs, a, b) as i64,
        height: shaped.height,
        baseline: shaped.baseline,
        x_offset: 0,
        y_offset: 0,
        text_range: (a as usize, end as usize),
    }
}

/// The lines that were emitted, and the index of the glyph at which the
/// line that is being filled starts.
pub struct FitState {
    /// The lines emitted so far.
    pub lines: Seq<LayoutLineModel>,
    /// Start of the line that is being filled.
    pub start: int,
}

/// The state of the greedy fit after the first `k` glyphs.
///
/// Before glyph `k - 1` is added: when the line has glyphs and the glyph
/// would take it beyond the maximum width, the line ends at the last break
/// opportunity inside it, and the glyphs after that opportunity start the
/// next line; without such an opportunity the line is ended where it is,
/// but only when the glyph would take it beyond 1.2 times the maximum
/// width. After the glyph is added, a mandatory break at the new index ends
/// the line.
pub open spec fn spec_fit(
    shaped: ShapedTextModel,
    breaks: Seq<LineBreak>,
    max_width: i64,
    k: int,
) -> FitState
    decreases k,
{
    if k <= 0 {
        FitState { lines: Seq::<LayoutLineModel>::empty(), start: 0 }
    } else {
        let prev = spec_fit(shaped, breaks, max_width, k - 1);
        let g = k - 1;
        let width = spec_advance_sum(shaped.glyphs, prev.start, g);
        let over = g > prev.start && width + shaped.glyphs[g].advance.x > max_width;
        let b = spec_last_break(breaks, breaks.len() as int, prev.start, g);
        let cut = if over && b > prev.start {
            FitState { lines: prev.lines.push(spec_line(shaped, prev.start, b, b)), start: b }
        } else if over && width + shaped.glyphs[g].advance.x > spec_emergency_width(max_width) {
            FitState { lines: prev.lines.push(spec_line(shaped, prev.start, g, g)), start: g }
        } else {
            prev
        };
        if spec_should_break(breaks, breaks.len() as int, k as usize, true) {
            FitState { lines: cut.lines.push(spec_line(shaped, cut.start, k, k)), start: k }
        } else {
            cut
        }
    }
}

/// The lines that a run is fitted into. A run without glyphs gives one
/// empty line. Otherwise the glyphs that are left when all were added form
/// the last line, whose range ends at the end of the text.
pub open spec fn spec_fitted_lines(
    shaped: ShapedTextModel,
    breaks: Seq<LineBreak>,
    max_width: i64,
    text_len: usize,
) -> Seq<LayoutLineModel> {
    if shaped.glyphs.len() == 0 {
        seq![spec_line(shaped, 0, 0, 0)]
    } else {
        let fit = spec_fit(shaped, breaks, max_width, shaped.glyphs.len() as int);
        if fit.start < shaped.glyphs.len() {
            fit.lines.push(spec_line(shaped, fit.start, shaped.glyphs.len() as int, text_len as int))
        } else {
            fit.lines
        }
    }
}

/// The number of glyphs of all lines together.
pub open spec fn spec_glyph_total(lines: Seq<LayoutLineModel>) -> int
    decreases lines.len(),
{
    if lines.len() == 0 {
        0
    } else {
        spec_glyph_total(lines.drop_last()) + lines.last().glyphs.len()
    }
}

/// The distance between the tops of two lines: the height of the upper
/// line times the line spacing, rounded toward negative infinity.
pub open spec fn spec_line_step(height: i64, line_spacing: i32) -> int {
    (height * line_spacing) / 0x1_0000
}

/// The vertical offset of line `i`: 0 for the first line, and for every
/// other line the offset of the line above plus the step of that line.
pub open spec fn spec_y_offset(lines: Seq<LayoutLineModel>, i: int, line_spacing: i32) -> int
    decreases i,
{
    if i <= 0 {
        0
    } else {
        spec_y_offset(lines, i - 1, line_spacing) + spec_line_step(
            lines[i - 1].height,
            line_spacing,
        )
    }
}

/// The greatest of 0 and the right edges of the first `k` lines.
pub open spec fn spec_max_right(lines: Seq<LayoutLineModel>, k: int) -> int
    decreases k,
{
    if k <= 0 {
        0
    } else {
        let earlier = spec_max_right(lines, k - 1);
        let right = lines[k - 1].width + lines[k - 1].x_offset;
        if right > earlier {
            right
        } else {
            earlier
        }
    }
}

/// A line with its vertical offset set.
pub open spec fn spec_placed_line(line: LayoutLineModel, y_offset: int) -> LayoutLineModel {
    LayoutLineModel {
        glyphs: line.glyphs,
        width: line.width,
        height: line.height,
        baseline: line.baseline,
        x_offset: line.x_offset,
        y_offset: y_offset as i64,
        text_range: line.text_range,
    }
}

/// Line `i` of a paragraph: fitted, justified among the lines of the
/// paragraph, and placed at its vertical offset.
pub open spec fn spec_paragraph_line(
    fitted: Seq<LayoutLineModel>,
    i: int,
    options: LayoutOptions,
) -> LayoutLineModel {
    spec_placed_line(
        spec_justified_among(
            fitted[i],
            i,
            fitted.len() as int,
            options.max_width,
            options.justification,
        ),
        spec_y_offset(fitted, i, options.line_spacing),
    )
}

/// The lines of a paragraph.
pub open spec fn spec_paragraph_lines(
    shaped: ShapedTextModel,
    breaks: Seq<LineBreak>,
    options: LayoutOptions,
    text_len: usize,
) -> Seq<LayoutLineModel> {
    let fitted = spec_fitted_lines(shaped, breaks, options.max_width, text_len);
    Seq::new(fitted.len(), |i: int| spec_paragraph_line(fitted, i, options))
}

/// Whether the options can be used: the maximum width and the line spacing
/// are positive.
pub open spec fn spec_options_valid(options: LayoutOptions) -> bool {
    &&& 0 < options.max_width
    &&& 0 < options.line_spacing
}

/// Whether the width of a line of a run fits: the sum of the advances of
/// its glyphs.
pub open spec fn spec_width_fits(shaped: ShapedTextModel, line: LayoutLineModel) -> bool {
    spec_fits(
        spec_advance_sum(
            shaped.glyphs,
            line.text_range.0 as int,
            line.text_range.0 + line.glyphs.len(),
        ),
    )
}

/// Whether the width of every line fits.
pub open spec fn spec_widths_fit(shaped: ShapedTextModel, lines: Seq<LayoutLineModel>) -> bool {
    forall|i: int| 0 <= i < lines.len() ==> spec_width_fits(shaped, #[trigger] lines[i])
}

/// Whether lines can be stacked: the vertical offset of every line fits.
pub open spec fn spec_stack_fits(lines: Seq<LayoutLineModel>, line_spacing: i32) -> bool {
    forall|i: int| 0 <= i < lines.len() ==> spec_fits(#[trigger] spec_y_offset(lines, i, line_spacing))
}

/// Whether a run can be laid out as a paragraph: every value that the
/// layout computes fits a 64-bit fixed-point value. These are the widths of
/// the lines, what justification computes for each line, the vertical
/// offsets of the lines, and the height and the width of the whole.
pub open spec fn spec_layout_fits(
    shaped: ShapedTextModel,
    breaks: Seq<LineBreak>,
    options: LayoutOptions,
    text_len: usize,
) -> bool {
    let fitted = spec_fitted_lines(shaped, breaks, options.max_width, text_len);
    let lines = spec_paragraph_lines(shaped, breaks, options, text_len);
    &&& spec_widths_fit(shaped, fitted)
    &&& forall|i: int|
        0 <= i < fitted.len() ==> spec_justify_among_fits(
            #[trigger] fitted[i],
            i,
            fitted.len() as int,
            options.max_width,
            options.justification,
        )
    &&& spec_stack_fits(fitted, options.line_spacing)
    &&& spec_fits(lines.last().y_offset + lines.last().height)
    &&& spec_fits(spec_max_right(lines, lines.len() as int))
}

/// The sum of advances over a range is at most the length of the range
/// times the largest advance.
pub proof fn lemma_advance_bound(glyphs: Seq<PositionedGlyph>, a: int, b: int)
    requires
        0 <= a <= b <= glyphs.len(),
    ensures
        -(b - a) * 0x8000_0000_0000_0000 <= spec_advance_sum(glyphs, a, b) <= (b - a)
            * 0x8000_0000_0000_0000,
    decreases b - a,
{
    if b > a {
        lemma_advance_bound(glyphs, a, b - 1);
        assert((b - a) * 0x8000_0000_0000_0000 == (b - 1 - a) * 0x8000_0000_0000_0000
            + 0x8000_0000_0000_0000) by (nonlinear_arith);
    }
}

/// The sum of advances over any range of a run fits 128 bits, with room
/// for one more advance.
pub proof fn lemma_advance_room(glyphs: Seq<PositionedGlyph>, a: int, b: int)
    requires
        0 <= a <= b <= glyphs.len(),
        glyphs.len() <= usize::MAX,
    ensures
        -0x7FFF_FFFF_FFFF_FFFF_8000_0000_0000_0000 <= spec_advance_sum(glyphs, a, b)
            <= 0x7FFF_FFFF_FFFF_FFFF_8000_0000_0000_0000,
{
    lemma_advance_bound(glyphs, a, b);
    assert((b - a) * 0x8000_0000_0000_0000 <= 0xFFFF_FFFF_FFFF_FFFF * 0x8000_0000_0000_0000)
        by (nonlinear_arith)
        requires
            0 <= b - a <= 0xFFFF_FFFF_FFFF_FFFF,
    ;
}

/// The lines that were emitted after `k` glyphs stay as they are when more
/// glyphs are added.
pub proof fn lemma_fit_prefix(
    shaped: ShapedTextModel,
    breaks: Seq<LineBreak>,
    max_width: i64,
    k: int,
    j: int,
)
    requires
        0 <= k <= j,
    ensures
        spec_fit(shaped, breaks, max_width, k).lines.len() <= spec_fit(
            shaped,
            breaks,
            max_width,
            j,
        ).lines.len(),
        forall|i: int|
            0 <= i < spec_fit(shaped, breaks, max_width, k).lines.len() ==> spec_fit(
                shaped,
                breaks,
                max_width,
                j,
            ).lines[i] == #[trigger] spec_fit(shaped, breaks, max_width, k).lines[i],
    decreases j - k,
{
    if j > k {
        lemma_fit_prefix(shaped, breaks, max_width, k, j - 1);
    }
}

/// A line that was emitted after `k` glyphs is a line of the fitted run,
/// at the same place.
pub proof fn lemma_fitted_has(
    shaped: ShapedTextModel,
    breaks: Seq<LineBreak>,
    max_width: i64,
    text_len: usize,
    k: int,
    i: int,
)
    requires
        0 <= k <= shaped.glyphs.len(),
        shaped.glyphs.len() > 0,
        0 <= i < spec_fit(shaped, breaks, max_width, k).lines.len(),
    ensures
        i < spec_fitted_lines(shaped, breaks, max_width, text_len).len(),
        spec_fitted_lines(shaped, breaks, max_width, text_len)[i] == spec_fit(
            shaped,
            breaks,
            max_width,
            k,
        ).lines[i],
{
    lemma_fit_prefix(shaped, breaks, max_width, k, shaped.glyphs.len() as int);
}

/// After `k` glyphs the emitted lines hold exactly the glyphs before the
/// start of the line that is being filled.
pub proof fn lemma_fit_total(
    shaped: ShapedTextModel,
    breaks: Seq<LineBreak>,
    max_width: i64,
    k: int,
)
    requires
        0 <= k <= shaped.glyphs.len(),
    ensures
        0 <= spec_fit(shaped, breaks, max_width, k).start <= k,
        spec_glyph_total(spec_fit(shaped, breaks, max_width, k).lines) == spec_fit(
            shaped,
            breaks,
            max_width,
            k,
        ).start,
    decreases k,
{
    if k > 0 {
        lemma_fit_total(shaped, breaks, max_width, k - 1);
        let prev = spec_fit(shaped, breaks, max_width, k - 1);
        let g = k - 1;
        let b = spec_last_break(breaks, breaks.len() as int, prev.start, g);
        lemma_last_break(breaks, breaks.len() as int, prev.start, g);
        let width = spec_advance_sum(shaped.glyphs, prev.start, g);
        let over = g > prev.start && width + shaped.glyphs[g].advance.x > max_width;
        let cut = if over && b > prev.start {
            FitState { lines: prev.lines.push(spec_line(shaped, prev.start, b, b)), start: b }
        } else if over && width + shaped.glyphs[g].advance.x > spec_emergency_width(max_width) {
            FitState { lines: prev.lines.push(spec_line(shaped, prev.start, g, g)), start: g }
        } else {
            prev
        };
        lemma_glyph_total_push(prev.lines, spec_line(shaped, prev.start, b, b));
        lemma_glyph_total_push(prev.lines, spec_line(shaped, prev.start, g, g));
        lemma_glyph_total_push(cut.lines, spec_line(shaped, cut.start, k, k));
    }
}

/// The lines that a run is fitted into hold every glyph of the run exactly
/// once; there is at least one line, and every line is as high as the run.
pub proof fn lemma_fitted_total(
    shaped: ShapedTextModel,
    breaks: Seq<LineBreak>,
    max_width: i64,
    text_len: usize,
)
    ensures
        spec_glyph_total(spec_fitted_lines(shaped, breaks, max_width, text_len))
            == shaped.glyphs.len(),
        spec_fitted_lines(shaped, breaks, max_width, text_len).len() >= 1,
        forall|i: int|
            0 <= i < spec_fitted_lines(shaped, breaks, max_width, text_len).len() ==> (
            #[trigger] spec_fitted_lines(shaped, breaks, max_width, text_len)[i]).height
                == shaped.height,
{
    let n = shaped.glyphs.len() as int;
    let lines = spec_fitted_lines(shaped, breaks, max_width, text_len);
    if n == 0 {
        lemma_glyph_total_push(Seq::<LayoutLineModel>::empty(), spec_line(shaped, 0, 0, 0));
        assert(lines =~= Seq::<LayoutLineModel>::empty().push(spec_line(shaped, 0, 0, 0)));
    } else {
        lemma_fit_total(shaped, breaks, max_width, n);
        let fit = spec_fit(shaped, breaks, max_width, n);
        lemma_glyph_total_push(fit.lines, spec_line(shaped, fit.start, n, text_len as int));
        if fit.start >= n {
            assert(fit.start > 0);
            lemma_fit_some(shaped, breaks, max_width, n);
        }
    }
    lemma_fit_heights(shaped, breaks, max_width, n);
}

/// Once the line that is being filled starts after the first glyph, a
/// line was emitted.
pub proof fn lemma_fit_some(
    shaped: ShapedTextModel,
    breaks: Seq<LineBreak>,
    max_width: i64,
    k: int,
)
    requires
        0 <= k <= shaped.glyphs.len(),
    ensures
        spec_fit(shaped, breaks, max_width, k).start > 0 ==> spec_fit(
            shaped,
            breaks,
            max_width,
            k,
        ).lines.len() > 0,
    decreases k,
{
    if k > 0 {
        lemma_fit_some(shaped, breaks, max_width, k - 1);
    }
}

/// The last break of a range lies in the range, or is its lower end.
pub proof fn lemma_last_break(breaks: Seq<LineBreak>, n: int, lo: int, hi: int)
    requires
        0 <= n <= breaks.len(),
        lo <= hi,
    ensures
        lo <= spec_last_break(breaks, n, lo, hi) <= hi,
    decreases n,
{
    if n > 0 {
        lemma_last_break(breaks, n - 1, lo, hi);
    }
}

/// The glyph total of lines grows by the glyphs of a line that is added.
pub proof fn lemma_glyph_total_push(lines: Seq<LayoutLineModel>, line: LayoutLineModel)
    ensures
        spec_glyph_total(lines.push(line)) == spec_glyph_total(lines) + line.glyphs.len(),
{
    assert(lines.push(line).drop_last() =~= lines);
}

/// Every emitted line is as high as the run.
pub proof fn lemma_fit_heights(
    shaped: ShapedTextModel,
    breaks: Seq<LineBreak>,
    max_width: i64,
    k: int,
)
    requires
        0 <= k,
    ensures
        forall|i: int|
            0 <= i < spec_fit(shaped, breaks, max_width, k).lines.len() ==> (#[trigger] spec_fit(
                shaped,
                breaks,
                max_width,
                k,
            ).lines[i]).height == shaped.height,
    decreases k,
{
    if k > 0 {
        lemma_fit_heights(shaped, breaks, max_width, k - 1);
        let prev = spec_fit(shaped, breaks, max_width, k - 1);
        let g = k - 1;
        let b = spec_last_break(breaks, breaks.len() as int, prev.start, g);
        let width = spec_advance_sum(shaped.glyphs, prev.start, g);
        let over = g > prev.start && width + shaped.glyphs[g].advance.x > max_width;
        let cut = if over && b > prev.start {
            FitState { lines: prev.lines.push(spec_line(shaped, prev.start, b, b)), start: b }
        } else if over && width + shaped.glyphs[g].advance.x > spec_emergency_width(max_width) {
            FitState { lines: prev.lines.push(spec_line(shaped, prev.start, g, g)), start: g }
        } else {
            prev
        };
        assert forall|i: int| 0 <= i < cut.lines.len() implies (#[trigger] cut.lines[i]).height
            == shaped.height by {
            if i < prev.lines.len() {
                assert(cut.lines[i] == prev.lines[i]);
            }
        }
        let now = spec_fit(shaped, breaks, max_width, k);
        assert forall|i: int| 0 <= i < now.lines.len() implies (#[trigger] now.lines[i]).height
            == shaped.height by {
            if i < cut.lines.len() {
                assert(now.lines[i] == cut.lines[i]);
            }
        }
    }
}

/// The tops of two lines that follow each other are one step of the upper
/// line apart.
pub proof fn lemma_vertical_stacking(lines: Seq<LayoutLineModel>, i: int, line_spacing: i32)
    requires
        0 <= i,
    ensures
        spec_y_offset(lines, i + 1, line_spacing) - spec_y_offset(lines, i, line_spacing)
            == spec_line_step(lines[i].height, line_spacing),
{
}

/// Lays paragraphs out.
#[derive(Debug, Clone, Copy)]
pub struct ParagraphLayout {
    line_breaker: LineBreaker,
    justifier: Justifier,
}

impl ParagraphLayout {
    /// A paragraph layout engine.
    pub fn new() -> (layout: ParagraphLayout) {
        ParagraphLayout { line_breaker: LineBreaker::new(), justifier: Justifier::new() }
    }

    /// Lays a shaped run out as a paragraph: finds the break opportunities
    /// of the text and lays the run out with them; see
    /// [`ParagraphLayout::layout_with_breaks`].
    pub fn layout_paragraph(&self, text: &str, shaped_text: &ShapedText, options: &LayoutOptions)
        -> (r: Result<LayoutResult, LayoutError>)
        ensures
            spec_layout_outcome(
                encode_utf8(text@).len() as usize,
                *shaped_text,
                spec_find_breaks(text@),
                *options,
                r,
            ),
    {
        let breaks: Vec<LineBreak> = self.line_breaker.find_breaks(text);
        self.layout_with_breaks(text.len(), shaped_text, &breaks, options)
    }

    /// Lays a shaped run out as a paragraph, given the length of the text
    /// in bytes and its break opportunities.
    ///
    /// The run is fitted greedily into lines no wider than the maximum
    /// width where a break allows it, the lines are justified, and stacked
    /// from the top, each one step below the line above. The result holds
    /// every glyph of the run exactly once, in the order of the run.
    ///
    /// Fails with `InvalidText` for an empty text, with `InvalidOptions`
    /// when the maximum width or the line spacing is not positive, and with
    /// `Overflow` when a value that the layout computes does not fit a 64-bit
    /// fixed-point value; see [`spec_layout_fits`]. A layout that is higher
    /// than the height limit is no failure: the result says so.
    pub fn layout_with_breaks(
        &self,
        text_len: usize,
        shaped_text: &ShapedText,
        breaks: &Vec<LineBreak>,
        options: &LayoutOptions,
    ) -> (r: Result<LayoutResult, LayoutError>)
        ensures
            spec_layout_outcome(text_len, *shaped_text, breaks@, *options, r),
    {
        match self.validate_inputs(text_len, options) {
            Ok(_) => {},
            Err(e) => {
                return Err(e);
            },
        }
        let ghost fitted = spec_fitted_lines(shaped_text@, breaks@, options.max_width, text_len);
        let ghost laid = spec_paragraph_lines(shaped_text@, breaks@, *options, text_len);
        proof {
            lemma_fitted_total(shaped_text@, breaks@, options.max_width, text_len);
        }
        let mut lines: Vec<LayoutLine> = match self.break_into_lines(
            text_len,
            shaped_text,
            breaks,
            options,
        ) {
            Ok(lines) => lines,
            Err(e) => {
                return Err(e);
            },
        };
        let ghost broken = lines@;
        proof {
            assert forall|i: int| 0 <= i < broken.len() implies (#[trigger] broken[i])@
                == fitted[i] by {
                assert(spec_line_models(broken)[i] == broken[i]@);
            }
        }
        if !self.justifier.justify_lines_fit(&lines, options.max_width, options.justification) {
            proof {
                let i = choose|i: int|
                    0 <= i < broken.len() && !spec_justify_among_fits(
                        (#[trigger] broken[i])@,
                        i,
                        broken.len() as int,
                        options.max_width,
                        options.justification,
                    );
                assert(broken[i]@ == fitted[i]);
            }
            return Err(LayoutError::Overflow(String::from_str("A justified line does not fit")));
        }
        self.justifier.justify_lines(&mut lines, options.max_width, options.justification);
        let ghost justified = lines@;
        proof {
            assert forall|i: int| 0 <= i < justified.len() implies (#[trigger] justified[i])@
                == spec_justified_among(
                fitted[i],
                i,
                fitted.len() as int,
                options.max_width,
                options.justification,
            ) by {
                assert(broken[i]@ == fitted[i]);
            }
            assert forall|i: int| 0 <= i <= fitted.len() implies spec_y_offset(
                spec_line_models(justified),
                i,
                options.line_spacing,
            ) == spec_y_offset(fitted, i, options.line_spacing) by {
                assert forall|j: int| 0 <= j < fitted.len() implies (#[trigger] spec_line_models(
                    justified,
                )[j]).height == fitted[j].height by {
                    assert(spec_line_models(justified)[j] == justified[j]@);
                    lemma_justified_keeps(fitted[j], options.max_width, options.justification);
                }
                lemma_same_heights_same_offsets(
                    spec_line_models(justified),
                    fitted,
                    i,
                    options.line_spacing,
                );
            }
        }
        if !self.stack_fits(&lines, options) {
            proof {
                let i = choose|i: int|
                    0 <= i < justified.len() && !spec_fits(
                        #[trigger] spec_y_offset(
                            spec_line_models(justified),
                            i,
                            options.line_spacing,
                        ),
                    );
                assert(!spec_fits(spec_y_offset(fitted, i, options.line_spacing)));
            }
            return Err(LayoutError::Overflow(String::from_str("The offset of a line does not fit")));
        }
        proof {
            assert forall|i: int| 0 <= i < fitted.len() implies spec_fits(
                #[trigger] spec_y_offset(fitted, i, options.line_spacing),
            ) by {
                assert(spec_fits(
                    spec_y_offset(spec_line_models(justified), i, options.line_spacing),
                ));
            }
        }
        self.position_lines_vertically(&mut lines, options);
        proof {
            assert forall|i: int| 0 <= i < lines@.len() implies (#[trigger] lines@[i])@
                == spec_paragraph_line(fitted, i, *options) by {
                assert(justified[i]@ == spec_justified_among(
                    fitted[i],
                    i,
                    fitted.len() as int,
                    options.max_width,
                    options.justification,
                ));
            }
            assert(spec_line_models(lines@) =~= laid);
        }
        let n: usize = lines.len();
        let mut total_width: i128 = 0;
        let mut i: usize = 0;
        while i < n
            invariant
                n == lines@.len(),
                i <= n,
                total_width == spec_max_right(spec_line_models(lines@), i as int),
                0 <= total_width <= 0xFFFF_FFFF_FFFF_FFFF,
            decreases n - i,
        {
            assert(spec_line_models(lines@)[i as int] == lines@[i as int]@);
            let right: i128 = lines[i].width as i128 + lines[i].x_offset as i128;
            if right > total_width {
                total_width = right;
            }
            i = i + 1;
        }
        let total_height: i128 = lines[n - 1].y_offset as i128 + lines[n - 1].height as i128;
        proof {
            assert(laid.last() == lines@[n as int - 1]@);
        }
        if total_width > i64::MAX as i128 || total_height < i64::MIN as i128 || total_height
            > i64::MAX as i128 {
            return Err(
                LayoutError::Overflow(String::from_str("The size of the layout does not fit")),
            );
        }
        let total_height: i64 = total_height as i64;
        let total_width: i64 = total_width as i64;
        let overflow: bool = match options.max_height {
            Some(max_height) => total_height > max_height,
            None => false,
        };
        proof {
            lemma_paragraph_glyph_total(fitted, *options, fitted.len() as int);
            lemma_layout_keeps_order(shaped_text@, breaks@, *options, text_len);
            assert(laid.subrange(0, laid.len() as int) =~= laid);
            assert(fitted.subrange(0, fitted.len() as int) =~= fitted);
            assert(spec_glyph_total(laid) == shaped_text@.glyphs.len());
        }
        Ok(LayoutResult { lines, total_height, total_width, overflow })
    }

    /// Checks the length of the text and the options of a layout.
    pub fn validate_inputs(&self, text_len: usize, options: &LayoutOptions) -> (r: Result<
        (),
        LayoutError,
    >)
        ensures
            r is Ok <==> text_len > 0 && spec_options_valid(*options),
            r matches Err(e) ==> (e is InvalidText <==> text_len == 0) && (e is InvalidText || e
                is InvalidOptions),
    {
        if text_len == 0 {
            return Err(LayoutError::InvalidText(String::from_str("Text is empty")));
        }
        if options.max_width <= 0 {
            return Err(LayoutError::InvalidOptions(String::from_str("max_width must be positive")));
        }
        if options.line_spacing <= 0 {
            return Err(
                LayoutError::InvalidOptions(String::from_str("line_spacing must be positive")),
            );
        }
        Ok(())
    }

    /// The line made of the glyphs of a run from `a` up to `b`, where its
    /// width fits.
    fn make_line(shaped_text: &ShapedText, a: usize, b: usize, end: usize) -> (r: Option<
        LayoutLine,
    >)
        requires
            a <= b <= shaped_text.glyphs@.len(),
        ensures
            r is Some <==> spec_width_fits(
                shaped_text@,
                spec_line(shaped_text@, a as int, b as int, end as int),
            ),
            r matches Some(line) ==> line@ == spec_line(
                shaped_text@,
                a as int,
                b as int,
                end as int,
            ),
    {
        let mut glyphs: Vec<PositionedGlyph> = Vec::new();
        let mut i: usize = a;
        while i < b
            invariant
                a <= i <= b <= shaped_text.glyphs@.len(),
                glyphs@ == shaped_text.glyphs@.subrange(a as int, i as int),
            decreases b - i,
        {
            glyphs.push(shaped_text.glyphs[i]);
            proof {
                assert(glyphs@ =~= shaped_text.glyphs@.subrange(a as int, i as int + 1));
            }
            i = i + 1;
        }
        let width: i128 = Self::advance_sum(shaped_text, a, b);
        proof {
            assert(spec_line(shaped_text@, a as int, b as int, end as int).glyphs.len() == b - a);
        }
        if width < i64::MIN as i128 || width > i64::MAX as i128 {
            return None;
        }
        Some(
            LayoutLine {
                glyphs,
                width: width as i64,
                height: shaped_text.height,
                baseline: shaped_text.baseline,
                x_offset: 0,
                y_offset: 0,
                text_range: (a, end),
            },
        )
    }

    /// The sum of the horizontal advances of the glyphs from `a` up to `b`.
    fn advance_sum(shaped_text: &ShapedText, a: usize, b: usize) -> (sum: i128)
        requires
            a <= b <= shaped_text.glyphs@.len(),
        ensures
            sum == spec_advance_sum(shaped_text.glyphs@, a as int, b as int),
    {
        let n: usize = shaped_text.glyphs.len();
        let mut sum: i128 = 0;
        let mut i: usize = a;
        while i < b
            invariant
                a <= i <= b <= shaped_text.glyphs@.len(),
                n == shaped_text.glyphs@.len(),
                sum == spec_advance_sum(shaped_text.glyphs@, a as int, i as int),
            decreases b - i,
        {
            proof {
                lemma_advance_room(shaped_text.glyphs@, a as int, i as int);
            }
            sum = sum + shaped_text.glyphs[i].advance.x as i128;
            i = i + 1;
        }
        sum
    }

    /// The greatest offset among `breaks` that lies after `lo` and not
    /// after `hi`; `lo` itself when there is no such break.
    fn last_break(breaks: &Vec<LineBreak>, lo: usize, hi: usize) -> (b: usize)
        ensures
            b == spec_last_break(breaks@, breaks@.len() as int, lo as int, hi as int),
    {
        let mut best: usize = lo;
        let mut i: usize = 0;
        while i < breaks.len()
            invariant
                i <= breaks@.len(),
                best == spec_last_break(breaks@, i as int, lo as int, hi as int),
            decreases breaks@.len() - i,
        {
            let offset: usize = breaks[i].offset;
            if lo < offset && offset <= hi && offset > best {
                best = offset;
            }
            i = i + 1;
        }
        best
    }

    /// Fits a run into lines; see [`spec_fitted_lines`]. Fails with
    /// `Overflow` when the width of a line does not fit.
    pub fn break_into_lines(
        &self,
        text_len: usize,
        shaped_text: &ShapedText,
        breaks: &Vec<LineBreak>,
        options: &LayoutOptions,
    ) -> (r: Result<Vec<LayoutLine>, LayoutError>)
        ensures
            r is Ok <==> spec_widths_fit(
                shaped_text@,
                spec_fitted_lines(shaped_text@, breaks@, options.max_width, text_len),
            ),
            r matches Ok(lines) ==> spec_line_models(lines@) == spec_fitted_lines(
                shaped_text@,
                breaks@,
                options.max_width,
                text_len,
            ),
            r matches Err(e) ==> e is Overflow,
    {
        let ghost shaped = shaped_text@;
        let ghost fitted = spec_fitted_lines(shaped, breaks@, options.max_width, text_len);
        let mut lines: Vec<LayoutLine> = Vec::new();
        let n: usize = shaped_text.glyphs.len();
        if n == 0 {
            match Self::make_line(shaped_text, 0, 0, 0) {
                Some(line) => {
                    lines.push(line);
                    assert(spec_line_models(lines@) =~= fitted);
                    return Ok(lines);
                },
                None => {
                    assert(!spec_width_fits(shaped, fitted[0]));
                    return Err(Self::too_wide());
                },
            }
        }
        let max_width: i64 = options.max_width;
        let emergency: i128 = max_width as i128 + floor_div(max_width as i128, 5);
        let mut line_start: usize = 0;
        let mut current_width: i128 = 0;
        let mut k: usize = 0;
        while k < n
            invariant
                shaped == shaped_text@,
                fitted == spec_fitted_lines(shaped, breaks@, max_width, text_len),
                n == shaped.glyphs.len(),
                n > 0,
                max_width == options.max_width,
                emergency == spec_emergency_width(max_width),
                k <= n,
                line_start <= k,
                line_start == spec_fit(shaped, breaks@, max_width, k as int).start,
                spec_line_models(lines@) == spec_fit(shaped, breaks@, max_width, k as int).lines,
                spec_widths_fit(shaped, spec_line_models(lines@)),
                current_width == spec_advance_sum(shaped.glyphs, line_start as int, k as int),
            decreases n - k,
        {
            let ghost prev = spec_fit(shaped, breaks@, max_width, k as int);
            let ghost next = spec_fit(shaped, breaks@, max_width, k as int + 1);
            proof {
                lemma_advance_room(shaped.glyphs, line_start as int, k as int);
                lemma_last_break(breaks@, breaks@.len() as int, line_start as int, k as int);
            }
            let glyph_width: i128 = shaped_text.glyphs[k].advance.x as i128;
            let mut cut: bool = false;
            if k > line_start && current_width + glyph_width > max_width as i128 {
                let b: usize = Self::last_break(breaks, line_start, k);
                if b > line_start {
                    let made = Self::make_line(shaped_text, line_start, b, b);
                    let ghost model = spec_line(shaped, line_start as int, b as int, b as int);
                    match made {
                        Some(line) => {
                            let ghost before = spec_line_models(lines@);
                            lines.push(line);
                            assert(spec_line_models(lines@) =~= before.push(line@));
                        },
                        None => {
                            proof {
                                assert(next.lines[prev.lines.len() as int] == model);
                                lemma_fitted_has(
                                    shaped,
                                    breaks@,
                                    max_width,
                                    text_len,
                                    k as int + 1,
                                    prev.lines.len() as int,
                                );
                            }
                            return Err(Self::too_wide());
                        },
                    }
                    line_start = b;
                    current_width = Self::advance_sum(shaped_text, b, k);
                } else if current_width + glyph_width > emergency {
                    let made = Self::make_line(shaped_text, line_start, k, k);
                    let ghost model = spec_line(shaped, line_start as int, k as int, k as int);
                    match made {
                        Some(line) => {
                            let ghost before = spec_line_models(lines@);
                            lines.push(line);
                            assert(spec_line_models(lines@) =~= before.push(line@));
                        },
                        None => {
                            proof {
                                assert(next.lines[prev.lines.len() as int] == model);
                                lemma_fitted_has(
                                    shaped,
                                    breaks@,
                                    max_width,
                                    text_len,
                                    k as int + 1,
                                    prev.lines.len() as int,
                                );
                            }
                            return Err(Self::too_wide());
                        },
                    }
                    line_start = k;
                    current_width = 0;
                }
            }
            proof {
                lemma_advance_room(shaped.glyphs, line_start as int, k as int);
            }
            current_width = current_width + glyph_width;
            k = k + 1;
            if self.should_break_here(k, breaks, true) {
                let made = Self::make_line(shaped_text, line_start, k, k);
                let ghost model = spec_line(shaped, line_start as int, k as int, k as int);
                let ghost at = lines@.len() as int;
                match made {
                    Some(line) => {
                        let ghost before = spec_line_models(lines@);
                        lines.push(line);
                        assert(spec_line_models(lines@) =~= before.push(line@));
                    },
                    None => {
                        proof {
                            assert(next.lines[at] == model);
                            lemma_fitted_has(shaped, breaks@, max_width, text_len, k as int, at);
                        }
                        return Err(Self::too_wide());
                    },
                }
                line_start = k;
                current_width = 0;
            }
        }
        if line_start < n {
            let made = Self::make_line(shaped_text, line_start, n, text_len);
            match made {
                Some(line) => {
                    let ghost before = spec_line_models(lines@);
                    lines.push(line);
                    assert(spec_line_models(lines@) =~= before.push(line@));
                },
                None => {
                    assert(!spec_width_fits(shaped, fitted.last()));
                    return Err(Self::too_wide());
                },
            }
        }
        Ok(lines)
    }

    /// The error for a line whose width does not fit.
    fn too_wide() -> (e: LayoutError)
        ensures
            e is Overflow,
    {
        LayoutError::Overflow(String::from_str("The width of a line does not fit"))
    }

    /// Whether a break at `char_index` counts: a mandatory break always
    /// does, an optional break only when `require_optional` is not set.
    pub fn should_break_here(
        &self,
        char_index: usize,
        breaks: &Vec<LineBreak>,
        require_optional: bool,
    ) -> (should: bool)
        ensures
            should == spec_should_break(
                breaks@,
                breaks@.len() as int,
                char_index,
                require_optional,
            ),
    {
        let mut found: bool = false;
        let mut i: usize = 0;
        while i < breaks.len()
            invariant
                i <= breaks@.len(),
                found == spec_should_break(breaks@, i as int, char_index, require_optional),
            decreases breaks@.len() - i,
        {
            let b: LineBreak = breaks[i];
            if b.offset == char_index && (b.required || !require_optional) {
                found = true;
            }
            i = i + 1;
        }
        found
    }

    /// The step below a line: its height times the line spacing, rounded
    /// toward negative infinity.
    fn line_step(height: i64, line_spacing: i32) -> (step: i128)
        ensures
            step == spec_line_step(height, line_spacing),
            -0x8000_0000_0000_0000_0000 <= step <= 0x8000_0000_0000_0000_0000,
    {
        assert(-0x8000_0000_0000_0000 * 0x8000_0000 <= height as int * line_spacing as int
            <= 0x8000_0000_0000_0000 * 0x8000_0000) by (nonlinear_arith)
            requires
                -0x8000_0000_0000_0000 <= height <= 0x8000_0000_0000_0000,
                -0x8000_0000 <= line_spacing <= 0x8000_0000,
        ;
        let product: i128 = height as i128 * line_spacing as i128;
        proof {
            crate::fixed::lemma_div_monotone(
                -0x4000_0000_0000_0000_0000_0000int,
                product as int,
                0x4000_0000_0000_0000_0000_0000int,
                0x1_0000,
            );
            crate::fixed::lemma_div_exact(-0x4000_0000_0000_0000_0000, 0x1_0000);
            crate::fixed::lemma_div_exact(0x4000_0000_0000_0000_0000, 0x1_0000);
        }
        floor_div(product, 0x1_0000)
    }

    /// Whether lines can be stacked; see [`spec_stack_fits`].
    pub fn stack_fits(&self, lines: &Vec<LayoutLine>, options: &LayoutOptions) -> (fits: bool)
        ensures
            fits == spec_stack_fits(spec_line_models(lines@), options.line_spacing),
    {
        let n: usize = lines.len();
        let ghost models = spec_line_models(lines@);
        let mut y_offset: i128 = 0;
        let mut i: usize = 0;
        while i < n
            invariant
                n == lines@.len(),
                i <= n,
                models == spec_line_models(lines@),
                y_offset == spec_y_offset(models, i as int, options.line_spacing),
                forall|k: int|
                    0 <= k < i ==> spec_fits(
                        #[trigger] spec_y_offset(models, k, options.line_spacing),
                    ),
            decreases n - i,
        {
            if y_offset < i64::MIN as i128 || y_offset > i64::MAX as i128 {
                return false;
            }
            assert(models[i as int] == lines@[i as int]@);
            y_offset = y_offset + Self::line_step(lines[i].height, options.line_spacing);
            i = i + 1;
        }
        true
    }

    /// Stacks lines from the top: the first line at 0, every other line
    /// one step below the line above.
    pub fn position_lines_vertically(&self, lines: &mut Vec<LayoutLine>, options: &LayoutOptions)
        requires
            spec_stack_fits(spec_line_models(old(lines)@), options.line_spacing),
        ensures
            final(lines)@.len() == old(lines)@.len(),
            forall|i: int|
                0 <= i < final(lines)@.len() ==> (#[trigger] final(lines)@[i])@ == spec_placed_line(
                    old(lines)@[i]@,
                    spec_y_offset(spec_line_models(old(lines)@), i, options.line_spacing),
                ),
    {
        let n: usize = lines.len();
        let ghost before = lines@;
        let ghost models = spec_line_models(before);
        let mut y_offset: i128 = 0;
        let mut i: usize = 0;
        while i < n
            invariant
                n == before.len(),
                lines@.len() == n,
                i <= n,
                models == spec_line_models(before),
                spec_stack_fits(models, options.line_spacing),
                y_offset == spec_y_offset(models, i as int, options.line_spacing),
                forall|k: int| i <= k < n ==> #[trigger] lines@[k] == before[k],
                forall|k: int|
                    0 <= k < i ==> (#[trigger] lines@[k])@ == spec_placed_line(
                        before[k]@,
                        spec_y_offset(models, k, options.line_spacing),
                    ),
            decreases n - i,
        {
            proof {
                assert(spec_fits(spec_y_offset(models, i as int, options.line_spacing)));
                assert(models[i as int] == before[i as int]@);
            }
            let mut line: LayoutLine = lines[i].clone();
            line.y_offset = y_offset as i64;
            let height: i64 = line.height;
            lines.set(i, line);
            y_offset = y_offset + Self::line_step(height, options.line_spacing);
            i = i + 1;
        }
    }
}

/// Lines with the same heights have the same vertical offsets.
pub proof fn lemma_same_heights_same_offsets(
    a: Seq<LayoutLineModel>,
    b: Seq<LayoutLineModel>,
    i: int,
    line_spacing: i32,
)
    requires
        0 <= i <= a.len(),
        a.len() == b.len(),
        forall|j: int| 0 <= j < a.len() ==> (#[trigger] a[j]).height == b[j].height,
    ensures
        spec_y_offset(a, i, line_spacing) == spec_y_offset(b, i, line_spacing),
    decreases i,
{
    if i > 0 {
        lemma_same_heights_same_offsets(a, b, i - 1, line_spacing);
    }
}

/// The glyph total of the first `k` lines of a paragraph equals that of
/// the first `k` fitted lines: justifying and stacking moves glyphs but
/// neither adds nor drops one.
pub proof fn lemma_paragraph_glyph_total(
    fitted: Seq<LayoutLineModel>,
    options: LayoutOptions,
    k: int,
)
    requires
        0 <= k <= fitted.len(),
    ensures
        spec_glyph_total(
            Seq::new(fitted.len(), |i: int| spec_paragraph_line(fitted, i, options)).subrange(0, k),
        ) == spec_glyph_total(fitted.subrange(0, k)),
    decreases k,
{
    let laid = Seq::new(fitted.len(), |i: int| spec_paragraph_line(fitted, i, options));
    if k > 0 {
        lemma_paragraph_glyph_total(fitted, options, k - 1);
        assert(laid.subrange(0, k).drop_last() =~= laid.subrange(0, k - 1));
        assert(fitted.subrange(0, k).drop_last() =~= fitted.subrange(0, k - 1));
        lemma_justified_keeps(fitted[k - 1], options.max_width, options.justification);
    }
}

/// Whether every horizontal advance lies between 0 and `widest`.
pub open spec fn spec_advances_within(glyphs: Seq<PositionedGlyph>, widest: int) -> bool {
    forall|i: int| 0 <= i < glyphs.len() ==> 0 <= (#[trigger] glyphs[i]).advance.x <= widest
}

/// The width that no line of a paragraph exceeds when no glyph is wider
/// than `widest`: the maximum width and, beyond it, the greater of a fifth
/// of the maximum width and the widest glyph.
pub open spec fn spec_width_limit(max_width: i64, widest: int) -> int {
    if widest > max_width / 5 {
        max_width + widest
    } else {
        spec_emergency_width(max_width)
    }
}

/// Whether no break lies after `lo` and not after `hi`.
pub open spec fn spec_no_break_in(breaks: Seq<LineBreak>, lo: int, hi: int) -> bool {
    forall|i: int| 0 <= i < breaks.len() ==> !(lo < (#[trigger] breaks[i]).offset <= hi)
}

/// The last break of a range is the greatest offset of a break in the
/// range, or the lower end of the range when no break lies in it.
pub proof fn lemma_last_break_is_last(breaks: Seq<LineBreak>, n: int, lo: int, hi: int)
    requires
        0 <= n <= breaks.len(),
        lo <= hi,
    ensures
        lo <= spec_last_break(breaks, n, lo, hi) <= hi,
        forall|i: int|
            0 <= i < n && lo < (#[trigger] breaks[i]).offset <= hi ==> breaks[i].offset
                <= spec_last_break(breaks, n, lo, hi),
        spec_last_break(breaks, n, lo, hi) == lo || exists|i: int|
            0 <= i < n && (#[trigger] breaks[i]).offset == spec_last_break(breaks, n, lo, hi),
    decreases n,
{
    if n > 0 {
        lemma_last_break_is_last(breaks, n - 1, lo, hi);
        let earlier = spec_last_break(breaks, n - 1, lo, hi);
        let now = spec_last_break(breaks, n, lo, hi);
        if now != lo {
            if now == earlier {
                let i = choose|i: int| 0 <= i < n - 1 && (#[trigger] breaks[i]).offset == earlier;
                assert(0 <= i < n && breaks[i].offset == now);
            } else {
                assert(breaks[n - 1].offset == now);
            }
        }
    }
}

/// The sum of advances over a range splits at any point of the range.
pub proof fn lemma_advance_split(glyphs: Seq<PositionedGlyph>, a: int, m: int, b: int)
    requires
        a <= m <= b,
    ensures
        spec_advance_sum(glyphs, a, b) == spec_advance_sum(glyphs, a, m) + spec_advance_sum(
            glyphs,
            m,
            b,
        ),
    decreases b - m,
{
    if b > m {
        lemma_advance_split(glyphs, a, m, b - 1);
    }
}

/// The sum of advances that are not negative is not negative.
pub proof fn lemma_advance_nonnegative(glyphs: Seq<PositionedGlyph>, a: int, b: int, widest: int)
    requires
        0 <= a <= b <= glyphs.len(),
        spec_advances_within(glyphs, widest),
    ensures
        0 <= spec_advance_sum(glyphs, a, b),
    decreases b - a,
{
    if b > a {
        lemma_advance_nonnegative(glyphs, a, b - 1, widest);
        assert(0 <= glyphs[b - 1].advance.x);
    }
}

/// After `k` glyphs of a run whose advances lie between 0 and `widest`,
/// no emitted line is wider than the limit, and the line that is being
/// filled is no wider than the maximum width, or no wider than the limit
/// and without a break before its last glyph.
pub proof fn lemma_fit_widths(
    shaped: ShapedTextModel,
    breaks: Seq<LineBreak>,
    max_width: i64,
    k: int,
    widest: int,
)
    requires
        0 <= k <= shaped.glyphs.len(),
        shaped.glyphs.len() <= usize::MAX,
        spec_widths_fit(shaped, spec_fit(shaped, breaks, max_width, k).lines),
        spec_advances_within(shaped.glyphs, widest),
        0 < max_width,
    ensures
        0 <= spec_fit(shaped, breaks, max_width, k).start <= k,
        spec_advance_sum(shaped.glyphs, spec_fit(shaped, breaks, max_width, k).start, k)
            <= max_width || (spec_advance_sum(
            shaped.glyphs,
            spec_fit(shaped, breaks, max_width, k).start,
            k,
        ) <= spec_width_limit(max_width, widest) && spec_no_break_in(
            breaks,
            spec_fit(shaped, breaks, max_width, k).start,
            k - 1,
        )),
        forall|i: int|
            0 <= i < spec_fit(shaped, breaks, max_width, k).lines.len() ==> (#[trigger] spec_fit(
                shaped,
                breaks,
                max_width,
                k,
            ).lines[i]).width <= spec_width_limit(max_width, widest),
    decreases k,
{
    let limit = spec_width_limit(max_width, widest);
    if k > 0 {
        lemma_fit_prefix(shaped, breaks, max_width, k - 1, k);
        lemma_fit_widths(shaped, breaks, max_width, k - 1, widest);
        let prev = spec_fit(shaped, breaks, max_width, k - 1);
        let now = spec_fit(shaped, breaks, max_width, k);
        let g = k - 1;
        let a = shaped.glyphs[g].advance.x as int;
        assert(0 <= a <= widest);
        let b = spec_last_break(breaks, breaks.len() as int, prev.start, g);
        lemma_last_break_is_last(breaks, breaks.len() as int, prev.start, g);
        let width = spec_advance_sum(shaped.glyphs, prev.start, g);
        let over = g > prev.start && width + a > max_width;
        let cut = if over && b > prev.start {
            FitState { lines: prev.lines.push(spec_line(shaped, prev.start, b, b)), start: b }
        } else if over && width + a > spec_emergency_width(max_width) {
            FitState { lines: prev.lines.push(spec_line(shaped, prev.start, g, g)), start: g }
        } else {
            prev
        };
        lemma_advance_split(shaped.glyphs, prev.start, b, g);
        lemma_advance_nonnegative(shaped.glyphs, prev.start, b, widest);
        lemma_advance_nonnegative(shaped.glyphs, b, g, widest);
        lemma_advance_nonnegative(shaped.glyphs, prev.start, g, widest);
        assert(width <= limit);
        // The line that ends before glyph `g`, where one does.
        assert forall|i: int| 0 <= i < cut.lines.len() implies (#[trigger] cut.lines[i]).width
            <= limit by {
            assert(now.lines[i] == cut.lines[i]);
            assert(spec_width_fits(shaped, now.lines[i]));
            if i < prev.lines.len() {
                assert(cut.lines[i] == prev.lines[i]);
            }
        }
        // The line that is being filled, with glyph `g` on it.
        let filled = spec_advance_sum(shaped.glyphs, cut.start, k);
        assert(filled == spec_advance_sum(shaped.glyphs, cut.start, g) + a);
        assert(filled <= max_width || (filled <= limit && spec_no_break_in(breaks, cut.start, g)))
            by {
            if over && b > prev.start {
                if width <= max_width {
                    assert(spec_no_break_in(breaks, b, g));
                } else {
                    let i = choose|i: int|
                        0 <= i < breaks.len() && (#[trigger] breaks[i]).offset == b;
                    assert(!(prev.start < breaks[i].offset <= g - 1));
                    assert(b == g);
                }
            } else if over && width + a > spec_emergency_width(max_width) {
            } else if over {
                assert(b == prev.start);
                assert(spec_no_break_in(breaks, prev.start, g));
            }
        }
        assert forall|i: int| 0 <= i < now.lines.len() implies (#[trigger] now.lines[i]).width
            <= limit by {
            assert(spec_width_fits(shaped, now.lines[i]));
            if i < cut.lines.len() {
                assert(now.lines[i] == cut.lines[i]);
            }
        }
    }
}

/// No line that a run is fitted into is wider than the limit, when the
/// advances of the run lie between 0 and `widest`.
pub proof fn lemma_fitted_widths(
    shaped: ShapedTextModel,
    breaks: Seq<LineBreak>,
    max_width: i64,
    text_len: usize,
    widest: int,
)
    requires
        shaped.glyphs.len() <= usize::MAX,
        spec_widths_fit(shaped, spec_fitted_lines(shaped, breaks, max_width, text_len)),
        spec_advances_within(shaped.glyphs, widest),
        0 < max_width,
    ensures
        forall|i: int|
            0 <= i < spec_fitted_lines(shaped, breaks, max_width, text_len).len() ==> (
            #[trigger] spec_fitted_lines(shaped, breaks, max_width, text_len)[i]).width
                <= spec_width_limit(max_width, widest),
{
    let n = shaped.glyphs.len() as int;
    let lines = spec_fitted_lines(shaped, breaks, max_width, text_len);
    let limit = spec_width_limit(max_width, widest);
    if n == 0 {
        assert(lines[0].width == 0);
    } else {
        let fit = spec_fit(shaped, breaks, max_width, n);
        assert forall|i: int| 0 <= i < fit.lines.len() implies spec_width_fits(
            shaped,
            #[trigger] fit.lines[i],
        ) by {
            assert(lines[i] == fit.lines[i]);
        }
        lemma_fit_widths(shaped, breaks, max_width, n, widest);
        assert forall|i: int| 0 <= i < lines.len() implies (#[trigger] lines[i]).width
            <= limit by {
            assert(spec_width_fits(shaped, lines[i]));
            if i < fit.lines.len() {
                assert(lines[i] == fit.lines[i]);
            } else {
                assert(lines[i] == spec_line(shaped, fit.start, n, text_len as int));
                assert(lines[i].glyphs.len() == n - fit.start);
            }
        }
    }
}

/// The right edge of every line of a paragraph that can be laid out lies
/// within the limit, in every mode of justification, when the advances of
/// the run lie between 0 and `widest`. A line that was fitted within the
/// maximum width ends within the maximum width.
pub proof fn lemma_layout_width_bound(
    shaped: ShapedTextModel,
    breaks: Seq<LineBreak>,
    options: LayoutOptions,
    text_len: usize,
    widest: int,
)
    requires
        shaped.glyphs.len() <= usize::MAX,
        spec_advances_within(shaped.glyphs, widest),
        spec_options_valid(options),
        spec_layout_fits(shaped, breaks, options, text_len),
    ensures
        forall|i: int|
            0 <= i < spec_paragraph_lines(shaped, breaks, options, text_len).len() ==> {
                let line = #[trigger] spec_paragraph_lines(shaped, breaks, options, text_len)[i];
                let fitted = spec_fitted_lines(shaped, breaks, options.max_width, text_len)[i];
                &&& line.x_offset + line.width <= spec_width_limit(options.max_width, widest)
                &&& fitted.width <= options.max_width ==> line.x_offset + line.width
                    <= options.max_width
            },
{
    let fitted = spec_fitted_lines(shaped, breaks, options.max_width, text_len);
    let laid = spec_paragraph_lines(shaped, breaks, options, text_len);
    lemma_fitted_widths(shaped, breaks, options.max_width, text_len, widest);
    assert forall|i: int| 0 <= i < laid.len() implies {
        let line = #[trigger] laid[i];
        &&& line.x_offset + line.width <= spec_width_limit(options.max_width, widest)
        &&& fitted[i].width <= options.max_width ==> line.x_offset + line.width
            <= options.max_width
    } by {
        assert(fitted[i].width <= spec_width_limit(options.max_width, widest));
        lemma_justified_right_edge(
            fitted[i],
            i,
            fitted.len() as int,
            options.max_width,
            options.justification,
        );
    }
}

/// The glyph ids of glyphs, in their order.
pub open spec fn spec_glyph_ids(glyphs: Seq<PositionedGlyph>) -> Seq<GlyphId> {
    Seq::new(glyphs.len(), |i: int| glyphs[i].glyph_id)
}

/// The glyph ids of lines, read line after line.
pub open spec fn spec_line_ids(lines: Seq<LayoutLineModel>) -> Seq<GlyphId>
    decreases lines.len(),
{
    if lines.len() == 0 {
        Seq::<GlyphId>::empty()
    } else {
        spec_line_ids(lines.drop_last()) + spec_glyph_ids(lines.last().glyphs)
    }
}

/// The glyph ids of lines with one more line are those of the lines,
/// followed by those of the line.
pub proof fn lemma_line_ids_push(lines: Seq<LayoutLineModel>, line: LayoutLineModel)
    ensures
        spec_line_ids(lines.push(line)) == spec_line_ids(lines) + spec_glyph_ids(line.glyphs),
{
    assert(lines.push(line).drop_last() =~= lines);
}

/// The glyph ids of the glyphs before `b` are those of the glyphs before
/// `a`, followed by those of the glyphs from `a` up to `b`.
pub proof fn lemma_glyph_ids_split(glyphs: Seq<PositionedGlyph>, a: int, b: int)
    requires
        0 <= a <= b <= glyphs.len(),
    ensures
        spec_glyph_ids(glyphs.subrange(0, a)) + spec_glyph_ids(glyphs.subrange(a, b))
            == spec_glyph_ids(glyphs.subrange(0, b)),
{
    assert(spec_glyph_ids(glyphs.subrange(0, a)) + spec_glyph_ids(glyphs.subrange(a, b))
        =~= spec_glyph_ids(glyphs.subrange(0, b)));
}

/// The line that is being filled after `k` glyphs starts among them.
pub proof fn lemma_fit_start(
    shaped: ShapedTextModel,
    breaks: Seq<LineBreak>,
    max_width: i64,
    k: int,
)
    requires
        0 <= k,
    ensures
        0 <= spec_fit(shaped, breaks, max_width, k).start <= k,
    decreases k,
{
    if k > 0 {
        lemma_fit_start(shaped, breaks, max_width, k - 1);
        let prev = spec_fit(shaped, breaks, max_width, k - 1);
        lemma_last_break(breaks, breaks.len() as int, prev.start, k - 1);
    }
}

/// After `k` glyphs the emitted lines, read line after line, hold the
/// glyphs before the start of the line that is being filled, in the order
/// of the run.
pub proof fn lemma_fit_order(
    shaped: ShapedTextModel,
    breaks: Seq<LineBreak>,
    max_width: i64,
    k: int,
)
    requires
        0 <= k <= shaped.glyphs.len(),
    ensures
        spec_line_ids(spec_fit(shaped, breaks, max_width, k).lines) == spec_glyph_ids(
            shaped.glyphs.subrange(0, spec_fit(shaped, breaks, max_width, k).start),
        ),
    decreases k,
{
    if k > 0 {
        lemma_fit_order(shaped, breaks, max_width, k - 1);
        lemma_fit_start(shaped, breaks, max_width, k - 1);
        let prev = spec_fit(shaped, breaks, max_width, k - 1);
        let g = k - 1;
        let b = spec_last_break(breaks, breaks.len() as int, prev.start, g);
        lemma_last_break(breaks, breaks.len() as int, prev.start, g);
        let width = spec_advance_sum(shaped.glyphs, prev.start, g);
        let over = g > prev.start && width + shaped.glyphs[g].advance.x > max_width;
        let cut = if over && b > prev.start {
            FitState { lines: prev.lines.push(spec_line(shaped, prev.start, b, b)), start: b }
        } else if over && width + shaped.glyphs[g].advance.x > spec_emergency_width(max_width) {
            FitState { lines: prev.lines.push(spec_line(shaped, prev.start, g, g)), start: g }
        } else {
            prev
        };
        lemma_line_ids_push(prev.lines, spec_line(shaped, prev.start, b, b));
        lemma_line_ids_push(prev.lines, spec_line(shaped, prev.start, g, g));
        lemma_glyph_ids_split(shaped.glyphs, prev.start, b);
        lemma_glyph_ids_split(shaped.glyphs, prev.start, g);
        assert(spec_line_ids(cut.lines) == spec_glyph_ids(shaped.glyphs.subrange(0, cut.start)));
        lemma_line_ids_push(cut.lines, spec_line(shaped, cut.start, k, k));
        lemma_glyph_ids_split(shaped.glyphs, cut.start, k);
    } else {
        assert(spec_glyph_ids(shaped.glyphs.subrange(0, 0)) =~= Seq::<GlyphId>::empty());
    }
}

/// The lines that a run is fitted into, read line after line, hold the
/// glyphs of the run in their order: none is lost, repeated or moved to
/// another place in the order.
pub proof fn lemma_fitted_order(
    shaped: ShapedTextModel,
    breaks: Seq<LineBreak>,
    max_width: i64,
    text_len: usize,
)
    ensures
        spec_line_ids(spec_fitted_lines(shaped, breaks, max_width, text_len)) == spec_glyph_ids(
            shaped.glyphs,
        ),
{
    let n = shaped.glyphs.len() as int;
    let lines = spec_fitted_lines(shaped, breaks, max_width, text_len);
    if n == 0 {
        lemma_line_ids_push(Seq::<LayoutLineModel>::empty(), spec_line(shaped, 0, 0, 0));
        assert(lines =~= Seq::<LayoutLineModel>::empty().push(spec_line(shaped, 0, 0, 0)));
        assert(spec_line_ids(lines) =~= spec_glyph_ids(shaped.glyphs));
    } else {
        lemma_fit_start(shaped, breaks, max_width, n);
        lemma_fit_order(shaped, breaks, max_width, n);
        let fit = spec_fit(shaped, breaks, max_width, n);
        lemma_line_ids_push(fit.lines, spec_line(shaped, fit.start, n, text_len as int));
        lemma_glyph_ids_split(shaped.glyphs, fit.start, n);
        assert(shaped.glyphs.subrange(0, n) =~= shaped.glyphs);
    }
}

/// The lines of a paragraph, read line after line, hold the glyph ids of
/// the fitted lines: justifying and stacking moves glyphs on their line but
/// not from one place in the order to another.
pub proof fn lemma_paragraph_order(fitted: Seq<LayoutLineModel>, options: LayoutOptions, k: int)
    requires
        0 <= k <= fitted.len(),
    ensures
        spec_line_ids(
            Seq::new(fitted.len(), |i: int| spec_paragraph_line(fitted, i, options)).subrange(0, k),
        ) == spec_line_ids(fitted.subrange(0, k)),
    decreases k,
{
    let laid = Seq::new(fitted.len(), |i: int| spec_paragraph_line(fitted, i, options));
    if k > 0 {
        lemma_paragraph_order(fitted, options, k - 1);
        assert(laid.subrange(0, k).drop_last() =~= laid.subrange(0, k - 1));
        assert(fitted.subrange(0, k).drop_last() =~= fitted.subrange(0, k - 1));
        lemma_justified_keeps(fitted[k - 1], options.max_width, options.justification);
        assert(spec_glyph_ids(laid[k - 1].glyphs) =~= spec_glyph_ids(fitted[k - 1].glyphs));
    }
}

/// The lines of a paragraph, read line after line, hold the glyphs of the
/// run in their order, whatever the mode of justification.
pub proof fn lemma_layout_keeps_order(
    shaped: ShapedTextModel,
    breaks: Seq<LineBreak>,
    options: LayoutOptions,
    text_len: usize,
)
    ensures
        spec_line_ids(spec_paragraph_lines(shaped, breaks, options, text_len)) == spec_glyph_ids(
            shaped.glyphs,
        ),
{
    let fitted = spec_fitted_lines(shaped, breaks, options.max_width, text_len);
    let laid = spec_paragraph_lines(shaped, breaks, options, text_len);
    lemma_fitted_order(shaped, breaks, options.max_width, text_len);
    lemma_paragraph_order(fitted, options, fitted.len() as int);
    assert(laid.subrange(0, laid.len() as int) =~= laid);
    assert(fitted.subrange(0, fitted.len() as int) =~= fitted);
}

/// What laying a run out as a paragraph returns.
pub open spec fn spec_layout_outcome(
    text_len: usize,
    shaped: ShapedText,
    breaks: Seq<LineBreak>,
    options: LayoutOptions,
    r: Result<LayoutResult, LayoutError>,
) -> bool {
    if text_len == 0 {
        r matches Err(e) && e is InvalidText
    } else if !spec_options_valid(options) {
        r matches Err(e) && e is InvalidOptions
    } else if !spec_layout_fits(shaped@, breaks, options, text_len) {
        r matches Err(e) && e is Overflow
    } else {
        let lines = spec_paragraph_lines(shaped@, breaks, options, text_len);
        &&& r is Ok
        &&& spec_line_models(r->Ok_0.lines@) == lines
        &&& spec_glyph_total(lines) == shaped@.glyphs.len()
        &&& spec_line_ids(lines) == spec_glyph_ids(shaped@.glyphs)
        &&& r->Ok_0.total_height == lines.last().y_offset + lines.last().height
        &&& r->Ok_0.total_width == spec_max_right(lines, lines.len() as int)
        &&& r->Ok_0.overflow == (options.max_height matches Some(max_height)
            && r->Ok_0.total_height > max_height)
    }
}

impl Default for ParagraphLayout {
    /// A paragraph layout engine.
    fn default() -> (layout: ParagraphLayout) {
        ParagraphLayout::new()
    }
}

} // verus!
