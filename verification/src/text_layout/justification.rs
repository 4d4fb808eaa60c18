//! Alignment of lines: left, right, centered, or stretched to the full width.

use vstd::prelude::*;
use crate::fixed::floor_div;
use crate::font_types::{Point, PositionedGlyph};
use crate::text_layout::types::{spec_fits, JustificationMode, LayoutLine, LayoutLineModel};

verus! {

/// Whether a gap lies before glyph `i`: the glyph before it advances the
/// pen, and glyph `i` advances it by more than one and a half times as much.
pub open spec fn spec_gap_before(glyphs: Seq<PositionedGlyph>, i: int) -> bool {
    1 <= i < glyphs.len() && glyphs[i - 1].advance.x > 0 && 2 * glyphs[i].advance.x > 3
        * glyphs[i - 1].advance.x
}

/// Number of gaps before the first `k` glyphs.
pub open spec fn spec_detected_gaps(glyphs: Seq<PositionedGlyph>, k: int) -> int
    decreases k,
{
    if k <= 0 {
        0
    } else {
        spec_detected_gaps(glyphs, k - 1) + if spec_gap_before(glyphs, k - 1) {
            1int
        } else {
            0int
        }
    }
}

/// Number of gaps that the extra space of a line is divided by: the gaps
/// that are detected, at least one for a line that has glyphs, and none
/// for an empty line.
pub open spec fn spec_gap_count(glyphs: Seq<PositionedGlyph>) -> int {
    if glyphs.len() == 0 {
        0
    } else if spec_detected_gaps(glyphs, glyphs.len() as int) < 1 {
        1
    } else {
        spec_detected_gaps(glyphs, glyphs.len() as int)
    }
}

/// Whether a line is stretched to `target`: it is narrower than the
/// target and has glyphs.
pub open spec fn spec_stretches(line: LayoutLineModel, target: i64) -> bool {
    target - line.width > 0 && spec_gap_count(line.glyphs) > 0
}

/// The space that each gap of a stretched line receives.
pub open spec fn spec_space_per_gap(line: LayoutLineModel, target: i64) -> int {
    (target - line.width) / spec_gap_count(line.glyphs)
}

/// Where glyph `i` of a stretched line is drawn: right of where it was by
/// the space per gap times the number of gaps up to the glyph.
pub open spec fn spec_stretched_x(glyphs: Seq<PositionedGlyph>, i: int, per_gap: int) -> int {
    glyphs[i].position.x + per_gap * spec_detected_gaps(glyphs, i + 1)
}

/// Glyph `i` of a stretched line: moved right by the space per gap times
/// the number of gaps up to the glyph.
pub open spec fn spec_stretched_glyph(glyphs: Seq<PositionedGlyph>, i: int, per_gap: int)
    -> PositionedGlyph {
    PositionedGlyph {
        glyph_id: glyphs[i].glyph_id,
        font_id: glyphs[i].font_id,
        position: Point { x: spec_stretched_x(glyphs, i, per_gap) as i64, y: glyphs[i].position.y },
        advance: glyphs[i].advance,
        offset: glyphs[i].offset,
    }
}

/// A line after full justification to `target`: a line that stretches gets
/// the target as its width and its glyphs moved; any other line is left as
/// it is. The line starts at the left edge either way.
pub open spec fn spec_distributed(line: LayoutLineModel, target: i64) -> LayoutLineModel {
    if spec_stretches(line, target) {
        LayoutLineModel {
            glyphs: Seq::new(
                line.glyphs.len(),
                |i: int| spec_stretched_glyph(line.glyphs, i, spec_space_per_gap(line, target)),
            ),
            width: target,
            height: line.height,
            baseline: line.baseline,
            x_offset: 0,
            y_offset: line.y_offset,
            text_range: line.text_range,
        }
    } else {
        LayoutLineModel {
            glyphs: line.glyphs,
            width: line.width,
            height: line.height,
            baseline: line.baseline,
            x_offset: 0,
            y_offset: line.y_offset,
            text_range: line.text_range,
        }
    }
}

/// A line with its horizontal offset set to `x_offset`.
pub open spec fn spec_offset_line(line: LayoutLineModel, x_offset: int) -> LayoutLineModel {
    LayoutLineModel {
        glyphs: line.glyphs,
        width: line.width,
        height: line.height,
        baseline: line.baseline,
        x_offset: x_offset as i64,
        y_offset: line.y_offset,
        text_range: line.text_range,
    }
}

/// A line after justification to `target` in a mode: offset 0 for left,
/// `target - width` for right, half of that for centered, and full
/// justification for justify.
pub open spec fn spec_justified(line: LayoutLineModel, target: i64, mode: JustificationMode)
    -> LayoutLineModel {
    match mode {
        JustificationMode::Left => spec_offset_line(line, 0),
        JustificationMode::Right => spec_offset_line(line, target - line.width),
        JustificationMode::Center => spec_offset_line(line, (target - line.width) / 2),
        JustificationMode::Justify => spec_distributed(line, target),
    }
}

/// Line `i` of `n` lines after all were justified: under justify the last
/// line is only moved to the left edge; every other line, and every line
/// under the other modes, is justified in the mode.
pub open spec fn spec_justified_among(
    line: LayoutLineModel,
    i: int,
    n: int,
    target: i64,
    mode: JustificationMode,
) -> LayoutLineModel {
    if mode == JustificationMode::Justify && i == n - 1 {
        spec_offset_line(line, 0)
    } else {
        spec_justified(line, target, mode)
    }
}

/// Whether a line can be justified fully to `target`: where the line is
/// stretched, the place to which each glyph moves fits.
pub open spec fn spec_stretch_fits(line: LayoutLineModel, target: i64) -> bool {
    spec_stretches(line, target) ==> forall|i: int|
        0 <= i < line.glyphs.len() ==> spec_fits(
            #[trigger] spec_stretched_x(line.glyphs, i, spec_space_per_gap(line, target)),
        )
}

/// Whether a line can be justified to `target` in a mode: every value
/// that justification computes fits. To the left and centered every line
/// can; to the right the offset must fit; fully, the places of the glyphs.
pub open spec fn spec_justify_fits(line: LayoutLineModel, target: i64, mode: JustificationMode)
    -> bool {
    match mode {
        JustificationMode::Left => true,
        JustificationMode::Right => spec_fits(target - line.width),
        JustificationMode::Center => true,
        JustificationMode::Justify => spec_stretch_fits(line, target),
    }
}

/// Whether line `i` of `n` lines can be justified among them: under
/// justify the last line always can.
pub open spec fn spec_justify_among_fits(
    line: LayoutLineModel,
    i: int,
    n: int,
    target: i64,
    mode: JustificationMode,
) -> bool {
    (mode == JustificationMode::Justify && i == n - 1) || spec_justify_fits(line, target, mode)
}

/// The detected gaps are counted among the glyphs, so they are at most as
/// many as the glyphs.
pub proof fn lemma_detected_gaps_bound(glyphs: Seq<PositionedGlyph>, k: int)
    requires
        0 <= k,
    ensures
        0 <= spec_detected_gaps(glyphs, k) <= k,
    decreases k,
{
    if k > 0 {
        lemma_detected_gaps_bound(glyphs, k - 1);
    }
}

/// The space that the glyphs of a stretched line are moved by is within
/// the extra space of the line.
pub proof fn lemma_stretch_bound(extra: int, gaps: int, detected: int)
    requires
        extra > 0,
        gaps >= 1,
        0 <= detected <= gaps,
    ensures
        0 <= (extra / gaps) * detected <= extra,
        0 <= extra / gaps <= extra,
{
    let per_gap = extra / gaps;
    vstd::arithmetic::div_mod::lemma_fundamental_div_mod(extra, gaps);
    vstd::arithmetic::div_mod::lemma_div_pos_is_pos(extra, gaps);
    assert(0 <= per_gap * detected <= per_gap * gaps) by (nonlinear_arith)
        requires
            per_gap >= 0,
            0 <= detected <= gaps,
    ;
    assert(per_gap * gaps == gaps * per_gap) by (nonlinear_arith);
    assert(0 <= extra % gaps);
    assert(per_gap <= per_gap * gaps) by (nonlinear_arith)
        requires
            per_gap >= 0,
            gaps >= 1,
    ;
}

/// A line that is no wider than the target stays within the target under
/// every mode: its offset plus its width is at most the target.
pub proof fn lemma_justified_within_target(
    line: LayoutLineModel,
    target: i64,
    mode: JustificationMode,
)
    requires
        spec_justify_fits(line, target, mode),
        line.width <= target,
    ensures
        spec_justified(line, target, mode).x_offset + spec_justified(line, target, mode).width
            <= target,
        spec_justified(line, target, mode).x_offset >= 0,
{
}

/// The right edge of a justified line lies at the target or left of it,
/// unless the line was wider than the target before: then it lies at most
/// where the line ended before.
pub proof fn lemma_justified_right_edge(
    line: LayoutLineModel,
    i: int,
    n: int,
    target: i64,
    mode: JustificationMode,
)
    requires
        spec_justify_among_fits(line, i, n, target, mode),
    ensures
        spec_justified_among(line, i, n, target, mode).x_offset + spec_justified_among(
            line,
            i,
            n,
            target,
            mode,
        ).width <= (if line.width > target {
            line.width
        } else {
            target
        }),
{
}

/// Under justify the last of several lines keeps its width and its
/// glyphs, and starts at the left edge.
pub proof fn lemma_last_line_left_aligned(line: LayoutLineModel, n: int, target: i64)
    requires
        n >= 1,
    ensures
        spec_justified_among(line, n - 1, n, target, JustificationMode::Justify).x_offset == 0,
        spec_justified_among(line, n - 1, n, target, JustificationMode::Justify).width
            == line.width,
        spec_justified_among(line, n - 1, n, target, JustificationMode::Justify).glyphs
            == line.glyphs,
{
}

/// Justification keeps the number of glyphs of a line, its height and its
/// vertical offset.
pub proof fn lemma_justified_keeps(line: LayoutLineModel, target: i64, mode: JustificationMode)
    ensures
        spec_justified(line, target, mode).glyphs.len() == line.glyphs.len(),
        spec_justified(line, target, mode).height == line.height,
        spec_justified(line, target, mode).y_offset == line.y_offset,
        spec_justified(line, target, mode).text_range == line.text_range,
{
}

/// Aligns lines.
#[derive(Debug, Clone, Copy)]
pub struct Justifier;

impl Justifier {
    /// A justifier.
    pub fn new() -> (justifier: Justifier) {
        Justifier
    }

    /// Justifies a line to `target_width` in a mode; see [`spec_justified`].
    pub fn justify_line(&self, line: &mut LayoutLine, target_width: i64, mode: JustificationMode)
        requires
            spec_justify_fits(old(line)@, target_width, mode),
        ensures
            final(line)@ == spec_justified(old(line)@, target_width, mode),
    {
        match mode {
            JustificationMode::Left => {
                line.x_offset = 0;
            },
            JustificationMode::Right => {
                line.x_offset = target_width - line.width;
            },
            JustificationMode::Center => {
                let half: i128 = floor_div(target_width as i128 - line.width as i128, 2);
                line.x_offset = half as i64;
            },
            JustificationMode::Justify => {
                self.distribute_space(line, target_width);
            },
        }
    }

    /// Whether a line can be justified to `target_width` in a mode; see
    /// [`spec_justify_fits`].
    pub fn justify_fits(&self, line: &LayoutLine, target_width: i64, mode: JustificationMode) -> (fits:
        bool)
        ensures
            fits == spec_justify_fits(line@, target_width, mode),
    {
        match mode {
            JustificationMode::Left => true,
            JustificationMode::Right => {
                let offset: i128 = target_width as i128 - line.width as i128;
                i64::MIN as i128 <= offset && offset <= i64::MAX as i128
            },
            JustificationMode::Center => true,
            JustificationMode::Justify => {
                if target_width as i128 - line.width as i128 > 0 && line.glyphs.len() > 0 {
                    Self::stretched(line, target_width).is_some()
                } else {
                    true
                }
            },
        }
    }

    /// Whether a gap lies before glyph `i`; see [`spec_gap_before`].
    fn gap_before(glyphs: &Vec<PositionedGlyph>, i: usize) -> (gap: bool)
        requires
            i < glyphs@.len(),
        ensures
            gap == spec_gap_before(glyphs@, i as int),
    {
        i >= 1 && glyphs[i - 1].advance.x > 0 && 2 * (glyphs[i].advance.x as i128) > 3 * (glyphs[i
            - 1].advance.x as i128)
    }

    /// The glyphs of a stretched line, where the place of every glyph
    /// fits.
    fn stretched(line: &LayoutLine, target_width: i64) -> (r: Option<Vec<PositionedGlyph>>)
        requires
            spec_stretches(line@, target_width),
        ensures
            r is Some <==> spec_stretch_fits(line@, target_width),
            r matches Some(glyphs) ==> glyphs@ == spec_distributed(line@, target_width).glyphs,
    {
        let ghost glyphs = line.glyphs@;
        let extra_space: i128 = target_width as i128 - line.width as i128;
        let gap_count: usize = Justifier.count_justification_gaps(line);
        proof {
            lemma_detected_gaps_bound(glyphs, glyphs.len() as int);
        }
        let space_per_gap: i128 = extra_space / (gap_count as i128);
        let n: usize = line.glyphs.len();
        let mut adjusted: Vec<PositionedGlyph> = Vec::new();
        let mut cumulative_offset: i128 = 0;
        let mut i: usize = 0;
        while i < n
            invariant
                glyphs == line.glyphs@,
                n == glyphs.len(),
                i <= n,
                extra_space == target_width - line.width,
                extra_space > 0,
                gap_count == spec_gap_count(glyphs),
                gap_count >= 1,
                space_per_gap == extra_space as int / gap_count as int,
                space_per_gap == spec_space_per_gap(line@, target_width),
                cumulative_offset == space_per_gap * spec_detected_gaps(glyphs, i as int),
                0 <= cumulative_offset <= extra_space,
                adjusted@.len() == i,
                forall|k: int|
                    0 <= k < i ==> spec_fits(
                        #[trigger] spec_stretched_x(glyphs, k, space_per_gap as int),
                    ),
                forall|k: int|
                    0 <= k < i ==> #[trigger] adjusted@[k] == spec_stretched_glyph(
                        glyphs,
                        k,
                        space_per_gap as int,
                    ),
            decreases n - i,
        {
            let glyph: PositionedGlyph = line.glyphs[i];
            let is_gap: bool = Self::gap_before(&line.glyphs, i);
            proof {
                lemma_detected_gaps_bound(glyphs, i as int + 1);
                lemma_detected_gaps_bound(glyphs, glyphs.len() as int);
                lemma_gaps_monotone(glyphs, i as int + 1, glyphs.len() as int);
                lemma_stretch_bound(
                    extra_space as int,
                    gap_count as int,
                    spec_detected_gaps(glyphs, i as int + 1),
                );
                assert(space_per_gap * (spec_detected_gaps(glyphs, i as int) + 1) == space_per_gap
                    * spec_detected_gaps(glyphs, i as int) + space_per_gap) by (nonlinear_arith);
            }
            if is_gap {
                cumulative_offset = cumulative_offset + space_per_gap;
            }
            let x: i128 = glyph.position.x as i128 + cumulative_offset;
            assert(x == spec_stretched_x(glyphs, i as int, space_per_gap as int));
            if x < i64::MIN as i128 || x > i64::MAX as i128 {
                return None;
            }
            adjusted.push(
                PositionedGlyph {
                    glyph_id: glyph.glyph_id,
                    font_id: glyph.font_id,
                    position: Point { x: x as i64, y: glyph.position.y },
                    advance: glyph.advance,
                    offset: glyph.offset,
                },
            );
            i = i + 1;
        }
        proof {
            assert(adjusted@ =~= spec_distributed(line@, target_width).glyphs);
        }
        Some(adjusted)
    }

    /// Justifies a line fully: the extra space between the line and the
    /// target is divided evenly among the gaps of the line, and every glyph
    /// moves right by the space of the gaps before it. A line that is as wide
    /// as the target or wider, or has no glyphs, is left as it is.
    pub fn distribute_space(&self, line: &mut LayoutLine, target_width: i64)
        requires
            spec_stretch_fits(old(line)@, target_width),
        ensures
            final(line)@ == spec_distributed(old(line)@, target_width),
    {
        if target_width as i128 - line.width as i128 <= 0 || line.glyphs.len() == 0 {
            line.x_offset = 0;
            return;
        }
        match Self::stretched(line, target_width) {
            Some(glyphs) => {
                line.glyphs = glyphs;
                line.x_offset = 0;
                line.width = target_width;
            },
            None => {
                line.x_offset = 0;
            },
        }
    }

    /// Number of gaps that the extra space of a line is divided by; see
    /// [`spec_gap_count`].
    pub fn count_justification_gaps(&self, line: &LayoutLine) -> (gap_count: usize)
        ensures
            gap_count == spec_gap_count(line.glyphs@),
    {
        if line.glyphs.len() == 0 {
            return 0;
        }
        let mut gap_count: usize = 0;
        let mut i: usize = 1;
        proof {
            assert(spec_detected_gaps(line.glyphs@, 1) == 0) by {
                reveal_with_fuel(spec_detected_gaps, 3);
            }
        }
        while i < line.glyphs.len()
            invariant
                1 <= i <= line.glyphs@.len(),
                gap_count == spec_detected_gaps(line.glyphs@, i as int),
                gap_count <= i,
            decreases line.glyphs@.len() - i,
        {
            if Self::gap_before(&line.glyphs, i) {
                gap_count = gap_count + 1;
            }
            i = i + 1;
        }
        if gap_count < 1 {
            1
        } else {
            gap_count
        }
    }

    /// Justifies the lines of a paragraph to `target_width`. Under justify
    /// every line but the last is justified fully and the last line is only
    /// moved to the left edge; under every other mode all lines are
    /// justified alike.
    pub fn justify_lines(
        &self,
        lines: &mut Vec<LayoutLine>,
        target_width: i64,
        mode: JustificationMode,
    )
        requires
            forall|i: int|
                0 <= i < old(lines)@.len() ==> spec_justify_among_fits(
                    (#[trigger] old(lines)@[i])@,
                    i,
                    old(lines)@.len() as int,
                    target_width,
                    mode,
                ),
        ensures
            final(lines)@.len() == old(lines)@.len(),
            forall|i: int|
                0 <= i < final(lines)@.len() ==> (#[trigger] final(lines)@[i])@
                    == spec_justified_among(
                    old(lines)@[i]@,
                    i,
                    old(lines)@.len() as int,
                    target_width,
                    mode,
                ),
    {
        let n: usize = lines.len();
        if n == 0 {
            return;
        }
        let lines_to_justify: usize = match mode {
            JustificationMode::Justify => n - 1,
            _ => n,
        };
        let ghost before = lines@;
        let mut i: usize = 0;
        while i < lines_to_justify
            invariant
                n == before.len(),
                lines@.len() == n,
                i <= lines_to_justify <= n,
                lines_to_justify == (if mode == JustificationMode::Justify {
                    n - 1
                } else {
                    n as int
                }),
                forall|k: int|
                    0 <= k < n ==> spec_justify_among_fits(
                        (#[trigger] before[k])@,
                        k,
                        n as int,
                        target_width,
                        mode,
                    ),
                forall|k: int| i <= k < n ==> #[trigger] lines@[k] == before[k],
                forall|k: int|
                    0 <= k < i ==> (#[trigger] lines@[k])@ == spec_justified_among(
                        before[k]@,
                        k,
                        n as int,
                        target_width,
                        mode,
                    ),
            decreases lines_to_justify - i,
        {
            let mut line: LayoutLine = lines[i].clone();
            assert(spec_justify_among_fits(before[i as int]@, i as int, n as int, target_width, mode));
            self.justify_line(&mut line, target_width, mode);
            lines.set(i, line);
            i = i + 1;
        }
        match mode {
            JustificationMode::Justify => {
                let mut last: LayoutLine = lines[n - 1].clone();
                last.x_offset = 0;
                lines.set(n - 1, last);
            },
            _ => {},
        }
    }

    /// Whether the lines of a paragraph can be justified to `target_width`:
    /// whether each of them can, among the others.
    pub fn justify_lines_fit(
        &self,
        lines: &Vec<LayoutLine>,
        target_width: i64,
        mode: JustificationMode,
    ) -> (fits: bool)
        ensures
            fits == forall|i: int|
                0 <= i < lines@.len() ==> spec_justify_among_fits(
                    (#[trigger] lines@[i])@,
                    i,
                    lines@.len() as int,
                    target_width,
                    mode,
                ),
    {
        let n: usize = lines.len();
        let mut i: usize = 0;
        while i < n
            invariant
                n == lines@.len(),
                i <= n,
                forall|k: int|
                    0 <= k < i ==> spec_justify_among_fits(
                        (#[trigger] lines@[k])@,
                        k,
                        n as int,
                        target_width,
                        mode,
                    ),
            decreases n - i,
        {
            let last_under_justify: bool = i == n - 1 && match mode {
                JustificationMode::Justify => true,
                _ => false,
            };
            if !last_under_justify && !self.justify_fits(&lines[i], target_width, mode) {
                assert(!spec_justify_among_fits(
                    lines@[i as int]@,
                    i as int,
                    n as int,
                    target_width,
                    mode,
                ));
                return false;
            }
            i = i + 1;
        }
        true
    }
}

/// The number of detected gaps grows with the number of glyphs counted.
pub proof fn lemma_gaps_monotone(glyphs: Seq<PositionedGlyph>, a: int, b: int)
    requires
        0 <= a <= b,
    ensures
        spec_detected_gaps(glyphs, a) <= spec_detected_gaps(glyphs, b),
    decreases b - a,
{
    if a < b {
        lemma_gaps_monotone(glyphs, a, b - 1);
    }
}

impl Default for Justifier {
    /// A justifier.
    fn default() -> (justifier: Justifier) {
        Justifier::new()
    }
}

} // verus!
