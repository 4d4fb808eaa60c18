//! Vertical layout: a shaped run is stacked into columns, top to bottom.

use vstd::prelude::*;
use vstd::string::StringExecFns;
use crate::font_types::{GlyphId, Point, PositionedGlyph, ShapedText, ShapedTextModel, Vector};
use crate::text_layout::paragraph::{
    lemma_advance_room,
    lemma_glyph_ids_split,
    lemma_glyph_total_push,
    lemma_line_ids_push,
    spec_advance_sum,
    spec_glyph_ids,
    spec_glyph_total,
    spec_line_ids,
};
use crate::text_layout::types::{
    spec_fits,
    spec_line_models,
    LayoutError,
    LayoutLine,
    LayoutLineModel,
    LayoutOptions,
    LayoutResult,
    TextDirection,
};

verus! {

/// Glyph `i` of a column that starts at glyph `a`, turned for vertical
/// text: it is drawn below the glyphs of the column before it, and what was
/// its horizontal advance moves the pen down.
pub open spec fn spec_turned_glyph(glyphs: Seq<PositionedGlyph>, a: int, i: int) -> PositionedGlyph {
    PositionedGlyph {
        glyph_id: glyphs[i].glyph_id,
        font_id: glyphs[i].font_id,
        position: Point { x: glyphs[i].position.x, y: spec_advance_sum(glyphs, a, i) as i64 },
        advance: Vector { x: 0, y: glyphs[i].advance.x },
        offset: glyphs[i].offset,
    }
}

/// The column made of the glyphs from `a` up to `b`, as the column with
/// the given index. Its `width` is its vertical extent, one height of the
/// run for every glyph; its `height` is the width of the run; it stands to
/// the right of the columns before it.
pub open spec fn spec_column(shaped: ShapedTextModel, a: int, b: int, index: int)
    -> LayoutLineModel {
    LayoutLineModel {
        glyphs: Seq::new((b - a) as nat, |i: int| spec_turned_glyph(shaped.glyphs, a, a + i)),
        width: ((b - a) * shaped.height) as i64,
        height: shaped.width,
        baseline: shaped.baseline,
        x_offset: (index * shaped.width) as i64,
        y_offset: 0,
        text_range: (a as usize, b as usize),
    }
}

/// The columns that were emitted, and the index of the glyph at which the
/// column that is being filled starts.
pub struct ColumnState {
    /// The columns emitted so far.
    pub columns: Seq<LayoutLineModel>,
    /// Start of the column that is being filled.
    pub start: int,
}

/// The state of the stacking after the first `k` glyphs: before a glyph
/// is added, a column that has glyphs and would grow beyond the limit ends.
pub open spec fn spec_stack(shaped: ShapedTextModel, limit: i64, k: int) -> ColumnState
    decreases k,
{
    if k <= 0 {
        ColumnState { columns: Seq::<LayoutLineModel>::empty(), start: 0 }
    } else {
        let prev = spec_stack(shaped, limit, k - 1);
        let g = k - 1;
        if g > prev.start && (g - prev.start) * shaped.height + shaped.height > limit {
            ColumnState {
                columns: prev.columns.push(
                    spec_column(shaped, prev.start, g, prev.columns.len() as int),
                ),
                start: g,
            }
        } else {
            prev
        }
    }
}

/// The columns that a run is stacked into. A run without glyphs gives one
/// empty column, as high as the run.
pub open spec fn spec_columns(shaped: ShapedTextModel, limit: i64) -> Seq<LayoutLineModel> {
    if shaped.glyphs.len() == 0 {
        seq![
            LayoutLineModel {
                glyphs: Seq::<PositionedGlyph>::empty(),
                width: shaped.height,
                height: shaped.width,
                baseline: shaped.baseline,
                x_offset: 0,
                y_offset: 0,
                text_range: (0usize, 0usize),
            },
        ]
    } else {
        let stack = spec_stack(shaped, limit, shaped.glyphs.len() as int);
        stack.columns.push(
            spec_column(
                shaped,
                stack.start,
                shaped.glyphs.len() as int,
                stack.columns.len() as int,
            ),
        )
    }
}

/// The greatest of 0 and the vertical extents of the first `k` columns.
pub open spec fn spec_max_extent(columns: Seq<LayoutLineModel>, k: int) -> int
    decreases k,
{
    if k <= 0 {
        0
    } else {
        let earlier = spec_max_extent(columns, k - 1);
        if columns[k - 1].width > earlier {
            columns[k - 1].width as int
        } else {
            earlier
        }
    }
}

/// Whether the options can be used for a vertical layout.
pub open spec fn spec_vertical_options_valid(options: LayoutOptions) -> bool {
    &&& 0 < options.max_width
    &&& options.direction == TextDirection::TopToBottom
}

/// Whether the column of the glyphs from `a` up to `b` with the given
/// index can be made: its extent, its offset and the place of each of its
/// glyphs fit.
pub open spec fn spec_column_fits(shaped: ShapedTextModel, a: int, b: int, index: int) -> bool {
    &&& spec_fits((b - a) * shaped.height)
    &&& spec_fits(index * shaped.width)
    &&& forall|i: int| a <= i < b ==> spec_fits(#[trigger] spec_advance_sum(shaped.glyphs, a, i))
}

/// Whether every column can be made.
pub open spec fn spec_columns_fit(shaped: ShapedTextModel, columns: Seq<LayoutLineModel>) -> bool {
    forall|i: int|
        0 <= i < columns.len() ==> spec_column_fits(
            shaped,
            (#[trigger] columns[i]).text_range.0 as int,
            columns[i].text_range.1 as int,
            i,
        )
}

/// Whether a run can be laid out vertically: every value that the layout
/// computes fits a 64-bit fixed-point value. These are what is computed for
/// each column, and the width of the whole.
pub open spec fn spec_vertical_fits(shaped: ShapedTextModel, limit: i64) -> bool {
    let columns = spec_columns(shaped, limit);
    &&& spec_columns_fit(shaped, columns)
    &&& spec_fits(columns.last().x_offset + columns.last().height)
}

/// What laying a run out vertically returns.
pub open spec fn spec_vertical_outcome(
    text_len: usize,
    shaped: ShapedText,
    options: LayoutOptions,
    r: Result<LayoutResult, LayoutError>,
) -> bool {
    if text_len == 0 {
        r matches Err(e) && e is InvalidText
    } else if !spec_vertical_options_valid(options) {
        r matches Err(e) && e is InvalidOptions
    } else if !spec_vertical_fits(shaped@, options.max_width) {
        r matches Err(e) && e is Overflow
    } else {
        let columns = spec_columns(shaped@, options.max_width);
        &&& r is Ok
        &&& spec_line_models(r->Ok_0.lines@) == columns
        &&& spec_glyph_total(columns) == shaped@.glyphs.len()
        &&& spec_line_ids(columns) == spec_glyph_ids(shaped@.glyphs)
        &&& r->Ok_0.total_width == columns.last().x_offset + columns.last().height
        &&& r->Ok_0.total_height == spec_max_extent(columns, columns.len() as int)
        &&& r->Ok_0.overflow == (options.max_height matches Some(max_height)
            && r->Ok_0.total_width > max_height)
    }
}

/// The columns that were emitted after `k` glyphs stay as they are when
/// more glyphs are added.
pub proof fn lemma_stack_prefix(shaped: ShapedTextModel, limit: i64, k: int, j: int)
    requires
        0 <= k <= j,
    ensures
        spec_stack(shaped, limit, k).columns.len() <= spec_stack(shaped, limit, j).columns.len(),
        forall|i: int|
            0 <= i < spec_stack(shaped, limit, k).columns.len() ==> spec_stack(
                shaped,
                limit,
                j,
            ).columns[i] == #[trigger] spec_stack(shaped, limit, k).columns[i],
    decreases j - k,
{
    if j > k {
        lemma_stack_prefix(shaped, limit, k, j - 1);
    }
}

/// After `k` glyphs the emitted columns hold exactly the glyphs before the
/// start of the column that is being filled.
pub proof fn lemma_stack(shaped: ShapedTextModel, limit: i64, k: int)
    requires
        0 <= k <= shaped.glyphs.len(),
    ensures
        0 <= spec_stack(shaped, limit, k).start <= k,
        spec_stack(shaped, limit, k).columns.len() <= k,
        spec_glyph_total(spec_stack(shaped, limit, k).columns) == spec_stack(
            shaped,
            limit,
            k,
        ).start,
    decreases k,
{
    if k > 0 {
        lemma_stack(shaped, limit, k - 1);
        let prev = spec_stack(shaped, limit, k - 1);
        lemma_glyph_total_push(
            prev.columns,
            spec_column(shaped, prev.start, k - 1, prev.columns.len() as int),
        );
    }
}

/// The columns that a run is stacked into hold every glyph of the run
/// exactly once.
pub proof fn lemma_columns(shaped: ShapedTextModel, limit: i64)
    ensures
        spec_glyph_total(spec_columns(shaped, limit)) == shaped.glyphs.len(),
        1 <= spec_columns(shaped, limit).len() <= shaped.glyphs.len() + 1,
{
    let n = shaped.glyphs.len() as int;
    if n == 0 {
        let column = spec_columns(shaped, limit)[0];
        lemma_glyph_total_push(Seq::<LayoutLineModel>::empty(), column);
        assert(spec_columns(shaped, limit) =~= Seq::<LayoutLineModel>::empty().push(column));
    } else {
        lemma_stack(shaped, limit, n);
        let stack = spec_stack(shaped, limit, n);
        lemma_glyph_total_push(
            stack.columns,
            spec_column(shaped, stack.start, n, stack.columns.len() as int),
        );
    }
}

/// After `k` glyphs the emitted columns, read column after column, hold
/// the glyphs before the start of the column that is being filled, in the
/// order of the run.
pub proof fn lemma_stack_order(shaped: ShapedTextModel, limit: i64, k: int)
    requires
        0 <= k <= shaped.glyphs.len(),
    ensures
        0 <= spec_stack(shaped, limit, k).start <= k,
        spec_line_ids(spec_stack(shaped, limit, k).columns) == spec_glyph_ids(
            shaped.glyphs.subrange(0, spec_stack(shaped, limit, k).start),
        ),
    decreases k,
{
    if k > 0 {
        lemma_stack_order(shaped, limit, k - 1);
        let prev = spec_stack(shaped, limit, k - 1);
        let column = spec_column(shaped, prev.start, k - 1, prev.columns.len() as int);
        lemma_line_ids_push(prev.columns, column);
        lemma_glyph_ids_split(shaped.glyphs, prev.start, k - 1);
        assert(spec_glyph_ids(column.glyphs) =~= spec_glyph_ids(
            shaped.glyphs.subrange(prev.start, k - 1),
        ));
    } else {
        assert(spec_glyph_ids(shaped.glyphs.subrange(0, 0)) =~= Seq::<GlyphId>::empty());
    }
}

/// The columns that a run is stacked into, read column after column, hold
/// the glyphs of the run in their order.
pub proof fn lemma_columns_order(shaped: ShapedTextModel, limit: i64)
    ensures
        spec_line_ids(spec_columns(shaped, limit)) == spec_glyph_ids(shaped.glyphs),
{
    let n = shaped.glyphs.len() as int;
    if n == 0 {
        let column = spec_columns(shaped, limit)[0];
        lemma_line_ids_push(Seq::<LayoutLineModel>::empty(), column);
        assert(spec_columns(shaped, limit) =~= Seq::<LayoutLineModel>::empty().push(column));
        assert(spec_line_ids(spec_columns(shaped, limit)) =~= spec_glyph_ids(shaped.glyphs));
    } else {
        lemma_stack_order(shaped, limit, n);
        let stack = spec_stack(shaped, limit, n);
        let column = spec_column(shaped, stack.start, n, stack.columns.len() as int);
        lemma_line_ids_push(stack.columns, column);
        lemma_glyph_ids_split(shaped.glyphs, stack.start, n);
        assert(spec_glyph_ids(column.glyphs) =~= spec_glyph_ids(
            shaped.glyphs.subrange(stack.start, n),
        ));
        assert(shaped.glyphs.subrange(0, n) =~= shaped.glyphs);
    }
}

/// Lays text out vertically.
#[derive(Debug, Clone, Copy)]
pub struct VerticalLayout;

impl VerticalLayout {
    /// A vertical layout engine.
    pub fn new() -> (layout: VerticalLayout) {
        VerticalLayout
    }

    /// Lays a shaped run out in columns.
    ///
    /// The maximum width of the options is the greatest height of a
    /// column. Glyphs are stacked downward, each taking one height of the
    /// run, until the next glyph would take the column beyond that height.
    /// Columns follow each other left to right, one width of the run apart.
    /// The result holds every glyph of the run exactly once, in the order of
    /// the run.
    ///
    /// Fails with `InvalidText` for an empty text, with `InvalidOptions`
    /// when the maximum width is not positive or the direction is not top to
    /// bottom, and with `Overflow` when a value that the layout computes does
    /// not fit a 64-bit fixed-point value; see [`spec_vertical_fits`].
    pub fn layout_vertical(&self, text: &str, shaped_text: &ShapedText, options: &LayoutOptions)
        -> (r: Result<LayoutResult, LayoutError>)
        ensures
            spec_vertical_outcome(
                vstd::utf8::encode_utf8(text@).len() as usize,
                *shaped_text,
                *options,
                r,
            ),
    {
        match self.validate_inputs(text.len(), options) {
            Ok(_) => {},
            Err(e) => {
                return Err(e);
            },
        }
        let columns: Vec<LayoutLine> = match self.break_into_columns(
            shaped_text,
            options.max_width,
        ) {
            Ok(columns) => columns,
            Err(e) => {
                return Err(e);
            },
        };
        let ghost models = spec_line_models(columns@);
        proof {
            lemma_columns(shaped_text@, options.max_width);
            lemma_columns_order(shaped_text@, options.max_width);
        }
        let n: usize = columns.len();
        let last: &LayoutLine = &columns[n - 1];
        proof {
            assert(models[n as int - 1] == columns@[n as int - 1]@);
        }
        let total_width: i128 = last.x_offset as i128 + last.height as i128;
        if total_width < i64::MIN as i128 || total_width > i64::MAX as i128 {
            return Err(
                LayoutError::Overflow(String::from_str("The width of the layout does not fit")),
            );
        }
        let total_width: i64 = total_width as i64;
        let mut total_height: i64 = 0;
        let mut i: usize = 0;
        while i < n
            invariant
                n == columns@.len(),
                i <= n,
                models == spec_line_models(columns@),
                total_height == spec_max_extent(models, i as int),
            decreases n - i,
        {
            assert(models[i as int] == columns@[i as int]@);
            if columns[i].width > total_height {
                total_height = columns[i].width;
            }
            i = i + 1;
        }
        let overflow: bool = match options.max_height {
            Some(max_height) => total_width > max_height,
            None => false,
        };
        Ok(LayoutResult { lines: columns, total_height, total_width, overflow })
    }

    /// Checks the length of the text and the options of a vertical layout.
    pub fn validate_inputs(&self, text_len: usize, options: &LayoutOptions) -> (r: Result<
        (),
        LayoutError,
    >)
        ensures
            r is Ok <==> text_len > 0 && spec_vertical_options_valid(*options),
            r matches Err(e) ==> (e is InvalidText <==> text_len == 0) && (e is InvalidText || e
                is InvalidOptions),
    {
        if text_len == 0 {
            return Err(LayoutError::InvalidText(String::from_str("Text is empty")));
        }
        if options.max_width <= 0 {
            return Err(LayoutError::InvalidOptions(String::from_str("max_width must be positive")));
        }
        match options.direction {
            TextDirection::TopToBottom => {},
            _ => {
                return Err(
                    LayoutError::InvalidOptions(
                        String::from_str("Vertical layout requires TopToBottom direction"),
                    ),
                );
            },
        }
        Ok(())
    }

    /// The column made of the glyphs of a run from `a` up to `b`, where
    /// what is computed for it fits.
    fn make_column(shaped_text: &ShapedText, a: usize, b: usize, index: usize) -> (r: Option<
        LayoutLine,
    >)
        requires
            a <= b <= shaped_text.glyphs@.len(),
        ensures
            r is Some <==> spec_column_fits(shaped_text@, a as int, b as int, index as int),
            r matches Some(column) ==> column@ == spec_column(
                shaped_text@,
                a as int,
                b as int,
                index as int,
            ),
    {
        let n: usize = shaped_text.glyphs.len();
        let mut glyphs: Vec<PositionedGlyph> = Vec::new();
        let mut y_pos: i128 = 0;
        let mut i: usize = a;
        while i < b
            invariant
                a <= i <= b <= shaped_text.glyphs@.len(),
                n == shaped_text.glyphs@.len(),
                y_pos == spec_advance_sum(shaped_text.glyphs@, a as int, i as int),
                glyphs@.len() == i - a,
                forall|m: int|
                    a <= m < i ==> spec_fits(
                        #[trigger] spec_advance_sum(shaped_text.glyphs@, a as int, m),
                    ),
                forall|m: int|
                    0 <= m < i - a ==> #[trigger] glyphs@[m] == spec_turned_glyph(
                        shaped_text.glyphs@,
                        a as int,
                        a + m,
                    ),
            decreases b - i,
        {
            proof {
                lemma_advance_room(shaped_text.glyphs@, a as int, i as int);
            }
            if y_pos < i64::MIN as i128 || y_pos > i64::MAX as i128 {
                assert(!spec_fits(spec_advance_sum(shaped_text@.glyphs, a as int, i as int)));
                return None;
            }
            let glyph: PositionedGlyph = shaped_text.glyphs[i];
            glyphs.push(
                PositionedGlyph {
                    glyph_id: glyph.glyph_id,
                    font_id: glyph.font_id,
                    position: Point { x: glyph.position.x, y: y_pos as i64 },
                    advance: Vector { x: 0, y: glyph.advance.x },
                    offset: glyph.offset,
                },
            );
            y_pos = y_pos + glyph.advance.x as i128;
            i = i + 1;
        }
        assert(-0xFFFF_FFFF_FFFF_FFFF * 0x8000_0000_0000_0000 <= (b - a) * shaped_text.height
            <= 0xFFFF_FFFF_FFFF_FFFF * 0x8000_0000_0000_0000 && -0xFFFF_FFFF_FFFF_FFFF
            * 0x8000_0000_0000_0000 <= index * shaped_text.width <= 0xFFFF_FFFF_FFFF_FFFF
            * 0x8000_0000_0000_0000) by (nonlinear_arith)
            requires
                0 <= b - a <= 0xFFFF_FFFF_FFFF_FFFF,
                0 <= index <= 0xFFFF_FFFF_FFFF_FFFF,
                -0x8000_0000_0000_0000 <= shaped_text.height <= 0x8000_0000_0000_0000,
                -0x8000_0000_0000_0000 <= shaped_text.width <= 0x8000_0000_0000_0000,
        ;
        let extent: i128 = (b - a) as i128 * shaped_text.height as i128;
        let x_offset: i128 = index as i128 * shaped_text.width as i128;
        if extent < i64::MIN as i128 || extent > i64::MAX as i128 || x_offset < i64::MIN as i128
            || x_offset > i64::MAX as i128 {
            return None;
        }
        let column = LayoutLine {
            glyphs,
            width: extent as i64,
            height: shaped_text.width,
            baseline: shaped_text.baseline,
            x_offset: x_offset as i64,
            y_offset: 0,
            text_range: (a, b),
        };
        proof {
            assert(column@.glyphs =~= spec_column(
                shaped_text@,
                a as int,
                b as int,
                index as int,
            ).glyphs);
        }
        Some(column)
    }

    /// Stacks a run into columns no higher than `max_column_height`; see
    /// [`spec_columns`]. Fails with `Overflow` when what is computed for a
    /// column does not fit.
    pub fn break_into_columns(&self, shaped_text: &ShapedText, max_column_height: i64) -> (r:
        Result<Vec<LayoutLine>, LayoutError>)
        ensures
            r is Ok <==> spec_columns_fit(
                shaped_text@,
                spec_columns(shaped_text@, max_column_height),
            ),
            r matches Ok(columns) ==> spec_line_models(columns@) == spec_columns(
                shaped_text@,
                max_column_height,
            ),
            r matches Err(e) ==> e is Overflow,
    {
        let ghost shaped = shaped_text@;
        let ghost all = spec_columns(shaped, max_column_height);
        let mut columns: Vec<LayoutLine> = Vec::new();
        let n: usize = shaped_text.glyphs.len();
        if n == 0 {
            columns.push(
                LayoutLine {
                    glyphs: Vec::new(),
                    width: shaped_text.height,
                    height: shaped_text.width,
                    baseline: shaped_text.baseline,
                    x_offset: 0,
                    y_offset: 0,
                    text_range: (0, 0),
                },
            );
            assert(spec_line_models(columns@) =~= all);
            assert((0 - 0) * shaped.height == 0 && 0 * shaped.width == 0) by (nonlinear_arith);
            assert(spec_column_fits(shaped, 0, 0, 0));
            return Ok(columns);
        }
        let glyph_height: i128 = shaped_text.height as i128;
        let mut column_start: usize = 0;
        let mut current_height: i128 = 0;
        let mut k: usize = 0;
        while k < n
            invariant
                shaped == shaped_text@,
                all == spec_columns(shaped, max_column_height),
                n == shaped.glyphs.len(),
                n > 0,
                glyph_height == shaped.height,
                k <= n,
                column_start <= k,
                column_start == spec_stack(shaped, max_column_height, k as int).start,
                spec_line_models(columns@) == spec_stack(shaped, max_column_height, k as int).columns,
                spec_columns_fit(shaped, spec_line_models(columns@)),
                current_height == (k - column_start) * glyph_height,
            decreases n - k,
        {
            let ghost prev = spec_stack(shaped, max_column_height, k as int);
            assert(-0xFFFF_FFFF_FFFF_FFFE * 0x8000_0000_0000_0000 <= (k - column_start)
                * glyph_height <= 0xFFFF_FFFF_FFFF_FFFE * 0x8000_0000_0000_0000 && (k + 1
                - column_start) * glyph_height == (k - column_start) * glyph_height
                + glyph_height) by (nonlinear_arith)
                requires
                    0 <= k - column_start <= 0xFFFF_FFFF_FFFF_FFFE,
                    -0x8000_0000_0000_0000 <= glyph_height <= 0x8000_0000_0000_0000,
            ;
            if k > column_start && current_height + glyph_height > max_column_height as i128 {
                let ghost at = columns@.len() as int;
                match Self::make_column(shaped_text, column_start, k, columns.len()) {
                    Some(column) => {
                        let ghost before = spec_line_models(columns@);
                        columns.push(column);
                        assert(spec_line_models(columns@) =~= before.push(column@));
                    },
                    None => {
                        proof {
                            let next = spec_stack(shaped, max_column_height, k as int + 1);
                            assert(next.columns[at] == spec_column(
                                shaped,
                                column_start as int,
                                k as int,
                                at,
                            ));
                            lemma_stack_prefix(shaped, max_column_height, k as int + 1, n as int);
                            assert(all[at] == next.columns[at]);
                        }
                        return Err(Self::too_large());
                    },
                }
                column_start = k;
                current_height = 0;
                assert((k + 1 - k) * glyph_height == glyph_height) by (nonlinear_arith);
            }
            current_height = current_height + glyph_height;
            k = k + 1;
        }
        let ghost at = columns@.len() as int;
        match Self::make_column(shaped_text, column_start, n, columns.len()) {
            Some(column) => {
                let ghost before = spec_line_models(columns@);
                columns.push(column);
                assert(spec_line_models(columns@) =~= before.push(column@));
            },
            None => {
                assert(all[at] == spec_column(shaped, column_start as int, n as int, at));
                return Err(Self::too_large());
            },
        }
        Ok(columns)
    }

    /// The error for a column for which a computed value does not fit.
    fn too_large() -> (e: LayoutError)
        ensures
            e is Overflow,
    {
        LayoutError::Overflow(String::from_str("A column does not fit"))
    }
}

impl Default for VerticalLayout {
    /// A vertical layout engine.
    fn default() -> (layout: VerticalLayout) {
        VerticalLayout::new()
    }
}

} // verus!
