//! The segments of a controller as text: one table per segment, with the
//! height and the number of cells of every AIR.

use vstd::prelude::*;
use vstd::string::*;
use vstd::utf8::encode_utf8;
use crate::segment_ctx::{Segment, SegmentationCtx};
use crate::text::{dec, dec_len, pad_left, pad_right, push_dec, push_fill, push_wide_dec, repeat};

verus! {

/// The widths of the three columns of a table.
pub struct ColumnWidths {
    pub name: u128,
    pub height: u128,
    pub cells: u128,
}

/// The greater of two numbers.
pub open spec fn greater(a: nat, b: nat) -> nat {
    if a >= b {
        a
    } else {
        b
    }
}

/// The greatest length in bytes among the first `n` names.
pub open spec fn names_width_upto(names: Seq<String>, n: int) -> nat
    decreases n,
{
    if n <= 0 {
        0
    } else {
        greater(names_width_upto(names, n - 1), encode_utf8(names[n - 1]@).len())
    }
}

/// The greatest among the first `n` heights.
pub open spec fn heights_max_upto(heights: Seq<u32>, n: int) -> nat
    decreases n,
{
    if n <= 0 {
        0
    } else {
        greater(heights_max_upto(heights, n - 1), heights[n - 1] as nat)
    }
}

/// The greatest height among the first `s` segments.
pub open spec fn segments_max_height_upto(segments: Seq<Segment>, s: int) -> nat
    decreases s,
{
    if s <= 0 {
        0
    } else {
        greater(
            segments_max_height_upto(segments, s - 1),
            heights_max_upto(segments[s - 1].trace_heights@, segments[s - 1].trace_heights@.len() as int),
        )
    }
}

/// The width of AIR `j`; an AIR without a width counts as of width zero.
pub open spec fn width_at(widths: Seq<usize>, j: int) -> nat {
    if 0 <= j < widths.len() {
        widths[j] as nat
    } else {
        0
    }
}

/// The number of cells of AIR `j` at the given heights.
pub open spec fn cells_at(heights: Seq<u32>, widths: Seq<usize>, j: int) -> nat {
    heights[j] as nat * width_at(widths, j)
}

/// The greatest number of cells among the first `n` AIRs.
pub open spec fn cells_max_upto(heights: Seq<u32>, widths: Seq<usize>, n: int) -> nat
    decreases n,
{
    if n <= 0 {
        0
    } else {
        greater(cells_max_upto(heights, widths, n - 1), cells_at(heights, widths, n - 1))
    }
}

/// The greatest number of cells among the first `s` segments.
pub open spec fn segments_max_cells_upto(segments: Seq<Segment>, widths: Seq<usize>, s: int) -> nat
    decreases s,
{
    if s <= 0 {
        0
    } else {
        greater(
            segments_max_cells_upto(segments, widths, s - 1),
            cells_max_upto(
                segments[s - 1].trace_heights@,
                widths,
                segments[s - 1].trace_heights@.len() as int,
            ),
        )
    }
}

/// The column widths of a controller: wide enough for the titles, for the
/// longest name in bytes, and for the greatest height and number of cells.
pub open spec fn spec_column_widths(ctx: SegmentationCtx) -> ColumnWidths {
    ColumnWidths {
        name: greater(8, names_width_upto(ctx.air_names@, ctx.air_names@.len() as int)) as u128,
        height: greater(
            6,
            dec(segments_max_height_upto(ctx.segments@, ctx.segments@.len() as int)).len(),
        ) as u128,
        cells: greater(
            5,
            dec(segments_max_cells_upto(ctx.segments@, ctx.widths@, ctx.segments@.len() as int)).len(),
        ) as u128,
    }
}

/// One row of a table: the three cells between bars, the first aligned to
/// the left and the numbers to the right.
pub open spec fn row_text(first: Seq<char>, second: Seq<char>, third: Seq<char>, w: ColumnWidths) -> Seq<
    char,
> {
    "  | "@ + pad_right(first, w.name as nat, ' ') + " | "@ + pad_left(second, w.height as nat, ' ')
        + " | "@ + pad_left(third, w.cells as nat, ' ') + " |\n"@
}

/// The rule under the titles.
pub open spec fn rule_text(w: ColumnWidths) -> Seq<char> {
    "  |"@ + repeat('-', (w.name + 2) as nat) + "|"@ + repeat('-', (w.height + 2) as nat) + "|"@
        + repeat('-', (w.cells + 2) as nat) + "|\n"@
}

/// The name of AIR `j`, or "Unknown" where the controller has no name for it.
pub open spec fn name_at(names: Seq<String>, j: int) -> Seq<char> {
    if 0 <= j < names.len() {
        names[j]@
    } else {
        "Unknown"@
    }
}

/// The first `n` rows of the table of a segment.
pub open spec fn rows_upto(
    heights: Seq<u32>,
    names: Seq<String>,
    widths: Seq<usize>,
    w: ColumnWidths,
    n: int,
) -> Seq<char>
    decreases n,
{
    if n <= 0 {
        Seq::empty()
    } else {
        rows_upto(heights, names, widths, w, n - 1) + row_text(
            name_at(names, n - 1),
            dec(heights[n - 1] as nat),
            dec(cells_at(heights, widths, n - 1)),
            w,
        )
    }
}

/// The heading of the segment with the given number.
pub open spec fn heading_text(index: nat, segment: Segment, w: ColumnWidths) -> Seq<char> {
    "\nSegment #"@ + dec(index) + "\n  Instret Start: "@ + dec(segment.instret_start as nat)
        + "\n  Num Insns:     "@ + dec(segment.num_insns as nat) + "\n"@ + row_text(
        "Air Name"@,
        "Height"@,
        "Cells"@,
        w,
    ) + rule_text(w)
}

/// The tables of the first `n` segments.
pub open spec fn tables_upto(ctx: SegmentationCtx, w: ColumnWidths, n: int) -> Seq<char>
    decreases n,
{
    if n <= 0 {
        Seq::empty()
    } else {
        tables_upto(ctx, w, n - 1) + heading_text((n - 1) as nat, ctx.segments@[n - 1], w)
            + rows_upto(
            ctx.segments@[n - 1].trace_heights@,
            ctx.air_names@,
            ctx.widths@,
            w,
            ctx.segments@[n - 1].trace_heights@.len() as int,
        )
    }
}

/// The report of a controller: the tables of all segments and an empty line.
pub open spec fn report_text(ctx: SegmentationCtx) -> Seq<char> {
    tables_upto(ctx, spec_column_widths(ctx), ctx.segments@.len() as int) + "\n"@
}

/// The width of AIR `j`, or zero where the controller has none for it.
fn width_of(widths: &Vec<usize>, j: usize) -> (width: u128)
    ensures
        width == width_at(widths@, j as int),
{
    if j < widths.len() {
        widths[j] as u128
    } else {
        0
    }
}

/// The number of cells of AIR `j`.
fn cells_of(heights: &Vec<u32>, widths: &Vec<usize>, j: usize) -> (cells: u128)
    requires
        j < heights@.len(),
    ensures
        cells == cells_at(heights@, widths@, j as int),
        cells <= 0xffff_ffff * 0xffff_ffff_ffff_ffff,
{
    let height = heights[j] as u128;
    let width = width_of(widths, j);
    assert(height * width <= 0xffff_ffff * 0xffff_ffff_ffff_ffff) by (nonlinear_arith)
        requires
            0 <= height <= 0xffff_ffff,
            0 <= width <= 0xffff_ffff_ffff_ffff,
    ;
    height * width
}

/// Computes the column widths of a controller.
pub fn column_widths(ctx: &SegmentationCtx) -> (w: ColumnWidths)
    ensures
        w == spec_column_widths(*ctx),
        8 <= w.name <= usize::MAX,
        6 <= w.height <= 39,
        5 <= w.cells <= 39,
{
    let mut name: usize = 0;
    let mut i: usize = 0;
    while i < ctx.air_names.len()
        invariant
            i <= ctx.air_names@.len(),
            name == names_width_upto(ctx.air_names@, i as int),
        decreases ctx.air_names@.len() - i,
    {
        let len = ctx.air_names[i].as_str().as_bytes().len();
        if len > name {
            name = len;
        }
        i = i + 1;
    }
    let mut max_height: u32 = 0;
    let mut max_cells: u128 = 0;
    let mut s: usize = 0;
    while s < ctx.segments.len()
        invariant
            s <= ctx.segments@.len(),
            max_height == segments_max_height_upto(ctx.segments@, s as int),
            max_cells == segments_max_cells_upto(ctx.segments@, ctx.widths@, s as int),
            max_cells <= 0xffff_ffff * 0xffff_ffff_ffff_ffff,
        decreases ctx.segments@.len() - s,
    {
        let heights = &ctx.segments[s].trace_heights;
        let mut segment_height: u32 = 0;
        let mut segment_cells: u128 = 0;
        let mut j: usize = 0;
        while j < heights.len()
            invariant
                j <= heights@.len(),
                segment_height == heights_max_upto(heights@, j as int),
                segment_cells == cells_max_upto(heights@, ctx.widths@, j as int),
                segment_cells <= 0xffff_ffff * 0xffff_ffff_ffff_ffff,
            decreases heights@.len() - j,
        {
            if heights[j] > segment_height {
                segment_height = heights[j];
            }
            let cells = cells_of(heights, &ctx.widths, j);
            if cells > segment_cells {
                segment_cells = cells;
            }
            j = j + 1;
        }
        if segment_height > max_height {
            max_height = segment_height;
        }
        if segment_cells > max_cells {
            max_cells = segment_cells;
        }
        s = s + 1;
    }
    let height_digits = dec_len(max_height as u128);
    let cells_digits = dec_len(max_cells);
    ColumnWidths {
        name: if name > 8 {
            name as u128
        } else {
            8
        },
        height: if height_digits > 6 {
            height_digits as u128
        } else {
            6
        },
        cells: if cells_digits > 5 {
            cells_digits as u128
        } else {
            5
        },
    }
}

/// Appends a text aligned to the left of its column.
fn push_left_aligned(text: &mut String, cell: &str, width: u128)
    ensures
        final(text)@ == old(text)@ + pad_right(cell@, width as nat, ' '),
{
    let chars = cell.unicode_len() as u128;
    text.append(cell);
    if chars < width {
        push_fill(text, width - chars, false);
    }
    assert(final(text)@ =~= old(text)@ + pad_right(cell@, width as nat, ' '));
}

/// Appends a number aligned to the right of its column.
fn push_right_aligned_number(text: &mut String, n: u128, width: u128)
    ensures
        final(text)@ == old(text)@ + pad_left(dec(n as nat), width as nat, ' '),
{
    let digits = dec_len(n) as u128;
    if digits < width {
        push_fill(text, width - digits, false);
    }
    push_wide_dec(text, n);
    assert(final(text)@ =~= old(text)@ + pad_left(dec(n as nat), width as nat, ' '));
}

/// Appends a text aligned to the right of its column.
fn push_right_aligned(text: &mut String, cell: &str, width: u128)
    ensures
        final(text)@ == old(text)@ + pad_left(cell@, width as nat, ' '),
{
    let chars = cell.unicode_len() as u128;
    if chars < width {
        push_fill(text, width - chars, false);
    }
    text.append(cell);
    assert(final(text)@ =~= old(text)@ + pad_left(cell@, width as nat, ' '));
}

/// Appends the row of titles.
fn push_titles(text: &mut String, w: &ColumnWidths)
    ensures
        final(text)@ == old(text)@ + row_text("Air Name"@, "Height"@, "Cells"@, *w),
{
    text.append("  | ");
    push_left_aligned(text, "Air Name", w.name);
    text.append(" | ");
    push_right_aligned(text, "Height", w.height);
    text.append(" | ");
    push_right_aligned(text, "Cells", w.cells);
    text.append(" |\n");
    assert(final(text)@ =~= old(text)@ + row_text("Air Name"@, "Height"@, "Cells"@, *w));
}

/// Appends the rule under the titles.
fn push_rule(text: &mut String, w: &ColumnWidths)
    requires
        w.name <= usize::MAX,
        w.height <= 39,
        w.cells <= 39,
    ensures
        final(text)@ == old(text)@ + rule_text(*w),
{
    text.append("  |");
    push_fill(text, w.name + 2, true);
    text.append("|");
    push_fill(text, w.height + 2, true);
    text.append("|");
    push_fill(text, w.cells + 2, true);
    text.append("|\n");
    assert(final(text)@ =~= old(text)@ + rule_text(*w));
}

/// Appends the heading of a segment: its number, its instructions, the titles and the rule.
fn push_heading(text: &mut String, index: usize, segment: &Segment, w: &ColumnWidths)
    requires
        w.name <= usize::MAX,
        w.height <= 39,
        w.cells <= 39,
    ensures
        final(text)@ == old(text)@ + heading_text(index as nat, *segment, *w),
{
    text.append("\nSegment #");
    push_dec(text, index as u64);
    text.append("\n  Instret Start: ");
    push_dec(text, segment.instret_start);
    text.append("\n  Num Insns:     ");
    push_dec(text, segment.num_insns);
    text.append("\n");
    let ghost lines = text@;
    assert(lines =~= old(text)@ + ("\nSegment #"@ + dec(index as nat) + "\n  Instret Start: "@ + dec(
        segment.instret_start as nat,
    ) + "\n  Num Insns:     "@ + dec(segment.num_insns as nat) + "\n"@));
    push_titles(text, w);
    push_rule(text, w);
    assert(final(text)@ =~= old(text)@ + heading_text(index as nat, *segment, *w));
}

/// Appends the row of AIR `j` of a segment.
fn push_row(text: &mut String, ctx: &SegmentationCtx, heights: &Vec<u32>, j: usize, w: &ColumnWidths)
    requires
        j < heights@.len(),
    ensures
        final(text)@ == old(text)@ + row_text(
            name_at(ctx.air_names@, j as int),
            dec(heights@[j as int] as nat),
            dec(cells_at(heights@, ctx.widths@, j as int)),
            *w,
        ),
{
    text.append("  | ");
    if j < ctx.air_names.len() {
        push_left_aligned(text, ctx.air_names[j].as_str(), w.name);
    } else {
        push_left_aligned(text, "Unknown", w.name);
    }
    text.append(" | ");
    push_right_aligned_number(text, heights[j] as u128, w.height);
    text.append(" | ");
    push_right_aligned_number(text, cells_of(heights, &ctx.widths, j), w.cells);
    text.append(" |\n");
    assert(final(text)@ =~= old(text)@ + row_text(
        name_at(ctx.air_names@, j as int),
        dec(heights@[j as int] as nat),
        dec(cells_at(heights@, ctx.widths@, j as int)),
        *w,
    ));
}

/// Writes the report of a controller.
pub fn format_segments(ctx: &SegmentationCtx) -> (report: String)
    ensures
        report@ == report_text(*ctx),
{
    let w = column_widths(ctx);
    let mut text = String::new();
    let mut s: usize = 0;
    assert(text@ =~= tables_upto(*ctx, w, 0));
    while s < ctx.segments.len()
        invariant
            s <= ctx.segments@.len(),
            w == spec_column_widths(*ctx),
            w.name <= usize::MAX,
            w.height <= 39,
            w.cells <= 39,
            text@ == tables_upto(*ctx, w, s as int),
        decreases ctx.segments@.len() - s,
    {
        let segment = &ctx.segments[s];
        let ghost before = text@;
        push_heading(&mut text, s, segment, &w);
        let mut j: usize = 0;
        assert(text@ =~= before + heading_text(s as nat, *segment, w) + rows_upto(
            segment.trace_heights@,
            ctx.air_names@,
            ctx.widths@,
            w,
            0,
        ));
        while j < segment.trace_heights.len()
            invariant
                j <= segment.trace_heights@.len(),
                text@ == before + heading_text(s as nat, *segment, w) + rows_upto(
                    segment.trace_heights@,
                    ctx.air_names@,
                    ctx.widths@,
                    w,
                    j as int,
                ),
            decreases segment.trace_heights@.len() - j,
        {
            push_row(&mut text, ctx, &segment.trace_heights, j, &w);
            j = j + 1;
            assert(text@ =~= before + heading_text(s as nat, *segment, w) + rows_upto(
                segment.trace_heights@,
                ctx.air_names@,
                ctx.widths@,
                w,
                j as int,
            ));
        }
        s = s + 1;
    }
    text.append("\n");
    text
}

} // verus!
