//! Alignment and origin translation: redistributing each line's
//! trailing slack horizontally, the block's vertical slack vertically,
//! and finally shifting every glyph into destination space.

use vstd::prelude::*;
use crate::{GEOM_LIMIT, MAX_DIM};
use crate::overflow::{TextOverflow, TextOverflowPass2};
use crate::placement::breaks_view;
use crate::style::{LayoutError, TextAlignmentHorz, TextAlignmentVert};
use crate::tokens::GlyphInstance;

verus! {

/// Half of a slack, rounded toward zero (the integer analogue of the
/// 0.5 redistribution factor).
pub open spec fn half_toward_zero(v: int) -> int {
    if v >= 0 {
        v / 2
    } else {
        -((-v) / 2)
    }
}

/// How far one line's glyphs move right: nothing for left alignment,
/// half the line's trailing slack for center, all of it for right.
pub open spec fn horz_shift(alignment: TextAlignmentHorz, slack: int) -> int {
    match alignment {
        TextAlignmentHorz::Left => 0,
        TextAlignmentHorz::Center => half_toward_zero(slack),
        TextAlignmentHorz::Right => slack,
    }
}

/// The line a glyph belongs to: the first table entry whose last-glyph
/// index is at or past the glyph.
pub open spec fn line_of(table: Seq<(int, int)>, glyph_idx: int) -> int
    decreases table.len(),
{
    if table.len() == 0 {
        0
    } else if glyph_idx <= table[0].0 {
        0
    } else {
        1 + line_of(table.drop_first(), glyph_idx)
    }
}

/// The trailing slack of the line a glyph belongs to.
pub open spec fn slack_of(table: Seq<(int, int)>, glyph_idx: int) -> int {
    table[line_of(table, glyph_idx)].1
}

/// The glyph sequence with each line's slack redistributed.
pub open spec fn align_horz_spec(
    glyphs: Seq<GlyphInstance>,
    table: Seq<(int, int)>,
    alignment: TextAlignmentHorz,
) -> Seq<GlyphInstance> {
    glyphs.map(
        |glyph_idx: int, g: GlyphInstance|
            GlyphInstance {
                index: g.index,
                x: (g.x + horz_shift(alignment, slack_of(table, glyph_idx))) as i64,
                y: g.y,
            },
    )
}

/// `line_of` picks exactly the first entry at or past the glyph.
pub proof fn lemma_line_of_unique(table: Seq<(int, int)>, glyph_idx: int, j: int)
    requires
        0 <= j < table.len(),
        glyph_idx <= table[j].0,
        forall|k: int| 0 <= k < j ==> (#[trigger] table[k]).0 < glyph_idx,
    ensures
        line_of(table, glyph_idx) == j,
    decreases table.len(),
{
    if j > 0 {
        assert(table[0].0 < glyph_idx);
        assert(forall|k: int|
            0 <= k < table.drop_first().len() ==> #[trigger] table.drop_first()[k] == table[k + 1]);
        lemma_line_of_unique(table.drop_first(), glyph_idx, j - 1);
    }
}

/// Left alignment moves nothing.
pub proof fn lemma_align_left_identity(glyphs: Seq<GlyphInstance>, table: Seq<(int, int)>)
    ensures
        align_horz_spec(glyphs, table, TextAlignmentHorz::Left) =~= glyphs,
{
}

/// `line_of` never scans past an entry at or past the glyph.
pub proof fn lemma_line_of_le(table: Seq<(int, int)>, glyph_idx: int, j: int)
    requires
        0 <= j < table.len(),
        glyph_idx <= table[j].0,
    ensures
        0 <= line_of(table, glyph_idx) <= j,
    decreases table.len(),
{
    if table.len() > 0 && !(glyph_idx <= table[0].0) {
        assert(forall|k: int|
            0 <= k < table.drop_first().len() ==> #[trigger] table.drop_first()[k] == table[k + 1]);
        lemma_line_of_le(table.drop_first(), glyph_idx, j - 1);
    }
}

/// Bounds every aligner requires of its inputs, so that no shift can
/// wrap around.
pub open spec fn glyphs_in_range(glyphs: Seq<GlyphInstance>, bound: int) -> bool {
    forall|j: int|
        0 <= j < glyphs.len() ==> {
            &&& -bound <= (#[trigger] glyphs[j]).x <= bound
            &&& -bound <= glyphs[j].y <= bound
        }
}

/// Bound on every slack value of a table.
pub open spec fn table_in_range(table: Seq<(int, int)>, bound: int) -> bool {
    forall|k: int| 0 <= k < table.len() ==> -bound <= (#[trigger] table[k]).1 <= bound
}

/// A looser bound also holds.
pub proof fn lemma_glyphs_in_range_widen(glyphs: Seq<GlyphInstance>, b1: int, b2: int)
    requires
        glyphs_in_range(glyphs, b1),
        b1 <= b2,
    ensures
        glyphs_in_range(glyphs, b2),
{
    assert forall|j: int|
        0 <= j < glyphs.len() implies -b2 <= (#[trigger] glyphs[j]).x <= b2 && -b2 <= glyphs[j].y
        <= b2 by {
        assert(-b1 <= glyphs[j].x <= b1);
    }
}

/// Horizontal alignment moves no glyph by more than its line's slack,
/// so all coordinates stay within twice the input bound.
pub proof fn lemma_align_horz_range(
    glyphs: Seq<GlyphInstance>,
    table: Seq<(int, int)>,
    alignment: TextAlignmentHorz,
)
    requires
        glyphs_in_range(glyphs, GEOM_LIMIT as int),
        table_in_range(table, GEOM_LIMIT as int),
        glyphs.len() > 0 ==> table.len() > 0 && table.last().0 >= glyphs.len() - 1,
    ensures
        glyphs_in_range(align_horz_spec(glyphs, table, alignment), 2 * GEOM_LIMIT),
{
    let out = align_horz_spec(glyphs, table, alignment);
    assert forall|j: int|
        0 <= j < out.len() implies -(2 * GEOM_LIMIT) <= (#[trigger] out[j]).x <= 2 * GEOM_LIMIT
        && -(2 * GEOM_LIMIT) <= out[j].y <= 2 * GEOM_LIMIT by {
        lemma_line_of_le(table, j, table.len() - 1);
        let ln = line_of(table, j);
        assert(-GEOM_LIMIT <= table[ln].1 <= GEOM_LIMIT);
        assert(-GEOM_LIMIT <= glyphs[j].x <= GEOM_LIMIT);
    }
}

/// A whole-block vertical shift keeps coordinates within the sum of
/// the two bounds.
pub proof fn lemma_shift_down_range(glyphs: Seq<GlyphInstance>, shift: int, bound: int, sbound: int)
    requires
        glyphs_in_range(glyphs, bound),
        -sbound <= shift <= sbound,
        0 <= bound,
        0 <= sbound,
        bound + sbound <= i64::MAX,
    ensures
        glyphs_in_range(shift_down_spec(glyphs, shift), bound + sbound),
{
    let out = shift_down_spec(glyphs, shift);
    assert forall|j: int|
        0 <= j < out.len() implies -(bound + sbound) <= (#[trigger] out[j]).x <= bound + sbound
        && -(bound + sbound) <= out[j].y <= bound + sbound by {
        assert(-bound <= glyphs[j].x <= bound);
    }
}

/// Redistributes each line's trailing slack according to the
/// horizontal alignment: a no-op for left alignment; for center and
/// right, every glyph of a line moves right by half, respectively all,
/// of that line's slack. An empty table is a degenerate zero-glyph
/// layout and returns unchanged; a table whose last entry does not
/// reference the final glyph is malformed and rejected.
pub fn align_text_horz(
    alignment: TextAlignmentHorz,
    glyphs: &mut Vec<GlyphInstance>,
    line_breaks: &Vec<(usize, i64)>,
    overflow: &TextOverflowPass2,
) -> (r: Result<(), LayoutError>)
    requires
        glyphs_in_range(old(glyphs)@, GEOM_LIMIT as int),
        table_in_range(breaks_view(line_breaks@), GEOM_LIMIT as int),
    ensures
        line_breaks@.len() == 0 ==> r is Ok && final(glyphs)@ == old(glyphs)@,
        line_breaks@.len() > 0 ==> {
            if old(glyphs)@.len() > 0 && breaks_view(line_breaks@).last().0 == old(glyphs)@.len()
                - 1 {
                &&& r is Ok
                &&& final(glyphs)@ == align_horz_spec(
                    old(glyphs)@,
                    breaks_view(line_breaks@),
                    alignment,
                )
            } else {
                &&& r == Err::<(), LayoutError>(LayoutError::MalformedLayout)
                &&& final(glyphs)@ == old(glyphs)@
            }
        },
        alignment is Left ==> final(glyphs)@ == old(glyphs)@,
{
    let ghost table = breaks_view(line_breaks@);
    if line_breaks.len() == 0 {
        return Ok(());
    }
    let last_entry = line_breaks[line_breaks.len() - 1].0;
    proof {
        assert(table.last() == (last_entry as int, (line_breaks@.last()).1 as int));
    }
    if glyphs.len() == 0 || last_entry != glyphs.len() - 1 {
        return Err(LayoutError::MalformedLayout);
    }
    match alignment {
        TextAlignmentHorz::Left => {
            proof {
                lemma_align_left_identity(glyphs@, table);
            }
            return Ok(());
        },
        _ => {},
    }
    let ghost glyphs0 = glyphs@;
    let mut current_line: usize = 0;
    let mut idx: usize = 0;
    while idx < glyphs.len()
        invariant
            0 <= idx <= glyphs@.len(),
            glyphs@.len() == glyphs0.len(),
            line_breaks@.len() > 0,
            line_breaks@.len() <= usize::MAX,
            table == breaks_view(line_breaks@),
            table.len() == line_breaks@.len(),
            glyphs0.len() > 0,
            table.last().0 == glyphs0.len() - 1,
            glyphs_in_range(glyphs0, GEOM_LIMIT as int),
            table_in_range(table, GEOM_LIMIT as int),
            !(alignment is Left),
            0 <= current_line < table.len(),
            forall|k: int| 0 <= k < current_line ==> (#[trigger] table[k]).0 < idx,
            forall|j: int|
                0 <= j < idx ==> #[trigger] glyphs@[j] == align_horz_spec(
                    glyphs0,
                    table,
                    alignment,
                )[j],
            forall|j: int| idx <= j < glyphs@.len() ==> #[trigger] glyphs@[j] == glyphs0[j],
        decreases glyphs@.len() - idx,
    {
        while idx > line_breaks[current_line].0 && current_line + 1 < line_breaks.len()
            invariant
                0 <= idx < glyphs0.len(),
                table == breaks_view(line_breaks@),
                table.len() == line_breaks@.len(),
                line_breaks@.len() <= usize::MAX,
                table.last().0 == glyphs0.len() - 1,
                0 <= current_line < table.len(),
                forall|k: int| 0 <= k < current_line ==> (#[trigger] table[k]).0 < idx,
            decreases table.len() - current_line,
        {
            proof {
                assert(table[current_line as int] == (
                    (line_breaks@[current_line as int]).0 as int,
                    (line_breaks@[current_line as int]).1 as int,
                ));
            }
            current_line += 1;
        }
        proof {
            assert(table[current_line as int] == (
                (line_breaks@[current_line as int]).0 as int,
                (line_breaks@[current_line as int]).1 as int,
            ));
            if current_line + 1 == table.len() {
                assert(table[current_line as int].0 == glyphs0.len() - 1 >= idx);
            }
            assert(idx <= table[current_line as int].0);
            lemma_line_of_unique(table, idx as int, current_line as int);
        }
        let slack = line_breaks[current_line].1;
        let shift: i64 = match alignment {
            TextAlignmentHorz::Left => 0,
            TextAlignmentHorz::Center => {
                if slack >= 0 {
                    slack / 2
                } else {
                    -((-slack) / 2)
                }
            },
            TextAlignmentHorz::Right => slack,
        };
        proof {
            assert(shift as int == horz_shift(alignment, slack_of(table, idx as int)));
            assert(glyphs@[idx as int] == glyphs0[idx as int]);
        }
        let g = glyphs[idx];
        glyphs[idx] = GlyphInstance { index: g.index, x: g.x + shift, y: g.y };
        proof {
            assert(glyphs@[idx as int] == align_horz_spec(glyphs0, table, alignment)[idx as int]);
        }
        idx += 1;
    }
    proof {
        assert(glyphs@ =~= align_horz_spec(glyphs0, table, alignment));
    }
    Ok(())
}

/// How far the whole block moves down: nothing when the text
/// overflows vertically or is aligned to the top; half the vertical
/// slack for center, all of it for bottom.
pub open spec fn vert_shift(alignment: TextAlignmentVert, vertical: TextOverflow) -> int {
    match vertical {
        TextOverflow::InBounds(s) => match alignment {
            TextAlignmentVert::Top => 0,
            TextAlignmentVert::Center => half_toward_zero(s as int),
            TextAlignmentVert::Bottom => s as int,
        },
        TextOverflow::IsOverflowing(_) => 0,
    }
}

/// The glyph sequence moved down as one block.
pub open spec fn shift_down_spec(glyphs: Seq<GlyphInstance>, shift: int) -> Seq<GlyphInstance> {
    glyphs.map_values(
        |g: GlyphInstance| GlyphInstance { index: g.index, x: g.x, y: (g.y + shift) as i64 },
    )
}

/// Redistributes the rectangle's vertical slack across the whole
/// block: a no-op for top alignment and for vertically overflowing
/// text; for center and bottom every glyph moves down by half,
/// respectively all, of the block's vertical slack.
#[allow(unused_variables)]
pub fn align_text_vert(
    alignment: TextAlignmentVert,
    glyphs: &mut Vec<GlyphInstance>,
    line_breaks: &Vec<(usize, i64)>,
    overflow: &TextOverflowPass2,
) -> (r: ())
    requires
        glyphs_in_range(old(glyphs)@, 2 * GEOM_LIMIT),
        match overflow.vertical {
            TextOverflow::InBounds(s) => -GEOM_LIMIT <= s <= GEOM_LIMIT,
            TextOverflow::IsOverflowing(_) => true,
        },
    ensures
        final(glyphs)@ == shift_down_spec(old(glyphs)@, vert_shift(alignment, overflow.vertical)),
        alignment is Top ==> final(glyphs)@ == old(glyphs)@,
{
    let ghost glyphs0 = glyphs@;
    let ghost shift_v = vert_shift(alignment, overflow.vertical);
    let shift: i64 = match overflow.vertical {
        TextOverflow::InBounds(s) => match alignment {
            TextAlignmentVert::Top => 0,
            TextAlignmentVert::Center => {
                if s >= 0 {
                    s / 2
                } else {
                    -((-s) / 2)
                }
            },
            TextAlignmentVert::Bottom => s,
        },
        TextOverflow::IsOverflowing(_) => 0,
    };
    let mut idx: usize = 0;
    while idx < glyphs.len()
        invariant
            0 <= idx <= glyphs@.len(),
            glyphs@.len() == glyphs0.len(),
            glyphs_in_range(glyphs0, 2 * GEOM_LIMIT),
            -GEOM_LIMIT <= shift <= GEOM_LIMIT,
            shift as int == shift_v,
            forall|j: int|
                0 <= j < idx ==> #[trigger] glyphs@[j] == shift_down_spec(glyphs0, shift_v)[j],
            forall|j: int| idx <= j < glyphs@.len() ==> #[trigger] glyphs@[j] == glyphs0[j],
        decreases glyphs@.len() - idx,
    {
        let g = glyphs[idx];
        glyphs[idx] = GlyphInstance { index: g.index, x: g.x, y: g.y + shift };
        idx += 1;
    }
    proof {
        assert(glyphs@ =~= shift_down_spec(glyphs0, shift_v));
        if alignment is Top {
            assert(glyphs@ =~= glyphs0);
        }
    }
}

/// The glyph sequence translated by an origin.
pub open spec fn translate_spec(glyphs: Seq<GlyphInstance>, x: int, y: int) -> Seq<GlyphInstance> {
    glyphs.map_values(
        |g: GlyphInstance|
            GlyphInstance { index: g.index, x: (g.x + x) as i64, y: (g.y + y) as i64 },
    )
}

/// Adds the rectangle's origin to every glyph, exactly once, moving it
/// from layout-local space into destination space.
pub fn add_origin(positioned_glyphs: &mut Vec<GlyphInstance>, x: i64, y: i64)
    requires
        glyphs_in_range(old(positioned_glyphs)@, 4 * GEOM_LIMIT),
        -(2 * MAX_DIM) <= x <= 2 * MAX_DIM,
        -(2 * MAX_DIM) <= y <= 2 * MAX_DIM,
    ensures
        final(positioned_glyphs)@ == translate_spec(old(positioned_glyphs)@, x as int, y as int),
{
    let ghost glyphs0 = positioned_glyphs@;
    let mut idx: usize = 0;
    while idx < positioned_glyphs.len()
        invariant
            0 <= idx <= positioned_glyphs@.len(),
            positioned_glyphs@.len() == glyphs0.len(),
            glyphs_in_range(glyphs0, 4 * GEOM_LIMIT),
            -(2 * MAX_DIM) <= x <= 2 * MAX_DIM,
            -(2 * MAX_DIM) <= y <= 2 * MAX_DIM,
            forall|j: int|
                0 <= j < idx ==> #[trigger] positioned_glyphs@[j] == translate_spec(
                    glyphs0,
                    x as int,
                    y as int,
                )[j],
            forall|j: int|
                idx <= j < positioned_glyphs@.len() ==> #[trigger] positioned_glyphs@[j]
                    == glyphs0[j],
        decreases positioned_glyphs@.len() - idx,
    {
        let g = positioned_glyphs[idx];
        positioned_glyphs[idx] = GlyphInstance { index: g.index, x: g.x + x, y: g.y + y };
        idx += 1;
    }
    proof {
        assert(positioned_glyphs@ =~= translate_spec(glyphs0, x as int, y as int));
    }
}

/// Translating by the zero origin moves nothing.
pub proof fn lemma_translate_zero(glyphs: Seq<GlyphInstance>)
    ensures
        translate_spec(glyphs, 0, 0) =~= glyphs,
{
}

/// Translating by an origin and then re-translating by `(0, 0)` is a
/// no-op: the glyphs stay where the first translation put them.
pub proof fn lemma_translate_then_zero(glyphs: Seq<GlyphInstance>, x: int, y: int)
    ensures
        translate_spec(translate_spec(glyphs, x, y), 0, 0) == translate_spec(glyphs, x, y),
{
    lemma_translate_zero(translate_spec(glyphs, x, y));
}

/// Translating twice by the same non-zero origin is not a no-op: with
/// at least one glyph and no wraparound, the result differs from a
/// single translation.
pub proof fn lemma_translate_twice_differs(glyphs: Seq<GlyphInstance>, x: int, y: int)
    requires
        glyphs.len() > 0,
        glyphs_in_range(glyphs, 4 * GEOM_LIMIT),
        -(2 * MAX_DIM) <= x <= 2 * MAX_DIM,
        -(2 * MAX_DIM) <= y <= 2 * MAX_DIM,
        x != 0 || y != 0,
    ensures
        translate_spec(translate_spec(glyphs, x, y), x, y) != translate_spec(glyphs, x, y),
{
    let once = translate_spec(glyphs, x, y);
    let twice = translate_spec(once, x, y);
    assert(once[0] == GlyphInstance {
        index: glyphs[0].index,
        x: (glyphs[0].x + x) as i64,
        y: (glyphs[0].y + y) as i64,
    });
    assert(twice[0] == GlyphInstance {
        index: once[0].index,
        x: (once[0].x + x) as i64,
        y: (once[0].y + y) as i64,
    });
    assert(twice[0] != once[0]);
}

} // verus!
