//! The two adjustment extension points: shaping corrections (computed
//! before line breaking) and justification corrections (computed from
//! the line-break table). Both currently compute the identity — no
//! corrections — but the compute-then-apply shape is kept so a shaping
//! engine or an optimal-justification pass can be substituted without
//! touching any other stage.

use vstd::prelude::*;
use crate::GEOM_LIMIT;
use crate::metrics::FontMetricsProvider;
use crate::tokens::GlyphInstance;

verus! {

/// A per-glyph horizontal shaping correction, in subpixel units.
#[derive(Clone, Copy, Debug, PartialEq, Eq, Structural)]
pub struct HarfbuzzAdjustment(pub i64);

/// A per-glyph horizontal justification correction, in subpixel units.
#[derive(Clone, Copy, Debug, PartialEq, Eq, Structural)]
pub struct KnuthPlassAdjustment(pub i64);

/// The glyphs with per-glyph horizontal deltas added, up to the
/// shorter of the two sequences.
pub open spec fn apply_deltas_spec(glyphs: Seq<GlyphInstance>, deltas: Seq<i64>) -> Seq<
    GlyphInstance,
> {
    glyphs.map(
        |i: int, g: GlyphInstance|
            if i < deltas.len() {
                GlyphInstance { index: g.index, x: (g.x + deltas[i]) as i64, y: g.y }
            } else {
                g
            },
    )
}

/// With no deltas, applying is the identity.
pub proof fn lemma_apply_no_deltas(glyphs: Seq<GlyphInstance>)
    ensures
        apply_deltas_spec(glyphs, Seq::<i64>::empty()) =~= glyphs,
{
}

/// Computes the shaping corrections for a text run. The default
/// shaping stage is the identity: it returns no corrections.
#[allow(unused_variables)]
pub fn calculate_harfbuzz_adjustments<P: FontMetricsProvider>(text: &str, provider: &P) -> (r: Vec<
    HarfbuzzAdjustment,
>)
    ensures
        r@ == Seq::<HarfbuzzAdjustment>::empty(),
{
    Vec::new()
}

/// Adds each shaping correction to its glyph's horizontal position;
/// with no corrections the glyphs are unchanged.
pub fn apply_harfbuzz_adjustments(
    positioned_glyphs: &mut Vec<GlyphInstance>,
    harfbuzz_adjustments: Vec<HarfbuzzAdjustment>,
)
    requires
        crate::align::glyphs_in_range(old(positioned_glyphs)@, 4 * GEOM_LIMIT),
        forall|i: int|
            0 <= i < harfbuzz_adjustments@.len() ==> -GEOM_LIMIT <= (
            #[trigger] harfbuzz_adjustments@[i]).0 <= GEOM_LIMIT,
    ensures
        final(positioned_glyphs)@ == apply_deltas_spec(
            old(positioned_glyphs)@,
            harfbuzz_adjustments@.map_values(|a: HarfbuzzAdjustment| a.0),
        ),
        harfbuzz_adjustments@.len() == 0 ==> final(positioned_glyphs)@ == old(positioned_glyphs)@,
{
    let ghost glyphs0 = positioned_glyphs@;
    let ghost deltas = harfbuzz_adjustments@.map_values(|a: HarfbuzzAdjustment| a.0);
    let mut idx: usize = 0;
    while idx < positioned_glyphs.len() && idx < harfbuzz_adjustments.len()
        invariant
            0 <= idx <= glyphs0.len(),
            positioned_glyphs@.len() == glyphs0.len(),
            deltas == harfbuzz_adjustments@.map_values(|a: HarfbuzzAdjustment| a.0),
            deltas.len() == harfbuzz_adjustments@.len(),
            crate::align::glyphs_in_range(glyphs0, 4 * GEOM_LIMIT),
            forall|i: int| 0 <= i < deltas.len() ==> -GEOM_LIMIT <= #[trigger] deltas[i] <= GEOM_LIMIT,
            forall|j: int|
                0 <= j < idx ==> #[trigger] positioned_glyphs@[j] == apply_deltas_spec(
                    glyphs0,
                    deltas,
                )[j],
            forall|j: int|
                idx <= j < glyphs0.len() ==> #[trigger] positioned_glyphs@[j] == glyphs0[j],
        decreases glyphs0.len() - idx,
    {
        let g = positioned_glyphs[idx];
        let d = harfbuzz_adjustments[idx].0;
        proof {
            assert(deltas[idx as int] == (harfbuzz_adjustments@[idx as int]).0);
            assert(positioned_glyphs@[idx as int] == glyphs0[idx as int]);
        }
        positioned_glyphs[idx] = GlyphInstance { index: g.index, x: g.x + d, y: g.y };
        idx += 1;
    }
    proof {
        assert(positioned_glyphs@ =~= apply_deltas_spec(glyphs0, deltas));
        if harfbuzz_adjustments@.len() == 0 {
            lemma_apply_no_deltas(glyphs0);
            assert(deltas =~= Seq::<i64>::empty());
        }
    }
}

/// Computes the justification corrections from the positioned glyphs
/// and the line-break table. The default justification stage is the
/// identity: it returns no corrections.
#[allow(unused_variables)]
pub fn calculate_knuth_plass_adjustments(
    positioned_glyphs: &Vec<GlyphInstance>,
    line_break_offsets: &Vec<(usize, i64)>,
) -> (r: Vec<KnuthPlassAdjustment>)
    ensures
        r@ == Seq::<KnuthPlassAdjustment>::empty(),
{
    Vec::new()
}

/// Adds each justification correction to its glyph's horizontal
/// position; with no corrections the glyphs are unchanged.
pub fn apply_knuth_plass_adjustments(
    positioned_glyphs: &mut Vec<GlyphInstance>,
    knuth_plass_adjustments: Vec<KnuthPlassAdjustment>,
)
    requires
        crate::align::glyphs_in_range(old(positioned_glyphs)@, 4 * GEOM_LIMIT),
        forall|i: int|
            0 <= i < knuth_plass_adjustments@.len() ==> -GEOM_LIMIT <= (
            #[trigger] knuth_plass_adjustments@[i]).0 <= GEOM_LIMIT,
    ensures
        final(positioned_glyphs)@ == apply_deltas_spec(
            old(positioned_glyphs)@,
            knuth_plass_adjustments@.map_values(|a: KnuthPlassAdjustment| a.0),
        ),
        knuth_plass_adjustments@.len() == 0 ==> final(positioned_glyphs)@ == old(
            positioned_glyphs,
        )@,
{
    let ghost glyphs0 = positioned_glyphs@;
    let ghost deltas = knuth_plass_adjustments@.map_values(|a: KnuthPlassAdjustment| a.0);
    let mut idx: usize = 0;
    while idx < positioned_glyphs.len() && idx < knuth_plass_adjustments.len()
        invariant
            0 <= idx <= glyphs0.len(),
            positioned_glyphs@.len() == glyphs0.len(),
            deltas == knuth_plass_adjustments@.map_values(|a: KnuthPlassAdjustment| a.0),
            deltas.len() == knuth_plass_adjustments@.len(),
            crate::align::glyphs_in_range(glyphs0, 4 * GEOM_LIMIT),
            forall|i: int| 0 <= i < deltas.len() ==> -GEOM_LIMIT <= #[trigger] deltas[i] <= GEOM_LIMIT,
            forall|j: int|
                0 <= j < idx ==> #[trigger] positioned_glyphs@[j] == apply_deltas_spec(
                    glyphs0,
                    deltas,
                )[j],
            forall|j: int|
                idx <= j < glyphs0.len() ==> #[trigger] positioned_glyphs@[j] == glyphs0[j],
        decreases glyphs0.len() - idx,
    {
        let g = positioned_glyphs[idx];
        let d = knuth_plass_adjustments[idx].0;
        proof {
            assert(deltas[idx as int] == (knuth_plass_adjustments@[idx as int]).0);
            assert(positioned_glyphs@[idx as int] == glyphs0[idx as int]);
        }
        positioned_glyphs[idx] = GlyphInstance { index: g.index, x: g.x + d, y: g.y };
        idx += 1;
    }
    proof {
        assert(positioned_glyphs@ =~= apply_deltas_spec(glyphs0, deltas));
        if knuth_plass_adjustments@.len() == 0 {
            lemma_apply_no_deltas(glyphs0);
            assert(deltas =~= Seq::<i64>::empty());
        }
    }
}

} // verus!
