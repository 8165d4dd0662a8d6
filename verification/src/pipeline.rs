//! The full layout pipeline: segmentation, shaping adjustment, both
//! overflow passes, left-aligned placement, justification adjustment,
//! horizontal and vertical alignment, and origin translation.

use vstd::prelude::*;
use crate::{GEOM_LIMIT, MAX_DIM, MAX_TEXT_LEN};
use crate::adjust::{
    apply_deltas_spec, apply_harfbuzz_adjustments, apply_knuth_plass_adjustments,
    calculate_harfbuzz_adjustments, calculate_knuth_plass_adjustments,
};
use crate::align::{
    add_origin, align_horz_spec, align_text_horz, align_text_vert, glyphs_in_range,
    lemma_align_horz_range, lemma_glyphs_in_range_widen, lemma_shift_down_range, shift_down_spec,
    table_in_range, translate_spec, vert_shift,
};
use crate::geometry::LayoutRect;
use crate::metrics::{FontMetricsProvider, font_metrics_from_provider, font_metrics_spec};
use crate::overflow::{
    TextOverflow, TextOverflowPass1, TextOverflowPass2, estimate_overflow_pass_1,
    estimate_overflow_pass_2, lemma_consumed_bounds, pass1_spec, reserved_size,
};
use crate::placement::{
    lemma_place_outputs_wf, maxw_view, place_outputs, words_to_left_aligned_glyphs,
};
use crate::style::{LayoutError, LayoutOverflow, ScrollbarInfo, TextAlignmentHorz, TextAlignmentVert};
use crate::tokens::{
    GlyphInstance, lemma_segment_ok, nfc_of, segment_spec, split_text_into_words, tokens_view,
};

verus! {

/// What a degenerate layout call returns: no glyphs, and both axes in
/// bounds with the full rectangle dimension as slack.
pub open spec fn layout_degenerate(bounds: LayoutRect) -> (Seq<GlyphInstance>, TextOverflowPass2) {
    (
        Seq::<GlyphInstance>::empty(),
        TextOverflowPass2 {
            horizontal: TextOverflow::InBounds(bounds.size.width),
            vertical: TextOverflow::InBounds(bounds.size.height),
        },
    )
}

/// The whole pipeline as one function of its inputs: the glyphs in
/// destination space and the authoritative overflow verdict. Empty
/// token streams and zero-area rectangles are degenerate: no glyphs,
/// both axes in bounds.
pub open spec fn layout_spec<P: FontMetricsProvider>(
    provider: &P,
    bounds: LayoutRect,
    horiz_alignment: TextAlignmentHorz,
    vert_alignment: TextAlignmentVert,
    overflow: LayoutOverflow,
    scrollbar_info: ScrollbarInfo,
    chars: Seq<char>,
) -> (Seq<GlyphInstance>, TextOverflowPass2) {
    let toks = segment_spec(provider, chars);
    let fm = font_metrics_spec(provider);
    if toks.len() == 0 || bounds.size.width == 0 || bounds.size.height == 0 {
        layout_degenerate(bounds)
    } else {
        let allows = overflow.allows_horizontal_overflow_spec();
        let p1 = pass1_spec(toks, bounds.size, fm, allows);
        let new_size = reserved_size(bounds.size, p1, scrollbar_info);
        let recalc = pass1_spec(toks, new_size, fm, allows);
        let p2 = TextOverflowPass2 { horizontal: recalc.horizontal, vertical: recalc.vertical };
        let maxw = if allows {
            None
        } else {
            Some(new_size.width as int)
        };
        let placed = place_outputs(toks, maxw, fm);
        let aligned = align_horz_spec(placed.0, placed.1, horiz_alignment);
        let shifted = shift_down_spec(aligned, vert_shift(vert_alignment, p2.vertical));
        (translate_spec(shifted, bounds.origin.x as int, bounds.origin.y as int), p2)
    }
}

/// Lays a text run out into a rectangle: segments the normalized text,
/// estimates overflow twice (reserving scrollbar space in between),
/// places glyphs left-aligned with greedy wrapping, applies the
/// shaping and justification adjustments, aligns horizontally and
/// vertically, and translates into the rectangle's coordinate space.
/// Returns the positioned glyphs and the authoritative overflow
/// verdict, or an error for a rectangle with a negative dimension or
/// a text run beyond the engine's character limit.
pub fn get_glyphs<P: FontMetricsProvider>(
    bounds: &LayoutRect,
    horiz_alignment: TextAlignmentHorz,
    vert_alignment: TextAlignmentVert,
    font: &P,
    text: &str,
    overflow: &LayoutOverflow,
    scrollbar_info: &ScrollbarInfo,
) -> (r: Result<(Vec<GlyphInstance>, TextOverflowPass2), LayoutError>)
    requires
        font.wf(),
        bounds.in_range(),
        scrollbar_info.in_range(),
    ensures
        match r {
            Ok(out) => {
                &&& bounds.size.width >= 0
                &&& bounds.size.height >= 0
                &&& nfc_of(text@).len() <= MAX_TEXT_LEN
                &&& out.0@ == layout_spec(
                    font,
                    *bounds,
                    horiz_alignment,
                    vert_alignment,
                    *overflow,
                    *scrollbar_info,
                    nfc_of(text@),
                ).0
                &&& out.1 == layout_spec(
                    font,
                    *bounds,
                    horiz_alignment,
                    vert_alignment,
                    *overflow,
                    *scrollbar_info,
                    nfc_of(text@),
                ).1
            },
            Err(LayoutError::MalformedLayout) => bounds.size.width < 0 || bounds.size.height < 0,
            Err(LayoutError::TextTooLong) => {
                &&& bounds.size.width >= 0
                &&& bounds.size.height >= 0
                &&& nfc_of(text@).len() > MAX_TEXT_LEN
            },
        },
{
    if bounds.size.width < 0 || bounds.size.height < 0 {
        return Err(LayoutError::MalformedLayout);
    }
    let font_metrics = font_metrics_from_provider(font);
    let words = match split_text_into_words(text, font) {
        Ok(words) => words,
        Err(e) => {
            return Err(e);
        },
    };
    let ghost toks = tokens_view(words@);
    if words.len() == 0 || bounds.size.width == 0 || bounds.size.height == 0 {
        return Ok(
            (
                Vec::new(),
                TextOverflowPass2 {
                    horizontal: TextOverflow::InBounds(bounds.size.width),
                    vertical: TextOverflow::InBounds(bounds.size.height),
                },
            ),
        );
    }
    let harfbuzz_adjustments = calculate_harfbuzz_adjustments(text, font);
    let overflow_pass_1 = estimate_overflow_pass_1(&words, &bounds.size, &font_metrics, overflow);
    let (new_size, overflow_pass_2) = estimate_overflow_pass_2(
        &words,
        &bounds.size,
        &font_metrics,
        overflow,
        scrollbar_info,
        overflow_pass_1,
    );
    let max_horizontal_text_width = if overflow.allows_horizontal_overflow() {
        None
    } else {
        Some(new_size.width)
    };
    proof {
        lemma_place_outputs_wf(toks, maxw_view(max_horizontal_text_width), font_metrics);
    }
    let (mut positioned_glyphs, line_break_offsets) = words_to_left_aligned_glyphs(
        &words,
        max_horizontal_text_width,
        &font_metrics,
    );
    let ghost placed = place_outputs(toks, maxw_view(max_horizontal_text_width), font_metrics);
    apply_harfbuzz_adjustments(&mut positioned_glyphs, harfbuzz_adjustments);
    let knuth_plass_adjustments = calculate_knuth_plass_adjustments(
        &positioned_glyphs,
        &line_break_offsets,
    );
    apply_knuth_plass_adjustments(&mut positioned_glyphs, knuth_plass_adjustments);
    let align_result = align_text_horz(
        horiz_alignment,
        &mut positioned_glyphs,
        &line_break_offsets,
        &overflow_pass_2,
    );
    proof {
        if placed.1.len() == 0 {
            assert(positioned_glyphs@ =~= align_horz_spec(placed.0, placed.1, horiz_alignment));
        }
        lemma_align_horz_range(placed.0, placed.1, horiz_alignment);
    }
    match align_result {
        Ok(_) => {},
        Err(_) => {
            proof {
                assert(false);
            }
            return Err(LayoutError::MalformedLayout);
        },
    }
    proof {
        lemma_consumed_bounds(
            toks,
            new_size.width as int,
            font_metrics,
            overflow.allows_horizontal_overflow_spec(),
        );
        lemma_shift_down_range(
            positioned_glyphs@,
            vert_shift(vert_alignment, overflow_pass_2.vertical),
            2 * GEOM_LIMIT,
            GEOM_LIMIT as int,
        );
    }
    align_text_vert(vert_alignment, &mut positioned_glyphs, &line_break_offsets, &overflow_pass_2);
    proof {
        lemma_glyphs_in_range_widen(positioned_glyphs@, 3 * GEOM_LIMIT, 4 * GEOM_LIMIT);
    }
    add_origin(&mut positioned_glyphs, bounds.origin.x, bounds.origin.y);
    Ok((positioned_glyphs, overflow_pass_2))
}

/// The layout entry point as callers use it: same computation as
/// [`get_glyphs`]. The engine-specific unit conversion of the font
/// size lives in the font backend adapter that builds the provider,
/// so the core stays backend-agnostic.
pub fn put_text_in_bounds<P: FontMetricsProvider>(
    text: &str,
    font: &P,
    horz_align: TextAlignmentHorz,
    vert_align: TextAlignmentVert,
    overflow: &LayoutOverflow,
    scrollbar_info: &ScrollbarInfo,
    bounds: &LayoutRect,
) -> (r: Result<(Vec<GlyphInstance>, TextOverflowPass2), LayoutError>)
    requires
        font.wf(),
        bounds.in_range(),
        scrollbar_info.in_range(),
    ensures
        match r {
            Ok(out) => {
                &&& bounds.size.width >= 0
                &&& bounds.size.height >= 0
                &&& nfc_of(text@).len() <= MAX_TEXT_LEN
                &&& out.0@ == layout_spec(
                    font,
                    *bounds,
                    horz_align,
                    vert_align,
                    *overflow,
                    *scrollbar_info,
                    nfc_of(text@),
                ).0
                &&& out.1 == layout_spec(
                    font,
                    *bounds,
                    horz_align,
                    vert_align,
                    *overflow,
                    *scrollbar_info,
                    nfc_of(text@),
                ).1
            },
            Err(LayoutError::MalformedLayout) => bounds.size.width < 0 || bounds.size.height < 0,
            Err(LayoutError::TextTooLong) => {
                &&& bounds.size.width >= 0
                &&& bounds.size.height >= 0
                &&& nfc_of(text@).len() > MAX_TEXT_LEN
            },
        },
{
    get_glyphs(bounds, horz_align, vert_align, font, text, overflow, scrollbar_info)
}

/// Empty text lays out as no glyphs, with both axes in bounds and the
/// full rectangle dimension as slack.
pub proof fn lemma_empty_text_layout<P: FontMetricsProvider>(
    provider: &P,
    bounds: LayoutRect,
    horiz_alignment: TextAlignmentHorz,
    vert_alignment: TextAlignmentVert,
    overflow: LayoutOverflow,
    scrollbar_info: ScrollbarInfo,
)
    ensures
        layout_spec(
            provider,
            bounds,
            horiz_alignment,
            vert_alignment,
            overflow,
            scrollbar_info,
            Seq::<char>::empty(),
        ) == (
            Seq::<GlyphInstance>::empty(),
            TextOverflowPass2 {
                horizontal: TextOverflow::InBounds(bounds.size.width),
                vertical: TextOverflow::InBounds(bounds.size.height),
            },
        ),
{
    assert(segment_spec(provider, Seq::<char>::empty()).len() == 0);
}

} // verus!
