//! Overflow estimation: whether a token stream exceeds the rectangle
//! on each axis, run once against the full rectangle (pass 1) and once
//! against the rectangle with scrollbar space reserved (pass 2).

use vstd::prelude::*;
use crate::{MAX_DIM, MAX_METRIC, MAX_TEXT_LEN, WEIGHT_LIMIT};
use crate::geometry::LayoutSize;
use crate::metrics::FontMetrics;
use crate::style::{LayoutOverflow, ScrollbarInfo};
use crate::tokens::{
    SemanticWordItem, TokenModel, lemma_stream_weight_floor, lemma_stream_weight_prefix_le,
    lemma_stream_weight_take_step, stream_ok, stream_weight, token_weight, token_wf, tokens_view,
};

verus! {

/// The verdict for one axis: by how much the text exceeds the
/// rectangle, or how much space is left.
#[derive(Clone, Copy, Debug, PartialEq, Eq, Structural)]
pub enum TextOverflow {
    /// Text exceeds the rectangle by this much (subpixel units).
    IsOverflowing(i64),
    /// Text fits, with this much space left to the rectangle's edge.
    InBounds(i64),
}

impl TextOverflow {
    /// True exactly when the axis overflows.
    pub fn is_overflowing(&self) -> (r: bool)
        ensures
            r == (*self is IsOverflowing),
    {
        match self {
            TextOverflow::IsOverflowing(_) => true,
            TextOverflow::InBounds(_) => false,
        }
    }
}

/// Per-axis overflow before any scrollbar space is reserved.
#[derive(Clone, Copy, Debug, PartialEq, Eq, Structural)]
pub struct TextOverflowPass1 {
    pub horizontal: TextOverflow,
    pub vertical: TextOverflow,
}

/// Per-axis overflow after scrollbar space is reserved; authoritative
/// for alignment and scrollbar sizing.
#[derive(Clone, Copy, Debug, PartialEq, Eq, Structural)]
pub struct TextOverflowPass2 {
    pub horizontal: TextOverflow,
    pub vertical: TextOverflow,
}

/// `Overflowing(consumed - bound)` when the consumed extent exceeds
/// the bound, else `InBounds(bound - consumed)`.
pub open spec fn overflow_result(consumed: int, bound: int) -> TextOverflow {
    if consumed > bound {
        TextOverflow::IsOverflowing((consumed - bound) as i64)
    } else {
        TextOverflow::InBounds((bound - consumed) as i64)
    }
}

/// For a consumed extent against a bound, the verdict is
/// `InBounds(bound - consumed)` when the extent fits, else
/// `IsOverflowing(consumed - bound)` — on each axis independently.
pub proof fn lemma_overflow_result(consumed: int, bound: int)
    requires
        -0x1000_0000_0000_0000 <= consumed <= 0x1000_0000_0000_0000,
        -0x1000_0000_0000_0000 <= bound <= 0x1000_0000_0000_0000,
    ensures
        consumed <= bound ==> overflow_result(consumed, bound) == TextOverflow::InBounds(
            (bound - consumed) as i64,
        ),
        consumed > bound ==> overflow_result(consumed, bound) == TextOverflow::IsOverflowing(
            (consumed - bound) as i64,
        ),
{
}

/// The larger of two integers.
pub open spec fn max_of(a: int, b: int) -> int {
    if a >= b {
        a
    } else {
        b
    }
}

/// State of the greedy wrapping simulation: widest line folded so far,
/// current line cursor, and vertical cursor.
#[verifier::ext_equal]
pub struct WrapState {
    pub max_line: int,
    pub cur_line: int,
    pub cur_vert: int,
}

pub open spec fn wrap_init(fm: FontMetrics) -> WrapState {
    WrapState { max_line: 0, cur_line: 0, cur_vert: fm.offset_top as int }
}

/// One token of the wrapping simulation: a word that would exceed the
/// width forces an implicit break (the word's width is not carried
/// over), a tab advances the cursor, an explicit break always breaks.
pub open spec fn wrap_step(st: WrapState, t: TokenModel, width: int, fm: FontMetrics) -> WrapState {
    match t {
        TokenModel::Word(w) => {
            if st.cur_line + w.total_width > width {
                WrapState {
                    max_line: max_of(st.max_line, st.cur_line),
                    cur_line: 0,
                    cur_vert: st.cur_vert + fm.vertical_advance,
                }
            } else {
                WrapState { cur_line: st.cur_line + w.total_width, ..st }
            }
        },
        TokenModel::Tab => WrapState { cur_line: st.cur_line + fm.tab_width, ..st },
        TokenModel::Return => WrapState {
            max_line: max_of(st.max_line, st.cur_line),
            cur_line: 0,
            cur_vert: st.cur_vert + fm.vertical_advance,
        },
    }
}

/// The wrapping simulation over a whole token stream.
pub open spec fn wrap_run(toks: Seq<TokenModel>, width: int, fm: FontMetrics) -> WrapState
    decreases toks.len(),
{
    if toks.len() == 0 {
        wrap_init(fm)
    } else {
        wrap_step(wrap_run(toks.drop_last(), width, fm), toks.last(), width, fm)
    }
}

/// State of the unwrapped simulation: widest line folded at explicit
/// breaks, and the current line cursor.
#[verifier::ext_equal]
pub struct FlatState {
    pub max_line: int,
    pub cur_line: int,
}

/// One token of the unwrapped simulation: no width bound, lines end
/// only at explicit breaks.
pub open spec fn flat_step(st: FlatState, t: TokenModel, fm: FontMetrics) -> FlatState {
    match t {
        TokenModel::Word(w) => FlatState { cur_line: st.cur_line + w.total_width, ..st },
        TokenModel::Tab => FlatState { cur_line: st.cur_line + fm.tab_width, ..st },
        TokenModel::Return => FlatState { max_line: max_of(st.max_line, st.cur_line), cur_line: 0 },
    }
}

/// The unwrapped simulation over a whole token stream.
pub open spec fn flat_run(toks: Seq<TokenModel>, fm: FontMetrics) -> FlatState
    decreases toks.len(),
{
    if toks.len() == 0 {
        FlatState { max_line: 0, cur_line: 0 }
    } else {
        flat_step(flat_run(toks.drop_last(), fm), toks.last(), fm)
    }
}

/// Number of explicit line-break tokens.
pub open spec fn count_returns(toks: Seq<TokenModel>) -> int
    decreases toks.len(),
{
    if toks.len() == 0 {
        0
    } else {
        count_returns(toks.drop_last()) + (if toks.last() is Return {
            1int
        } else {
            0int
        })
    }
}

/// The consumed vertical extent: when horizontal overflow is allowed,
/// lines never wrap, so only explicit breaks count; otherwise the
/// greedy wrapping simulation's vertical cursor (which starts at the
/// ascent).
pub open spec fn consumed_vertical(
    toks: Seq<TokenModel>,
    width: int,
    fm: FontMetrics,
    allows_horizontal: bool,
) -> int {
    if allows_horizontal {
        count_returns(toks) * fm.vertical_advance
    } else {
        wrap_run(toks, width, fm).cur_vert
    }
}

/// The consumed horizontal extent: the widest line folded at breaks,
/// from the unwrapped simulation when horizontal overflow is allowed,
/// else from the wrapping simulation.
pub open spec fn consumed_horizontal(
    toks: Seq<TokenModel>,
    width: int,
    fm: FontMetrics,
    allows_horizontal: bool,
) -> int {
    if allows_horizontal {
        flat_run(toks, fm).max_line
    } else {
        wrap_run(toks, width, fm).max_line
    }
}

/// What pass 1 reports for a token stream against a rectangle.
pub open spec fn pass1_spec(
    toks: Seq<TokenModel>,
    size: LayoutSize,
    fm: FontMetrics,
    allows_horizontal: bool,
) -> TextOverflowPass1 {
    TextOverflowPass1 {
        horizontal: overflow_result(
            consumed_horizontal(toks, size.width as int, fm, allows_horizontal),
            size.width as int,
        ),
        vertical: overflow_result(
            consumed_vertical(toks, size.width as int, fm, allows_horizontal),
            size.height as int,
        ),
    }
}

/// The rectangle with scrollbar space reserved: a horizontal overflow
/// verdict reserves a horizontal scrollbar, which eats height; a
/// vertical verdict eats width. Both may apply at once.
pub open spec fn reserved_size(size: LayoutSize, pass1: TextOverflowPass1, sb: ScrollbarInfo) -> LayoutSize {
    LayoutSize {
        width: if pass1.vertical is IsOverflowing {
            (size.width - sb.width) as i64
        } else {
            size.width
        },
        height: if pass1.horizontal is IsOverflowing {
            (size.height - sb.width) as i64
        } else {
            size.height
        },
    }
}

/// Magnitude bound on a working rectangle dimension (a dimension of
/// the caller's rectangle, possibly reduced by a scrollbar).
pub open spec fn dim_in_working_range(v: int) -> bool {
    -(2 * MAX_DIM) <= v <= 2 * MAX_DIM
}

/// Bounds of the wrapping simulation, for any prefix of a sound
/// stream.
pub proof fn lemma_wrap_run_bounds(toks: Seq<TokenModel>, width: int, fm: FontMetrics)
    requires
        forall|i: int| 0 <= i < toks.len() ==> token_wf(#[trigger] toks[i]),
        toks.len() <= MAX_TEXT_LEN,
        fm.wf(),
        dim_in_working_range(width),
    ensures
        -(stream_weight(toks)) <= wrap_run(toks, width, fm).cur_line <= 2 * MAX_DIM
            + stream_weight(toks),
        0 <= wrap_run(toks, width, fm).max_line <= 2 * MAX_DIM + stream_weight(toks),
        fm.offset_top <= wrap_run(toks, width, fm).cur_vert <= fm.offset_top + MAX_METRIC
            * toks.len(),
        0 <= stream_weight(toks),
    decreases toks.len(),
{
    lemma_stream_weight_floor(toks);
    if toks.len() > 0 {
        lemma_wrap_run_bounds(toks.drop_last(), width, fm);
        assert(stream_weight(toks) == stream_weight(toks.drop_last()) + token_weight(toks.last()));
        assert(token_weight(toks.last()) >= 5 * MAX_METRIC);
        assert(MAX_METRIC * (toks.len() as int) == MAX_METRIC * (toks.len() - 1) + MAX_METRIC)
            by (nonlinear_arith);
        match toks.last() {
            TokenModel::Word(w) => {
                assert(token_wf(toks[toks.len() - 1]));
                assert(2 * MAX_METRIC * w.glyphs.len() + 5 * MAX_METRIC == token_weight(
                    toks.last(),
                ));
            },
            _ => {},
        }
    }
}

/// Bounds of the unwrapped simulation, for any prefix of a sound
/// stream.
pub proof fn lemma_flat_run_bounds(toks: Seq<TokenModel>, fm: FontMetrics)
    requires
        forall|i: int| 0 <= i < toks.len() ==> token_wf(#[trigger] toks[i]),
        fm.wf(),
    ensures
        -(stream_weight(toks)) <= flat_run(toks, fm).cur_line <= stream_weight(toks),
        0 <= flat_run(toks, fm).max_line <= stream_weight(toks),
        0 <= stream_weight(toks),
    decreases toks.len(),
{
    lemma_stream_weight_floor(toks);
    if toks.len() > 0 {
        lemma_flat_run_bounds(toks.drop_last(), fm);
        assert(stream_weight(toks) == stream_weight(toks.drop_last()) + token_weight(toks.last()));
        assert(token_weight(toks.last()) >= 5 * MAX_METRIC);
        match toks.last() {
            TokenModel::Word(w) => {
                assert(token_wf(toks[toks.len() - 1]));
                assert(2 * MAX_METRIC * w.glyphs.len() + 5 * MAX_METRIC == token_weight(
                    toks.last(),
                ));
            },
            _ => {},
        }
    }
}

/// Bounds on both consumed extents, for any sound stream.
pub proof fn lemma_consumed_bounds(toks: Seq<TokenModel>, width: int, fm: FontMetrics, allows: bool)
    requires
        stream_ok(toks),
        fm.wf(),
        dim_in_working_range(width),
    ensures
        0 <= consumed_vertical(toks, width, fm, allows) <= 0x2000_0000_0000,
        0 <= consumed_horizontal(toks, width, fm, allows) <= 2 * MAX_DIM + WEIGHT_LIMIT,
{
    lemma_wrap_run_bounds(toks, width, fm);
    lemma_flat_run_bounds(toks, fm);
    lemma_count_returns_bounds(toks);
    assert(0 <= count_returns(toks) * fm.vertical_advance <= 0x1000_0000_0000) by (nonlinear_arith)
        requires
            0 <= count_returns(toks) <= 0x10_0000,
            0 <= fm.vertical_advance <= 0x100_0000i64,
    ;
    assert(MAX_METRIC * (toks.len() as int) <= 0x1000_0000_0000) by (nonlinear_arith)
        requires
            toks.len() <= 0x10_0000,
            MAX_METRIC == 0x100_0000i64,
    ;
}

/// The explicit line-break count never exceeds the token count.
pub proof fn lemma_count_returns_bounds(toks: Seq<TokenModel>)
    ensures
        0 <= count_returns(toks) <= toks.len(),
    decreases toks.len(),
{
    if toks.len() > 0 {
        lemma_count_returns_bounds(toks.drop_last());
    }
}

/// Counts the explicit line-break tokens of a stream.
fn count_line_breaks(words: &Vec<SemanticWordItem>) -> (count: usize)
    ensures
        count as int == count_returns(tokens_view(words@)),
        count <= words@.len(),
{
    proof {
        assert(tokens_view(words@).take(0) =~= Seq::<TokenModel>::empty());
    }
    let mut count: usize = 0;
    let mut i: usize = 0;
    while i < words.len()
        invariant
            0 <= i <= words@.len(),
            count as int == count_returns(tokens_view(words@).take(i as int)),
            count <= i,
        decreases words@.len() - i,
    {
        proof {
            lemma_count_returns_bounds(tokens_view(words@).take(i as int));
            assert(tokens_view(words@).take(i + 1).drop_last() =~= tokens_view(words@).take(
                i as int,
            ));
            assert(tokens_view(words@).take(i + 1).last() == tokens_view(words@)[i as int]);
        }
        if words[i].is_return() {
            count += 1;
        }
        i += 1;
    }
    proof {
        assert(tokens_view(words@).take(words@.len() as int) =~= tokens_view(words@));
    }
    count
}

/// Runs the greedy wrapping simulation; returns
/// `(max_line, cur_line, cur_vert)`.
fn simulate_wrap(words: &Vec<SemanticWordItem>, width: i64, fm: &FontMetrics) -> (r: (i64, i64, i64))
    requires
        stream_ok(tokens_view(words@)),
        fm.wf(),
        dim_in_working_range(width as int),
    ensures
        r.0 as int == wrap_run(tokens_view(words@), width as int, *fm).max_line,
        r.1 as int == wrap_run(tokens_view(words@), width as int, *fm).cur_line,
        r.2 as int == wrap_run(tokens_view(words@), width as int, *fm).cur_vert,
{
    let ghost toks = tokens_view(words@);
    proof {
        assert(toks.take(0) =~= Seq::<TokenModel>::empty());
    }
    let mut max_line: i64 = 0;
    let mut cur_line: i64 = 0;
    let mut cur_vert: i64 = fm.offset_top;
    let mut i: usize = 0;
    while i < words.len()
        invariant
            0 <= i <= words@.len(),
            stream_ok(toks),
            toks == tokens_view(words@),
            toks.len() == words@.len(),
            fm.wf(),
            dim_in_working_range(width as int),
            max_line as int == wrap_run(toks.take(i as int), width as int, *fm).max_line,
            cur_line as int == wrap_run(toks.take(i as int), width as int, *fm).cur_line,
            cur_vert as int == wrap_run(toks.take(i as int), width as int, *fm).cur_vert,
        decreases words@.len() - i,
    {
        proof {
            lemma_stream_weight_prefix_le(toks, i as int);
            lemma_stream_weight_prefix_le(toks, i + 1);
            lemma_stream_weight_take_step(toks, i as int);
            lemma_wrap_run_bounds(toks.take(i as int), width as int, *fm);
            lemma_wrap_run_bounds(toks.take(i + 1), width as int, *fm);
            assert(toks.take(i + 1).drop_last() =~= toks.take(i as int));
            assert(toks.take(i + 1).last() == toks[i as int]);
            assert(MAX_METRIC * (toks.take(i as int).len() as int) <= 0x1000_0000_0000)
                by (nonlinear_arith)
                requires
                    toks.take(i as int).len() <= 0x10_0000,
                    MAX_METRIC == 0x100_0000i64,
            ;
            assert(MAX_METRIC * (toks.take(i + 1).len() as int) <= 0x1000_0000_0000)
                by (nonlinear_arith)
                requires
                    toks.take(i + 1).len() <= 0x10_0000,
                    MAX_METRIC == 0x100_0000i64,
            ;
        }
        match &words[i] {
            SemanticWordItem::Word(w) => {
                proof {
                    assert(token_wf(toks[i as int]));
                }
                if cur_line + w.total_width > width {
                    if cur_line > max_line {
                        max_line = cur_line;
                    }
                    cur_line = 0;
                    cur_vert = cur_vert + fm.vertical_advance;
                } else {
                    cur_line = cur_line + w.total_width;
                }
            },
            SemanticWordItem::Tab => {
                cur_line = cur_line + fm.tab_width;
            },
            SemanticWordItem::Return => {
                if cur_line > max_line {
                    max_line = cur_line;
                }
                cur_line = 0;
                cur_vert = cur_vert + fm.vertical_advance;
            },
        }
        i += 1;
    }
    proof {
        assert(toks.take(words@.len() as int) =~= toks);
    }
    (max_line, cur_line, cur_vert)
}

/// Runs the unwrapped simulation; returns `(max_line, cur_line)`.
fn simulate_flat(words: &Vec<SemanticWordItem>, fm: &FontMetrics) -> (r: (i64, i64))
    requires
        stream_ok(tokens_view(words@)),
        fm.wf(),
    ensures
        r.0 as int == flat_run(tokens_view(words@), *fm).max_line,
        r.1 as int == flat_run(tokens_view(words@), *fm).cur_line,
{
    let ghost toks = tokens_view(words@);
    proof {
        assert(toks.take(0) =~= Seq::<TokenModel>::empty());
    }
    let mut max_line: i64 = 0;
    let mut cur_line: i64 = 0;
    let mut i: usize = 0;
    while i < words.len()
        invariant
            0 <= i <= words@.len(),
            stream_ok(toks),
            toks == tokens_view(words@),
            toks.len() == words@.len(),
            fm.wf(),
            max_line as int == flat_run(toks.take(i as int), *fm).max_line,
            cur_line as int == flat_run(toks.take(i as int), *fm).cur_line,
        decreases words@.len() - i,
    {
        proof {
            lemma_stream_weight_prefix_le(toks, i as int);
            lemma_stream_weight_prefix_le(toks, i + 1);
            lemma_stream_weight_take_step(toks, i as int);
            lemma_flat_run_bounds(toks.take(i as int), *fm);
            lemma_flat_run_bounds(toks.take(i + 1), *fm);
            assert(toks.take(i + 1).drop_last() =~= toks.take(i as int));
            assert(toks.take(i + 1).last() == toks[i as int]);
        }
        match &words[i] {
            SemanticWordItem::Word(w) => {
                proof {
                    assert(token_wf(toks[i as int]));
                }
                cur_line = cur_line + w.total_width;
            },
            SemanticWordItem::Tab => {
                cur_line = cur_line + fm.tab_width;
            },
            SemanticWordItem::Return => {
                if cur_line > max_line {
                    max_line = cur_line;
                }
                cur_line = 0;
            },
        }
        i += 1;
    }
    proof {
        assert(toks.take(words@.len() as int) =~= toks);
    }
    (max_line, cur_line)
}

/// Pass 1: estimates, without placing glyphs, whether the token stream
/// overflows the rectangle on each axis. When horizontal overflow is
/// permitted the vertical extent counts only explicit breaks and the
/// horizontal extent comes from the unwrapped simulation; otherwise
/// both come from the greedy wrapping simulation.
pub fn estimate_overflow_pass_1(
    words: &Vec<SemanticWordItem>,
    rect_dimensions: &LayoutSize,
    font_metrics: &FontMetrics,
    overflow: &LayoutOverflow,
) -> (r: TextOverflowPass1)
    requires
        stream_ok(tokens_view(words@)),
        font_metrics.wf(),
        dim_in_working_range(rect_dimensions.width as int),
        dim_in_working_range(rect_dimensions.height as int),
    ensures
        r == pass1_spec(
            tokens_view(words@),
            *rect_dimensions,
            *font_metrics,
            overflow.allows_horizontal_overflow_spec(),
        ),
{
    let ghost toks = tokens_view(words@);
    let allows_horizontal = overflow.allows_horizontal_overflow();

    let (consumed_h, consumed_v): (i64, i64) = if allows_horizontal {
        let count = count_line_breaks(words);
        proof {
            lemma_count_returns_bounds(toks);
            assert(0 <= count_returns(toks) * (font_metrics.vertical_advance as int)
                <= 0x1000_0000_0000) by (nonlinear_arith)
                requires
                    0 <= count_returns(toks) <= 0x10_0000,
                    0 <= font_metrics.vertical_advance <= 0x100_0000i64,
            ;
            lemma_flat_run_bounds(toks, *font_metrics);
        }
        let (flat_max, _flat_cur) = simulate_flat(words, font_metrics);
        ((flat_max), (count as i64) * font_metrics.vertical_advance)
    } else {
        proof {
            lemma_wrap_run_bounds(toks, rect_dimensions.width as int, *font_metrics);
            assert(MAX_METRIC * (toks.len() as int) <= 0x1000_0000_0000) by (nonlinear_arith)
                requires
                    toks.len() <= 0x10_0000,
                    MAX_METRIC == 0x100_0000i64,
            ;
        }
        let (wrap_max, _wrap_cur, wrap_vert) = simulate_wrap(
            words,
            rect_dimensions.width,
            font_metrics,
        );
        (wrap_max, wrap_vert)
    };

    let horizontal = if consumed_h > rect_dimensions.width {
        TextOverflow::IsOverflowing(consumed_h - rect_dimensions.width)
    } else {
        TextOverflow::InBounds(rect_dimensions.width - consumed_h)
    };
    let vertical = if consumed_v > rect_dimensions.height {
        TextOverflow::IsOverflowing(consumed_v - rect_dimensions.height)
    } else {
        TextOverflow::InBounds(rect_dimensions.height - consumed_v)
    };
    TextOverflowPass1 { horizontal, vertical }
}

/// Pass 2: reserves scrollbar space for each overflowing pass-1 axis —
/// a horizontal overflow shrinks the height, a vertical overflow the
/// width, both at most once — and re-runs pass 1 against the reduced
/// rectangle. Returns the effective size and the authoritative
/// overflow verdict.
pub fn estimate_overflow_pass_2(
    words: &Vec<SemanticWordItem>,
    rect_dimensions: &LayoutSize,
    font_metrics: &FontMetrics,
    overflow: &LayoutOverflow,
    scrollbar_info: &ScrollbarInfo,
    pass1: TextOverflowPass1,
) -> (r: (LayoutSize, TextOverflowPass2))
    requires
        stream_ok(tokens_view(words@)),
        font_metrics.wf(),
        rect_dimensions.in_range(),
        scrollbar_info.in_range(),
    ensures
        r.0 == reserved_size(*rect_dimensions, pass1, *scrollbar_info),
        ({
            let p = pass1_spec(
                tokens_view(words@),
                r.0,
                *font_metrics,
                overflow.allows_horizontal_overflow_spec(),
            );
            r.1 == (TextOverflowPass2 { horizontal: p.horizontal, vertical: p.vertical })
        }),
        pass1.horizontal is IsOverflowing ==> r.0.height == rect_dimensions.height
            - scrollbar_info.width,
        !(pass1.horizontal is IsOverflowing) ==> r.0.height == rect_dimensions.height,
        pass1.vertical is IsOverflowing ==> r.0.width == rect_dimensions.width
            - scrollbar_info.width,
        !(pass1.vertical is IsOverflowing) ==> r.0.width == rect_dimensions.width,
{
    let mut new_size = *rect_dimensions;
    if pass1.horizontal.is_overflowing() {
        new_size.height = new_size.height - scrollbar_info.width;
    }
    if pass1.vertical.is_overflowing() {
        new_size.width = new_size.width - scrollbar_info.width;
    }
    let recalc = estimate_overflow_pass_1(words, &new_size, font_metrics, overflow);
    (new_size, TextOverflowPass2 { horizontal: recalc.horizontal, vertical: recalc.vertical })
}

} // verus!
