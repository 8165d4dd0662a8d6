//! The line breaker / left-aligned placer: walks the token stream with
//! a caret, wraps greedily when a word would exceed the maximum width
//! (or unconditionally on an explicit break), places every glyph in
//! left-aligned layout space, and records per line the index of its
//! last glyph and its trailing slack.

use vstd::prelude::*;
use crate::{GEOM_LIMIT, MAX_DIM, MAX_METRIC, MAX_TEXT_LEN, WEIGHT_LIMIT};
use crate::metrics::FontMetrics;
use crate::overflow::{dim_in_working_range, max_of};
use crate::tokens::{
    GlyphInstance, SemanticWordItem, TokenModel, lemma_stream_weight_floor,
    lemma_stream_weight_prefix_le, lemma_stream_weight_take_step, stream_ok, stream_weight,
    token_weight, token_wf, tokens_view, word_wf,
};

verus! {

/// State of the placer: placed glyphs, raw line-break entries, the
/// caret, the current line number, and the widest caret folded so far.
#[verifier::ext_equal]
pub struct PlaceState {
    pub glyphs: Seq<GlyphInstance>,
    pub breaks: Seq<(int, int)>,
    pub caret: int,
    pub line: int,
    pub max_caret: int,
}

pub open spec fn place_init() -> PlaceState {
    PlaceState { glyphs: Seq::empty(), breaks: Seq::empty(), caret: 0, line: 0, max_caret: 0 }
}

/// Would placing a word of this width at this caret exceed the maximum
/// width? Never, when no maximum constrains layout.
pub open spec fn exceeds_width(caret: int, total_width: int, maxw: Option<int>) -> bool {
    match maxw {
        Some(m) => caret + total_width > m,
        None => false,
    }
}

/// The raw value recorded for a line at its break: the definitive
/// slack `m - caret` when a maximum width is set, else the provisional
/// caret, reconciled against the longest line afterwards.
pub open spec fn raw_slack(caret: int, maxw: Option<int>) -> int {
    match maxw {
        Some(m) => m - caret,
        None => caret,
    }
}

/// A line break: record the previous glyph's index and the raw slack
/// (only once a glyph exists), fold the caret into the maximum, reset
/// it, and move to the next line.
pub open spec fn line_broken(st: PlaceState, maxw: Option<int>) -> PlaceState {
    PlaceState {
        glyphs: st.glyphs,
        breaks: if st.glyphs.len() > 0 {
            st.breaks.push((st.glyphs.len() - 1, raw_slack(st.caret, maxw)))
        } else {
            st.breaks
        },
        caret: 0,
        line: st.line + 1,
        max_caret: max_of(st.max_caret, st.caret),
    }
}

/// A word glyph moved from word space to layout space.
pub open spec fn placed_glyph(g: GlyphInstance, caret: int, y: int) -> GlyphInstance {
    GlyphInstance { index: g.index, x: (g.x + caret) as i64, y: (g.y + y) as i64 }
}

/// A whole word's glyphs moved from word space to layout space.
pub open spec fn place_word(glyphs: Seq<GlyphInstance>, caret: int, y: int) -> Seq<GlyphInstance> {
    glyphs.map_values(|g: GlyphInstance| placed_glyph(g, caret, y))
}

/// One token of placement: a word breaks the line first if it must,
/// then its glyphs land at the caret on the current baseline and the
/// caret advances by the word's width plus one space; a tab advances
/// the caret; an explicit break always breaks.
pub open spec fn place_step(st: PlaceState, t: TokenModel, maxw: Option<int>, fm: FontMetrics) -> PlaceState {
    match t {
        TokenModel::Word(w) => {
            let st1 = if exceeds_width(st.caret, w.total_width, maxw) {
                line_broken(st, maxw)
            } else {
                st
            };
            let y = st1.line * fm.vertical_advance + fm.offset_top;
            PlaceState {
                glyphs: st1.glyphs + place_word(w.glyphs, st1.caret, y),
                breaks: st1.breaks,
                caret: st1.caret + w.total_width + fm.space_width,
                line: st1.line,
                max_caret: st1.max_caret,
            }
        },
        TokenModel::Tab => PlaceState { caret: st.caret + fm.tab_width, ..st },
        TokenModel::Return => line_broken(st, maxw),
    }
}

/// The placer's state after a whole token stream.
pub open spec fn place_run(toks: Seq<TokenModel>, maxw: Option<int>, fm: FontMetrics) -> PlaceState
    decreases toks.len(),
{
    if toks.len() == 0 {
        place_init()
    } else {
        place_step(place_run(toks.drop_last(), maxw, fm), toks.last(), maxw, fm)
    }
}

/// Line-break entries with their final slack: already definitive when
/// a maximum width was set, else reconciled against the longest line.
pub open spec fn normalize_breaks(
    breaks: Seq<(int, int)>,
    maxw: Option<int>,
    max_caret: int,
) -> Seq<(int, int)> {
    breaks.map_values(
        |e: (int, int)|
            match maxw {
                Some(_) => e,
                None => (e.0, max_caret - e.1),
            },
    )
}

/// What the placer returns: the positioned glyphs and the line-break
/// table, the final (possibly partial) line flushed and every slack
/// reconciled.
pub open spec fn place_outputs(toks: Seq<TokenModel>, maxw: Option<int>, fm: FontMetrics) -> (
    Seq<GlyphInstance>,
    Seq<(int, int)>,
) {
    let st = place_run(toks, maxw, fm);
    let brks = if st.glyphs.len() > 0 {
        st.breaks.push((st.glyphs.len() - 1, raw_slack(st.caret, maxw)))
    } else {
        st.breaks
    };
    let maxc = if st.glyphs.len() > 0 {
        max_of(st.max_caret, st.caret)
    } else {
        st.max_caret
    };
    (st.glyphs, normalize_breaks(brks, maxw, maxc))
}

/// The view of an executable line-break table.
pub open spec fn breaks_view(breaks: Seq<(usize, i64)>) -> Seq<(int, int)> {
    breaks.map_values(|e: (usize, i64)| (e.0 as int, e.1 as int))
}

/// The view of an optional maximum width.
pub open spec fn maxw_view(maxw: Option<i64>) -> Option<int> {
    match maxw {
        Some(m) => Some(m as int),
        None => None,
    }
}

/// Whether an optional maximum width is within the working range.
pub open spec fn maxw_in_range(maxw: Option<int>) -> bool {
    match maxw {
        Some(m) => dim_in_working_range(m),
        None => true,
    }
}

/// Bounds of the placer state, for any prefix of a sound stream.
pub proof fn lemma_place_run_bounds(toks: Seq<TokenModel>, maxw: Option<int>, fm: FontMetrics)
    requires
        forall|i: int| 0 <= i < toks.len() ==> token_wf(#[trigger] toks[i]),
        toks.len() <= MAX_TEXT_LEN,
        fm.wf(),
        maxw_in_range(maxw),
    ensures
        ({
            let st = place_run(toks, maxw, fm);
            let w = stream_weight(toks);
            &&& -w <= st.caret <= 2 * MAX_DIM + w
            &&& 0 <= st.line <= toks.len()
            &&& 0 <= st.max_caret <= 2 * MAX_DIM + w
            &&& st.breaks.len() <= toks.len()
            &&& (st.breaks.len() > 0 ==> st.glyphs.len() > 0)
            &&& forall|k: int|
                0 <= k < st.breaks.len() ==> {
                    &&& 0 <= (#[trigger] st.breaks[k]).0 < st.glyphs.len()
                    &&& -(4 * MAX_DIM + w) <= st.breaks[k].1 <= 4 * MAX_DIM + w
                }
            &&& forall|k1: int, k2: int|
                0 <= k1 <= k2 < st.breaks.len() ==> (#[trigger] st.breaks[k1]).0 <= (
                #[trigger] st.breaks[k2]).0
            &&& forall|j: int|
                0 <= j < st.glyphs.len() ==> {
                    &&& -(2 * MAX_DIM + w) <= (#[trigger] st.glyphs[j]).x <= 2 * MAX_DIM + w
                    &&& 0 <= st.glyphs[j].y <= MAX_METRIC * (toks.len() + 1)
                }
            &&& 0 <= w
        }),
    decreases toks.len(),
{
    lemma_stream_weight_floor(toks);
    if toks.len() > 0 {
        lemma_place_run_bounds(toks.drop_last(), maxw, fm);
        let st = place_run(toks.drop_last(), maxw, fm);
        let w0 = stream_weight(toks.drop_last());
        let n = toks.len() as int;
        assert(stream_weight(toks) == w0 + token_weight(toks.last()));
        assert(token_weight(toks.last()) >= 5 * MAX_METRIC);
        assert(MAX_METRIC * (n + 1) == MAX_METRIC * n + MAX_METRIC) by (nonlinear_arith);
        assert(MAX_METRIC * n == MAX_METRIC * (n - 1) + MAX_METRIC) by (nonlinear_arith);
        match toks.last() {
            TokenModel::Word(wd) => {
                assert(token_wf(toks[n - 1]));
                assert(2 * MAX_METRIC * wd.glyphs.len() + 5 * MAX_METRIC == token_weight(
                    toks.last(),
                ));
                let st1 = if exceeds_width(st.caret, wd.total_width, maxw) {
                    line_broken(st, maxw)
                } else {
                    st
                };
                let y = st1.line * fm.vertical_advance + fm.offset_top;
                assert(0 <= st1.line * fm.vertical_advance <= MAX_METRIC * n) by (nonlinear_arith)
                    requires
                        0 <= st1.line <= n,
                        0 <= fm.vertical_advance <= MAX_METRIC,
                ;
                let placed = place_word(wd.glyphs, st1.caret, y);
                assert(forall|j: int|
                    0 <= j < placed.len() ==> #[trigger] placed[j] == placed_glyph(
                        wd.glyphs[j],
                        st1.caret,
                        y,
                    ));
                let stn = place_run(toks, maxw, fm);
                assert(forall|j: int|
                    0 <= j < st1.glyphs.len() ==> #[trigger] stn.glyphs[j] == st1.glyphs[j]);
                assert(forall|j: int|
                    st1.glyphs.len() <= j < stn.glyphs.len() ==> #[trigger] stn.glyphs[j]
                        == placed[j - st1.glyphs.len()]);
            },
            TokenModel::Tab => {},
            TokenModel::Return => {},
        }
    }
}

/// Soundness of the placer's outputs: the table is ordered, every
/// entry points inside the glyph sequence, the last entry points at
/// the final glyph, and every coordinate and slack is within
/// [`GEOM_LIMIT`].
pub proof fn lemma_place_outputs_wf(toks: Seq<TokenModel>, maxw: Option<int>, fm: FontMetrics)
    requires
        stream_ok(toks),
        fm.wf(),
        maxw_in_range(maxw),
    ensures
        ({
            let (g, b) = place_outputs(toks, maxw, fm);
            &&& (b.len() > 0 <==> g.len() > 0)
            &&& (b.len() > 0 ==> b.last().0 == g.len() - 1)
            &&& forall|k: int|
                0 <= k < b.len() ==> {
                    &&& 0 <= (#[trigger] b[k]).0 < g.len()
                    &&& -GEOM_LIMIT <= b[k].1 <= GEOM_LIMIT
                }
            &&& forall|k1: int, k2: int|
                0 <= k1 <= k2 < b.len() ==> (#[trigger] b[k1]).0 <= (#[trigger] b[k2]).0
            &&& forall|j: int|
                0 <= j < g.len() ==> {
                    &&& -GEOM_LIMIT <= (#[trigger] g[j]).x <= GEOM_LIMIT
                    &&& -GEOM_LIMIT <= g[j].y <= GEOM_LIMIT
                }
        }),
{
    lemma_place_run_bounds(toks, maxw, fm);
    let st = place_run(toks, maxw, fm);
    let w = stream_weight(toks);
    assert(MAX_METRIC * (toks.len() + 1) <= 0x1000_0000_0000 + 0x100_0000) by (nonlinear_arith)
        requires
            toks.len() <= 0x10_0000,
            MAX_METRIC == 0x100_0000i64,
    ;
    let brks = if st.glyphs.len() > 0 {
        st.breaks.push((st.glyphs.len() - 1, raw_slack(st.caret, maxw)))
    } else {
        st.breaks
    };
    let maxc = if st.glyphs.len() > 0 {
        max_of(st.max_caret, st.caret)
    } else {
        st.max_caret
    };
    assert(forall|k: int|
        0 <= k < brks.len() ==> 0 <= (#[trigger] brks[k]).0 < st.glyphs.len() && -(4 * MAX_DIM + w)
            <= brks[k].1 <= 4 * MAX_DIM + w);
    let nb = normalize_breaks(brks, maxw, maxc);
    assert(forall|k: int|
        0 <= k < nb.len() ==> #[trigger] nb[k] == (match maxw {
            Some(_) => brks[k],
            None => (brks[k].0, maxc - brks[k].1),
        }));
}

/// Places the token stream left-aligned: glyphs at the caret on each
/// baseline, greedy wrapping against the maximum width (`None` means
/// text may overflow horizontally and wraps only on explicit breaks),
/// one reserved space after every word, and a line-break table whose
/// last entry records the final line. Slack is definitive against the
/// maximum width, or reconciled against the longest line when there is
/// none.
#[verifier::rlimit(30)]
pub fn words_to_left_aligned_glyphs(
    words: &Vec<SemanticWordItem>,
    max_horizontal_width: Option<i64>,
    font_metrics: &FontMetrics,
) -> (r: (Vec<GlyphInstance>, Vec<(usize, i64)>))
    requires
        stream_ok(tokens_view(words@)),
        font_metrics.wf(),
        maxw_in_range(maxw_view(max_horizontal_width)),
    ensures
        r.0@ == place_outputs(tokens_view(words@), maxw_view(max_horizontal_width), *font_metrics).0,
        breaks_view(r.1@) == place_outputs(
            tokens_view(words@),
            maxw_view(max_horizontal_width),
            *font_metrics,
        ).1,
{
    let ghost toks = tokens_view(words@);
    let ghost maxwv = maxw_view(max_horizontal_width);
    let fm = *font_metrics;
    proof {
        assert(toks.take(0) =~= Seq::<TokenModel>::empty());
        assert(breaks_view(Seq::<(usize, i64)>::empty()) =~= Seq::<(int, int)>::empty());
    }
    let mut left_aligned_glyphs: Vec<GlyphInstance> = Vec::new();
    let mut line_break_offsets: Vec<(usize, i64)> = Vec::new();
    let mut word_caret: i64 = 0;
    let mut current_line_num: i64 = 0;
    let mut max_word_caret: i64 = 0;
    let mut i: usize = 0;
    while i < words.len()
        invariant
            0 <= i <= words@.len(),
            stream_ok(toks),
            toks == tokens_view(words@),
            toks.len() == words@.len(),
            fm == *font_metrics,
            fm.wf(),
            maxwv == maxw_view(max_horizontal_width),
            maxw_in_range(maxwv),
            ({
                let st = place_run(toks.take(i as int), maxwv, fm);
                &&& left_aligned_glyphs@ == st.glyphs
                &&& breaks_view(line_break_offsets@) == st.breaks
                &&& word_caret as int == st.caret
                &&& current_line_num as int == st.line
                &&& max_word_caret as int == st.max_caret
            }),
        decreases words@.len() - i,
    {
        let ghost st = place_run(toks.take(i as int), maxwv, fm);
        proof {
            lemma_stream_weight_prefix_le(toks, i as int);
            lemma_stream_weight_prefix_le(toks, i + 1);
            lemma_stream_weight_take_step(toks, i as int);
            lemma_stream_weight_floor(toks.take(i as int));
            lemma_place_run_bounds(toks.take(i as int), maxwv, fm);
            lemma_place_run_bounds(toks.take(i + 1), maxwv, fm);
            assert(toks.take(i + 1).drop_last() =~= toks.take(i as int));
            assert(toks.take(i + 1).last() == toks[i as int]);
            assert(token_wf(toks[i as int]));
        }
        let ghost st_next = place_run(toks.take(i + 1), maxwv, fm);
        match &words[i] {
            SemanticWordItem::Word(w) => {
                proof {
                    assert(toks[i as int] == TokenModel::Word(w@));
                    assert(2 * MAX_METRIC * w.glyphs@.len() + 5 * MAX_METRIC == token_weight(
                        toks[i as int],
                    ));
                }
                let text_overflows_rect = match max_horizontal_width {
                    Some(max) => word_caret + w.total_width > max,
                    None => false,
                };
                if text_overflows_rect {
                    if left_aligned_glyphs.len() > 0 {
                        let raw = match max_horizontal_width {
                            Some(s) => s - word_caret,
                            None => word_caret,
                        };
                        let ghost old_breaks = breaks_view(line_break_offsets@);
                        line_break_offsets.push((left_aligned_glyphs.len() - 1, raw));
                        proof {
                            assert(breaks_view(line_break_offsets@) =~= old_breaks.push(
                                ((left_aligned_glyphs@.len() - 1) as int, raw as int),
                            ));
                        }
                    }
                    if word_caret > max_word_caret {
                        max_word_caret = word_caret;
                    }
                    word_caret = 0;
                    current_line_num = current_line_num + 1;
                }
                let ghost st1 = if exceeds_width(st.caret, w@.total_width, maxwv) {
                    line_broken(st, maxwv)
                } else {
                    st
                };
                proof {
                    assert(word_caret as int == st1.caret);
                    assert(current_line_num as int == st1.line);
                    assert(0 <= st1.line <= toks.take(i as int).len() + 1);
                    assert(0 <= st1.line * fm.vertical_advance <= 0x1000_0000_0000 + 0x100_0000)
                        by (nonlinear_arith)
                        requires
                            0 <= st1.line <= 0x10_0000 + 1,
                            0 <= fm.vertical_advance <= 0x100_0000i64,
                    ;
                }
                let y = current_line_num * fm.vertical_advance + fm.offset_top;
                let ghost yv = st1.line * fm.vertical_advance + fm.offset_top;
                proof {
                    assert(y as int == yv);
                    assert(place_word(w.glyphs@.take(0), st1.caret, yv) =~= Seq::<
                        GlyphInstance,
                    >::empty());
                    assert(left_aligned_glyphs@ =~= st1.glyphs + place_word(
                        w.glyphs@.take(0),
                        st1.caret,
                        yv,
                    ));
                }
                let mut j: usize = 0;
                while j < w.glyphs.len()
                    invariant
                        0 <= j <= w.glyphs@.len(),
                        fm.wf(),
                        word_wf(w@),
                        2 * MAX_METRIC * w.glyphs@.len() <= WEIGHT_LIMIT,
                        -GEOM_LIMIT <= word_caret <= GEOM_LIMIT,
                        0 <= y <= GEOM_LIMIT,
                        word_caret as int == st1.caret,
                        y as int == yv,
                        left_aligned_glyphs@ == st1.glyphs + place_word(
                            w.glyphs@.take(j as int),
                            st1.caret,
                            yv,
                        ),
                    decreases w.glyphs@.len() - j,
                {
                    let g = w.glyphs[j];
                    proof {
                        assert(w.glyphs@.take(j + 1).drop_last() =~= w.glyphs@.take(j as int));
                        assert(w.glyphs@.take(j + 1).last() == w.glyphs@[j as int]);
                        assert(place_word(w.glyphs@.take(j + 1), st1.caret, yv) =~= place_word(
                            w.glyphs@.take(j as int),
                            st1.caret,
                            yv,
                        ).push(placed_glyph(w.glyphs@[j as int], st1.caret, yv)));
                    }
                    left_aligned_glyphs.push(GlyphInstance { index: g.index, x: g.x + word_caret, y: g.y + y });
                    proof {
                        assert(left_aligned_glyphs@ =~= st1.glyphs + place_word(
                            w.glyphs@.take(j + 1),
                            st1.caret,
                            yv,
                        ));
                    }
                    j += 1;
                }
                proof {
                    assert(w.glyphs@.take(w.glyphs@.len() as int) =~= w.glyphs@);
                }
                word_caret = word_caret + w.total_width + fm.space_width;
                proof {
                    assert(left_aligned_glyphs@ =~= st_next.glyphs);
                }
            },
            SemanticWordItem::Tab => {
                word_caret = word_caret + fm.tab_width;
            },
            SemanticWordItem::Return => {
                if left_aligned_glyphs.len() > 0 {
                    let raw = match max_horizontal_width {
                        Some(s) => s - word_caret,
                        None => word_caret,
                    };
                    let ghost old_breaks = breaks_view(line_break_offsets@);
                    line_break_offsets.push((left_aligned_glyphs.len() - 1, raw));
                    proof {
                        assert(breaks_view(line_break_offsets@) =~= old_breaks.push(
                            ((left_aligned_glyphs@.len() - 1) as int, raw as int),
                        ));
                    }
                }
                if word_caret > max_word_caret {
                    max_word_caret = word_caret;
                }
                word_caret = 0;
                current_line_num = current_line_num + 1;
            },
        }
        i += 1;
    }
    proof {
        assert(toks.take(words@.len() as int) =~= toks);
        lemma_place_run_bounds(toks, maxwv, fm);
    }
    let ghost st = place_run(toks, maxwv, fm);
    if left_aligned_glyphs.len() > 0 {
        let raw = match max_horizontal_width {
            Some(s) => s - word_caret,
            None => word_caret,
        };
        let ghost old_breaks = breaks_view(line_break_offsets@);
        line_break_offsets.push((left_aligned_glyphs.len() - 1, raw));
        proof {
            assert(breaks_view(line_break_offsets@) =~= old_breaks.push(
                ((left_aligned_glyphs@.len() - 1) as int, raw as int),
            ));
        }
        if word_caret > max_word_caret {
            max_word_caret = word_caret;
        }
    }
    proof {
        assert forall|t: int|
            0 <= t < line_break_offsets@.len() implies -GEOM_LIMIT <= (
        #[trigger] line_break_offsets@[t]).1 <= GEOM_LIMIT by {
            assert(breaks_view(line_break_offsets@)[t] == (
                (line_break_offsets@[t]).0 as int,
                (line_break_offsets@[t]).1 as int,
            ));
        }
    }
    let final_breaks: Vec<(usize, i64)> = match max_horizontal_width {
        Some(_) => {
            proof {
                assert(normalize_breaks(breaks_view(line_break_offsets@), maxwv, max_word_caret as int)
                    =~= breaks_view(line_break_offsets@));
            }
            line_break_offsets
        },
        None => {
            let ghost brks = breaks_view(line_break_offsets@);
            let mut normalized: Vec<(usize, i64)> = Vec::new();
            let mut k: usize = 0;
            proof {
                assert(breaks_view(normalized@) =~= normalize_breaks(brks, maxwv, max_word_caret as int).take(0));
            }
            while k < line_break_offsets.len()
                invariant
                    0 <= k <= line_break_offsets@.len(),
                    maxwv is None,
                    brks == breaks_view(line_break_offsets@),
                    -GEOM_LIMIT <= max_word_caret <= GEOM_LIMIT,
                    forall|t: int|
                        0 <= t < line_break_offsets@.len() ==> -GEOM_LIMIT <= (
                        #[trigger] line_break_offsets@[t]).1 <= GEOM_LIMIT,
                    breaks_view(normalized@) == normalize_breaks(
                        brks,
                        maxwv,
                        max_word_caret as int,
                    ).take(k as int),
                decreases line_break_offsets@.len() - k,
            {
                let e = line_break_offsets[k];
                let ghost before = breaks_view(normalized@);
                normalized.push((e.0, max_word_caret - e.1));
                proof {
                    assert(breaks_view(normalized@) =~= before.push(
                        (e.0 as int, (max_word_caret - e.1) as int),
                    ));
                    assert(normalize_breaks(brks, maxwv, max_word_caret as int).take(k + 1)
                        =~= normalize_breaks(brks, maxwv, max_word_caret as int).take(k as int).push(
                        normalize_breaks(brks, maxwv, max_word_caret as int)[k as int],
                    ));
                }
                k += 1;
            }
            proof {
                assert(normalize_breaks(brks, maxwv, max_word_caret as int).take(
                    line_break_offsets@.len() as int,
                ) =~= normalize_breaks(brks, maxwv, max_word_caret as int));
            }
            normalized
        },
    };
    (left_aligned_glyphs, final_breaks)
}

} // verus!
