//! Segmentation: turning normalized text into a stream of semantic
//! tokens (word / tab / line break), with per-glyph kerning-adjusted
//! offsets relative to each word's own left edge.

use vstd::prelude::*;
use unicode_normalization::UnicodeNormalization;
use crate::{MAX_METRIC, MAX_TEXT_LEN, WEIGHT_LIMIT};
use crate::metrics::FontMetricsProvider;
use crate::style::LayoutError;

verus! {

/// One glyph with its index in the font and its position, in subpixel
/// units. Before placement the position is relative to the word's own
/// left edge; after placement it is absolute.
#[derive(Clone, Copy, Debug, PartialEq, Eq, Structural)]
pub struct GlyphInstance {
    pub index: u32,
    pub x: i64,
    pub y: i64,
}

/// A word: its characters, its glyphs positioned relative to the
/// word's left edge, and its total width (advance widths plus
/// intra-word kerning, which may be negative).
#[derive(Clone, Debug)]
pub struct Word {
    pub text: Vec<char>,
    pub glyphs: Vec<GlyphInstance>,
    pub total_width: i64,
}

/// A semantic token of the text run: a word delimited by spaces, a
/// tab, or an explicit line break.
#[derive(Clone, Debug)]
pub enum SemanticWordItem {
    Word(Word),
    Tab,
    Return,
}

/// Mathematical model of a [`Word`].
#[verifier::ext_equal]
pub struct WordModel {
    pub text: Seq<char>,
    pub glyphs: Seq<GlyphInstance>,
    pub total_width: int,
}

/// Mathematical model of a [`SemanticWordItem`].
#[verifier::ext_equal]
pub enum TokenModel {
    Word(WordModel),
    Tab,
    Return,
}

impl View for Word {
    type V = WordModel;

    open spec fn view(&self) -> WordModel {
        WordModel { text: self.text@, glyphs: self.glyphs@, total_width: self.total_width as int }
    }
}

impl View for SemanticWordItem {
    type V = TokenModel;

    open spec fn view(&self) -> TokenModel {
        match self {
            SemanticWordItem::Word(w) => TokenModel::Word(w@),
            SemanticWordItem::Tab => TokenModel::Tab,
            SemanticWordItem::Return => TokenModel::Return,
        }
    }
}

impl SemanticWordItem {
    /// True exactly for an explicit line-break token.
    pub fn is_return(&self) -> (r: bool)
        ensures
            r == (self@ is Return),
    {
        match self {
            SemanticWordItem::Return => true,
            _ => false,
        }
    }
}

/// The token models of a token vector.
pub open spec fn tokens_view(tokens: Seq<SemanticWordItem>) -> Seq<TokenModel> {
    tokens.map_values(|t: SemanticWordItem| t@)
}

/// Structural bounds on a word: one glyph per character, all offsets
/// and the total width within the weight its character count buys.
pub open spec fn word_wf(w: WordModel) -> bool {
    &&& w.text.len() == w.glyphs.len()
    &&& -(2 * MAX_METRIC * w.glyphs.len()) <= w.total_width <= 2 * MAX_METRIC * w.glyphs.len()
    &&& forall|i: int|
        0 <= i < w.glyphs.len() ==> {
            &&& -(2 * MAX_METRIC * w.glyphs.len()) <= (#[trigger] w.glyphs[i]).x <= 2 * MAX_METRIC
                * w.glyphs.len()
            &&& w.glyphs[i].y == 0
        }
}

/// Structural bounds on one token.
pub open spec fn token_wf(t: TokenModel) -> bool {
    match t {
        TokenModel::Word(w) => word_wf(w),
        _ => true,
    }
}

/// The layout weight of one token: an upper bound on how far it can
/// ever move a caret (word width, trailing space, tab width).
pub open spec fn token_weight(t: TokenModel) -> int {
    match t {
        TokenModel::Word(w) => 2 * MAX_METRIC * w.glyphs.len() + 5 * MAX_METRIC,
        TokenModel::Tab => 5 * MAX_METRIC,
        TokenModel::Return => 5 * MAX_METRIC,
    }
}

/// Summed layout weight of a token stream.
pub open spec fn stream_weight(tokens: Seq<TokenModel>) -> int
    decreases tokens.len(),
{
    if tokens.len() == 0 {
        0
    } else {
        stream_weight(tokens.drop_last()) + token_weight(tokens.last())
    }
}

/// What every later stage relies on of a segmented token stream.
pub open spec fn stream_ok(tokens: Seq<TokenModel>) -> bool {
    &&& forall|i: int| 0 <= i < tokens.len() ==> token_wf(#[trigger] tokens[i])
    &&& tokens.len() <= MAX_TEXT_LEN
    &&& stream_weight(tokens) <= WEIGHT_LIMIT
}

pub proof fn lemma_stream_weight_push(tokens: Seq<TokenModel>, t: TokenModel)
    ensures
        stream_weight(tokens.push(t)) == stream_weight(tokens) + token_weight(t),
{
    assert(tokens.push(t).drop_last() =~= tokens);
    assert(tokens.push(t).last() == t);
}

pub proof fn lemma_stream_weight_floor(tokens: Seq<TokenModel>)
    ensures
        5 * MAX_METRIC * tokens.len() <= stream_weight(tokens),
    decreases tokens.len(),
{
    if tokens.len() > 0 {
        lemma_stream_weight_floor(tokens.drop_last());
    }
}

pub proof fn lemma_stream_weight_take_step(tokens: Seq<TokenModel>, i: int)
    requires
        0 <= i < tokens.len(),
    ensures
        stream_weight(tokens.take(i + 1)) == stream_weight(tokens.take(i)) + token_weight(
            tokens[i],
        ),
{
    assert(tokens.take(i + 1).drop_last() =~= tokens.take(i));
    assert(tokens.take(i + 1).last() == tokens[i]);
}

pub proof fn lemma_stream_weight_prefix_le(tokens: Seq<TokenModel>, i: int)
    requires
        0 <= i <= tokens.len(),
    ensures
        stream_weight(tokens.take(i)) <= stream_weight(tokens),
    decreases tokens.len() - i,
{
    if i == tokens.len() {
        assert(tokens.take(i) =~= tokens);
    } else {
        lemma_stream_weight_take_step(tokens, i);
        lemma_stream_weight_prefix_le(tokens, i + 1);
    }
}

/// The running state of segmentation: emitted tokens plus the word
/// under construction (its characters, glyphs, caret and last glyph
/// id, all relative to the word's own left edge).
#[verifier::ext_equal]
pub struct SegState {
    pub toks: Seq<TokenModel>,
    pub text: Seq<char>,
    pub glyphs: Seq<GlyphInstance>,
    pub caret: int,
    pub last: Option<u32>,
}

pub open spec fn seg_init() -> SegState {
    SegState {
        toks: Seq::empty(),
        text: Seq::empty(),
        glyphs: Seq::empty(),
        caret: 0,
        last: None,
    }
}

/// Ends the word under construction, if any: emits it as a `Word`
/// token whose total width is the final intra-word caret, and resets
/// the builder state.
pub open spec fn seg_flush(st: SegState) -> SegState {
    if st.text.len() == 0 {
        st
    } else {
        SegState {
            toks: st.toks.push(
                TokenModel::Word(
                    WordModel { text: st.text, glyphs: st.glyphs, total_width: st.caret },
                ),
            ),
            text: Seq::empty(),
            glyphs: Seq::empty(),
            caret: 0,
            last: None,
        }
    }
}

/// One character of segmentation: tab and line break end the current
/// word and emit their own token, a space only ends the word, and any
/// other character appends a glyph at the kerning-adjusted caret.
pub open spec fn seg_step<P: FontMetricsProvider>(provider: &P, st: SegState, c: char) -> SegState {
    if c == '\t' {
        let f = seg_flush(st);
        SegState { toks: f.toks.push(TokenModel::Tab), ..f }
    } else if c == '\n' {
        let f = seg_flush(st);
        SegState { toks: f.toks.push(TokenModel::Return), ..f }
    } else if c == ' ' {
        seg_flush(st)
    } else {
        let id = provider.glyph_id_spec(c);
        let kern = match st.last {
            Some(l) => provider.kerning_spec(l, id),
            None => 0,
        };
        let x = st.caret + kern;
        SegState {
            toks: st.toks,
            text: st.text.push(c),
            glyphs: st.glyphs.push(GlyphInstance { index: id, x: x as i64, y: 0 }),
            caret: x + provider.advance_spec(c),
            last: Some(id),
        }
    }
}

/// Segmentation state after consuming `chars`.
pub open spec fn seg_run<P: FontMetricsProvider>(provider: &P, chars: Seq<char>) -> SegState
    decreases chars.len(),
{
    if chars.len() == 0 {
        seg_init()
    } else {
        seg_step(provider, seg_run(provider, chars.drop_last()), chars.last())
    }
}

/// The token stream segmentation of `chars` produces: the full run,
/// with a trailing non-empty word flushed at end of input.
pub open spec fn segment_spec<P: FontMetricsProvider>(provider: &P, chars: Seq<char>) -> Seq<
    TokenModel,
> {
    seg_flush(seg_run(provider, chars)).toks
}

/// Invariant of the segmentation state after `n` characters.
pub open spec fn seg_state_ok(st: SegState, n: int) -> bool {
    &&& st.text.len() == st.glyphs.len()
    &&& st.glyphs.len() <= n
    &&& (st.last is Some <==> st.text.len() > 0)
    &&& -(2 * MAX_METRIC * st.glyphs.len()) <= st.caret <= 2 * MAX_METRIC * st.glyphs.len()
    &&& forall|i: int|
        0 <= i < st.glyphs.len() ==> {
            &&& -(2 * MAX_METRIC * st.glyphs.len()) <= (#[trigger] st.glyphs[i]).x <= 2
                * MAX_METRIC * st.glyphs.len()
            &&& st.glyphs[i].y == 0
        }
    &&& forall|i: int| 0 <= i < st.toks.len() ==> token_wf(#[trigger] st.toks[i])
    &&& st.toks.len() + (if st.text.len() > 0 { 1int } else { 0int }) <= n
    &&& stream_weight(st.toks) + 2 * MAX_METRIC * st.glyphs.len() + (if st.glyphs.len() > 0 {
        5 * (MAX_METRIC as int)
    } else {
        0int
    }) <= 7 * MAX_METRIC * n
}

pub proof fn lemma_seg_run_ok<P: FontMetricsProvider>(provider: &P, chars: Seq<char>)
    requires
        provider.wf(),
        chars.len() <= MAX_TEXT_LEN,
    ensures
        seg_state_ok(seg_run(provider, chars), chars.len() as int),
    decreases chars.len(),
{
    if chars.len() > 0 {
        lemma_seg_run_ok(provider, chars.drop_last());
        let st = seg_run(provider, chars.drop_last());
        let c = chars.last();
        let n0 = chars.len() - 1;
        let g = st.glyphs.len() as int;
        assert(7 * MAX_METRIC * (n0 + 1) == 7 * MAX_METRIC * n0 + 7 * MAX_METRIC)
            by (nonlinear_arith);
        assert(2 * MAX_METRIC * (g + 1) == 2 * MAX_METRIC * g + 2 * MAX_METRIC)
            by (nonlinear_arith);
        assert(0 <= 2 * MAX_METRIC * g && 2 * MAX_METRIC * g <= 0x2000_0000_0000)
            by (nonlinear_arith)
            requires
                0 <= g,
                g <= 0x10_0000,
                MAX_METRIC == 0x100_0000i64,
        ;
        let f = seg_flush(st);
        if st.text.len() > 0 {
            lemma_stream_weight_push(
                st.toks,
                TokenModel::Word(WordModel { text: st.text, glyphs: st.glyphs, total_width: st.caret }),
            );
        }
        assert(seg_state_ok(f, n0 + 1)) by {
            assert(stream_weight(f.toks) <= 7 * MAX_METRIC * n0);
        }
        if c == '\t' || c == '\n' {
            let t = if c == '\t' {
                TokenModel::Tab
            } else {
                TokenModel::Return
            };
            lemma_stream_weight_push(f.toks, t);
            assert(seg_state_ok(seg_run(provider, chars), chars.len() as int));
        } else if c == ' ' {
            assert(seg_state_ok(seg_run(provider, chars), chars.len() as int));
        } else {
            let id = provider.glyph_id_spec(c);
            let l = match st.last {
                Some(l) => l,
                None => 0u32,
            };
            provider.lemma_metric_bounds(c, l, id);
            let st1 = seg_step(provider, st, c);
            assert(st1.glyphs.len() == st.glyphs.len() + 1);
            assert(forall|i: int|
                0 <= i < st.glyphs.len() ==> st1.glyphs[i] == #[trigger] st.glyphs[i]);
            assert(seg_state_ok(seg_run(provider, chars), chars.len() as int));
        }
    }
}

/// The full stream segmentation yields is structurally sound.
pub proof fn lemma_segment_ok<P: FontMetricsProvider>(provider: &P, chars: Seq<char>)
    requires
        provider.wf(),
        chars.len() <= MAX_TEXT_LEN,
    ensures
        stream_ok(segment_spec(provider, chars)),
{
    lemma_seg_run_ok(provider, chars);
    let st = seg_run(provider, chars);
    if st.text.len() > 0 {
        lemma_stream_weight_push(
            st.toks,
            TokenModel::Word(WordModel { text: st.text, glyphs: st.glyphs, total_width: st.caret }),
        );
    }
    assert(stream_weight(segment_spec(provider, chars)) <= 7 * MAX_METRIC * (chars.len() as int));
    assert(7 * MAX_METRIC * (chars.len() as int) <= WEIGHT_LIMIT)
        by (nonlinear_arith)
        requires
            chars.len() <= 0x10_0000,
            MAX_METRIC == 0x100_0000i64,
            WEIGHT_LIMIT == 0x7000_0000_0000i64,
    ;
}

/// Name for what unicode-normalization's NFC iterator yields: the
/// canonical composed form of a character sequence.
pub uninterp spec fn nfc_of(s: Seq<char>) -> Seq<char>;

/// Relies on unicode_normalization's `nfc()`: canonical composition
/// (Unicode Normalization Form C), a function of the input characters
/// alone; an empty input yields an empty output.
#[verifier::external_body]
fn normalize_nfc(text: &str) -> (r: Vec<char>)
    ensures
        r@ == nfc_of(text@),
        text@.len() == 0 ==> r@.len() == 0,
{
    text.nfc().collect()
}

/// The word under construction during segmentation; `flush` hands the
/// finished word out and resets the builder.
pub struct WordBuilder {
    pub text: Vec<char>,
    pub glyphs: Vec<GlyphInstance>,
    pub caret: i64,
    pub last_glyph: Option<u32>,
}

impl WordBuilder {
    pub fn new() -> (b: WordBuilder)
        ensures
            b.text@ == Seq::<char>::empty(),
            b.glyphs@ == Seq::<GlyphInstance>::empty(),
            b.caret == 0,
            b.last_glyph is None,
    {
        WordBuilder { text: Vec::new(), glyphs: Vec::new(), caret: 0, last_glyph: None }
    }

    pub fn is_empty(&self) -> (r: bool)
        ensures
            r == (self.text@.len() == 0),
    {
        self.text.len() == 0
    }

    /// Appends one glyph: the caret first takes the kerning against
    /// the previous glyph, the glyph sits at the adjusted caret, and
    /// the caret then advances by the glyph's advance width.
    pub fn push_glyph(&mut self, c: char, glyph_index: u32, kerning: i64, advance: i64)
        requires
            -WEIGHT_LIMIT <= old(self).caret <= WEIGHT_LIMIT,
            -MAX_METRIC <= kerning <= MAX_METRIC,
            0 <= advance <= MAX_METRIC,
        ensures
            final(self).text@ == old(self).text@.push(c),
            final(self).glyphs@ == old(self).glyphs@.push(
                GlyphInstance { index: glyph_index, x: (old(self).caret + kerning) as i64, y: 0 },
            ),
            final(self).caret as int == old(self).caret + kerning + advance,
            final(self).last_glyph == Some(glyph_index),
    {
        let x = self.caret + kerning;
        self.glyphs.push(GlyphInstance { index: glyph_index, x, y: 0 });
        self.text.push(c);
        self.caret = x + advance;
        self.last_glyph = Some(glyph_index);
    }

    /// Hands the finished word out and resets the builder.
    pub fn flush(&mut self) -> (w: Word)
        ensures
            w@ == (WordModel {
                text: old(self).text@,
                glyphs: old(self).glyphs@,
                total_width: old(self).caret as int,
            }),
            final(self).text@ == Seq::<char>::empty(),
            final(self).glyphs@ == Seq::<GlyphInstance>::empty(),
            final(self).caret == 0,
            final(self).last_glyph is None,
    {
        let mut text: Vec<char> = Vec::new();
        let mut glyphs: Vec<GlyphInstance> = Vec::new();
        core::mem::swap(&mut text, &mut self.text);
        core::mem::swap(&mut glyphs, &mut self.glyphs);
        let w = Word { text, glyphs, total_width: self.caret };
        self.caret = 0;
        self.last_glyph = None;
        w
    }
}

/// Ends the word under construction, if any, pushing it as a token.
fn flush_word(words: &mut Vec<SemanticWordItem>, builder: &mut WordBuilder)
    ensures
        ({
            let st0 = SegState {
                toks: tokens_view(old(words)@),
                text: old(builder).text@,
                glyphs: old(builder).glyphs@,
                caret: old(builder).caret as int,
                last: old(builder).last_glyph,
            };
            let st1 = seg_flush(st0);
            &&& tokens_view(final(words)@) == st1.toks
            &&& final(builder).text@ == st1.text
            &&& final(builder).glyphs@ == st1.glyphs
            &&& final(builder).caret as int == st1.caret
            &&& final(builder).last_glyph == st1.last
        }),
{
    if !builder.is_empty() {
        let w = builder.flush();
        let ghost old_toks = tokens_view(words@);
        let ghost wm = w@;
        words.push(SemanticWordItem::Word(w));
        proof {
            assert(tokens_view(words@) =~= old_toks.push(TokenModel::Word(wm)));
        }
    }
}

/// Splits text into semantic tokens: the text is first normalized to
/// NFC, then walked character by character; spaces end the current
/// word, tabs and line breaks end it and emit their own token, and
/// every other character is appended to the current word with its
/// pairwise kerning against the previous glyph. A trailing non-empty
/// word is flushed at end of input. Fails only when the normalized
/// text exceeds the engine's character limit.
pub fn split_text_into_words<P: FontMetricsProvider>(text: &str, provider: &P) -> (r: Result<
    Vec<SemanticWordItem>,
    LayoutError,
>)
    requires
        provider.wf(),
    ensures
        match r {
            Ok(words) => {
                &&& nfc_of(text@).len() <= MAX_TEXT_LEN
                &&& tokens_view(words@) == segment_spec(provider, nfc_of(text@))
                &&& stream_ok(tokens_view(words@))
            },
            Err(e) => {
                &&& e == LayoutError::TextTooLong
                &&& nfc_of(text@).len() > MAX_TEXT_LEN
            },
        },
{
    let chars = normalize_nfc(text);
    if chars.len() > MAX_TEXT_LEN {
        return Err(LayoutError::TextTooLong);
    }
    let mut words: Vec<SemanticWordItem> = Vec::new();
    let mut builder = WordBuilder::new();
    let mut i: usize = 0;
    proof {
        assert(chars@.take(0) =~= Seq::<char>::empty());
    }
    while i < chars.len()
        invariant
            0 <= i <= chars.len(),
            chars@.len() <= MAX_TEXT_LEN,
            chars@ == nfc_of(text@),
            provider.wf(),
            ({
                let st = seg_run(provider, chars@.take(i as int));
                &&& tokens_view(words@) == st.toks
                &&& builder.text@ == st.text
                &&& builder.glyphs@ == st.glyphs
                &&& builder.caret as int == st.caret
                &&& builder.last_glyph == st.last
            }),
        decreases chars.len() - i,
    {
        let ghost st = seg_run(provider, chars@.take(i as int));
        let c = chars[i];
        proof {
            lemma_seg_run_ok(provider, chars@.take(i as int));
            assert(chars@.take(i + 1).drop_last() =~= chars@.take(i as int));
            assert(chars@.take(i + 1).last() == chars@[i as int]);
            assert(0 <= 2 * MAX_METRIC * st.glyphs.len() <= 0x2000_0000_0000)
                by (nonlinear_arith)
                requires
                    st.glyphs.len() <= 0x10_0000,
                    MAX_METRIC == 0x100_0000i64,
            ;
        }
        if c == '\t' {
            flush_word(&mut words, &mut builder);
            let ghost before = tokens_view(words@);
            words.push(SemanticWordItem::Tab);
            proof {
                assert(tokens_view(words@) =~= before.push(TokenModel::Tab));
            }
        } else if c == '\n' {
            flush_word(&mut words, &mut builder);
            let ghost before = tokens_view(words@);
            words.push(SemanticWordItem::Return);
            proof {
                assert(tokens_view(words@) =~= before.push(TokenModel::Return));
            }
        } else if c == ' ' {
            flush_word(&mut words, &mut builder);
        } else {
            let (id, advance) = provider.glyph(c);
            let kerning = match builder.last_glyph {
                Some(l) => provider.pair_kerning(l, id),
                None => 0,
            };
            proof {
                let l = match st.last {
                    Some(l) => l,
                    None => 0u32,
                };
                provider.lemma_metric_bounds(c, l, id);
            }
            builder.push_glyph(c, id, kerning, advance);
        }
        i += 1;
    }
    flush_word(&mut words, &mut builder);
    proof {
        assert(chars@.take(chars@.len() as int) =~= chars@);
        lemma_segment_ok(provider, chars@);
    }
    Ok(words)
}





/// Sum of the advance widths of a character sequence.
pub open spec fn advance_sum<P: FontMetricsProvider>(provider: &P, chars: Seq<char>) -> int
    decreases chars.len(),
{
    if chars.len() == 0 {
        0
    } else {
        advance_sum(provider, chars.drop_last()) + provider.advance_spec(chars.last())
    }
}

/// Sum of the kerning deltas between each pair of adjacent characters'
/// glyphs.
pub open spec fn kerning_sum<P: FontMetricsProvider>(provider: &P, chars: Seq<char>) -> int
    decreases chars.len(),
{
    if chars.len() <= 1 {
        0
    } else {
        kerning_sum(provider, chars.drop_last()) + provider.kerning_spec(
            provider.glyph_id_spec(chars[chars.len() - 2]),
            provider.glyph_id_spec(chars.last()),
        )
    }
}

/// A word's total width is exactly the sum of its glyphs' advance
/// widths plus all intra-word kerning deltas.
pub open spec fn word_width_exact<P: FontMetricsProvider>(provider: &P, w: WordModel) -> bool {
    w.total_width == advance_sum(provider, w.text) + kerning_sum(provider, w.text)
}

/// Width invariant of the segmentation state: the caret equals the
/// advance and kerning sums of the word under construction, and every
/// emitted word is exact.
pub open spec fn seg_width_ok<P: FontMetricsProvider>(provider: &P, st: SegState) -> bool {
    &&& st.caret == advance_sum(provider, st.text) + kerning_sum(provider, st.text)
    &&& (st.text.len() > 0 ==> st.last == Some(provider.glyph_id_spec(st.text.last())))
    &&& (st.text.len() == 0 ==> st.last is None)
    &&& forall|i: int|
        0 <= i < st.toks.len() ==> (match #[trigger] st.toks[i] {
            TokenModel::Word(w) => word_width_exact(provider, w),
            _ => true,
        })
}

proof fn lemma_seg_run_width<P: FontMetricsProvider>(provider: &P, chars: Seq<char>)
    ensures
        seg_width_ok(provider, seg_run(provider, chars)),
    decreases chars.len(),
{
    if chars.len() > 0 {
        lemma_seg_run_width(provider, chars.drop_last());
        let st = seg_run(provider, chars.drop_last());
        let c = chars.last();
        let f = seg_flush(st);
        assert(seg_width_ok(provider, f)) by {
            if st.text.len() > 0 {
                assert(forall|i: int|
                    0 <= i < st.toks.len() ==> f.toks[i] == #[trigger] st.toks[i]);
            }
        }
        if c == '\t' || c == '\n' {
            assert(forall|i: int|
                0 <= i < f.toks.len() ==> seg_run(provider, chars).toks[i] == #[trigger] f.toks[i]);
        } else if c == ' ' {
        } else {
            let st1 = seg_step(provider, st, c);
            assert(st.text.push(c).drop_last() =~= st.text);
            assert(st.text.push(c).last() == c);
            if st.text.len() > 0 {
                assert(st.text.push(c)[st.text.push(c).len() - 2] == st.text.last());
            }
            assert(seg_width_ok(provider, st1));
        }
    }
}

/// Every word the segmenter emits has `total_width` equal to the sum
/// of its glyphs' advance widths plus all intra-word kerning deltas
/// (deltas may be negative, so the width need not grow with the
/// character count).
pub proof fn lemma_word_total_width<P: FontMetricsProvider>(provider: &P, chars: Seq<char>, i: int)
    requires
        0 <= i < segment_spec(provider, chars).len(),
    ensures
        match segment_spec(provider, chars)[i] {
            TokenModel::Word(w) => word_width_exact(provider, w),
            _ => true,
        },
{
    lemma_seg_run_width(provider, chars);
    let st = seg_run(provider, chars);
    if st.text.len() > 0 {
        assert(forall|k: int|
            0 <= k < st.toks.len() ==> seg_flush(st).toks[k] == #[trigger] st.toks[k]);
    }
}

} // verus!
