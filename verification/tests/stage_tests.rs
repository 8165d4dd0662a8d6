//! Tests of the individual pipeline stages: segmentation, the two
//! overflow passes, placement, alignment, origin translation, and the
//! widget types.

use text_layout::align::{add_origin, align_text_horz};
use text_layout::geometry::LayoutSize;
use text_layout::metrics::{FontTable, GlyphEntry, KerningEntry, font_metrics_from_provider};
use text_layout::overflow::{
    TextOverflow, TextOverflowPass2, estimate_overflow_pass_1, estimate_overflow_pass_2,
};
use text_layout::placement::words_to_left_aligned_glyphs;
use text_layout::style::{
    LayoutError, LayoutOverflow, ScrollbarInfo, TextAlignmentHorz, TextOverflowBehaviour,
};
use text_layout::tokens::{GlyphInstance, SemanticWordItem, Word, split_text_into_words};
use text_layout::widgets::{Button, ButtonContent, ImageId, Label, Svg};

fn test_font() -> FontTable {
    let chars = [
        (' ', 10, 10),
        ('H', 1, 10),
        ('e', 2, 10),
        ('l', 3, 10),
        ('o', 4, 10),
        ('W', 5, 10),
        ('r', 6, 10),
        ('d', 7, 10),
        ('A', 8, 10),
        ('B', 9, 10),
        ('C', 12, 10),
        ('\u{e9}', 11, 30),
    ];
    let glyphs = chars
        .iter()
        .map(|&(character, glyph_index, advance)| GlyphEntry { character, glyph_index, advance })
        .collect();
    FontTable {
        glyphs,
        kernings: vec![KerningEntry { left: 8, right: 9, kerning: -2 }],
        default_index: 0,
        default_advance: 7,
        ascent: 5,
        line_advance: 20,
    }
}

fn clipped() -> LayoutOverflow {
    LayoutOverflow {
        horizontal: TextOverflowBehaviour::Hidden,
        vertical: TextOverflowBehaviour::Hidden,
    }
}

fn visible() -> LayoutOverflow {
    LayoutOverflow {
        horizontal: TextOverflowBehaviour::Visible,
        vertical: TextOverflowBehaviour::Visible,
    }
}

fn size(w: i64, h: i64) -> LayoutSize {
    LayoutSize { width: w, height: h }
}

#[test]
fn word_total_width_includes_kerning() {
    let font = test_font();
    let words = split_text_into_words("AB", &font).unwrap();
    assert_eq!(words.len(), 1);
    match &words[0] {
        SemanticWordItem::Word(w) => {
            // 10 + (-2) + 10: advance widths plus the kerning delta.
            assert_eq!(w.total_width, 18);
            assert_eq!(w.glyphs.len(), 2);
            assert_eq!((w.glyphs[0].index, w.glyphs[0].x), (8, 0));
            assert_eq!((w.glyphs[1].index, w.glyphs[1].x), (9, 8));
        },
        _ => panic!("expected a word token"),
    }
}

#[test]
fn segmenter_normalizes_to_composed_form() {
    let font = test_font();
    // 'e' followed by a combining acute accent composes to a single
    // character with its own glyph and advance.
    let words = split_text_into_words("e\u{301}", &font).unwrap();
    assert_eq!(words.len(), 1);
    match &words[0] {
        SemanticWordItem::Word(w) => {
            assert_eq!(w.glyphs.len(), 1);
            assert_eq!(w.glyphs[0].index, 11);
            assert_eq!(w.total_width, 30);
        },
        _ => panic!("expected a word token"),
    }
}

#[test]
fn segmenter_emits_tabs_returns_and_skips_spaces() {
    let font = test_font();
    let words = split_text_into_words("A \t\nB", &font).unwrap();
    assert_eq!(words.len(), 4);
    assert!(matches!(words[0], SemanticWordItem::Word(_)));
    assert!(matches!(words[1], SemanticWordItem::Tab));
    assert!(words[2].is_return());
    assert!(!words[3].is_return());
}

#[test]
fn spaces_only_yield_no_tokens() {
    let font = test_font();
    let words = split_text_into_words("   ", &font).unwrap();
    assert_eq!(words.len(), 0);
}

#[test]
fn unknown_character_falls_back_to_default_glyph() {
    let font = test_font();
    let words = split_text_into_words("Z", &font).unwrap();
    match &words[0] {
        SemanticWordItem::Word(w) => {
            assert_eq!(w.glyphs[0].index, 0);
            assert_eq!(w.total_width, 7);
        },
        _ => panic!("expected a word token"),
    }
}

#[test]
fn is_overflowing_distinguishes_variants() {
    assert!(TextOverflow::IsOverflowing(3).is_overflowing());
    assert!(!TextOverflow::InBounds(3).is_overflowing());
}

#[test]
fn synthetic_stream_overflow_is_consumed_minus_bound() {
    let words = vec![
        SemanticWordItem::Word(Word {
            text: vec!['x', 'y', 'z'],
            glyphs: vec![
                GlyphInstance { index: 0, x: 0, y: 0 },
                GlyphInstance { index: 0, x: 10, y: 0 },
                GlyphInstance { index: 0, x: 20, y: 0 },
            ],
            total_width: 30,
        }),
        SemanticWordItem::Return,
    ];
    let font = test_font();
    let metrics = font_metrics_from_provider(&font);
    // Consumed: 30 horizontally, one break * 20 vertically.
    let tight = estimate_overflow_pass_1(&words, &size(25, 10), &metrics, &visible());
    assert_eq!(tight.horizontal, TextOverflow::IsOverflowing(5));
    assert_eq!(tight.vertical, TextOverflow::IsOverflowing(10));
    let roomy = estimate_overflow_pass_1(&words, &size(100, 100), &metrics, &visible());
    assert_eq!(roomy.horizontal, TextOverflow::InBounds(70));
    assert_eq!(roomy.vertical, TextOverflow::InBounds(80));
}

#[test]
fn visible_overflow_folds_width_at_explicit_breaks_only() {
    let font = test_font();
    let metrics = font_metrics_from_provider(&font);
    let words = split_text_into_words("Hello", &font).unwrap();
    let p1 = estimate_overflow_pass_1(&words, &size(20, 100), &metrics, &visible());
    // With no explicit break the widest folded line is empty.
    assert_eq!(p1.horizontal, TextOverflow::InBounds(20));
}

#[test]
fn scrollbar_reservation_shrinks_both_axes() {
    let font = test_font();
    let metrics = font_metrics_from_provider(&font);
    let words = split_text_into_words("A\tB\tC\n", &font).unwrap();
    let p1 = estimate_overflow_pass_1(&words, &size(40, 20), &metrics, &clipped());
    assert_eq!(p1.horizontal, TextOverflow::IsOverflowing(10));
    assert_eq!(p1.vertical, TextOverflow::IsOverflowing(45));
    let (new_size, p2) = estimate_overflow_pass_2(
        &words,
        &size(40, 20),
        &metrics,
        &clipped(),
        &ScrollbarInfo { width: 15, padding: 2 },
        p1,
    );
    // A horizontal overflow eats height; a vertical one eats width.
    assert_eq!((new_size.width, new_size.height), (25, 5));
    assert_eq!(p2.horizontal, TextOverflow::IsOverflowing(25));
    assert_eq!(p2.vertical, TextOverflow::IsOverflowing(60));
}

#[test]
fn vertical_overflow_reserves_width_and_recomputes() {
    let font = test_font();
    let metrics = font_metrics_from_provider(&font);
    let words = split_text_into_words("Hello World", &font).unwrap();
    let p1 = estimate_overflow_pass_1(&words, &size(80, 20), &metrics, &clipped());
    assert_eq!(p1.horizontal, TextOverflow::InBounds(30));
    assert_eq!(p1.vertical, TextOverflow::IsOverflowing(5));
    let (new_size, p2) = estimate_overflow_pass_2(
        &words,
        &size(80, 20),
        &metrics,
        &clipped(),
        &ScrollbarInfo { width: 15, padding: 2 },
        p1,
    );
    assert_eq!((new_size.width, new_size.height), (65, 20));
    assert_eq!(p2.horizontal, TextOverflow::InBounds(15));
    assert_eq!(p2.vertical, TextOverflow::IsOverflowing(5));
}

#[test]
fn placer_records_line_breaks_and_slack() {
    let font = test_font();
    let metrics = font_metrics_from_provider(&font);
    let words = split_text_into_words("Hello World", &font).unwrap();
    let (glyphs, line_breaks) = words_to_left_aligned_glyphs(&words, Some(100), &metrics);
    assert_eq!(glyphs.len(), 10);
    // First line breaks after glyph 4 with slack 100 - 60; the final
    // line ends at the last glyph with the same slack.
    assert_eq!(line_breaks, vec![(4, 40), (9, 40)]);
}

#[test]
fn unbounded_placement_reconciles_slack_against_longest_line() {
    let font = test_font();
    let metrics = font_metrics_from_provider(&font);
    let words = split_text_into_words("Hello World\nA", &font).unwrap();
    let (glyphs, line_breaks) = words_to_left_aligned_glyphs(&words, None, &metrics);
    assert_eq!(glyphs.len(), 11);
    // Carets: 120 at the explicit break, 20 on the final line; the
    // longest line is 120, so slack is relative to it.
    assert_eq!(line_breaks, vec![(9, 0), (10, 100)]);
}

#[test]
fn aligner_rejects_table_not_ending_at_final_glyph() {
    let mut glyphs = vec![
        GlyphInstance { index: 1, x: 0, y: 5 },
        GlyphInstance { index: 2, x: 10, y: 5 },
    ];
    let line_breaks = vec![(0usize, 10i64)];
    let overflow = TextOverflowPass2 {
        horizontal: TextOverflow::InBounds(0),
        vertical: TextOverflow::InBounds(0),
    };
    let r = align_text_horz(TextAlignmentHorz::Right, &mut glyphs, &line_breaks, &overflow);
    assert_eq!(r.unwrap_err(), LayoutError::MalformedLayout);
    assert_eq!((glyphs[0].x, glyphs[1].x), (0, 10));
}

#[test]
fn left_alignment_leaves_glyphs_unchanged() {
    let mut glyphs = vec![
        GlyphInstance { index: 1, x: 0, y: 5 },
        GlyphInstance { index: 2, x: 10, y: 5 },
    ];
    let line_breaks = vec![(1usize, 30i64)];
    let overflow = TextOverflowPass2 {
        horizontal: TextOverflow::InBounds(0),
        vertical: TextOverflow::InBounds(0),
    };
    align_text_horz(TextAlignmentHorz::Left, &mut glyphs, &line_breaks, &overflow).unwrap();
    assert_eq!((glyphs[0].x, glyphs[1].x), (0, 10));
}

#[test]
fn translating_again_by_zero_is_a_no_op_but_twice_is_not() {
    let mut glyphs = vec![GlyphInstance { index: 1, x: 5, y: 6 }];
    add_origin(&mut glyphs, 30, 40);
    assert_eq!((glyphs[0].x, glyphs[0].y), (35, 46));
    add_origin(&mut glyphs, 0, 0);
    assert_eq!((glyphs[0].x, glyphs[0].y), (35, 46));
    add_origin(&mut glyphs, 30, 40);
    assert_ne!((glyphs[0].x, glyphs[0].y), (35, 46));
    assert_eq!((glyphs[0].x, glyphs[0].y), (65, 86));
}

#[test]
fn label_keeps_its_text() {
    let label = Label::new(String::from("status"));
    assert_eq!(label.text, "status");
}

#[test]
fn button_with_label_holds_text_content() {
    let button = Button::with_label(String::from("go"));
    match button.content {
        ButtonContent::Text(s) => assert_eq!(s, "go"),
        ButtonContent::Image(_) => panic!("expected text content"),
    }
}

#[test]
fn button_with_image_holds_image_content() {
    let button = Button::with_image(ImageId(7));
    assert_eq!(button.content, ButtonContent::Image(ImageId(7)));
}

#[test]
fn empty_svg_has_no_layers() {
    let svg = Svg::empty();
    assert!(svg.layers.is_empty());
}
