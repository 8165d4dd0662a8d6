//! End-to-end scenarios through the full layout pipeline.

use text_layout::geometry::{LayoutPoint, LayoutRect, LayoutSize};
use text_layout::metrics::{FontTable, GlyphEntry, KerningEntry, font_metrics_from_provider};
use text_layout::overflow::TextOverflow;
use text_layout::pipeline::{get_glyphs, put_text_in_bounds};
use text_layout::style::{
    LayoutError, LayoutOverflow, ScrollbarInfo, TextAlignmentHorz, TextAlignmentVert,
    TextOverflowBehaviour,
};

fn test_font() -> FontTable {
    let chars = [
        (' ', 10, 10),
        ('H', 1, 10),
        ('e', 2, 10),
        ('l', 3, 10),
        ('o', 4, 10),
        ('W', 5, 10),
        ('r', 6, 10),
        ('d', 7, 10),
        ('A', 8, 10),
        ('B', 9, 10),
        ('C', 12, 10),
        ('\u{e9}', 11, 30),
    ];
    let glyphs = chars
        .iter()
        .map(|&(character, glyph_index, advance)| GlyphEntry { character, glyph_index, advance })
        .collect();
    FontTable {
        glyphs,
        kernings: vec![KerningEntry { left: 8, right: 9, kerning: -2 }],
        default_index: 0,
        default_advance: 7,
        ascent: 5,
        line_advance: 20,
    }
}

fn clipped() -> LayoutOverflow {
    LayoutOverflow {
        horizontal: TextOverflowBehaviour::Hidden,
        vertical: TextOverflowBehaviour::Hidden,
    }
}

fn rect(x: i64, y: i64, w: i64, h: i64) -> LayoutRect {
    LayoutRect { origin: LayoutPoint { x, y }, size: LayoutSize { width: w, height: h } }
}

fn bar(width: i64) -> ScrollbarInfo {
    ScrollbarInfo { width, padding: 2 }
}

#[test]
fn empty_text_is_in_bounds_with_full_slack() {
    let font = test_font();
    let (glyphs, overflow) = get_glyphs(
        &rect(7, 9, 300, 200),
        TextAlignmentHorz::Left,
        TextAlignmentVert::Top,
        &font,
        "",
        &clipped(),
        &bar(15),
    )
    .unwrap();
    assert!(glyphs.is_empty());
    assert_eq!(overflow.horizontal, TextOverflow::InBounds(300));
    assert_eq!(overflow.vertical, TextOverflow::InBounds(200));
}

#[test]
fn zero_area_rectangle_is_degenerate() {
    let font = test_font();
    let (glyphs, overflow) = get_glyphs(
        &rect(0, 0, 0, 200),
        TextAlignmentHorz::Left,
        TextAlignmentVert::Top,
        &font,
        "Hello",
        &clipped(),
        &bar(15),
    )
    .unwrap();
    assert!(glyphs.is_empty());
    assert_eq!(overflow.horizontal, TextOverflow::InBounds(0));
    assert_eq!(overflow.vertical, TextOverflow::InBounds(200));
}

#[test]
fn negative_dimension_is_malformed() {
    let font = test_font();
    let r = get_glyphs(
        &rect(0, 0, -5, 200),
        TextAlignmentHorz::Left,
        TextAlignmentVert::Top,
        &font,
        "Hello",
        &clipped(),
        &bar(15),
    );
    assert_eq!(r.unwrap_err(), LayoutError::MalformedLayout);
}

#[test]
fn hello_world_wide_rectangle_single_line() {
    let font = test_font();
    let (glyphs, overflow) = get_glyphs(
        &rect(0, 0, 1000, 1000),
        TextAlignmentHorz::Left,
        TextAlignmentVert::Top,
        &font,
        "Hello World",
        &clipped(),
        &bar(15),
    )
    .unwrap();
    assert_eq!(glyphs.len(), 10);
    // "Hello" at the left edge, baseline at the ascent.
    assert_eq!((glyphs[0].index, glyphs[0].x, glyphs[0].y), (1, 0, 5));
    assert_eq!((glyphs[4].index, glyphs[4].x, glyphs[4].y), (4, 40, 5));
    // "World" one space width after "Hello" ends at 50.
    assert_eq!((glyphs[5].index, glyphs[5].x, glyphs[5].y), (5, 60, 5));
    assert_eq!((glyphs[9].index, glyphs[9].x, glyphs[9].y), (7, 100, 5));
    assert!(matches!(overflow.horizontal, TextOverflow::InBounds(_)));
    assert!(matches!(overflow.vertical, TextOverflow::InBounds(_)));
}

#[test]
fn hello_world_narrow_rectangle_wraps() {
    let font = test_font();
    let (glyphs, _) = get_glyphs(
        &rect(0, 0, 100, 1000),
        TextAlignmentHorz::Left,
        TextAlignmentVert::Top,
        &font,
        "Hello World",
        &clipped(),
        &bar(15),
    )
    .unwrap();
    assert_eq!(glyphs.len(), 10);
    // "World" starts at x = 0, y = vertical_advance + top offset.
    assert_eq!((glyphs[5].index, glyphs[5].x, glyphs[5].y), (5, 0, 25));
    assert_eq!((glyphs[9].index, glyphs[9].x, glyphs[9].y), (7, 40, 25));
}

#[test]
fn tab_advances_caret_without_glyph() {
    let font = test_font();
    let metrics = font_metrics_from_provider(&font);
    assert_eq!(metrics.tab_width, 4 * metrics.space_width);
    let (glyphs, _) = get_glyphs(
        &rect(0, 0, 1000, 1000),
        TextAlignmentHorz::Left,
        TextAlignmentVert::Top,
        &font,
        "A\tB",
        &clipped(),
        &bar(15),
    )
    .unwrap();
    // Only the two letters produce glyphs; the caret between them
    // advances by the word's width, its trailing space, and the tab.
    assert_eq!(glyphs.len(), 2);
    assert_eq!((glyphs[0].index, glyphs[0].x, glyphs[0].y), (8, 0, 5));
    assert_eq!((glyphs[1].index, glyphs[1].x, glyphs[1].y), (9, 60, 5));
}

#[test]
fn newline_forces_break_in_wide_rectangle() {
    let font = test_font();
    let (glyphs, _) = get_glyphs(
        &rect(0, 0, 1000, 1000),
        TextAlignmentHorz::Left,
        TextAlignmentVert::Top,
        &font,
        "A\nB",
        &clipped(),
        &bar(15),
    )
    .unwrap();
    assert_eq!(glyphs.len(), 2);
    assert_eq!((glyphs[0].index, glyphs[0].x, glyphs[0].y), (8, 0, 5));
    // The caret resets to 0 and the line counter increments.
    assert_eq!((glyphs[1].index, glyphs[1].x, glyphs[1].y), (9, 0, 25));
}

#[test]
fn center_alignment_shifts_by_half_slack() {
    let font = test_font();
    let (glyphs, _) = get_glyphs(
        &rect(0, 0, 200, 1000),
        TextAlignmentHorz::Center,
        TextAlignmentVert::Top,
        &font,
        "Hello World",
        &clipped(),
        &bar(15),
    )
    .unwrap();
    // The caret after the final word sits at 120, so the line's slack
    // is 80 and the center shift 40.
    assert_eq!((glyphs[0].index, glyphs[0].x, glyphs[0].y), (1, 40, 5));
    assert_eq!((glyphs[5].index, glyphs[5].x, glyphs[5].y), (5, 100, 5));
}

#[test]
fn right_alignment_shifts_by_full_slack() {
    let font = test_font();
    let (glyphs, _) = get_glyphs(
        &rect(0, 0, 100, 1000),
        TextAlignmentHorz::Right,
        TextAlignmentVert::Top,
        &font,
        "Hello",
        &clipped(),
        &bar(15),
    )
    .unwrap();
    // Caret ends at 60 (word plus trailing space): slack 40.
    assert_eq!((glyphs[0].x, glyphs[0].y), (40, 5));
    assert_eq!((glyphs[4].x, glyphs[4].y), (80, 5));
}

#[test]
fn origin_is_added_exactly_once() {
    let font = test_font();
    let (glyphs, _) = get_glyphs(
        &rect(30, 70, 1000, 1000),
        TextAlignmentHorz::Left,
        TextAlignmentVert::Top,
        &font,
        "A",
        &clipped(),
        &bar(15),
    )
    .unwrap();
    assert_eq!((glyphs[0].x, glyphs[0].y), (30, 75));
}

#[test]
fn vertical_center_shifts_block_by_half_slack() {
    let font = test_font();
    let (glyphs, overflow) = get_glyphs(
        &rect(0, 0, 1000, 45),
        TextAlignmentHorz::Left,
        TextAlignmentVert::Center,
        &font,
        "A",
        &clipped(),
        &bar(15),
    )
    .unwrap();
    // Consumed vertical extent is the ascent (5): slack 40, shift 20.
    assert_eq!(overflow.vertical, TextOverflow::InBounds(40));
    assert_eq!((glyphs[0].x, glyphs[0].y), (0, 25));
}

#[test]
fn vertical_bottom_shifts_block_by_full_slack() {
    let font = test_font();
    let (glyphs, _) = get_glyphs(
        &rect(0, 0, 1000, 45),
        TextAlignmentHorz::Left,
        TextAlignmentVert::Bottom,
        &font,
        "A",
        &clipped(),
        &bar(15),
    )
    .unwrap();
    assert_eq!((glyphs[0].x, glyphs[0].y), (0, 45));
}

#[test]
fn put_text_in_bounds_matches_get_glyphs() {
    let font = test_font();
    let a = get_glyphs(
        &rect(0, 0, 100, 1000),
        TextAlignmentHorz::Center,
        TextAlignmentVert::Top,
        &font,
        "Hello World",
        &clipped(),
        &bar(15),
    )
    .unwrap();
    let b = put_text_in_bounds(
        "Hello World",
        &font,
        TextAlignmentHorz::Center,
        TextAlignmentVert::Top,
        &clipped(),
        &bar(15),
        &rect(0, 0, 100, 1000),
    )
    .unwrap();
    let pa: Vec<(u32, i64, i64)> = a.0.iter().map(|g| (g.index, g.x, g.y)).collect();
    let pb: Vec<(u32, i64, i64)> = b.0.iter().map(|g| (g.index, g.x, g.y)).collect();
    assert_eq!(pa, pb);
    assert_eq!(a.1, b.1);
}

#[test]
fn overlong_text_is_rejected() {
    let font = test_font();
    let text = "A".repeat(0x10_0000 + 1);
    let r = get_glyphs(
        &rect(0, 0, 1000, 1000),
        TextAlignmentHorz::Left,
        TextAlignmentVert::Top,
        &font,
        &text,
        &clipped(),
        &bar(15),
    );
    assert_eq!(r.unwrap_err(), LayoutError::TextTooLong);
}

#[test]
fn leading_newline_starts_on_second_line() {
    let font = test_font();
    let (glyphs, _) = get_glyphs(
        &rect(0, 0, 200, 1000),
        TextAlignmentHorz::Left,
        TextAlignmentVert::Top,
        &font,
        "\nA",
        &clipped(),
        &bar(15),
    )
    .unwrap();
    assert_eq!(glyphs.len(), 1);
    assert_eq!((glyphs[0].index, glyphs[0].x, glyphs[0].y), (8, 0, 25));
}

#[test]
fn consecutive_newlines_leave_an_empty_line() {
    let font = test_font();
    let (glyphs, _) = get_glyphs(
        &rect(0, 0, 200, 1000),
        TextAlignmentHorz::Center,
        TextAlignmentVert::Top,
        &font,
        "A\n\nB",
        &clipped(),
        &bar(15),
    )
    .unwrap();
    assert_eq!(glyphs.len(), 2);
    // Both letters sit on their own line, two lines apart, each
    // centered with slack (200 - 20) / 2.
    assert_eq!((glyphs[0].x, glyphs[0].y), (90, 5));
    assert_eq!((glyphs[1].x, glyphs[1].y), (90, 45));
}
