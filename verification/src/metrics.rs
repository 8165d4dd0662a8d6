//! The font-metrics capability the engine depends on, and a plain
//! table-driven implementation of it.
//!
//! The engine never talks to a rasterizer: everything it needs from a
//! font — glyph id and advance per character, pairwise kerning, ascent,
//! line advance — comes through [`FontMetricsProvider`], already scaled
//! to subpixel units by whatever backend adapter built the provider.

use vstd::prelude::*;
use crate::MAX_METRIC;

verus! {

/// The glyph-lookup, kerning and vertical-metrics capability of a font
/// at one fixed scale. All values are in subpixel units.
pub trait FontMetricsProvider: Sized {
    /// The glyph id this provider returns for `c` (a fallback id for a
    /// character the font lacks).
    spec fn glyph_id_spec(&self, c: char) -> u32;

    /// The horizontal advance width this provider returns for `c`.
    spec fn advance_spec(&self, c: char) -> int;

    /// The signed kerning adjustment between two adjacent glyphs.
    spec fn kerning_spec(&self, left: u32, right: u32) -> int;

    /// The scaled ascent: space reserved above the first baseline.
    spec fn ascent_spec(&self) -> int;

    /// The vertical distance between two consecutive baselines
    /// (font size times line height, at this provider's scale).
    spec fn line_advance_spec(&self) -> int;

    /// All metrics of this provider are within the engine's bounds.
    spec fn wf(&self) -> bool;

    /// A well-formed provider's metrics are bounded by [`MAX_METRIC`].
    proof fn lemma_metric_bounds(&self, c: char, left: u32, right: u32)
        requires
            self.wf(),
        ensures
            0 <= self.advance_spec(c) <= MAX_METRIC,
            -MAX_METRIC <= self.kerning_spec(left, right) <= MAX_METRIC,
            0 <= self.ascent_spec() <= MAX_METRIC,
            0 <= self.line_advance_spec() <= MAX_METRIC;

    /// Glyph id and advance width for one character.
    fn glyph(&self, c: char) -> (r: (u32, i64))
        requires
            self.wf(),
        ensures
            r.0 == self.glyph_id_spec(c),
            r.1 as int == self.advance_spec(c),
    ;

    /// Kerning adjustment between two adjacent glyph ids.
    fn pair_kerning(&self, left: u32, right: u32) -> (r: i64)
        requires
            self.wf(),
        ensures
            r as int == self.kerning_spec(left, right),
    ;

    /// The scaled ascent.
    fn ascent(&self) -> (r: i64)
        requires
            self.wf(),
        ensures
            r as int == self.ascent_spec(),
    ;

    /// The baseline-to-baseline vertical advance.
    fn line_advance(&self) -> (r: i64)
        requires
            self.wf(),
        ensures
            r as int == self.line_advance_spec(),
    ;
}

/// The per-call snapshot of font metrics every pipeline stage reads.
#[derive(Clone, Copy, Debug, PartialEq, Eq, Structural)]
pub struct FontMetrics {
    /// Width of the space character.
    pub space_width: i64,
    /// Caret advance of a tab: four times the space width.
    pub tab_width: i64,
    /// Vertical distance between two consecutive baselines.
    pub vertical_advance: i64,
    /// Offset of the first baseline from the top of the rectangle.
    pub offset_top: i64,
}

impl FontMetrics {
    /// Bounds every stage relies on for overflow-free arithmetic.
    pub open spec fn wf(self) -> bool {
        &&& 0 <= self.space_width <= MAX_METRIC
        &&& 0 <= self.tab_width <= 4 * MAX_METRIC
        &&& 0 <= self.vertical_advance <= MAX_METRIC
        &&& 0 <= self.offset_top <= MAX_METRIC
    }
}

/// The snapshot a provider induces: space width from the space glyph,
/// tab width four spaces, vertical advance and ascent straight from the
/// provider.
pub open spec fn font_metrics_spec<P: FontMetricsProvider>(provider: &P) -> FontMetrics {
    FontMetrics {
        space_width: provider.advance_spec(' ') as i64,
        tab_width: (4 * provider.advance_spec(' ')) as i64,
        vertical_advance: provider.line_advance_spec() as i64,
        offset_top: provider.ascent_spec() as i64,
    }
}

/// Derives the per-call metrics snapshot from a provider.
pub fn font_metrics_from_provider<P: FontMetricsProvider>(provider: &P) -> (m: FontMetrics)
    requires
        provider.wf(),
    ensures
        m == font_metrics_spec(provider),
        m.wf(),
        m.tab_width == 4 * m.space_width,
{
    proof {
        provider.lemma_metric_bounds(' ', 0, 0);
    }
    let (_, space_width) = provider.glyph(' ');
    FontMetrics {
        space_width,
        tab_width: 4 * space_width,
        vertical_advance: provider.line_advance(),
        offset_top: provider.ascent(),
    }
}

/// One character's metrics in a [`FontTable`].
#[derive(Clone, Copy, Debug, PartialEq, Eq, Structural)]
pub struct GlyphEntry {
    pub character: char,
    pub glyph_index: u32,
    pub advance: i64,
}

/// One kerning pair in a [`FontTable`].
#[derive(Clone, Copy, Debug, PartialEq, Eq, Structural)]
pub struct KerningEntry {
    pub left: u32,
    pub right: u32,
    pub kerning: i64,
}

/// A font-metrics provider backed by plain lookup tables. A backend
/// adapter fills it with the scaled metrics of the characters a text
/// run uses; characters the table lacks fall back to the default
/// (notdef) glyph, and kerning pairs the table lacks to zero.
#[derive(Clone, Debug, PartialEq, Eq)]
pub struct FontTable {
    pub glyphs: Vec<GlyphEntry>,
    pub kernings: Vec<KerningEntry>,
    pub default_index: u32,
    pub default_advance: i64,
    pub ascent: i64,
    pub line_advance: i64,
}

/// First entry for `c`, scanning front to back.
pub open spec fn find_glyph_entry(entries: Seq<GlyphEntry>, c: char) -> Option<GlyphEntry>
    decreases entries.len(),
{
    if entries.len() == 0 {
        None
    } else if entries[0].character == c {
        Some(entries[0])
    } else {
        find_glyph_entry(entries.drop_first(), c)
    }
}

/// First entry for the pair `(left, right)`, scanning front to back.
pub open spec fn find_kerning_entry(entries: Seq<KerningEntry>, left: u32, right: u32) -> Option<
    KerningEntry,
>
    decreases entries.len(),
{
    if entries.len() == 0 {
        None
    } else if entries[0].left == left && entries[0].right == right {
        Some(entries[0])
    } else {
        find_kerning_entry(entries.drop_first(), left, right)
    }
}

proof fn lemma_find_glyph_bounded(entries: Seq<GlyphEntry>, c: char)
    requires
        forall|i: int| 0 <= i < entries.len() ==> 0 <= #[trigger] entries[i].advance <= MAX_METRIC,
        find_glyph_entry(entries, c) is Some,
    ensures
        0 <= find_glyph_entry(entries, c)->Some_0.advance <= MAX_METRIC,
    decreases entries.len(),
{
    if entries.len() > 0 && entries[0].character != c {
        assert(forall|i: int|
            0 <= i < entries.drop_first().len() ==> #[trigger] entries.drop_first()[i]
                == entries[i + 1]);
        lemma_find_glyph_bounded(entries.drop_first(), c);
    }
}

proof fn lemma_find_kerning_bounded(entries: Seq<KerningEntry>, left: u32, right: u32)
    requires
        forall|i: int|
            0 <= i < entries.len() ==> -MAX_METRIC <= #[trigger] entries[i].kerning <= MAX_METRIC,
        find_kerning_entry(entries, left, right) is Some,
    ensures
        -MAX_METRIC <= find_kerning_entry(entries, left, right)->Some_0.kerning <= MAX_METRIC,
    decreases entries.len(),
{
    if entries.len() > 0 && !(entries[0].left == left && entries[0].right == right) {
        assert(forall|i: int|
            0 <= i < entries.drop_first().len() ==> #[trigger] entries.drop_first()[i]
                == entries[i + 1]);
        lemma_find_kerning_bounded(entries.drop_first(), left, right);
    }
}

impl FontMetricsProvider for FontTable {
    open spec fn glyph_id_spec(&self, c: char) -> u32 {
        match find_glyph_entry(self.glyphs@, c) {
            Some(e) => e.glyph_index,
            None => self.default_index,
        }
    }

    open spec fn advance_spec(&self, c: char) -> int {
        match find_glyph_entry(self.glyphs@, c) {
            Some(e) => e.advance as int,
            None => self.default_advance as int,
        }
    }

    open spec fn kerning_spec(&self, left: u32, right: u32) -> int {
        match find_kerning_entry(self.kernings@, left, right) {
            Some(e) => e.kerning as int,
            None => 0,
        }
    }

    open spec fn ascent_spec(&self) -> int {
        self.ascent as int
    }

    open spec fn line_advance_spec(&self) -> int {
        self.line_advance as int
    }

    open spec fn wf(&self) -> bool {
        &&& forall|i: int|
            0 <= i < self.glyphs@.len() ==> 0 <= #[trigger] self.glyphs@[i].advance <= MAX_METRIC
        &&& forall|i: int|
            0 <= i < self.kernings@.len() ==> -MAX_METRIC <= #[trigger] self.kernings@[i].kerning
                <= MAX_METRIC
        &&& 0 <= self.default_advance <= MAX_METRIC
        &&& 0 <= self.ascent <= MAX_METRIC
        &&& 0 <= self.line_advance <= MAX_METRIC
    }

    proof fn lemma_metric_bounds(&self, c: char, left: u32, right: u32) {
        if find_glyph_entry(self.glyphs@, c) is Some {
            lemma_find_glyph_bounded(self.glyphs@, c);
        }
        if find_kerning_entry(self.kernings@, left, right) is Some {
            lemma_find_kerning_bounded(self.kernings@, left, right);
        }
    }

    fn glyph(&self, c: char) -> (r: (u32, i64)) {
        proof {
            assert(self.glyphs@.skip(0) =~= self.glyphs@);
        }
        let mut i: usize = 0;
        while i < self.glyphs.len()
            invariant
                0 <= i <= self.glyphs.len(),
                find_glyph_entry(self.glyphs@, c) == find_glyph_entry(self.glyphs@.skip(i as int), c),
            decreases self.glyphs.len() - i,
        {
            let e = self.glyphs[i];
            assert(self.glyphs@.skip(i as int)[0] == self.glyphs@[i as int]);
            if e.character == c {
                return (e.glyph_index, e.advance);
            }
            proof {
                assert(self.glyphs@.skip(i as int).drop_first() =~= self.glyphs@.skip(i + 1));
            }
            i += 1;
        }
        proof {
            assert(self.glyphs@.skip(self.glyphs@.len() as int) =~= Seq::<GlyphEntry>::empty());
        }
        (self.default_index, self.default_advance)
    }

    fn pair_kerning(&self, left: u32, right: u32) -> (r: i64) {
        proof {
            assert(self.kernings@.skip(0) =~= self.kernings@);
        }
        let mut i: usize = 0;
        while i < self.kernings.len()
            invariant
                0 <= i <= self.kernings.len(),
                find_kerning_entry(self.kernings@, left, right) == find_kerning_entry(
                    self.kernings@.skip(i as int),
                    left,
                    right,
                ),
            decreases self.kernings.len() - i,
        {
            let e = self.kernings[i];
            assert(self.kernings@.skip(i as int)[0] == self.kernings@[i as int]);
            if e.left == left && e.right == right {
                return e.kerning;
            }
            proof {
                assert(self.kernings@.skip(i as int).drop_first() =~= self.kernings@.skip(i + 1));
            }
            i += 1;
        }
        proof {
            assert(self.kernings@.skip(self.kernings@.len() as int) =~= Seq::<KerningEntry>::empty());
        }
        0
    }

    fn ascent(&self) -> (r: i64) {
        self.ascent
    }

    fn line_advance(&self) -> (r: i64) {
        self.line_advance
    }
}

} // verus!
