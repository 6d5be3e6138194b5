//! The library's model of a font: per-character glyph ids and advances,
//! pairwise kerning and vertical metrics, all in integer font units; and
//! the derivation of the scalar layout constants (`FontMetrics`) from it.

use vstd::prelude::*;

use crate::types::DEFAULT_LINE_HEIGHT_PERMILLE;
use crate::types::MAX_FONT_SCALE;
use crate::types::MAX_FONT_UNIT;
use crate::types::MAX_LINE_HEIGHT_PERMILLE;
use crate::types::MAX_METRIC;

verus! {

/// Metrics of one character: the glyph index the font maps it to and the
/// glyph's horizontal advance in font units.
#[derive(Debug, Clone, Copy, PartialEq, Eq, Structural)]
pub struct CharMetric {
    pub ch: char,
    pub glyph: u32,
    pub advance: i64,
}

/// A kerning pair: the advance correction, in font units, applied between
/// the two glyphs when they are adjacent within one word.
#[derive(Debug, Clone, Copy, PartialEq, Eq, Structural)]
pub struct KernPair {
    pub left: u32,
    pub right: u32,
    pub kern: i64,
}

/// What the layout core reads from a font, as plain values in font units.
/// A font-loading collaborator fills one of these in from real font data.
#[derive(Debug, Clone)]
pub struct FontData {
    /// Horizontal advance of the space character.
    pub space_advance: i64,
    /// Distance from the baseline to the top of the tallest glyph.
    pub ascent: i64,
    /// Distance from the baseline to the bottom of the lowest glyph
    /// (zero or negative).
    pub descent: i64,
    /// Extra gap between two lines.
    pub line_gap: i64,
    /// Per-character glyph ids and advances.
    pub chars: Vec<CharMetric>,
    /// Pairwise kerning corrections.
    pub kerning: Vec<KernPair>,
}

/// Mathematical model of a font.
pub struct FontView {
    pub space_advance: int,
    pub ascent: int,
    pub descent: int,
    pub line_gap: int,
    pub chars: Seq<CharMetric>,
    pub kerning: Seq<KernPair>,
}

impl View for FontData {
    type V = FontView;

    open spec fn view(&self) -> FontView {
        FontView {
            space_advance: self.space_advance as int,
            ascent: self.ascent as int,
            descent: self.descent as int,
            line_gap: self.line_gap as int,
            chars: self.chars@,
            kerning: self.kerning@,
        }
    }
}

/// Index of the first entry for character `c` at or after position `i`,
/// or -1 if there is none.
pub open spec fn find_char_from(chars: Seq<CharMetric>, c: char, i: int) -> int
    decreases chars.len() - i,
{
    if i < 0 || i >= chars.len() {
        -1
    } else if chars[i].ch == c {
        i
    } else {
        find_char_from(chars, c, i + 1)
    }
}

/// Whether the font has an entry for character `c`.
pub open spec fn font_covers(f: FontView, c: char) -> bool {
    find_char_from(f.chars, c, 0) >= 0
}

/// The glyph index the font maps character `c` to.
pub open spec fn glyph_id_of(f: FontView, c: char) -> u32 {
    f.chars[find_char_from(f.chars, c, 0)].glyph
}

/// The horizontal advance of character `c`, in font units.
pub open spec fn advance_of(f: FontView, c: char) -> int {
    f.chars[find_char_from(f.chars, c, 0)].advance as int
}

/// Index of the first kerning entry for the glyph pair at or after
/// position `i`, or -1 if there is none.
pub open spec fn find_kern_from(pairs: Seq<KernPair>, left: u32, right: u32, i: int) -> int
    decreases pairs.len() - i,
{
    if i < 0 || i >= pairs.len() {
        -1
    } else if pairs[i].left == left && pairs[i].right == right {
        i
    } else {
        find_kern_from(pairs, left, right, i + 1)
    }
}

/// The kerning correction between two adjacent glyphs, in font units;
/// zero when the font has no entry for the pair.
pub open spec fn kern_of(f: FontView, left: u32, right: u32) -> int {
    let i = find_kern_from(f.kerning, left, right, 0);
    if i >= 0 {
        f.kerning[i].kern as int
    } else {
        0
    }
}

/// A successful character search returns a valid index whose entry is the
/// character looked for.
pub proof fn lemma_find_char_valid(chars: Seq<CharMetric>, c: char, i: int)
    ensures
        find_char_from(chars, c, i) == -1 || (i <= find_char_from(chars, c, i) < chars.len()
            && chars[find_char_from(chars, c, i)].ch == c),
    decreases chars.len() - i,
{
    if 0 <= i < chars.len() && chars[i].ch != c {
        lemma_find_char_valid(chars, c, i + 1);
    }
}

/// The advance of a covered character lies within the font-unit bound.
pub proof fn lemma_advance_bounds(f: FontView, c: char)
    requires
        wf_font(f),
        font_covers(f, c),
    ensures
        0 <= advance_of(f, c) <= MAX_FONT_UNIT,
{
    lemma_find_char_valid(f.chars, c, 0);
}

/// A successful kerning search returns a valid index.
pub proof fn lemma_find_kern_valid(pairs: Seq<KernPair>, left: u32, right: u32, i: int)
    ensures
        find_kern_from(pairs, left, right, i) == -1 || i <= find_kern_from(pairs, left, right, i)
            < pairs.len(),
    decreases pairs.len() - i,
{
    if 0 <= i < pairs.len() && !(pairs[i].left == left && pairs[i].right == right) {
        lemma_find_kern_valid(pairs, left, right, i + 1);
    }
}

/// Every kerning correction lies within the font-unit bound.
pub proof fn lemma_kern_bounds(f: FontView, left: u32, right: u32)
    requires
        wf_font(f),
    ensures
        -MAX_FONT_UNIT <= kern_of(f, left, right) <= MAX_FONT_UNIT,
{
    lemma_find_kern_valid(f.kerning, left, right, 0);
}

/// Bounds on the font-unit values under which every scaled product fits
/// comfortably in `i64`.
pub open spec fn wf_font(f: FontView) -> bool {
    &&& 0 <= f.space_advance <= MAX_FONT_UNIT
    &&& 0 <= f.ascent <= MAX_FONT_UNIT
    &&& -MAX_FONT_UNIT <= f.descent <= 0
    &&& 0 <= f.line_gap <= MAX_FONT_UNIT
    &&& forall|i: int|
        0 <= i < f.chars.len() ==> 0 <= (#[trigger] f.chars[i]).advance <= MAX_FONT_UNIT
    &&& forall|i: int|
        0 <= i < f.kerning.len() ==> -MAX_FONT_UNIT <= (#[trigger] f.kerning[i]).kern
            <= MAX_FONT_UNIT
}

impl FontData {
    /// Looks the character up in the font table; the first entry wins.
    pub fn lookup_char(&self, c: char) -> (r: Option<CharMetric>)
        ensures
            match r {
                Some(m) => font_covers(self@, c) && m.glyph == glyph_id_of(self@, c) && m.advance
                    == advance_of(self@, c) && m.ch == c,
                None => !font_covers(self@, c),
            },
    {
        let n = self.chars.len();
        for i in 0..n
            invariant
                n == self.chars.len(),
                find_char_from(self@.chars, c, 0) == find_char_from(self@.chars, c, i as int),
                forall|j: int| 0 <= j < i ==> (#[trigger] self@.chars[j]).ch != c,
        {
            if self.chars[i].ch == c {
                return Some(self.chars[i]);
            }
        }
        None
    }

    /// Looks the kerning correction for a glyph pair up; zero when the
    /// font has no entry for the pair.
    pub fn lookup_kern(&self, left: u32, right: u32) -> (r: i64)
        ensures
            r as int == kern_of(self@, left, right),
    {
        let n = self.kerning.len();
        for i in 0..n
            invariant
                n == self.kerning.len(),
                find_kern_from(self@.kerning, left, right, 0) == find_kern_from(
                    self@.kerning,
                    left,
                    right,
                    i as int,
                ),
        {
            if self.kerning[i].left == left && self.kerning[i].right == right {
                return self.kerning[i].kern;
            }
        }
        0
    }
}

/// A line-height multiplier in permille: `LineHeight(1200)` scales the
/// vertical advance by 1.2.
#[derive(Debug, Clone, Copy, PartialEq, Eq, Structural)]
pub struct LineHeight(pub i64);

/// Scalar layout constants derived from a font and a requested size, so
/// the layout passes never have to touch the font itself.
#[derive(Debug, Copy, Clone, PartialEq, Eq, Structural)]
pub struct FontMetrics {
    /// Width of the space character
    pub space_width: i64,
    /// Always 4 * space_width
    pub tab_width: i64,
    /// Vertical distance between two line baselines
    pub vertical_advance: i64,
    /// Offset of the first line from the top of the bounding rectangle
    pub offset_top: i64,
    /// Font scale including the line-height multiplier; used for vertical
    /// layouting only, so line height never distorts horizontal spacing
    pub font_size_with_line_height: i64,
    /// Font scale without the line-height multiplier; used for horizontal
    /// advances
    pub font_size_no_line_height: i64,
}

/// Mathematical model of the derived font metrics.
pub struct MetricsG {
    pub space_width: int,
    pub tab_width: int,
    pub vertical_advance: int,
    pub offset_top: int,
    pub font_size_with_line_height: int,
    pub font_size_no_line_height: int,
}

impl View for FontMetrics {
    type V = MetricsG;

    open spec fn view(&self) -> MetricsG {
        MetricsG {
            space_width: self.space_width as int,
            tab_width: self.tab_width as int,
            vertical_advance: self.vertical_advance as int,
            offset_top: self.offset_top as int,
            font_size_with_line_height: self.font_size_with_line_height as int,
            font_size_no_line_height: self.font_size_no_line_height as int,
        }
    }
}

/// Bounds on derived metrics under which the layout passes stay in `i64`
/// range.
pub open spec fn wf_metrics(m: MetricsG) -> bool {
    &&& 0 <= m.space_width <= MAX_METRIC
    &&& 0 <= m.tab_width <= MAX_METRIC
    &&& 0 <= m.vertical_advance <= MAX_METRIC
    &&& 0 <= m.offset_top <= MAX_METRIC
}

/// The line-height multiplier actually applied: the given one, or 1.0.
pub open spec fn line_height_permille(line_height: Option<LineHeight>) -> int {
    match line_height {
        Some(lh) => lh.0 as int,
        None => DEFAULT_LINE_HEIGHT_PERMILLE as int,
    }
}

/// What `calculate_font_metrics` returns: the space advance at the
/// no-line-height scale, a tab of exactly four spaces, the vertical extent
/// of one line at the line-height scale, and half the scaled ascent as the
/// top offset.
pub open spec fn metrics_spec(f: FontView, font_size: int, line_height: Option<LineHeight>) -> MetricsG {
    let with_lh = font_size * line_height_permille(line_height) / 1000;
    MetricsG {
        space_width: f.space_advance * font_size,
        tab_width: 4 * (f.space_advance * font_size),
        vertical_advance: (f.ascent - f.descent + f.line_gap) * with_lh,
        offset_top: f.ascent * with_lh / 2,
        font_size_with_line_height: with_lh,
        font_size_no_line_height: font_size,
    }
}

/// Derives the scalar layout constants from a font, a font scale and an
/// optional line-height multiplier. Pure; the font is read only here.
pub fn calculate_font_metrics(
    font: &FontData,
    font_size: i64,
    line_height: Option<LineHeight>,
) -> (r: FontMetrics)
    requires
        wf_font(font@),
        1 <= font_size <= MAX_FONT_SCALE,
        match line_height {
            Some(lh) => 0 <= lh.0 <= MAX_LINE_HEIGHT_PERMILLE,
            None => true,
        },
    ensures
        r@ == metrics_spec(font@, font_size as int, line_height),
        wf_metrics(r@),
        r.tab_width == 4 * r.space_width,
{
    let lh: i64 = match line_height {
        Some(lh) => lh.0,
        None => DEFAULT_LINE_HEIGHT_PERMILLE,
    };
    proof {
        assert(0 <= font_size * lh <= 655_360_000) by (nonlinear_arith)
            requires
                1 <= font_size <= 0x1_0000,
                0 <= lh <= 10_000,
        ;
        assert(0 <= font_size * lh / 1000 <= 655_360) by (nonlinear_arith)
            requires
                0 <= font_size * lh <= 655_360_000,
        ;
        assert(0 <= font.space_advance * font_size <= 0x1_0000_0000) by (nonlinear_arith)
            requires
                0 <= font.space_advance <= 0x1_0000,
                1 <= font_size <= 0x1_0000,
        ;
    }
    let font_size_with_line_height: i64 = font_size * lh / 1000;
    let space_width: i64 = font.space_advance * font_size;
    let tab_width: i64 = 4 * space_width;
    proof {
        assert(0 <= (font.ascent - font.descent + font.line_gap) * font_size_with_line_height
            <= 196_608 * 655_360) by (nonlinear_arith)
            requires
                0 <= font.ascent - font.descent + font.line_gap <= 196_608,
                0 <= font_size_with_line_height <= 655_360,
        ;
        assert(0 <= font.ascent * font_size_with_line_height <= 0x1_0000 * 655_360)
            by (nonlinear_arith)
            requires
                0 <= font.ascent <= 0x1_0000,
                0 <= font_size_with_line_height <= 655_360,
        ;
    }
    let v_advance: i64 = (font.ascent - font.descent + font.line_gap)
        * font_size_with_line_height;
    let offset_top: i64 = font.ascent * font_size_with_line_height / 2;
    FontMetrics {
        space_width,
        tab_width,
        vertical_advance: v_advance,
        offset_top,
        font_size_with_line_height,
        font_size_no_line_height: font_size,
    }
}

impl FontMetrics {
    /// Given a font, font scale and line height, calculates the
    /// `FontMetrics` later used to lay out a block of text.
    pub fn new(font: &FontData, font_size: i64, line_height: Option<LineHeight>) -> (r:
        FontMetrics)
        requires
            wf_font(font@),
            1 <= font_size <= MAX_FONT_SCALE,
            match line_height {
                Some(lh) => 0 <= lh.0 <= MAX_LINE_HEIGHT_PERMILLE,
                None => true,
            },
        ensures
            r@ == metrics_spec(font@, font_size as int, line_height),
            wf_metrics(r@),
            r.tab_width == 4 * r.space_width,
    {
        calculate_font_metrics(font, font_size, line_height)
    }
}

} // verus!
