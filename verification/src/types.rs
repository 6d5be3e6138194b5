//! Core data types of the layout pipeline and the well-formedness bounds
//! under which its integer arithmetic is proved free of overflow.

use vstd::prelude::*;

verus! {

/// Largest magnitude of a font-unit quantity (a glyph advance, a kerning
/// value, an ascent/descent/line-gap value).
pub const MAX_FONT_UNIT: i64 = 0x1_0000;

/// Largest integer font scale a layout may be computed at.
pub const MAX_FONT_SCALE: i64 = 0x1_0000;

/// Largest line-height multiplier, in permille (1000 = 1.0).
pub const MAX_LINE_HEIGHT_PERMILLE: i64 = 10_000;

/// Line-height multiplier used when none is given (1.0).
pub const DEFAULT_LINE_HEIGHT_PERMILLE: i64 = 1000;

/// Largest number of characters a split may be asked to process
/// (measured on the normalized text).
pub const MAX_TEXT_LEN: usize = 0x10_0000;

/// Largest number of semantic items a well-formed `Words` may hold.
pub const MAX_ITEMS: usize = 0x40_0000;

/// Bound on every font-unit coordinate produced by the splitter
/// (`MAX_TEXT_LEN` characters, each contributing at most an advance and a
/// kerning value of magnitude `MAX_FONT_UNIT`).
pub const MAX_UNIT_COORD: i64 = 0x100_0000_0000;

/// Bound on every scaled coordinate: `MAX_UNIT_COORD * MAX_FONT_SCALE`.
pub const MAX_SCALED_COORD: i64 = 0x100_0000_0000_0000;

/// Bound on a derived font metric (space width, tab width, vertical
/// advance, top offset).
pub const MAX_METRIC: i64 = 0x20_0000_0000;

/// Bound on the magnitude of a rectangle dimension or origin coordinate.
pub const MAX_RECT_DIM: i64 = 0x40_0000_0000_0000;

/// Bound on the pen position reached while laying words out:
/// `MAX_SCALED_COORD + MAX_ITEMS * 2 * MAX_METRIC`.
pub const MAX_PEN: i64 = 0x1100_0000_0000_0000;

/// Bound on a laid-out glyph coordinate:
/// `MAX_SCALED_COORD + MAX_PEN`, with room for the line offsets.
pub const MAX_LAID_COORD: i64 = 0x1200_0000_0000_0000;

/// Bound on the magnitude of a line's recorded leftover space.
pub const MAX_LEFTOVER: i64 = 0x2300_0000_0000_0000;

/// Bound on a rectangle dimension accepted by the first overflow pass;
/// the second pass may hand it a rectangle already shrunk by a scrollbar.
pub const MAX_PASS1_DIM: i64 = 0x80_0000_0000_0000;

/// Bound on the magnitude an overflow verdict's payload can reach.
pub const MAX_OVERFLOW_AMOUNT: i64 = 0x2000_0000_0000_0000;

/// Largest scrollbar thickness accepted as layout input.
pub const MAX_SCROLLBAR_WIDTH: usize = 0x1_0000;

/// A point in layout space, in scaled subunits.
#[derive(Debug, Clone, Copy, PartialEq, Eq, Structural)]
pub struct LayoutPoint {
    pub x: i64,
    pub y: i64,
}

/// A rectangle size, in scaled subunits.
#[derive(Debug, Clone, Copy, PartialEq, Eq, Structural)]
pub struct LayoutSize {
    pub width: i64,
    pub height: i64,
}

/// A rectangle in layout space: an origin and a size.
#[derive(Debug, Clone, Copy, PartialEq, Eq, Structural)]
pub struct LayoutRect {
    pub origin: LayoutPoint,
    pub size: LayoutSize,
}

/// One positioned glyph: a glyph index in its font, and a position.
///
/// Inside a `Word` the position is relative to the word's own first glyph;
/// the layout stages rewrite it to line-relative, rectangle-relative and
/// finally absolute coordinates.
#[derive(Debug, Clone, Copy, PartialEq, Eq, Structural)]
pub struct GlyphInstance {
    pub index: u32,
    pub point: LayoutPoint,
}

/// Mathematical model of a glyph: the same data with unbounded coordinates.
pub struct GlyphG {
    pub index: u32,
    pub x: int,
    pub y: int,
}

impl View for GlyphInstance {
    type V = GlyphG;

    open spec fn view(&self) -> GlyphG {
        GlyphG { index: self.index, x: self.point.x as int, y: self.point.y as int }
    }
}

/// The mathematical view of a glyph sequence.
pub open spec fn glyphs_view(v: Seq<GlyphInstance>) -> Seq<GlyphG> {
    Seq::new(v.len(), |i: int| v[i]@)
}

/// Appending a glyph appends its view.
pub proof fn lemma_glyphs_view_push(v: Seq<GlyphInstance>, x: GlyphInstance)
    ensures
        glyphs_view(v.push(x)) == glyphs_view(v).push(x@),
{
    assert(glyphs_view(v.push(x)) =~= glyphs_view(v).push(x@));
}

/// A word: its glyphs, positioned relative to the word's first glyph, and
/// the total width the word takes up (the sum of its glyph advances and of
/// the kerning between its adjacent glyphs).
#[derive(Debug, Clone)]
pub struct Word {
    /// Glyphs, positions are relative to the first character of the word
    pub glyphs: Vec<GlyphInstance>,
    /// The sum of the advances and kerning values of all the characters
    pub total_width: i64,
}

/// Mathematical model of one semantic item.
pub enum ItemG {
    Word { glyphs: Seq<GlyphG>, width: int },
    Tab,
    Return,
}

/// Either a white-space delimited word, tab or return character
#[derive(Debug, Clone)]
pub enum SemanticWordItem {
    /// Encountered a word (delimited by spaces)
    Word(Word),
    /// `\t`
    Tab,
    /// `\n`
    Return,
}

impl View for SemanticWordItem {
    type V = ItemG;

    open spec fn view(&self) -> ItemG {
        match self {
            SemanticWordItem::Word(w) => ItemG::Word {
                glyphs: glyphs_view(w.glyphs@),
                width: w.total_width as int,
            },
            SemanticWordItem::Tab => ItemG::Tab,
            SemanticWordItem::Return => ItemG::Return,
        }
    }
}

impl SemanticWordItem {
    /// Whether this item is a hard line break.
    pub fn is_return(&self) -> (r: bool)
        ensures
            r == (self@ is Return),
    {
        match self {
            SemanticWordItem::Return => true,
            _ => false,
        }
    }
}

/// Words are a collection of glyph information: how much horizontal space
/// each word in a text block takes up, and how much each individual glyph
/// takes up, independent of any concrete font handle.
///
/// A `Words` value is only meaningful together with the font and font size
/// it was computed against; pairing them correctly is the caller's
/// responsibility.
#[derive(Debug, Clone)]
pub struct Words(pub Vec<SemanticWordItem>);

impl View for Words {
    type V = Seq<ItemG>;

    open spec fn view(&self) -> Seq<ItemG> {
        self.0@.map_values(|it: SemanticWordItem| it@)
    }
}

/// Mathematical model of a per-axis overflow verdict.
pub enum OverflowG {
    IsOverflowing(int),
    InBounds(int),
}

/// Whether the text overflows the rectangle on one axis, and the amount
/// of the excess or of the remaining slack.
#[derive(Debug, Copy, Clone, PartialEq, Eq, Structural)]
pub enum TextOverflow {
    /// Text is overflowing, by how much (in scaled subunits)?
    IsOverflowing(i64),
    /// Text is in bounds; how much space is left until the edge of the
    /// rectangle? Necessary for centering / aligning text vertically.
    InBounds(i64),
}

impl View for TextOverflow {
    type V = OverflowG;

    open spec fn view(&self) -> OverflowG {
        match self {
            TextOverflow::IsOverflowing(v) => OverflowG::IsOverflowing(*v as int),
            TextOverflow::InBounds(v) => OverflowG::InBounds(*v as int),
        }
    }
}

impl TextOverflow {
    /// Whether the axis overflowed.
    pub fn is_overflowing(&self) -> (r: bool)
        ensures
            r == (self@ is IsOverflowing),
    {
        match self {
            TextOverflow::IsOverflowing(_) => true,
            TextOverflow::InBounds(_) => false,
        }
    }
}

/// Pass-1 overflow estimate, one verdict per axis.
#[derive(Debug, Copy, Clone, PartialEq, Eq, Structural)]
pub struct TextOverflowPass1 {
    pub horizontal: TextOverflow,
    pub vertical: TextOverflow,
}

/// Pass-2 overflow estimate, recomputed against the rectangle shrunk by
/// the scrollbar space that pass 1 found necessary.
#[derive(Debug, Copy, Clone, PartialEq, Eq, Structural)]
pub struct TextOverflowPass2 {
    pub horizontal: TextOverflow,
    pub vertical: TextOverflow,
}

/// Mathematical model of a two-axis overflow estimate.
pub struct Pass1G {
    pub horizontal: OverflowG,
    pub vertical: OverflowG,
}

impl View for TextOverflowPass1 {
    type V = Pass1G;

    open spec fn view(&self) -> Pass1G {
        Pass1G { horizontal: self.horizontal@, vertical: self.vertical@ }
    }
}

impl View for TextOverflowPass2 {
    type V = Pass1G;

    open spec fn view(&self) -> Pass1G {
        Pass1G { horizontal: self.horizontal@, vertical: self.vertical@ }
    }
}

/// Horizontal text alignment.
#[derive(Debug, Copy, Clone, PartialEq, Eq, Structural)]
pub enum TextAlignmentHorz {
    Left,
    Center,
    Right,
}

/// Vertical text alignment.
#[derive(Debug, Copy, Clone, PartialEq, Eq, Structural)]
pub enum TextAlignmentVert {
    Top,
    Center,
    Bottom,
}

/// Per-axis overflow permission.
#[derive(Debug, Copy, Clone, PartialEq, Eq, Structural)]
pub enum OverflowBehaviour {
    /// The text may overflow the rectangle on this axis.
    Allowed,
    /// The text is kept inside the rectangle on this axis.
    Clipped,
}

/// Overflow permission for both axes.
#[derive(Debug, Copy, Clone, PartialEq, Eq, Structural)]
pub struct LayoutOverflow {
    pub horizontal: OverflowBehaviour,
    pub vertical: OverflowBehaviour,
}

impl LayoutOverflow {
    /// Whether the text may overflow the rectangle horizontally.
    pub fn allows_horizontal_overflow(&self) -> (r: bool)
        ensures
            r == (self.horizontal is Allowed),
    {
        match self.horizontal {
            OverflowBehaviour::Allowed => true,
            OverflowBehaviour::Clipped => false,
        }
    }

    /// Whether the text may overflow the rectangle vertically.
    pub fn allows_vertical_overflow(&self) -> (r: bool)
        ensures
            r == (self.vertical is Allowed),
    {
        match self.vertical {
            OverflowBehaviour::Allowed => true,
            OverflowBehaviour::Clipped => false,
        }
    }
}

/// A color, used only as opaque scrollbar styling.
#[derive(Debug, Copy, Clone, PartialEq, Eq, Structural)]
pub struct StyleColor {
    pub r: u8,
    pub g: u8,
    pub b: u8,
    pub a: u8,
}

/// Holds info necessary for layouting / styling scrollbars.
///
/// Only the thickness enters the layout computation; the colors are carried
/// for the scrollbar-drawing collaborator.
#[derive(Debug, Clone)]
pub struct ScrollbarInfo {
    /// Total width (for vertical scrollbars) or height (for horizontal
    /// scrollbars) of the scrollbar, in scaled subunits
    pub width: usize,
    /// Padding of the scrollbar. The inner bar is `width - padding` wide.
    pub padding: usize,
    /// Style of the scrollbar (how to draw it)
    pub bar_color: StyleColor,
    /// How to draw the "up / down" arrows
    pub triangle_color: StyleColor,
    /// Style of the scrollbar background
    pub background_color: StyleColor,
}

/// Identity of a cached text.
#[derive(Debug, Copy, Clone, PartialEq, Eq, Structural)]
pub struct TextId {
    pub id: u64,
}

/// Identity of a loaded font.
#[derive(Debug, Copy, Clone, PartialEq, Eq, Structural)]
pub struct FontId {
    pub id: u64,
}

/// The text to lay out: either a fresh string or a cached-text identity.
#[derive(Debug, Clone)]
pub enum TextInfo {
    Cached(TextId),
    Uncached(String),
}

/// Index of the glyph at which a line breaks.
pub type IndexOfLineBreak = usize;

/// Unused width between the end of a line and the rectangle's right edge.
pub type RemainingSpaceToRight = i64;

/// Mathematical model of one line-break record.
pub struct BreakG {
    pub idx: int,
    pub space: int,
}

/// The sum of the absolute widths of the word items among the first `i`
/// items. Tabs and returns contribute nothing.
pub open spec fn items_abs_width_sum(items: Seq<ItemG>, i: int) -> int
    decreases i,
{
    if i <= 0 {
        0
    } else {
        items_abs_width_sum(items, i - 1) + match items[i - 1] {
            ItemG::Word { width, .. } => if width >= 0 { width } else { -width },
            _ => 0,
        }
    }
}

/// Bounds on one semantic item under which layout arithmetic stays in
/// `i64` range.
pub open spec fn item_wf(item: ItemG) -> bool {
    match item {
        ItemG::Word { glyphs, width } => {
            &&& -MAX_SCALED_COORD <= width <= MAX_SCALED_COORD
            &&& forall|k: int|
                0 <= k < glyphs.len() ==> (-MAX_SCALED_COORD <= #[trigger] glyphs[k].x
                    <= MAX_SCALED_COORD && -MAX_SCALED_COORD <= glyphs[k].y <= MAX_SCALED_COORD)
        },
        _ => true,
    }
}

/// Bounds on a word sequence under which layout arithmetic stays in `i64`
/// range.
pub open spec fn items_wf(items: Seq<ItemG>) -> bool {
    &&& items.len() <= MAX_ITEMS
    &&& forall|i: int| 0 <= i < items.len() ==> item_wf(#[trigger] items[i])
    &&& items_abs_width_sum(items, items.len() as int) <= MAX_SCALED_COORD
}

/// `items_abs_width_sum` grows monotonically with the prefix length.
pub proof fn lemma_abs_width_sum_monotone(items: Seq<ItemG>, i: int, j: int)
    requires
        0 <= i <= j,
    ensures
        items_abs_width_sum(items, i) <= items_abs_width_sum(items, j),
    decreases j - i,
{
    if i < j {
        lemma_abs_width_sum_monotone(items, i, j - 1);
    }
}

} // verus!
