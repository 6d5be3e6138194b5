//! Text-layout core: turns a run of text into positioned glyphs that fit
//! (or are known to overflow) a rectangular region.
//!
//! All geometry is carried in integer subunits: a glyph advance is an integer
//! number of font units, and a laid-out coordinate is a font-unit value
//! multiplied by an integer font scale. Keeping the arithmetic in integers
//! makes the layout exact: scaling a cached word layout to a new font size
//! reproduces a fresh layout at that size, and translating glyphs is
//! invertible.

pub mod align;
pub mod cache;
pub mod font;
pub mod layout;
pub mod normalize;
pub mod overflow;
pub mod pipeline;
pub mod split;
pub mod types;

pub use align::add_origin;
pub use align::align_text_horz;
pub use align::align_text_vert;
pub use align::apply_harfbuzz_adjustments;
pub use align::apply_knuth_plass_adjustments;
pub use align::calculate_harfbuzz_adjustments;
pub use align::calculate_knuth_plass_adjustments;
pub use align::HarfbuzzAdjustment;
pub use align::KnuthPlassAdjustment;
pub use cache::get_words_cached;
pub use cache::scale_words;
pub use cache::try_get_words_cached;
pub use cache::TextCache;
pub use font::calculate_font_metrics;
pub use font::CharMetric;
pub use font::FontData;
pub use font::FontMetrics;
pub use font::KernPair;
pub use font::LineHeight;
pub use layout::layout_text;
pub use layout::try_layout_text;
pub use layout::words_to_left_aligned_glyphs;
pub use layout::LayoutTextResult;
pub use overflow::estimate_overflow_pass_1;
pub use overflow::estimate_overflow_pass_2;
pub use pipeline::get_glyphs;
pub use pipeline::try_get_glyphs;
pub use split::split_text_into_words;
pub use split::try_split_text_into_words;
pub use types::FontId;
pub use types::GlyphInstance;
pub use types::IndexOfLineBreak;
pub use types::LayoutOverflow;
pub use types::LayoutPoint;
pub use types::LayoutRect;
pub use types::LayoutSize;
pub use types::OverflowBehaviour;
pub use types::RemainingSpaceToRight;
pub use types::ScrollbarInfo;
pub use types::SemanticWordItem;
pub use types::StyleColor;
pub use types::TextAlignmentHorz;
pub use types::TextAlignmentVert;
pub use types::TextId;
pub use types::TextInfo;
pub use types::TextOverflow;
pub use types::TextOverflowPass1;
pub use types::TextOverflowPass2;
pub use types::Word;
pub use types::Words;
