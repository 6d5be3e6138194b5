//! The full layout pipeline: derive metrics, obtain words (fresh or
//! cached), estimate overflow twice, lay the glyphs out left-aligned,
//! apply the extension hooks, align horizontally and vertically, and
//! translate into the caller's absolute space.

use vstd::prelude::*;

use crate::align::add_origin;
use crate::align::align_horz_spec;
use crate::align::align_text_horz;
use crate::align::align_text_vert;
use crate::align::align_vert_spec;
use crate::align::apply_knuth_plass_adjustments;
use crate::align::calculate_knuth_plass_adjustments;
use crate::cache::cached_words_post;
use crate::cache::cached_words_result;
use crate::cache::get_words_cached;
use crate::cache::has_string;
use crate::cache::string_of;
use crate::cache::text_ready;
use crate::cache::wf_cache;
use crate::cache::CacheG;
use crate::cache::TextCache;
use crate::font::calculate_font_metrics;
use crate::font::metrics_spec;
use crate::font::wf_font;
use crate::font::FontData;
use crate::font::FontView;
use crate::font::LineHeight;
use crate::font::MetricsG;
use crate::layout::breaks_wf;
use crate::layout::layout_breaks_spec;
use crate::layout::layout_glyphs_spec;
use crate::layout::opt_view;
use crate::layout::place_glyphs;
use crate::layout::words_to_left_aligned_glyphs;
use crate::normalize::nfc_of;
use crate::overflow::estimate_overflow_pass_1;
use crate::overflow::estimate_overflow_pass_2;
use crate::overflow::pass1_spec;
use crate::overflow::pass2_spec;
use crate::split::scale_items;
use crate::split::split_text_into_words;
use crate::split::split_units;
use crate::split::text_covered;
use crate::split::text_fits;
use crate::types::glyphs_view;
use crate::types::BreakG;
use crate::types::FontId;
use crate::types::GlyphG;
use crate::types::GlyphInstance;
use crate::types::ItemG;
use crate::types::LayoutOverflow;
use crate::types::LayoutRect;
use crate::types::Pass1G;
use crate::types::ScrollbarInfo;
use crate::types::TextAlignmentHorz;
use crate::types::TextAlignmentVert;
use crate::types::TextInfo;
use crate::types::TextOverflowPass2;
use crate::types::MAX_FONT_SCALE;
use crate::types::MAX_LINE_HEIGHT_PERMILLE;
use crate::types::MAX_RECT_DIM;
use crate::types::MAX_SCROLLBAR_WIDTH;
use crate::types::MAX_TEXT_LEN;

verus! {

/// The break records as the concrete layout hands them to the aligners.
pub open spec fn breaks_exec(sp: Seq<BreakG>) -> Seq<(usize, i64)> {
    Seq::new(sp.len(), |i: int| (sp[i].idx as usize, sp[i].space as i64))
}

/// The words the pipeline lays out: a fresh split for an inline string,
/// the cache's result for a cached text identity.
pub open spec fn pipeline_words_spec(
    text: TextInfo,
    c0: CacheG,
    fid: FontId,
    f: FontView,
    size: int,
) -> Seq<ItemG> {
    match text {
        TextInfo::Cached(id) => cached_words_result(c0, id, fid, size, f),
        TextInfo::Uncached(s) => scale_items(split_units(nfc_of(s@), f), size),
    }
}

/// Whether the pipeline's text input is registered (when cached), fits
/// the splitter's length bound after normalization, and is fully covered
/// by the font.
pub open spec fn text_input_ok(text: TextInfo, c0: CacheG, f: FontView) -> bool {
    match text {
        TextInfo::Cached(id) => has_string(c0, id) && nfc_of(string_of(c0, id)).len()
            <= MAX_TEXT_LEN && text_covered(nfc_of(string_of(c0, id)), f),
        TextInfo::Uncached(s) => nfc_of(s@).len() <= MAX_TEXT_LEN && text_covered(
            nfc_of(s@),
            f,
        ),
    }
}

/// What the whole pipeline returns for a given word sequence: the final
/// absolute glyph positions and the second-pass overflow verdicts.
pub open spec fn glyphs_pipeline_spec(
    items: Seq<ItemG>,
    bounds: LayoutRect,
    horiz_alignment: TextAlignmentHorz,
    vert_alignment: TextAlignmentVert,
    m: MetricsG,
    allows_h: bool,
    sb_width: int,
) -> (Seq<GlyphG>, Pass1G) {
    let p1 = pass1_spec(items, bounds.size.width as int, bounds.size.height as int, m, allows_h);
    let r2 = pass2_spec(
        items,
        bounds.size.width as int,
        bounds.size.height as int,
        m,
        allows_h,
        sb_width,
        p1,
    );
    let mw: Option<int> = if allows_h {
        None
    } else {
        Some(r2.0)
    };
    let g0 = layout_glyphs_spec(items, mw, m);
    let bks = breaks_exec(layout_breaks_spec(items, mw, m));
    let g1 = align_horz_spec(horiz_alignment, g0, bks);
    let g2 = align_vert_spec(vert_alignment, g1, bks, r2.2.vertical);
    let g3 = place_glyphs(g2, bounds.origin.x as int, bounds.origin.y as int);
    (g3, r2.2)
}

/// Lays a block of text out inside a rectangle: splits it into words (or
/// takes them from the cache), estimates per-axis overflow reserving
/// scrollbar space, positions the glyphs left-aligned with line breaks,
/// aligns them horizontally and vertically, and translates them by the
/// rectangle's origin. Returns the absolute glyphs and the final
/// overflow verdicts.
pub fn get_glyphs(
    bounds: &LayoutRect,
    horiz_alignment: TextAlignmentHorz,
    vert_alignment: TextAlignmentVert,
    font: &FontData,
    target_font_id: &FontId,
    target_font_size: i64,
    line_height: Option<LineHeight>,
    text: &TextInfo,
    overflow: &LayoutOverflow,
    scrollbar_info: &ScrollbarInfo,
    text_cache: &mut TextCache,
) -> (r: (Vec<GlyphInstance>, TextOverflowPass2))
    requires
        wf_font(font@),
        wf_cache(old(text_cache)@),
        1 <= target_font_size <= MAX_FONT_SCALE,
        match line_height {
            Some(lh) => 0 <= lh.0 <= MAX_LINE_HEIGHT_PERMILLE,
            None => true,
        },
        -MAX_RECT_DIM <= bounds.origin.x <= MAX_RECT_DIM,
        -MAX_RECT_DIM <= bounds.origin.y <= MAX_RECT_DIM,
        -MAX_RECT_DIM <= bounds.size.width <= MAX_RECT_DIM,
        -MAX_RECT_DIM <= bounds.size.height <= MAX_RECT_DIM,
        scrollbar_info.width <= MAX_SCROLLBAR_WIDTH,
        text_input_ok(*text, old(text_cache)@, font@),
    ensures
        wf_cache(final(text_cache)@),
        final(text_cache)@.strings == old(text_cache)@.strings,
        match *text {
            TextInfo::Cached(id) => cached_words_post(
                old(text_cache)@,
                final(text_cache)@,
                id,
                *target_font_id,
                target_font_size as int,
                font@,
                pipeline_words_spec(
                    *text,
                    old(text_cache)@,
                    *target_font_id,
                    font@,
                    target_font_size as int,
                ),
            ),
            TextInfo::Uncached(_) => *final(text_cache) == *old(text_cache),
        },
        ({
            let items = pipeline_words_spec(
                *text,
                old(text_cache)@,
                *target_font_id,
                font@,
                target_font_size as int,
            );
            let out = glyphs_pipeline_spec(
                items,
                *bounds,
                horiz_alignment,
                vert_alignment,
                metrics_spec(font@, target_font_size as int, line_height),
                overflow.horizontal is Allowed,
                scrollbar_info.width as int,
            );
            glyphs_view(r.0@) == out.0 && r.1@ == out.1
        }),
{
    let ghost c0 = text_cache@;
    let font_metrics = calculate_font_metrics(font, target_font_size, line_height);
    let ghost m = font_metrics@;

    // (1) Split the text into semantic items (word, tab or newline) OR
    // get the cached text and scale it accordingly.
    let words = match text {
        TextInfo::Cached(text_id) => {
            get_words_cached(text_id, font, target_font_id, target_font_size, text_cache)
        },
        TextInfo::Uncached(s) => {
            split_text_into_words(s.as_str(), font, font_metrics.font_size_no_line_height)
        },
    };
    let ghost items = words@;
    proof {
        assert(items == pipeline_words_spec(
            *text,
            c0,
            *target_font_id,
            font@,
            target_font_size as int,
        ));
    }

    // (2) Determine whether the words will overflow the bounding
    // rectangle.
    let overflow_pass_1 = estimate_overflow_pass_1(&words, &bounds.size, &font_metrics, overflow);

    // (3) If the lines overflow, subtract the space needed for the
    // scrollbars and estimate again.
    let (new_size, overflow_pass_2) = estimate_overflow_pass_2(
        &words,
        &bounds.size,
        &font_metrics,
        overflow,
        scrollbar_info,
        overflow_pass_1,
    );

    let max_horizontal_text_width = if overflow.allows_horizontal_overflow() {
        None
    } else {
        Some(new_size.width)
    };

    // (4) Align text to the left: the initial layout of the glyphs.
    let (mut positioned_glyphs, line_break_offsets, _min_width, _min_height) =
        words_to_left_aligned_glyphs(&words, font, max_horizontal_text_width, &font_metrics);

    // (5) Apply the paragraph-level break corrections (currently none).
    let knuth_plass_adjustments = calculate_knuth_plass_adjustments(
        &positioned_glyphs,
        &line_break_offsets,
    );
    apply_knuth_plass_adjustments(&mut positioned_glyphs, knuth_plass_adjustments);

    let ghost mw = opt_view(max_horizontal_text_width);
    let ghost bks = breaks_exec(layout_breaks_spec(items, mw, m));
    proof {
        assert(line_break_offsets@ =~= bks);
    }

    // (6) Align text horizontally (a no-op when left-aligned).
    align_text_horz(horiz_alignment, &mut positioned_glyphs, &line_break_offsets, &overflow_pass_2);

    // (7) Align text vertically (a no-op when the text overflows).
    proof {
        assert(breaks_wf(line_break_offsets@, glyphs_view(positioned_glyphs@)));
    }
    align_text_vert(vert_alignment, &mut positioned_glyphs, &line_break_offsets, &overflow_pass_2);

    // (8) Add the origin to all glyphs, bringing them from rectangle
    // space into the caller's absolute space.
    add_origin(&mut positioned_glyphs, bounds.origin.x, bounds.origin.y);

    (positioned_glyphs, overflow_pass_2)
}

/// Checks the inputs that `get_glyphs` assumes of its text — registered
/// when cached, normalizable within bounds, fully covered by the font —
/// and lays it out only when they hold.
pub fn try_get_glyphs(
    bounds: &LayoutRect,
    horiz_alignment: TextAlignmentHorz,
    vert_alignment: TextAlignmentVert,
    font: &FontData,
    target_font_id: &FontId,
    target_font_size: i64,
    line_height: Option<LineHeight>,
    text: &TextInfo,
    overflow: &LayoutOverflow,
    scrollbar_info: &ScrollbarInfo,
    text_cache: &mut TextCache,
) -> (r: Option<(Vec<GlyphInstance>, TextOverflowPass2)>)
    requires
        wf_font(font@),
        wf_cache(old(text_cache)@),
        1 <= target_font_size <= MAX_FONT_SCALE,
        match line_height {
            Some(lh) => 0 <= lh.0 <= MAX_LINE_HEIGHT_PERMILLE,
            None => true,
        },
        -MAX_RECT_DIM <= bounds.origin.x <= MAX_RECT_DIM,
        -MAX_RECT_DIM <= bounds.origin.y <= MAX_RECT_DIM,
        -MAX_RECT_DIM <= bounds.size.width <= MAX_RECT_DIM,
        -MAX_RECT_DIM <= bounds.size.height <= MAX_RECT_DIM,
        scrollbar_info.width <= MAX_SCROLLBAR_WIDTH,
    ensures
        match r {
            Some(out) => {
                &&& text_input_ok(*text, old(text_cache)@, font@)
                &&& wf_cache(final(text_cache)@)
                &&& ({
                    let items = pipeline_words_spec(
                        *text,
                        old(text_cache)@,
                        *target_font_id,
                        font@,
                        target_font_size as int,
                    );
                    let spec_out = glyphs_pipeline_spec(
                        items,
                        *bounds,
                        horiz_alignment,
                        vert_alignment,
                        metrics_spec(font@, target_font_size as int, line_height),
                        overflow.horizontal is Allowed,
                        scrollbar_info.width as int,
                    );
                    glyphs_view(out.0@) == spec_out.0 && out.1@ == spec_out.1
                })
            },
            None => {
                &&& *final(text_cache) == *old(text_cache)
                &&& !text_input_ok(*text, old(text_cache)@, font@)
            },
        },
{
    let ready = match text {
        TextInfo::Cached(text_id) => text_ready(text_cache, text_id, font),
        TextInfo::Uncached(s) => text_fits(s.as_str(), font),
    };
    if ready {
        Some(
            get_glyphs(
                bounds,
                horiz_alignment,
                vert_alignment,
                font,
                target_font_id,
                target_font_size,
                line_height,
                text,
                overflow,
                scrollbar_info,
                text_cache,
            ),
        )
    } else {
        None
    }
}

} // verus!
