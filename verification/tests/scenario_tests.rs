use text_layout::calculate_font_metrics;
use text_layout::estimate_overflow_pass_1;
use text_layout::get_glyphs;
use text_layout::try_get_glyphs;
use text_layout::split_text_into_words;
use text_layout::words_to_left_aligned_glyphs;
use text_layout::CharMetric;
use text_layout::FontData;
use text_layout::FontId;
use text_layout::KernPair;
use text_layout::LayoutOverflow;
use text_layout::LayoutPoint;
use text_layout::LayoutRect;
use text_layout::LayoutSize;
use text_layout::OverflowBehaviour;
use text_layout::ScrollbarInfo;
use text_layout::SemanticWordItem;
use text_layout::StyleColor;
use text_layout::TextAlignmentHorz;
use text_layout::TextAlignmentVert;
use text_layout::TextCache;
use text_layout::TextId;
use text_layout::TextInfo;
use text_layout::TextOverflow;

fn test_font() -> FontData {
    FontData {
        space_advance: 10,
        ascent: 100,
        descent: -20,
        line_gap: 5,
        chars: vec![
            CharMetric { ch: 'a', glyph: 1, advance: 10 },
            CharMetric { ch: 'b', glyph: 2, advance: 20 },
            CharMetric { ch: 'c', glyph: 3, advance: 30 },
            CharMetric { ch: 'd', glyph: 4, advance: 40 },
        ],
        kerning: vec![KernPair { left: 1, right: 2, kern: -3 }],
    }
}

fn no_kern_font() -> FontData {
    FontData { kerning: Vec::new(), ..test_font() }
}

fn clipped() -> LayoutOverflow {
    LayoutOverflow {
        horizontal: OverflowBehaviour::Clipped,
        vertical: OverflowBehaviour::Clipped,
    }
}

#[test]
fn test_scenario_one_line_of_two_words() {
    // "ab cd" with known per-character advances and no kerning, in a
    // rectangle wide enough for both words on one line.
    let font = no_kern_font();
    let m = calculate_font_metrics(&font, 1, None);
    let words = split_text_into_words("ab cd", &font, 1);
    assert_eq!(words.0.len(), 2);
    match &words.0[0] {
        SemanticWordItem::Word(w) => {
            assert_eq!(w.glyphs.len(), 2);
            assert_eq!(w.total_width, 30);
        }
        _ => panic!("expected a word"),
    }
    match &words.0[1] {
        SemanticWordItem::Word(w) => {
            assert_eq!(w.glyphs.len(), 2);
            assert_eq!(w.total_width, 70);
        }
        _ => panic!("expected a word"),
    }

    let pass1 = estimate_overflow_pass_1(
        &words,
        &LayoutSize { width: 300, height: 1000 },
        &m,
        &clipped(),
    );
    // A single line: the vertical extent is one vertical advance plus the
    // top offset, 125 + 50.
    assert_eq!(pass1.vertical, TextOverflow::InBounds(1000 - 175));
}

#[test]
fn test_scenario_return_forces_break() {
    // "ab\ncd" in a rectangle wide enough for both words on one line
    // nonetheless produces two lines.
    let font = no_kern_font();
    let m = calculate_font_metrics(&font, 1, None);
    let words = split_text_into_words("ab\ncd", &font, 1);
    assert_eq!(words.0.len(), 3);
    assert!(matches!(words.0[1], SemanticWordItem::Return));

    let pass1 = estimate_overflow_pass_1(
        &words,
        &LayoutSize { width: 300, height: 1000 },
        &m,
        &clipped(),
    );
    // Two lines: 2 * 125 + 50.
    assert_eq!(pass1.vertical, TextOverflow::InBounds(1000 - 300));

    let (glyphs, breaks, _, _) = words_to_left_aligned_glyphs(&words, &font, Some(300), &m);
    assert_eq!(glyphs.len(), 4);
    assert_eq!(glyphs[0].point.y, 50);
    assert_eq!(glyphs[2].point.y, 175);
    assert_eq!(breaks.len(), 2);
}

#[test]
fn test_scenario_tab_advances_without_wrapping() {
    // "a\tb" produces word, tab, word; the tab advances the pen by the
    // tab width without forcing a line wrap even when the pen has gone
    // past the configured max width.
    let font = no_kern_font();
    let m = calculate_font_metrics(&font, 1, None);
    let words = split_text_into_words("a\tb", &font, 1);
    assert_eq!(words.0.len(), 3);
    assert!(matches!(&words.0[0], SemanticWordItem::Word(w) if w.total_width == 10));
    assert!(matches!(words.0[1], SemanticWordItem::Tab));
    assert!(matches!(&words.0[2], SemanticWordItem::Word(w) if w.total_width == 20));

    // Unbounded: the tab moves the pen by exactly tab_width = 40.
    let (glyphs, _, _, _) = words_to_left_aligned_glyphs(&words, &font, None, &m);
    assert_eq!(glyphs.len(), 2);
    assert_eq!(glyphs[0].point, LayoutPoint { x: 0, y: 50 });
    // 10 (word) + 10 (space) + 40 (tab) = 60
    assert_eq!(glyphs[1].point, LayoutPoint { x: 60, y: 50 });

    // Bounded to 45: the pen passes 45 at the tab without a wrap; only
    // the next word wraps. Exactly two break records: the wrap at "b"
    // and the final line.
    let (glyphs2, breaks2, _, _) = words_to_left_aligned_glyphs(&words, &font, Some(45), &m);
    assert_eq!(glyphs2.len(), 2);
    assert_eq!(glyphs2[1].point, LayoutPoint { x: 0, y: 175 });
    assert_eq!(breaks2.len(), 2);
    assert_eq!(breaks2[0], (0usize, 45 - 60));
}

#[test]
fn test_full_pipeline_left_top() {
    let font = test_font();
    let mut cache = TextCache::new();
    let gray = StyleColor { r: 0, g: 0, b: 0, a: 255 };
    let sb = ScrollbarInfo {
        width: 10,
        padding: 2,
        bar_color: gray,
        triangle_color: gray,
        background_color: gray,
    };
    let bounds = LayoutRect {
        origin: LayoutPoint { x: 5, y: 7 },
        size: LayoutSize { width: 200, height: 300 },
    };
    let (glyphs, pass2) = get_glyphs(
        &bounds,
        TextAlignmentHorz::Left,
        TextAlignmentVert::Top,
        &font,
        &FontId { id: 1 },
        1,
        None,
        &TextInfo::Uncached("ab cd".to_string()),
        &clipped(),
        &sb,
        &mut cache,
    );
    // "ab" takes 27 with kerning, then a space (10); "cd" takes 70.
    assert_eq!(glyphs.len(), 4);
    assert_eq!(glyphs[0].point, LayoutPoint { x: 5, y: 57 });
    assert_eq!(glyphs[1].point, LayoutPoint { x: 12, y: 57 });
    assert_eq!(glyphs[2].point, LayoutPoint { x: 42, y: 57 });
    assert_eq!(glyphs[3].point, LayoutPoint { x: 72, y: 57 });
    assert_eq!(pass2.horizontal, TextOverflow::InBounds(83));
    assert_eq!(pass2.vertical, TextOverflow::InBounds(125));
}

#[test]
fn test_try_get_glyphs_cached_text() {
    let font = test_font();
    let mut cache = TextCache::new();
    let id = cache.add_text("ab".to_string());
    let gray = StyleColor { r: 0, g: 0, b: 0, a: 255 };
    let sb = ScrollbarInfo {
        width: 10,
        padding: 2,
        bar_color: gray,
        triangle_color: gray,
        background_color: gray,
    };
    let bounds = LayoutRect {
        origin: LayoutPoint { x: 0, y: 0 },
        size: LayoutSize { width: 200, height: 300 },
    };

    let ok = try_get_glyphs(
        &bounds,
        TextAlignmentHorz::Left,
        TextAlignmentVert::Top,
        &font,
        &FontId { id: 3 },
        1,
        None,
        &TextInfo::Cached(id),
        &clipped(),
        &sb,
        &mut cache,
    );
    let (glyphs, _) = ok.expect("registered text lays out");
    assert_eq!(glyphs.len(), 2);
    assert_eq!(glyphs[0].point, LayoutPoint { x: 0, y: 50 });
    assert_eq!(glyphs[1].point, LayoutPoint { x: 7, y: 50 });

    let missing = try_get_glyphs(
        &bounds,
        TextAlignmentHorz::Left,
        TextAlignmentVert::Top,
        &font,
        &FontId { id: 3 },
        1,
        None,
        &TextInfo::Cached(TextId { id: 999 }),
        &clipped(),
        &sb,
        &mut cache,
    );
    assert!(missing.is_none());
}
