use text_layout::add_origin;
use text_layout::apply_harfbuzz_adjustments;
use text_layout::apply_knuth_plass_adjustments;
use text_layout::calculate_harfbuzz_adjustments;
use text_layout::calculate_knuth_plass_adjustments;
use text_layout::align_text_horz;
use text_layout::align_text_vert;
use text_layout::calculate_font_metrics;
use text_layout::estimate_overflow_pass_1;
use text_layout::split_text_into_words;
use text_layout::words_to_left_aligned_glyphs;
use text_layout::CharMetric;
use text_layout::FontData;
use text_layout::GlyphInstance;
use text_layout::KernPair;
use text_layout::LayoutOverflow;
use text_layout::LayoutPoint;
use text_layout::LayoutSize;
use text_layout::LineHeight;
use text_layout::OverflowBehaviour;
use text_layout::SemanticWordItem;
use text_layout::TextAlignmentHorz;
use text_layout::TextAlignmentVert;
use text_layout::estimate_overflow_pass_2;
use text_layout::ScrollbarInfo;
use text_layout::StyleColor;
use text_layout::TextOverflow;
use text_layout::TextOverflowPass2;

fn test_font() -> FontData {
    FontData {
        space_advance: 10,
        ascent: 100,
        descent: -20,
        line_gap: 5,
        chars: vec![
            CharMetric { ch: 'a', glyph: 1, advance: 10 },
            CharMetric { ch: 'b', glyph: 2, advance: 20 },
            CharMetric { ch: 'c', glyph: 3, advance: 30 },
            CharMetric { ch: 'd', glyph: 4, advance: 40 },
            CharMetric { ch: 'e', glyph: 5, advance: 15 },
            CharMetric { ch: '\u{e9}', glyph: 6, advance: 25 },
        ],
        // 'a' followed by 'b' is pulled together a little
        kerning: vec![KernPair { left: 1, right: 2, kern: -3 }],
    }
}

fn clipped() -> LayoutOverflow {
    LayoutOverflow {
        horizontal: OverflowBehaviour::Clipped,
        vertical: OverflowBehaviour::Clipped,
    }
}

fn allowed() -> LayoutOverflow {
    LayoutOverflow {
        horizontal: OverflowBehaviour::Allowed,
        vertical: OverflowBehaviour::Allowed,
    }
}

#[test]
fn test_it_should_add_origin() {
    let mut instances = vec![
        GlyphInstance { index: 20, point: LayoutPoint { x: 0, y: 0 } },
        GlyphInstance { index: 40, point: LayoutPoint { x: 20, y: 10 } },
    ];

    add_origin(&mut instances, 13, 0);

    assert_eq!(instances[0].point.x as usize, 13);
    assert_eq!(instances[0].point.y as usize, 0);
    assert_eq!(instances[1].point.x as usize, 33);
    assert_eq!(instances[1].point.y as usize, 10);
}

#[test]
fn test_origin_round_trip() {
    let original = vec![
        GlyphInstance { index: 1, point: LayoutPoint { x: 5, y: -7 } },
        GlyphInstance { index: 2, point: LayoutPoint { x: 0, y: 123 } },
        GlyphInstance { index: 3, point: LayoutPoint { x: -44, y: 2 } },
    ];
    let mut moved = original.clone();
    add_origin(&mut moved, 17, -9);
    add_origin(&mut moved, -17, 9);
    assert_eq!(moved, original);
}

#[test]
fn test_metrics_formulas() {
    let font = test_font();
    let m = calculate_font_metrics(&font, 1, None);
    assert_eq!(m.space_width, 10);
    assert_eq!(m.tab_width, 40);
    assert_eq!(m.vertical_advance, 125);
    assert_eq!(m.offset_top, 50);
    assert_eq!(m.font_size_no_line_height, 1);
    assert_eq!(m.font_size_with_line_height, 1);

    let m2 = calculate_font_metrics(&font, 2, Some(LineHeight(1500)));
    assert_eq!(m2.space_width, 20);
    assert_eq!(m2.tab_width, 80);
    assert_eq!(m2.font_size_no_line_height, 2);
    assert_eq!(m2.font_size_with_line_height, 3);
    assert_eq!(m2.vertical_advance, 375);
    assert_eq!(m2.offset_top, 150);
}

#[test]
fn test_tab_ratio_invariant() {
    let font = test_font();
    for size in [1i64, 2, 7, 250] {
        let m = calculate_font_metrics(&font, size, None);
        assert_eq!(m.tab_width, 4 * m.space_width);
    }
}

#[test]
fn test_overflow_boundary() {
    let font = test_font();
    let m = calculate_font_metrics(&font, 1, None);
    // "cd" is a single word of width 30 + 40 = 70, with no kerning.
    let words = split_text_into_words("cd", &font, 1);
    let exact = estimate_overflow_pass_1(
        &words,
        &LayoutSize { width: 70, height: 1000 },
        &m,
        &allowed(),
    );
    assert_eq!(exact.horizontal, TextOverflow::InBounds(0));
    let narrower = estimate_overflow_pass_1(
        &words,
        &LayoutSize { width: 69, height: 1000 },
        &m,
        &allowed(),
    );
    assert_eq!(narrower.horizontal, TextOverflow::IsOverflowing(1));
}

#[test]
fn test_left_top_alignment_identity() {
    let font = test_font();
    let m = calculate_font_metrics(&font, 1, None);
    let words = split_text_into_words("ab cd", &font, 1);
    let (glyphs, breaks, _, _) = words_to_left_aligned_glyphs(&words, &font, Some(200), &m);
    let pass2 = TextOverflowPass2 {
        horizontal: TextOverflow::InBounds(83),
        vertical: TextOverflow::InBounds(125),
    };
    let mut left = glyphs.clone();
    align_text_horz(TextAlignmentHorz::Left, &mut left, &breaks, &pass2);
    assert_eq!(left, glyphs);
    let mut top = glyphs.clone();
    align_text_vert(TextAlignmentVert::Top, &mut top, &breaks, &pass2);
    assert_eq!(top, glyphs);
}

#[test]
fn test_alignment_distribution() {
    let font = test_font();
    let m = calculate_font_metrics(&font, 1, None);
    // Two lines: "ab" (width 27 with kerning) and "cd" (width 70).
    let words = split_text_into_words("ab\ncd", &font, 1);
    let (glyphs, breaks, _, _) = words_to_left_aligned_glyphs(&words, &font, Some(100), &m);
    // Line 0 leftover: 100 - (27 + 10) = 63; line 1 leftover: 100 - (70 + 10) = 20.
    assert_eq!(breaks, vec![(1usize, 63i64), (3usize, 20i64)]);
    let pass2 = TextOverflowPass2 {
        horizontal: TextOverflow::InBounds(0),
        vertical: TextOverflow::InBounds(0),
    };

    let mut centered = glyphs.clone();
    align_text_horz(TextAlignmentHorz::Center, &mut centered, &breaks, &pass2);
    for k in 0..glyphs.len() {
        let leftover = if k <= 1 { 63 } else { 20 };
        assert_eq!(centered[k].point.x, glyphs[k].point.x + leftover / 2);
        assert_eq!(centered[k].point.y, glyphs[k].point.y);
    }

    let mut righted = glyphs.clone();
    align_text_horz(TextAlignmentHorz::Right, &mut righted, &breaks, &pass2);
    for k in 0..glyphs.len() {
        let leftover = if k <= 1 { 63 } else { 20 };
        assert_eq!(righted[k].point.x, glyphs[k].point.x + leftover);
    }
}

#[test]
fn test_vertical_alignment_moves_block_uniformly() {
    let font = test_font();
    let m = calculate_font_metrics(&font, 1, None);
    let words = split_text_into_words("ab\ncd", &font, 1);
    let (glyphs, breaks, _, _) = words_to_left_aligned_glyphs(&words, &font, Some(100), &m);
    let pass2 = TextOverflowPass2 {
        horizontal: TextOverflow::InBounds(0),
        vertical: TextOverflow::InBounds(30),
    };
    let mut centered = glyphs.clone();
    align_text_vert(TextAlignmentVert::Center, &mut centered, &breaks, &pass2);
    for k in 0..glyphs.len() {
        assert_eq!(centered[k].point.y, glyphs[k].point.y + 15);
        assert_eq!(centered[k].point.x, glyphs[k].point.x);
    }
    let mut bottomed = glyphs.clone();
    align_text_vert(TextAlignmentVert::Bottom, &mut bottomed, &breaks, &pass2);
    for k in 0..glyphs.len() {
        assert_eq!(bottomed[k].point.y, glyphs[k].point.y + 30);
    }
    // Never when vertically overflowing: there is no slack to distribute.
    let overflowing = TextOverflowPass2 {
        horizontal: TextOverflow::InBounds(0),
        vertical: TextOverflow::IsOverflowing(5),
    };
    let mut unchanged = glyphs.clone();
    align_text_vert(TextAlignmentVert::Bottom, &mut unchanged, &breaks, &overflowing);
    assert_eq!(unchanged, glyphs);
}

#[test]
fn test_empty_text_yields_empty_outputs() {
    let font = test_font();
    let m = calculate_font_metrics(&font, 1, None);
    let words = split_text_into_words("", &font, 1);
    assert_eq!(words.0.len(), 0);
    let (glyphs, breaks, min_w, min_h) = words_to_left_aligned_glyphs(&words, &font, None, &m);
    assert_eq!(glyphs.len(), 0);
    assert_eq!(breaks.len(), 0);
    assert_eq!(min_w, 0);
    assert_eq!(min_h, 50);

    // Alignment of zero glyphs is an explicit no-op.
    let pass2 = TextOverflowPass2 {
        horizontal: TextOverflow::InBounds(0),
        vertical: TextOverflow::InBounds(0),
    };
    let mut g = glyphs.clone();
    align_text_horz(TextAlignmentHorz::Center, &mut g, &breaks, &pass2);
    align_text_vert(TextAlignmentVert::Center, &mut g, &breaks, &pass2);
    assert_eq!(g.len(), 0);
}

#[test]
fn test_kerning_applies_within_word_only() {
    let font = test_font();
    // "ab" kerns b by -3; "a b" must not.
    let kerned = split_text_into_words("ab", &font, 1);
    match &kerned.0[0] {
        SemanticWordItem::Word(w) => {
            assert_eq!(w.glyphs[1].point.x, 7);
            assert_eq!(w.total_width, 27);
        }
        _ => panic!("expected a word"),
    }
    let split = split_text_into_words("a b", &font, 1);
    assert_eq!(split.0.len(), 2);
    match &split.0[1] {
        SemanticWordItem::Word(w) => {
            assert_eq!(w.glyphs[0].point.x, 0);
            assert_eq!(w.total_width, 20);
        }
        _ => panic!("expected a word"),
    }
}

#[test]
fn test_pass2_reserves_scrollbar_space() {
    let font = test_font();
    let m = calculate_font_metrics(&font, 1, None);
    // One tall block: 40 lines of "a".
    let text = "a\n".repeat(40);
    let words = split_text_into_words(&text, &font, 1);
    let size = LayoutSize { width: 100, height: 200 };
    let pass1 = estimate_overflow_pass_1(&words, &size, &m, &clipped());
    assert!(matches!(pass1.vertical, TextOverflow::IsOverflowing(_)));
    let gray = StyleColor { r: 128, g: 128, b: 128, a: 255 };
    let sb = ScrollbarInfo {
        width: 17,
        padding: 2,
        bar_color: gray,
        triangle_color: gray,
        background_color: gray,
    };
    let (new_size, _pass2) = estimate_overflow_pass_2(&words, &size, &m, &clipped(), &sb, pass1);
    // A vertical scrollbar consumes horizontal space.
    assert_eq!(new_size.width, 83);
    assert_eq!(new_size.height, 200);
}

#[test]
fn test_adjustment_hooks_do_nothing() {
    let font = test_font();
    let m = calculate_font_metrics(&font, 1, None);
    let words = split_text_into_words("ab cd", &font, 1);
    let (glyphs, breaks, _, _) = words_to_left_aligned_glyphs(&words, &font, None, &m);

    let hb = calculate_harfbuzz_adjustments("ab cd", &font);
    assert_eq!(hb.len(), 0);
    let kp = calculate_knuth_plass_adjustments(&glyphs, &breaks);
    assert_eq!(kp.len(), 0);

    let mut touched = glyphs.clone();
    apply_harfbuzz_adjustments(&mut touched, hb);
    apply_knuth_plass_adjustments(&mut touched, kp);
    assert_eq!(touched, glyphs);
}
