use text_layout::get_words_cached;
use text_layout::scale_words;
use text_layout::split_text_into_words;
use text_layout::try_get_words_cached;
use text_layout::try_layout_text;
use text_layout::try_split_text_into_words;
use text_layout::calculate_font_metrics;
use text_layout::CharMetric;
use text_layout::FontData;
use text_layout::FontId;
use text_layout::KernPair;
use text_layout::SemanticWordItem;
use text_layout::TextCache;
use text_layout::TextId;
use text_layout::Words;

fn test_font() -> FontData {
    FontData {
        space_advance: 10,
        ascent: 100,
        descent: -20,
        line_gap: 5,
        chars: vec![
            CharMetric { ch: 'a', glyph: 1, advance: 10 },
            CharMetric { ch: 'b', glyph: 2, advance: 20 },
            CharMetric { ch: 'c', glyph: 3, advance: 30 },
            CharMetric { ch: 'd', glyph: 4, advance: 40 },
            CharMetric { ch: '\u{e9}', glyph: 6, advance: 25 },
        ],
        kerning: vec![KernPair { left: 1, right: 2, kern: -3 }],
    }
}

fn assert_words_eq(x: &Words, y: &Words) {
    assert_eq!(x.0.len(), y.0.len());
    for (a, b) in x.0.iter().zip(y.0.iter()) {
        match (a, b) {
            (SemanticWordItem::Word(wa), SemanticWordItem::Word(wb)) => {
                assert_eq!(wa.glyphs, wb.glyphs);
                assert_eq!(wa.total_width, wb.total_width);
            }
            (SemanticWordItem::Tab, SemanticWordItem::Tab) => {}
            (SemanticWordItem::Return, SemanticWordItem::Return) => {}
            _ => panic!("word items differ"),
        }
    }
}

#[test]
fn test_scaling_consistency() {
    // Splitting at one scale and rescaling to another reproduces the
    // split at the other scale exactly.
    let font = test_font();
    let at_one = split_text_into_words("ab\tcd a", &font, 1);
    let at_three = split_text_into_words("ab\tcd a", &font, 3);
    let mut rescaled = at_one.clone();
    scale_words(&mut rescaled, 3, 1);
    assert_words_eq(&rescaled, &at_three);

    // And back down again.
    let mut down = rescaled;
    scale_words(&mut down, 1, 3);
    assert_words_eq(&down, &at_one);
}

#[test]
fn test_cache_serves_and_scales() {
    let font = test_font();
    let font_id = FontId { id: 7 };
    let mut cache = TextCache::new();
    let id = cache.add_text("ab cd".to_string());

    // First sighting of the font: computed by splitting.
    let first = get_words_cached(&id, &font, &font_id, 2, &mut cache);
    assert_words_eq(&first, &split_text_into_words("ab cd", &font, 2));
    assert_eq!(cache.entries.len(), 1);

    // Same key again: served from the cache, nothing inserted.
    let again = get_words_cached(&id, &font, &font_id, 2, &mut cache);
    assert_words_eq(&again, &first);
    assert_eq!(cache.entries.len(), 1);

    // A new size of a known font: served by scaling, and inserted.
    let scaled = get_words_cached(&id, &font, &font_id, 6, &mut cache);
    assert_words_eq(&scaled, &split_text_into_words("ab cd", &font, 6));
    assert_eq!(cache.entries.len(), 2);

    // Registering the same text again hands out a distinct identity.
    let id2 = cache.add_text("ab cd".to_string());
    assert_ne!(id.id, id2.id);
}

#[test]
fn test_try_get_words_cached_unregistered() {
    let font = test_font();
    let mut cache = TextCache::new();
    let missing = TextId { id: 99 };
    let r = try_get_words_cached(&missing, &font, &FontId { id: 1 }, 2, &mut cache);
    assert!(r.is_none());
}

#[test]
fn test_try_split_rejects_uncovered_text() {
    let font = test_font();
    assert!(try_split_text_into_words("zz", &font, 1).is_none());
    assert!(try_split_text_into_words("ab cd", &font, 1).is_some());
}

#[test]
fn test_split_normalizes_before_segmenting() {
    // The decomposed form of an accented letter is composed first: the
    // font has an entry only for the composed character.
    let font = test_font();
    let decomposed = "e\u{301}";
    let r = try_split_text_into_words(decomposed, &font, 1);
    let words = r.expect("normalized text is covered");
    assert_eq!(words.0.len(), 1);
    match &words.0[0] {
        SemanticWordItem::Word(w) => {
            assert_eq!(w.glyphs.len(), 1);
            assert_eq!(w.glyphs[0].index, 6);
            assert_eq!(w.total_width, 25);
        }
        _ => panic!("expected a word"),
    }
}

#[test]
fn test_try_layout_text() {
    let font = test_font();
    let m = calculate_font_metrics(&font, 1, None);
    let r = try_layout_text("ab cd", &font, &m).expect("text is covered");
    assert_eq!(r.layouted_glyphs.len(), 4);
    assert_eq!(r.min_width, 117);
    assert_eq!(r.min_height, 175);
    assert_eq!(r.line_breaks, vec![(3usize, 0i64)]);

    assert!(try_layout_text("xyz", &font, &m).is_none());
}
