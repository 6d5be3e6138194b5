//! The glyph positioner: converts segmented words into absolute
//! left-aligned glyph positions inside lines, recording per-line break
//! points and leftover space.

use vstd::prelude::*;

use vstd::math::max;

use crate::font::wf_font;
use crate::font::wf_metrics;
use crate::font::FontData;
use crate::font::FontMetrics;
use crate::font::MetricsG;
use crate::normalize::nfc_of;
use crate::split::scale_items;
use crate::split::split_text_into_words;
use crate::split::split_units;
use crate::split::text_covered;
use crate::types::items_abs_width_sum;
use crate::types::items_wf;
use crate::types::lemma_abs_width_sum_monotone;
use crate::types::BreakG;
use crate::types::GlyphG;
use crate::types::GlyphInstance;
use crate::types::IndexOfLineBreak;
use crate::types::ItemG;
use crate::types::LayoutPoint;
use crate::types::RemainingSpaceToRight;
use crate::types::SemanticWordItem;
use crate::types::Words;
use crate::types::MAX_FONT_SCALE;
use crate::types::MAX_ITEMS;
use crate::types::MAX_LAID_COORD;
use crate::types::MAX_LEFTOVER;
use crate::types::MAX_METRIC;
use crate::types::MAX_PEN;
use crate::types::MAX_PASS1_DIM;
use crate::types::MAX_SCALED_COORD;
use crate::types::MAX_TEXT_LEN;

verus! {

/// The state of the left-aligned layout walk: the glyphs placed so far,
/// the break records committed so far (with their raw leftover values),
/// the pen position on the current line, the current line index, and the
/// largest pen value any committed line reached.
pub struct LayoutSim {
    pub glyphs: Seq<GlyphG>,
    pub breaks: Seq<BreakG>,
    pub pen: int,
    pub line: int,
    pub maxpen: int,
}

/// The mathematical view of an optional bound.
pub open spec fn opt_view(o: Option<i64>) -> Option<int> {
    match o {
        Some(v) => Some(v as int),
        None => None,
    }
}

/// The raw leftover recorded for a line ending at pen position `pen`:
/// the space to the bound when there is one, else the raw pen value,
/// resolved against the maximum line width once all lines are measured.
pub open spec fn raw_space(pen: int, max_w: Option<int>) -> int {
    match max_w {
        Some(mw) => mw - pen,
        None => pen,
    }
}

/// Ends the current line: records a break at the last placed glyph (when
/// any glyph was placed at all), tracks the maximum pen value, resets the
/// pen and moves to the next line.
pub open spec fn commit_line(st: LayoutSim, max_w: Option<int>) -> LayoutSim {
    let breaks2 = if st.glyphs.len() > 0 {
        st.breaks.push(BreakG { idx: st.glyphs.len() - 1, space: raw_space(st.pen, max_w) })
    } else {
        st.breaks
    };
    LayoutSim {
        glyphs: st.glyphs,
        breaks: breaks2,
        pen: 0,
        line: st.line + 1,
        maxpen: max(st.maxpen, st.pen),
    }
}

/// A glyph translated by a fixed offset.
pub open spec fn place_glyph(g: GlyphG, dx: int, dy: int) -> GlyphG {
    GlyphG { index: g.index, x: g.x + dx, y: g.y + dy }
}

pub open spec fn place_glyphs(gs: Seq<GlyphG>, dx: int, dy: int) -> Seq<GlyphG> {
    Seq::new(gs.len(), |i: int| place_glyph(gs[i], dx, dy))
}

/// One item of the layout walk: a word wraps the line first when it would
/// exceed the bound, then its glyphs are placed at the pen on the current
/// line and the pen advances by the word width plus one space; a tab
/// advances the pen and never wraps; a return always commits a break.
pub open spec fn layout_step(st: LayoutSim, it: ItemG, max_w: Option<int>, m: MetricsG) -> LayoutSim {
    match it {
        ItemG::Word { glyphs, width } => {
            let wrapped = match max_w {
                Some(mw) => st.pen + width > mw,
                None => false,
            };
            let st1 = if wrapped {
                commit_line(st, max_w)
            } else {
                st
            };
            let dy = st1.line * m.vertical_advance + m.offset_top;
            LayoutSim {
                glyphs: st1.glyphs + place_glyphs(glyphs, st1.pen, dy),
                breaks: st1.breaks,
                pen: st1.pen + width + m.space_width,
                line: st1.line,
                maxpen: st1.maxpen,
            }
        },
        ItemG::Tab => LayoutSim {
            glyphs: st.glyphs,
            breaks: st.breaks,
            pen: st.pen + m.tab_width,
            line: st.line,
            maxpen: st.maxpen,
        },
        ItemG::Return => commit_line(st, max_w),
    }
}

/// The layout walk after the first `i` items.
pub open spec fn layout_rec(items: Seq<ItemG>, i: int, max_w: Option<int>, m: MetricsG) -> LayoutSim
    decreases i,
{
    if i <= 0 {
        LayoutSim { glyphs: Seq::empty(), breaks: Seq::empty(), pen: 0, line: 0, maxpen: 0 }
    } else {
        layout_step(layout_rec(items, i - 1, max_w, m), items[i - 1], max_w, m)
    }
}

/// The walk over all items, plus the record for the last line (committed
/// only when any glyph was placed, so zero-glyph input yields empty
/// outputs).
pub open spec fn layout_final(items: Seq<ItemG>, max_w: Option<int>, m: MetricsG) -> LayoutSim {
    let fs = layout_rec(items, items.len() as int, max_w, m);
    if fs.glyphs.len() > 0 {
        LayoutSim {
            glyphs: fs.glyphs,
            breaks: fs.breaks.push(
                BreakG { idx: fs.glyphs.len() - 1, space: raw_space(fs.pen, max_w) },
            ),
            pen: fs.pen,
            line: fs.line,
            maxpen: max(fs.maxpen, fs.pen),
        }
    } else {
        fs
    }
}

/// The left-aligned glyph positions.
pub open spec fn layout_glyphs_spec(items: Seq<ItemG>, max_w: Option<int>, m: MetricsG) -> Seq<
    GlyphG,
> {
    layout_final(items, max_w, m).glyphs
}

/// The break records, with leftover values resolved: under a bound each
/// is already the space to the bound; unbounded, each raw pen value is
/// rewritten as the maximum observed line width minus that value.
pub open spec fn layout_breaks_spec(items: Seq<ItemG>, max_w: Option<int>, m: MetricsG) -> Seq<
    BreakG,
> {
    let fs = layout_final(items, max_w, m);
    match max_w {
        Some(_) => fs.breaks,
        None => Seq::new(
            fs.breaks.len(),
            |j: int| BreakG { idx: fs.breaks[j].idx, space: fs.maxpen - fs.breaks[j].space },
        ),
    }
}

/// The minimal enclosing width: the largest pen value any line reached.
pub open spec fn layout_min_width_spec(items: Seq<ItemG>, max_w: Option<int>, m: MetricsG) -> int {
    layout_final(items, max_w, m).maxpen
}

/// The minimal enclosing height: one vertical advance per line, plus the
/// top offset.
pub open spec fn layout_min_height_spec(items: Seq<ItemG>, max_w: Option<int>, m: MetricsG) -> int {
    let fs = layout_rec(items, items.len() as int, max_w, m);
    (fs.line + if fs.glyphs.len() > 0 {
        1int
    } else {
        0int
    }) * m.vertical_advance + m.offset_top
}

/// The exec break records match the mathematical ones.
pub open spec fn breaks_match(ex: Seq<(usize, i64)>, sp: Seq<BreakG>) -> bool {
    &&& ex.len() == sp.len()
    &&& forall|j: int|
        0 <= j < ex.len() ==> (#[trigger] ex[j]).0 == sp[j].idx && ex[j].1 == sp[j].space
}

/// Well-formedness of the break records relative to the glyphs, proved of
/// the positioner's output and assumed by the aligners: indices are
/// nondecreasing, in range, the last one is the last glyph, and records
/// exist exactly when glyphs do.
pub open spec fn breaks_wf(breaks: Seq<(usize, i64)>, glyphs: Seq<GlyphG>) -> bool {
    &&& forall|j1: int, j2: int|
        0 <= j1 <= j2 < breaks.len() ==> (#[trigger] breaks[j1]).0 <= (#[trigger] breaks[j2]).0
    &&& forall|j: int| 0 <= j < breaks.len() ==> (#[trigger] breaks[j]).0 < glyphs.len()
    &&& (breaks.len() > 0 <==> glyphs.len() > 0)
    &&& breaks.len() > 0 ==> breaks[breaks.len() - 1].0 == glyphs.len() - 1
    &&& forall|j: int|
        0 <= j < breaks.len() ==> -MAX_LEFTOVER <= (#[trigger] breaks[j]).1 <= MAX_LEFTOVER
}

/// Bounds on laid-out glyph coordinates.
pub open spec fn glyphs_bounded(glyphs: Seq<GlyphG>) -> bool {
    forall|k: int|
        0 <= k < glyphs.len() ==> (-MAX_LAID_COORD <= (#[trigger] glyphs[k]).x <= MAX_LAID_COORD
            && -MAX_LAID_COORD <= glyphs[k].y <= MAX_LAID_COORD)
}

/// Lays the words out left-aligned. If `max_horizontal_width` is `None`,
/// the text may overflow the rectangle horizontally and nothing ever
/// wraps. Returns the positioned glyphs, the line-break records, and the
/// minimal enclosing width and height.
pub fn words_to_left_aligned_glyphs(
    words: &Words,
    font: &FontData,
    max_horizontal_width: Option<i64>,
    font_metrics: &FontMetrics,
) -> (r: (Vec<GlyphInstance>, Vec<(usize, i64)>, i64, i64))
    requires
        items_wf(words@),
        wf_metrics(font_metrics@),
        match max_horizontal_width {
            Some(mw) => -MAX_PASS1_DIM <= mw <= MAX_PASS1_DIM,
            None => true,
        },
    ensures
        crate::types::glyphs_view(r.0@) == layout_glyphs_spec(
            words@,
            opt_view(max_horizontal_width),
            font_metrics@,
        ),
        breaks_match(
            r.1@,
            layout_breaks_spec(words@, opt_view(max_horizontal_width), font_metrics@),
        ),
        r.2 as int == layout_min_width_spec(words@, opt_view(max_horizontal_width), font_metrics@),
        r.3 as int == layout_min_height_spec(words@, opt_view(max_horizontal_width), font_metrics@),
        breaks_wf(r.1@, crate::types::glyphs_view(r.0@)),
        glyphs_bounded(crate::types::glyphs_view(r.0@)),
        0 <= r.2 <= MAX_PEN,
{
    let ghost items = words@;
    let ghost mw = opt_view(max_horizontal_width);
    let ghost m = font_metrics@;
    let n = words.0.len();
    let space = font_metrics.space_width;
    let tab = font_metrics.tab_width;
    let vadv = font_metrics.vertical_advance;
    let offset = font_metrics.offset_top;

    let mut left_aligned_glyphs: Vec<GlyphInstance> = Vec::new();
    let mut line_break_offsets: Vec<(usize, i64)> = Vec::new();
    let mut word_caret: i64 = 0;
    let mut current_line_num: i64 = 0;
    let mut max_word_caret: i64 = 0;
    let mut i: usize = 0;

    proof {
        assert(crate::types::glyphs_view(left_aligned_glyphs@) =~= layout_rec(
            items,
            0,
            mw,
            m,
        ).glyphs);
    }

    while i < n
        invariant
            0 <= i <= n,
            n == items.len(),
            items == words@,
            items_wf(items),
            0 <= space <= MAX_METRIC,
            0 <= tab <= MAX_METRIC,
            0 <= vadv <= MAX_METRIC,
            0 <= offset <= MAX_METRIC,
            m == font_metrics@,
            space as int == m.space_width,
            tab as int == m.tab_width,
            vadv as int == m.vertical_advance,
            offset as int == m.offset_top,
            mw == opt_view(max_horizontal_width),
            match max_horizontal_width {
                Some(v) => -MAX_PASS1_DIM <= v <= MAX_PASS1_DIM,
                None => true,
            },
            ({
                let st = layout_rec(items, i as int, mw, m);
                &&& crate::types::glyphs_view(left_aligned_glyphs@) == st.glyphs
                &&& breaks_match(line_break_offsets@, st.breaks)
                &&& word_caret as int == st.pen
                &&& current_line_num as int == st.line
                &&& max_word_caret as int == st.maxpen
            }),
            -(items_abs_width_sum(items, i as int) + (i as int) * (space + tab)) <= word_caret
                as int <= items_abs_width_sum(items, i as int) + (i as int) * (space + tab),
            0 <= max_word_caret as int <= items_abs_width_sum(items, i as int) + (i as int)
                * (space + tab),
            0 <= current_line_num <= i,
            forall|j1: int, j2: int|
                0 <= j1 <= j2 < line_break_offsets@.len() ==> (#[trigger] line_break_offsets@[j1]).0
                    <= (#[trigger] line_break_offsets@[j2]).0,
            forall|j: int|
                0 <= j < line_break_offsets@.len() ==> (#[trigger] line_break_offsets@[j]).0
                    < left_aligned_glyphs@.len(),
            line_break_offsets@.len() > 0 ==> left_aligned_glyphs@.len() > 0,
            forall|j: int|
                0 <= j < line_break_offsets@.len() ==> -(MAX_PASS1_DIM + MAX_PEN)
                    <= (#[trigger] line_break_offsets@[j]).1 <= MAX_PASS1_DIM + MAX_PEN,
            forall|k: int|
                0 <= k < left_aligned_glyphs@.len() ==> (-MAX_LAID_COORD
                    <= (#[trigger] left_aligned_glyphs@[k]).point.x <= MAX_LAID_COORD
                    && -MAX_LAID_COORD <= left_aligned_glyphs@[k].point.y <= MAX_LAID_COORD),
        decreases n - i,
    {
        let ghost st = layout_rec(items, i as int, mw, m);
        let ghost st_next = layout_rec(items, i as int + 1, mw, m);
        proof {
            assert(items[i as int] == words.0@[i as int]@);
            crate::overflow::lemma_pen_step(i as int, space as int + tab as int);
            lemma_abs_width_sum_monotone(items, i as int, i as int + 1);
            lemma_abs_width_sum_monotone(items, i as int + 1, items.len() as int);
            crate::split::lemma_abs_sum_nonneg(items, i as int);
            assert(st_next == layout_step(st, items[i as int], mw, m));
        }
        match &words.0[i] {
            SemanticWordItem::Word(w) => {
                let text_overflows_rect = match max_horizontal_width {
                    Some(mx) => word_caret + w.total_width > mx,
                    // With no bound the text may overflow horizontally
                    None => false,
                };
                if text_overflows_rect {
                    if left_aligned_glyphs.len() > 0 {
                        let space_until_horz_return: i64 = match max_horizontal_width {
                            Some(sx) => sx - word_caret,
                            None => word_caret,
                        };
                        line_break_offsets.push(
                            (left_aligned_glyphs.len() - 1, space_until_horz_return),
                        );
                    }
                    if word_caret > max_word_caret {
                        max_word_caret = word_caret;
                    }
                    word_caret = 0;
                    current_line_num = current_line_num + 1;
                }
                let ghost st1 = if text_overflows_rect {
                    commit_line(st, mw)
                } else {
                    st
                };
                proof {
                    assert(breaks_match(line_break_offsets@, st1.breaks));
                    crate::overflow::lemma_lines_bound(current_line_num as int, vadv as int);
                }
                let push_y: i64 = current_line_num * vadv + offset;
                proof {
                    assert(crate::types::glyphs_view(left_aligned_glyphs@) =~= st1.glyphs
                        + place_glyphs(
                        (match items[i as int] {
                            ItemG::Word { glyphs, .. } => glyphs,
                            _ => Seq::empty(),
                        }).take(0),
                        word_caret as int,
                        push_y as int,
                    ));
                }
                let ghost word_glyphs = match items[i as int] {
                    ItemG::Word { glyphs, .. } => glyphs,
                    _ => Seq::empty(),
                };
                let num_glyphs = w.glyphs.len();
                let mut k: usize = 0;
                proof {
                    assert(words.0@[i as int] is Word);
                    assert(items[i as int] is Word);
                    assert(st_next.breaks == st1.breaks);
                    assert(st_next == layout_step(st, items[i as int], mw, m));
                    assert(word_caret as int == st1.pen);
                    assert(current_line_num as int == st1.line);
                    assert(vadv as int == m.vertical_advance);
                    assert(offset as int == m.offset_top);
                    assert(push_y as int == current_line_num as int * (vadv as int) + offset);
                    assert(push_y as int == st1.line * m.vertical_advance + m.offset_top);
                    assert(word_glyphs == (match items[i as int] {
                        ItemG::Word { glyphs, .. } => glyphs,
                        _ => Seq::empty(),
                    }));
                    assert(st_next.glyphs == st1.glyphs + place_glyphs(
                        word_glyphs,
                        word_caret as int,
                        push_y as int,
                    ));
                }
                while k < num_glyphs
                    invariant
                        0 <= k <= num_glyphs,
                        num_glyphs == w.glyphs.len(),
                        word_glyphs == crate::types::glyphs_view(w.glyphs@),
                        items[i as int] is Word,
                        st_next.glyphs == st1.glyphs + place_glyphs(
                            word_glyphs,
                            word_caret as int,
                            push_y as int,
                        ),
                        st_next.breaks == st1.breaks,
                        st_next.pen == word_caret as int + w.total_width + space,
                        st_next.line == st1.line,
                        st_next.maxpen == st1.maxpen,
                        current_line_num as int == st1.line,
                        max_word_caret as int == st1.maxpen,
                        breaks_match(line_break_offsets@, st1.breaks),
                        forall|q: int|
                            0 <= q < word_glyphs.len() ==> (-MAX_SCALED_COORD
                                <= (#[trigger] word_glyphs[q]).x <= MAX_SCALED_COORD
                                && -MAX_SCALED_COORD <= word_glyphs[q].y <= MAX_SCALED_COORD),
                        -MAX_PEN <= word_caret as int <= MAX_PEN,
                        -(MAX_LAID_COORD - MAX_SCALED_COORD) <= push_y as int <= MAX_LAID_COORD
                            - MAX_SCALED_COORD,
                        crate::types::glyphs_view(left_aligned_glyphs@) == st1.glyphs
                            + place_glyphs(
                            word_glyphs.take(k as int),
                            word_caret as int,
                            push_y as int,
                        ),
                        forall|j: int|
                            0 <= j < line_break_offsets@.len()
                                ==> (#[trigger] line_break_offsets@[j]).0
                                < left_aligned_glyphs@.len(),
                        forall|q: int|
                            0 <= q < left_aligned_glyphs@.len() ==> (-MAX_LAID_COORD
                                <= (#[trigger] left_aligned_glyphs@[q]).point.x <= MAX_LAID_COORD
                                && -MAX_LAID_COORD <= left_aligned_glyphs@[q].point.y
                                <= MAX_LAID_COORD),
                        left_aligned_glyphs@.len() >= st1.glyphs.len(),
                    decreases num_glyphs - k,
                {
                    proof {
                        assert(word_glyphs[k as int] == w.glyphs@[k as int]@);
                    }
                    let g = w.glyphs[k];
                    let new_glyph = GlyphInstance {
                        index: g.index,
                        point: LayoutPoint { x: g.point.x + word_caret, y: g.point.y + push_y },
                    };
                    let ghost oldv = left_aligned_glyphs@;
                    left_aligned_glyphs.push(new_glyph);
                    proof {
                        crate::types::lemma_glyphs_view_push(oldv, new_glyph);
                        assert((st1.glyphs + place_glyphs(
                            word_glyphs.take(k as int),
                            word_caret as int,
                            push_y as int,
                        )).push(new_glyph@) =~= st1.glyphs + place_glyphs(
                            word_glyphs.take(k as int),
                            word_caret as int,
                            push_y as int,
                        ).push(new_glyph@));
                        assert(new_glyph@ == place_glyph(
                            word_glyphs[k as int],
                            word_caret as int,
                            push_y as int,
                        ));
                        assert(word_glyphs.take(k as int + 1) =~= word_glyphs.take(
                            k as int,
                        ).push(word_glyphs[k as int]));
                        assert(place_glyphs(
                            word_glyphs.take(k as int + 1),
                            word_caret as int,
                            push_y as int,
                        ) =~= place_glyphs(
                            word_glyphs.take(k as int),
                            word_caret as int,
                            push_y as int,
                        ).push(new_glyph@));
                        assert(crate::types::glyphs_view(left_aligned_glyphs@) =~= st1.glyphs
                            + place_glyphs(
                            word_glyphs.take(k as int + 1),
                            word_caret as int,
                            push_y as int,
                        ));
                    }
                    k = k + 1;
                }
                proof {
                    assert(word_glyphs.take(word_glyphs.len() as int) =~= word_glyphs);
                    assert(crate::types::glyphs_view(left_aligned_glyphs@) == st1.glyphs
                        + place_glyphs(word_glyphs, word_caret as int, push_y as int));
                    assert(items[i as int] is Word);
                    assert(push_y as int == st1.line * m.vertical_advance + m.offset_top);
                    assert(st1.pen == word_caret as int);
                    assert(st_next.glyphs == st1.glyphs + place_glyphs(
                        word_glyphs,
                        st1.pen,
                        st1.line * m.vertical_advance + m.offset_top,
                    ));
                }
                word_caret = word_caret + w.total_width + space;
            },
            SemanticWordItem::Tab => {
                word_caret = word_caret + tab;
            },
            SemanticWordItem::Return => {
                if left_aligned_glyphs.len() > 0 {
                    let space_until_horz_return: i64 = match max_horizontal_width {
                        Some(sx) => sx - word_caret,
                        None => word_caret,
                    };
                    line_break_offsets.push(
                        (left_aligned_glyphs.len() - 1, space_until_horz_return),
                    );
                }
                if word_caret > max_word_caret {
                    max_word_caret = word_caret;
                }
                word_caret = 0;
                current_line_num = current_line_num + 1;
                proof {
                    assert(breaks_match(line_break_offsets@, commit_line(st, mw).breaks));
                }
            },
        }
        proof {
            assert(crate::types::glyphs_view(left_aligned_glyphs@) == st_next.glyphs);
            assert(breaks_match(line_break_offsets@, st_next.breaks));
            assert(word_caret as int == st_next.pen);
            assert(current_line_num as int == st_next.line);
            assert(max_word_caret as int == st_next.maxpen);
        }
        i = i + 1;
    }

    // Record the last line.
    let ghost fs = layout_rec(items, n as int, mw, m);
    proof {
        crate::overflow::lemma_pen_bound(n as int, space as int + tab as int);
        lemma_abs_width_sum_monotone(items, n as int, items.len() as int);
        crate::split::lemma_abs_sum_nonneg(items, n as int);
    }
    if left_aligned_glyphs.len() > 0 {
        let space_until_horz_return: i64 = match max_horizontal_width {
            Some(sx) => sx - word_caret,
            None => word_caret,
        };
        line_break_offsets.push((left_aligned_glyphs.len() - 1, space_until_horz_return));
        if word_caret > max_word_caret {
            max_word_caret = word_caret;
        }
    }
    let ghost fs2 = layout_final(items, mw, m);
    proof {
        assert(breaks_match(line_break_offsets@, fs2.breaks));
    }

    let min_enclosing_width = max_word_caret;
    proof {
        crate::overflow::lemma_lines_bound(
            current_line_num as int + if left_aligned_glyphs@.len() > 0 {
                1int
            } else {
                0int
            },
            vadv as int,
        );
    }
    let lines: i64 = if left_aligned_glyphs.len() > 0 {
        current_line_num + 1
    } else {
        current_line_num
    };
    let min_enclosing_height: i64 = lines * vadv + offset;

    // Resolve the raw leftover values when no bound was given.
    if max_horizontal_width.is_none() {
        let nb = line_break_offsets.len();
        let mut j: usize = 0;
        while j < nb
            invariant
                0 <= j <= nb,
                nb == line_break_offsets@.len(),
                nb == fs2.breaks.len(),
                -MAX_PEN <= max_word_caret as int <= MAX_PEN,
                max_word_caret as int == fs2.maxpen,
                forall|q: int|
                    j <= q < nb ==> (#[trigger] line_break_offsets@[q]).0 == fs2.breaks[q].idx
                        && line_break_offsets@[q].1 == fs2.breaks[q].space,
                forall|q: int|
                    0 <= q < j ==> (#[trigger] line_break_offsets@[q]).0 == fs2.breaks[q].idx
                        && line_break_offsets@[q].1 as int == fs2.maxpen - fs2.breaks[q].space,
                forall|q: int|
                    j <= q < nb ==> -(MAX_PASS1_DIM + MAX_PEN) <= (#[trigger] line_break_offsets@[q]).1
                        <= MAX_PASS1_DIM + MAX_PEN,
                forall|q: int|
                    0 <= q < j ==> -MAX_LEFTOVER <= (#[trigger] line_break_offsets@[q]).1
                        <= MAX_LEFTOVER,
                forall|j1: int, j2: int|
                    0 <= j1 <= j2 < nb ==> (#[trigger] line_break_offsets@[j1]).0
                        <= (#[trigger] line_break_offsets@[j2]).0,
                forall|q: int|
                    0 <= q < nb ==> (#[trigger] line_break_offsets@[q]).0
                        < left_aligned_glyphs@.len(),
            decreases nb - j,
        {
            let entry = line_break_offsets[j];
            line_break_offsets.set(j, (entry.0, max_word_caret - entry.1));
            j = j + 1;
        }
    }

    (left_aligned_glyphs, line_break_offsets, min_enclosing_width, min_enclosing_height)
}

/// Returned result from the `layout_text` function.
#[derive(Debug, Clone)]
pub struct LayoutTextResult {
    /// The words, split into semantic items
    pub words: Words,
    /// Left-aligned glyphs
    pub layouted_glyphs: Vec<GlyphInstance>,
    /// The index of the glyph at which each line breaks, and how much
    /// space each line leaves to the right edge
    pub line_breaks: Vec<(IndexOfLineBreak, RemainingSpaceToRight)>,
    /// Minimal width of the layouted text
    pub min_width: i64,
    /// Minimal height of the layouted text
    pub min_height: i64,
}

/// Lays a string of text out horizontally, given a font with its metrics,
/// without fitting it into any rectangle and without computing overflow.
pub fn layout_text(text: &str, font: &FontData, font_metrics: &FontMetrics) -> (r: LayoutTextResult)
    requires
        wf_font(font@),
        wf_metrics(font_metrics@),
        1 <= font_metrics.font_size_no_line_height <= MAX_FONT_SCALE,
        nfc_of(text@).len() <= MAX_TEXT_LEN,
        text_covered(nfc_of(text@), font@),
    ensures
        ({
            let items = scale_items(
                split_units(nfc_of(text@), font@),
                font_metrics.font_size_no_line_height as int,
            );
            &&& r.words@ == items
            &&& crate::types::glyphs_view(r.layouted_glyphs@) == layout_glyphs_spec(
                items,
                None,
                font_metrics@,
            )
            &&& breaks_match(r.line_breaks@, layout_breaks_spec(items, None, font_metrics@))
            &&& r.min_width as int == layout_min_width_spec(items, None, font_metrics@)
            &&& r.min_height as int == layout_min_height_spec(items, None, font_metrics@)
        }),
{
    let words = split_text_into_words(text, font, font_metrics.font_size_no_line_height);
    let (layouted_glyphs, line_breaks, min_width, min_height) = words_to_left_aligned_glyphs(
        &words,
        font,
        None,
        font_metrics,
    );
    LayoutTextResult { words, layouted_glyphs, line_breaks, min_width, min_height }
}

/// Checks the inputs that `layout_text` assumes and lays the text out
/// only when they hold.
pub fn try_layout_text(text: &str, font: &FontData, font_metrics: &FontMetrics) -> (r: Option<
    LayoutTextResult,
>)
    requires
        wf_font(font@),
        wf_metrics(font_metrics@),
        1 <= font_metrics.font_size_no_line_height <= MAX_FONT_SCALE,
    ensures
        match r {
            Some(res) => {
                &&& nfc_of(text@).len() <= MAX_TEXT_LEN
                &&& text_covered(nfc_of(text@), font@)
                &&& res.words@ == scale_items(
                    split_units(nfc_of(text@), font@),
                    font_metrics.font_size_no_line_height as int,
                )
                &&& crate::types::glyphs_view(res.layouted_glyphs@) == layout_glyphs_spec(
                    res.words@,
                    None,
                    font_metrics@,
                )
            },
            None => nfc_of(text@).len() > MAX_TEXT_LEN || !text_covered(nfc_of(text@), font@),
        },
{
    if crate::split::text_fits(text, font) {
        Some(layout_text(text, font, font_metrics))
    } else {
        None
    }
}

} // verus!
