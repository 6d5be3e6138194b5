//! The two-pass overflow estimator: whether laid-out text exceeds the
//! target rectangle per axis, and the re-estimate against the rectangle
//! shrunk by the scrollbar space the first pass found necessary.

use vstd::prelude::*;

use vstd::math::max;

use crate::font::wf_metrics;
use crate::font::FontMetrics;
use crate::font::MetricsG;
use crate::types::items_abs_width_sum;
use crate::types::items_wf;
use crate::types::lemma_abs_width_sum_monotone;
use crate::types::GlyphG;
use crate::types::ItemG;
use crate::types::LayoutOverflow;
use crate::types::LayoutSize;
use crate::types::OverflowG;
use crate::types::Pass1G;
use crate::types::ScrollbarInfo;
use crate::types::SemanticWordItem;
use crate::types::TextOverflow;
use crate::types::TextOverflowPass1;
use crate::types::TextOverflowPass2;
use crate::types::Words;
use crate::types::MAX_ITEMS;
use crate::types::MAX_METRIC;
use crate::types::MAX_PEN;
use crate::types::MAX_OVERFLOW_AMOUNT;
use crate::types::MAX_PASS1_DIM;
use crate::types::MAX_RECT_DIM;
use crate::types::MAX_SCALED_COORD;
use crate::types::MAX_SCROLLBAR_WIDTH;

verus! {

/// State of the line-wrapping simulation: the pen position on the current
/// line, the largest pen position any line reached, how many times a line
/// was ended, and whether any word was seen.
pub struct WrapSim {
    pub cursor: int,
    pub max_cursor: int,
    pub wraps: int,
    pub has_word: bool,
}

/// One item of the wrapping walk: a word wraps the line when it would
/// exceed the width and then advances the pen by its width plus one space;
/// a tab advances the pen and never wraps; a return always wraps.
pub open spec fn wrap_step(st: WrapSim, it: ItemG, width: int, space: int, tab: int) -> WrapSim {
    match it {
        ItemG::Word { width: w, .. } => {
            if st.cursor + w > width {
                WrapSim {
                    cursor: w + space,
                    max_cursor: max(st.max_cursor, st.cursor),
                    wraps: st.wraps + 1,
                    has_word: true,
                }
            } else {
                WrapSim {
                    cursor: st.cursor + w + space,
                    max_cursor: st.max_cursor,
                    wraps: st.wraps,
                    has_word: true,
                }
            }
        },
        ItemG::Tab => WrapSim {
            cursor: st.cursor + tab,
            max_cursor: st.max_cursor,
            wraps: st.wraps,
            has_word: st.has_word,
        },
        ItemG::Return => WrapSim {
            cursor: 0,
            max_cursor: max(st.max_cursor, st.cursor),
            wraps: st.wraps + 1,
            has_word: st.has_word,
        },
    }
}

/// The wrapping simulation after the first `i` items.
pub open spec fn wrap_rec(items: Seq<ItemG>, i: int, width: int, space: int, tab: int) -> WrapSim
    decreases i,
{
    if i <= 0 {
        WrapSim { cursor: 0, max_cursor: 0, wraps: 0, has_word: false }
    } else {
        wrap_step(wrap_rec(items, i - 1, width, space, tab), items[i - 1], width, space, tab)
    }
}

/// The largest pen position the wrapping simulation reaches, the final
/// line included.
pub open spec fn wrap_final_extent(items: Seq<ItemG>, width: int, space: int, tab: int) -> int {
    let st = wrap_rec(items, items.len() as int, width, space, tab);
    max(st.max_cursor, st.cursor)
}

/// How many lines the wrapped text occupies: one per committed wrap, plus
/// the line the words sit on when there are any.
pub open spec fn wrap_line_count(items: Seq<ItemG>, width: int, space: int, tab: int) -> int {
    let st = wrap_rec(items, items.len() as int, width, space, tab);
    st.wraps + if st.has_word {
        1int
    } else {
        0int
    }
}

/// State of the unwrapped walk: pen position and largest line width, with
/// only returns resetting the line.
pub struct NoWrapSim {
    pub cursor: int,
    pub max_cursor: int,
}

pub open spec fn nowrap_step(st: NoWrapSim, it: ItemG, tab: int) -> NoWrapSim {
    match it {
        ItemG::Word { width: w, .. } => NoWrapSim {
            cursor: st.cursor + w,
            max_cursor: st.max_cursor,
        },
        ItemG::Tab => NoWrapSim { cursor: st.cursor + tab, max_cursor: st.max_cursor },
        ItemG::Return => NoWrapSim { cursor: 0, max_cursor: max(st.max_cursor, st.cursor) },
    }
}

pub open spec fn nowrap_rec(items: Seq<ItemG>, i: int, tab: int) -> NoWrapSim
    decreases i,
{
    if i <= 0 {
        NoWrapSim { cursor: 0, max_cursor: 0 }
    } else {
        nowrap_step(nowrap_rec(items, i - 1, tab), items[i - 1], tab)
    }
}

/// The true maximum line width with no forced wrapping, the final line
/// included.
pub open spec fn nowrap_extent(items: Seq<ItemG>, tab: int) -> int {
    let st = nowrap_rec(items, items.len() as int, tab);
    max(st.max_cursor, st.cursor)
}

/// The number of return items among the first `i` items.
pub open spec fn count_returns(items: Seq<ItemG>, i: int) -> int
    decreases i,
{
    if i <= 0 {
        0
    } else {
        count_returns(items, i - 1) + if items[i - 1] is Return {
            1int
        } else {
            0int
        }
    }
}

/// The payload of a verdict lies within the range the estimator can
/// produce.
pub open spec fn overflow_bounded(o: OverflowG) -> bool {
    match o {
        OverflowG::IsOverflowing(v) => 0 < v <= MAX_OVERFLOW_AMOUNT,
        OverflowG::InBounds(v) => 0 <= v <= MAX_OVERFLOW_AMOUNT,
    }
}

/// An extent against its rectangle dimension: overflowing by the excess,
/// or in bounds with the slack.
pub open spec fn overflow_of(extent: int, dim: int) -> OverflowG {
    if extent > dim {
        OverflowG::IsOverflowing(extent - dim)
    } else {
        OverflowG::InBounds(dim - extent)
    }
}

/// The first overflow pass. When horizontal overflow is allowed, the
/// vertical extent counts only explicit returns and the horizontal extent
/// is the unwrapped maximum line width; otherwise both come from the
/// wrapping simulation against the rectangle width.
pub open spec fn pass1_spec(
    items: Seq<ItemG>,
    width: int,
    height: int,
    m: MetricsG,
    allows_h: bool,
) -> Pass1G {
    let v_extent = if allows_h {
        count_returns(items, items.len() as int) * m.vertical_advance
    } else {
        wrap_line_count(items, width, m.space_width, m.tab_width) * m.vertical_advance
            + m.offset_top
    };
    let h_extent = if allows_h {
        nowrap_extent(items, m.tab_width)
    } else {
        wrap_final_extent(items, width, m.space_width, m.tab_width)
    };
    Pass1G { horizontal: overflow_of(h_extent, width), vertical: overflow_of(v_extent, height) }
}

/// The second overflow pass: subtract scrollbar thickness from the height
/// when pass 1 overflowed horizontally and from the width when it
/// overflowed vertically, and if either fired re-run pass 1 against the
/// shrunk rectangle.
pub open spec fn pass2_spec(
    items: Seq<ItemG>,
    width: int,
    height: int,
    m: MetricsG,
    allows_h: bool,
    sb_width: int,
    p1: Pass1G,
) -> (int, int, Pass1G) {
    let nh = if p1.horizontal is IsOverflowing {
        height - sb_width
    } else {
        height
    };
    let nw = if p1.vertical is IsOverflowing {
        width - sb_width
    } else {
        width
    };
    if p1.horizontal is IsOverflowing || p1.vertical is IsOverflowing {
        (nw, nh, pass1_spec(items, nw, nh, m, allows_h))
    } else {
        (nw, nh, p1)
    }
}

/// Product bound for a pen-step: at most `MAX_ITEMS` items each advance
/// the pen by at most two metrics.
pub proof fn lemma_pen_step(i: int, spt: int)
    requires
        0 <= i,
        i + 1 <= MAX_ITEMS,
        0 <= spt <= 2 * MAX_METRIC,
    ensures
        (i + 1) * spt == i * spt + spt,
        0 <= i * spt <= 0x1000_0000_0000_0000,
        0 <= (i + 1) * spt <= 0x1000_0000_0000_0000,
{
    assert((i + 1) * spt == i * spt + spt) by (nonlinear_arith);
    assert(0 <= i * spt <= 0x1000_0000_0000_0000) by (nonlinear_arith)
        requires
            0 <= i <= 0x40_0000,
            0 <= spt <= 0x40_0000_0000,
    ;
    assert(0 <= (i + 1) * spt <= 0x1000_0000_0000_0000) by (nonlinear_arith)
        requires
            0 <= i + 1 <= 0x40_0000,
            0 <= spt <= 0x40_0000_0000,
    ;
}

/// Product bound for a full pen walk.
pub proof fn lemma_pen_bound(i: int, spt: int)
    requires
        0 <= i <= MAX_ITEMS,
        0 <= spt <= 2 * MAX_METRIC,
    ensures
        0 <= i * spt <= 0x1000_0000_0000_0000,
{
    assert(0 <= i * spt <= 0x1000_0000_0000_0000) by (nonlinear_arith)
        requires
            0 <= i <= 0x40_0000,
            0 <= spt <= 0x40_0000_0000,
    ;
}

/// Product bound for a line count times the vertical advance.
pub proof fn lemma_lines_bound(lines: int, vadv: int)
    requires
        0 <= lines <= MAX_ITEMS + 1,
        0 <= vadv <= MAX_METRIC,
    ensures
        0 <= lines * vadv <= 0x800_0020_0000_0000,
{
    assert(0 <= lines * vadv <= 0x800_0020_0000_0000) by (nonlinear_arith)
        requires
            0 <= lines <= 0x40_0001,
            0 <= vadv <= 0x20_0000_0000,
    ;
}

/// First pass: calculate whether the words overflow the rectangle.
pub fn estimate_overflow_pass_1(
    words: &Words,
    rect_dimensions: &LayoutSize,
    font_metrics: &FontMetrics,
    overflow: &LayoutOverflow,
) -> (r: TextOverflowPass1)
    requires
        items_wf(words@),
        wf_metrics(font_metrics@),
        -MAX_PASS1_DIM <= rect_dimensions.width <= MAX_PASS1_DIM,
        -MAX_PASS1_DIM <= rect_dimensions.height <= MAX_PASS1_DIM,
    ensures
        r@ == pass1_spec(
            words@,
            rect_dimensions.width as int,
            rect_dimensions.height as int,
            font_metrics@,
            overflow.horizontal is Allowed,
        ),
        overflow_bounded(r@.horizontal),
        overflow_bounded(r@.vertical),
{
    let ghost items = words@;
    let n = words.0.len();
    let space = font_metrics.space_width;
    let tab = font_metrics.tab_width;
    let vadv = font_metrics.vertical_advance;
    let offset = font_metrics.offset_top;
    let allows_h = overflow.allows_horizontal_overflow();
    let rw = rect_dimensions.width;
    let rh = rect_dimensions.height;

    let (vertical_extent, clipped_h_max): (i64, i64) = if allows_h {
        // Only explicit returns create lines; line length is irrelevant.
        let mut count: i64 = 0;
        let mut i: usize = 0;
        while i < n
            invariant
                0 <= i <= n,
                n == items.len(),
                n <= MAX_ITEMS,
                items == words@,
                count == count_returns(items, i as int),
                0 <= count <= i,
            decreases n - i,
        {
            proof {
                assert(items[i as int] == words.0@[i as int]@);
            }
            if words.0[i].is_return() {
                count = count + 1;
            }
            i = i + 1;
        }
        proof {
            lemma_lines_bound(count as int, vadv as int);
        }
        (count * vadv, 0)
    } else {
        // Simulate wrapping against the rectangle width.
        let mut cur: i64 = 0;
        let mut maxcur: i64 = 0;
        let mut wraps: i64 = 0;
        let mut has_word: bool = false;
        let mut i: usize = 0;
        while i < n
            invariant
                0 <= i <= n,
                n == items.len(),
                items == words@,
                items_wf(items),
                0 <= space <= MAX_METRIC,
                0 <= tab <= MAX_METRIC,
                -MAX_PASS1_DIM <= rw <= MAX_PASS1_DIM,
                ({
                    let st = wrap_rec(items, i as int, rw as int, space as int, tab as int);
                    cur == st.cursor && maxcur == st.max_cursor && wraps == st.wraps && has_word
                        == st.has_word
                }),
                -(items_abs_width_sum(items, i as int) + (i as int) * (space + tab)) <= cur as int
                    <= items_abs_width_sum(items, i as int) + (i as int) * (space + tab),
                0 <= maxcur as int <= items_abs_width_sum(items, i as int) + (i as int) * (space
                    + tab),
                0 <= wraps <= i,
            decreases n - i,
        {
            proof {
                assert(items[i as int] == words.0@[i as int]@);
                lemma_pen_step(i as int, space as int + tab as int);
                lemma_abs_width_sum_monotone(items, i as int, i as int + 1);
                lemma_abs_width_sum_monotone(items, i as int + 1, items.len() as int);
                crate::split::lemma_abs_sum_nonneg(items, i as int);
            }
            match &words.0[i] {
                SemanticWordItem::Word(w) => {
                    if cur + w.total_width > rw {
                        if cur > maxcur {
                            maxcur = cur;
                        }
                        cur = 0;
                        wraps = wraps + 1;
                    }
                    cur = cur + w.total_width + space;
                    has_word = true;
                },
                SemanticWordItem::Tab => {
                    cur = cur + tab;
                },
                SemanticWordItem::Return => {
                    if cur > maxcur {
                        maxcur = cur;
                    }
                    cur = 0;
                    wraps = wraps + 1;
                },
            }
            i = i + 1;
        }
        proof {
            lemma_pen_bound(n as int, space as int + tab as int);
            lemma_abs_width_sum_monotone(items, n as int, items.len() as int);
            crate::split::lemma_abs_sum_nonneg(items, n as int);
            lemma_lines_bound(
                wraps as int + if has_word {
                    1int
                } else {
                    0int
                },
                vadv as int,
            );
        }
        let lines: i64 = if has_word {
            wraps + 1
        } else {
            wraps
        };
        let vext: i64 = lines * vadv + offset;
        let hmax: i64 = if cur > maxcur {
            cur
        } else {
            maxcur
        };
        (vext, hmax)
    };

    let vertical = if vertical_extent > rh {
        TextOverflow::IsOverflowing(vertical_extent - rh)
    } else {
        TextOverflow::InBounds(rh - vertical_extent)
    };

    let horizontal_extent: i64 = if allows_h {
        // Re-walk with no forced wrapping: only returns reset the pen.
        let mut cur: i64 = 0;
        let mut maxcur: i64 = 0;
        let mut i: usize = 0;
        while i < n
            invariant
                0 <= i <= n,
                n == items.len(),
                items == words@,
                items_wf(items),
                0 <= tab <= MAX_METRIC,
                ({
                    let st = nowrap_rec(items, i as int, tab as int);
                    cur == st.cursor && maxcur == st.max_cursor
                }),
                -(items_abs_width_sum(items, i as int) + (i as int) * tab) <= cur as int
                    <= items_abs_width_sum(items, i as int) + (i as int) * tab,
                0 <= maxcur as int <= items_abs_width_sum(items, i as int) + (i as int) * tab,
            decreases n - i,
        {
            proof {
                assert(items[i as int] == words.0@[i as int]@);
                lemma_pen_step(i as int, tab as int);
                lemma_abs_width_sum_monotone(items, i as int, i as int + 1);
                lemma_abs_width_sum_monotone(items, i as int + 1, items.len() as int);
                crate::split::lemma_abs_sum_nonneg(items, i as int);
            }
            match &words.0[i] {
                SemanticWordItem::Word(w) => {
                    cur = cur + w.total_width;
                },
                SemanticWordItem::Tab => {
                    cur = cur + tab;
                },
                SemanticWordItem::Return => {
                    if cur > maxcur {
                        maxcur = cur;
                    }
                    cur = 0;
                },
            }
            i = i + 1;
        }
        proof {
            lemma_pen_bound(n as int, tab as int);
            lemma_abs_width_sum_monotone(items, n as int, items.len() as int);
            crate::split::lemma_abs_sum_nonneg(items, n as int);
        }
        if cur > maxcur {
            cur
        } else {
            maxcur
        }
    } else {
        clipped_h_max
    };

    let horizontal = if horizontal_extent > rw {
        TextOverflow::IsOverflowing(horizontal_extent - rw)
    } else {
        TextOverflow::InBounds(rw - horizontal_extent)
    };

    TextOverflowPass1 { horizontal, vertical }
}

/// Second pass: reserve scrollbar space and re-estimate once.
pub fn estimate_overflow_pass_2(
    words: &Words,
    rect_dimensions: &LayoutSize,
    font_metrics: &FontMetrics,
    overflow: &LayoutOverflow,
    scrollbar_info: &ScrollbarInfo,
    pass1: TextOverflowPass1,
) -> (r: (LayoutSize, TextOverflowPass2))
    requires
        items_wf(words@),
        wf_metrics(font_metrics@),
        -MAX_RECT_DIM <= rect_dimensions.width <= MAX_RECT_DIM,
        -MAX_RECT_DIM <= rect_dimensions.height <= MAX_RECT_DIM,
        scrollbar_info.width <= MAX_SCROLLBAR_WIDTH,
        overflow_bounded(pass1@.horizontal),
        overflow_bounded(pass1@.vertical),
    ensures
        overflow_bounded(r.1@.horizontal),
        overflow_bounded(r.1@.vertical),
        -MAX_PASS1_DIM <= r.0.width <= MAX_PASS1_DIM,
        -MAX_PASS1_DIM <= r.0.height <= MAX_PASS1_DIM,
        ({
            let (nw, nh, p2) = pass2_spec(
                words@,
                rect_dimensions.width as int,
                rect_dimensions.height as int,
                font_metrics@,
                overflow.horizontal is Allowed,
                scrollbar_info.width as int,
                pass1@,
            );
            r.0.width == nw && r.0.height == nh && r.1@ == p2
        }),
{
    let sb: i64 = scrollbar_info.width as i64;
    let mut new_size = LayoutSize { width: rect_dimensions.width, height: rect_dimensions.height };

    // A horizontal scrollbar consumes vertical space, and the other way
    // round: the axes are deliberately switched here.
    if pass1.horizontal.is_overflowing() {
        new_size.height = new_size.height - sb;
    }
    if pass1.vertical.is_overflowing() {
        new_size.width = new_size.width - sb;
    }

    let recalc = if pass1.horizontal.is_overflowing() || pass1.vertical.is_overflowing() {
        estimate_overflow_pass_1(words, &new_size, font_metrics, overflow)
    } else {
        pass1
    };

    (new_size, TextOverflowPass2 { horizontal: recalc.horizontal, vertical: recalc.vertical })
}

/// Overflow boundary: with horizontal overflow permitted, a rectangle
/// exactly as wide as a single word yields a zero in-bounds slack, and
/// one unit narrower yields a one-unit overflow.
pub proof fn lemma_overflow_boundary(glyphs: Seq<GlyphG>, width: int, height: int, m: MetricsG)
    requires
        0 <= width,
    ensures
        pass1_spec(seq![ItemG::Word { glyphs, width }], width, height, m, true).horizontal
            == OverflowG::InBounds(0),
        pass1_spec(seq![ItemG::Word { glyphs, width }], width - 1, height, m, true).horizontal
            == OverflowG::IsOverflowing(1),
{
    let items = seq![ItemG::Word { glyphs, width }];
    assert(items.len() == 1);
    assert(items[0] == (ItemG::Word { glyphs, width }));
    assert(nowrap_rec(items, 0, m.tab_width) == (NoWrapSim { cursor: 0, max_cursor: 0 }));
    assert(nowrap_rec(items, 1, m.tab_width) == nowrap_step(
        nowrap_rec(items, 0, m.tab_width),
        items[0],
        m.tab_width,
    ));
    assert(nowrap_extent(items, m.tab_width) == width);
}

} // verus!
