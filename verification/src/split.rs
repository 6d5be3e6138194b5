//! Word segmentation: walking the normalized text, cutting it into words,
//! tabs and returns, and computing each glyph's offset (with kerning)
//! relative to its own word's origin.
//!
//! The segmentation is specified in font units, independent of the font
//! scale; a concrete split at scale `s` is exactly the unit split with
//! every horizontal coordinate multiplied by `s`. That makes rescaling a
//! split to another size an exact operation, which the word cache exploits.

use vstd::prelude::*;

use crate::font::advance_of;
use crate::font::font_covers;
use crate::font::glyph_id_of;
use crate::font::kern_of;
use crate::font::wf_font;
use crate::font::CharMetric;
use crate::font::FontData;
use crate::font::FontView;
use crate::normalize::nfc_of;
use crate::normalize::normalize_nfc;
use crate::types::items_abs_width_sum;
use crate::types::items_wf;
use crate::types::GlyphG;
use crate::types::GlyphInstance;
use crate::types::ItemG;
use crate::types::LayoutPoint;
use crate::types::SemanticWordItem;
use crate::types::Word;
use crate::types::Words;
use crate::types::MAX_FONT_SCALE;
use crate::types::MAX_FONT_UNIT;
use crate::types::MAX_ITEMS;
use crate::types::MAX_SCALED_COORD;
use crate::types::MAX_TEXT_LEN;
use crate::types::MAX_UNIT_COORD;

verus! {

/// The three characters that end a word: space, tab and linefeed. A bare
/// carriage return is deliberately not one of them.
pub open spec fn is_separator(c: char) -> bool {
    c == '\t' || c == '\n' || c == ' '
}

/// Every non-separator character of `s` has an entry in the font.
pub open spec fn text_covered(s: Seq<char>, f: FontView) -> bool {
    forall|i: int| 0 <= i < s.len() && !is_separator(#[trigger] s[i]) ==> font_covers(f, s[i])
}

/// The segmentation state after some prefix of the text: the finished
/// items, the glyphs and pen position of the word in progress (in font
/// units), and the previous glyph for kerning.
pub struct SplitState {
    pub items: Seq<ItemG>,
    pub glyphs: Seq<GlyphG>,
    pub caret: int,
    pub last: Option<u32>,
}

/// The state before any character is read.
pub open spec fn split_init() -> SplitState {
    SplitState { items: Seq::empty(), glyphs: Seq::empty(), caret: 0, last: None }
}

/// Finishes the word in progress, if it has any glyph: its width is the
/// pen position reached, the sum of its advances and kerning values.
/// Kerning never crosses a word boundary, so the previous glyph resets.
pub open spec fn flush_word(st: SplitState) -> SplitState {
    if st.glyphs.len() > 0 {
        SplitState {
            items: st.items.push(ItemG::Word { glyphs: st.glyphs, width: st.caret }),
            glyphs: Seq::empty(),
            caret: 0,
            last: None,
        }
    } else {
        st
    }
}

/// One character of the walk: a separator ends the word in progress (tab
/// and linefeed are themselves recorded, a space is only a boundary); a
/// regular character is placed at the pen position plus its kerning
/// against the previous glyph, and advances the pen.
pub open spec fn split_step(st: SplitState, c: char, f: FontView) -> SplitState {
    if c == '\t' {
        let fl = flush_word(st);
        SplitState {
            items: fl.items.push(ItemG::Tab),
            glyphs: fl.glyphs,
            caret: fl.caret,
            last: fl.last,
        }
    } else if c == '\n' {
        let fl = flush_word(st);
        SplitState {
            items: fl.items.push(ItemG::Return),
            glyphs: fl.glyphs,
            caret: fl.caret,
            last: fl.last,
        }
    } else if c == ' ' {
        flush_word(st)
    } else {
        let id = glyph_id_of(f, c);
        let k = match st.last {
            Some(l) => kern_of(f, l, id),
            None => 0,
        };
        SplitState {
            items: st.items,
            glyphs: st.glyphs.push(GlyphG { index: id, x: st.caret + k, y: 0 }),
            caret: st.caret + k + advance_of(f, c),
            last: Some(id),
        }
    }
}

/// The segmentation state after the first `i` characters.
pub open spec fn split_rec(s: Seq<char>, f: FontView, i: int) -> SplitState
    decreases i,
{
    if i <= 0 {
        split_init()
    } else {
        split_step(split_rec(s, f, i - 1), s[i - 1], f)
    }
}

/// The semantic items of a character sequence, with all horizontal
/// coordinates in font units: the full walk plus a flush of a trailing
/// word.
pub open spec fn split_units(s: Seq<char>, f: FontView) -> Seq<ItemG> {
    flush_word(split_rec(s, f, s.len() as int)).items
}

/// A glyph with its horizontal offset multiplied by the font scale.
pub open spec fn scale_glyph(g: GlyphG, s: int) -> GlyphG {
    GlyphG { index: g.index, x: g.x * s, y: g.y }
}

pub open spec fn scale_glyphs(gs: Seq<GlyphG>, s: int) -> Seq<GlyphG> {
    Seq::new(gs.len(), |i: int| scale_glyph(gs[i], s))
}

/// An item with every horizontal coordinate multiplied by the font scale.
pub open spec fn scale_item(it: ItemG, s: int) -> ItemG {
    match it {
        ItemG::Word { glyphs, width } => ItemG::Word {
            glyphs: scale_glyphs(glyphs, s),
            width: width * s,
        },
        ItemG::Tab => ItemG::Tab,
        ItemG::Return => ItemG::Return,
    }
}

pub open spec fn scale_items(its: Seq<ItemG>, s: int) -> Seq<ItemG> {
    Seq::new(its.len(), |i: int| scale_item(its[i], s))
}

/// A glyph with its horizontal offset multiplied by `new / old`.
pub open spec fn rescale_glyph(g: GlyphG, new: int, old: int) -> GlyphG {
    GlyphG { index: g.index, x: g.x * new / old, y: g.y }
}

pub open spec fn rescale_glyphs(gs: Seq<GlyphG>, new: int, old: int) -> Seq<GlyphG> {
    Seq::new(gs.len(), |i: int| rescale_glyph(gs[i], new, old))
}

/// An item with every horizontal coordinate multiplied by `new / old`:
/// what scaling an already-split word layout to a new font size does.
pub open spec fn rescale_item(it: ItemG, new: int, old: int) -> ItemG {
    match it {
        ItemG::Word { glyphs, width } => ItemG::Word {
            glyphs: rescale_glyphs(glyphs, new, old),
            width: width * new / old,
        },
        ItemG::Tab => ItemG::Tab,
        ItemG::Return => ItemG::Return,
    }
}

pub open spec fn rescale_items(its: Seq<ItemG>, new: int, old: int) -> Seq<ItemG> {
    Seq::new(its.len(), |i: int| rescale_item(its[i], new, old))
}

/// Bounds on a unit-space item sequence: what the splitter can produce
/// from a text of at most `MAX_TEXT_LEN` characters.
pub open spec fn unit_items_wf(us: Seq<ItemG>) -> bool {
    &&& us.len() <= MAX_ITEMS
    &&& forall|i: int|
        0 <= i < us.len() ==> match #[trigger] us[i] {
            ItemG::Word { glyphs, width } => {
                &&& -MAX_UNIT_COORD <= width <= MAX_UNIT_COORD
                &&& forall|k: int|
                    0 <= k < glyphs.len() ==> (-MAX_UNIT_COORD <= (#[trigger] glyphs[k]).x
                        <= MAX_UNIT_COORD && glyphs[k].y == 0)
            },
            _ => true,
        }
    &&& items_abs_width_sum(us, us.len() as int) <= MAX_UNIT_COORD
}

/// Bounds on the segmentation state after `i` characters: every pen
/// position and width is at most `2 * MAX_FONT_UNIT` per character read.
pub open spec fn split_state_wf(st: SplitState, i: int) -> bool {
    let b = 2 * MAX_FONT_UNIT * i;
    &&& st.items.len() <= 2 * i
    &&& st.glyphs.len() <= i
    &&& -b <= st.caret <= b
    &&& items_abs_width_sum(st.items, st.items.len() as int) + (if st.caret >= 0 {
        st.caret
    } else {
        -st.caret
    }) <= b
    &&& forall|k: int|
        0 <= k < st.glyphs.len() ==> (-b <= (#[trigger] st.glyphs[k]).x <= b && st.glyphs[k].y
            == 0)
    &&& forall|j: int|
        0 <= j < st.items.len() ==> match #[trigger] st.items[j] {
            ItemG::Word { glyphs, width } => {
                &&& -b <= width <= b
                &&& forall|k: int|
                    0 <= k < glyphs.len() ==> (-b <= (#[trigger] glyphs[k]).x <= b && glyphs[k].y
                        == 0)
            },
            _ => true,
        }
}

/// Appending an item does not change the absolute width sum of the
/// prefix before it.
pub proof fn lemma_abs_sum_push(us: Seq<ItemG>, it: ItemG, j: int)
    requires
        0 <= j <= us.len(),
    ensures
        items_abs_width_sum(us.push(it), j) == items_abs_width_sum(us, j),
    decreases j,
{
    if j > 0 {
        lemma_abs_sum_push(us, it, j - 1);
    }
}

/// Flushing the word in progress moves the pen value into the width sum.
proof fn lemma_flush_abs_sum(st: SplitState)
    ensures
        items_abs_width_sum(flush_word(st).items, flush_word(st).items.len() as int)
            <= items_abs_width_sum(st.items, st.items.len() as int) + (if st.caret >= 0 {
            st.caret
        } else {
            -st.caret
        }),
        flush_word(st).items.len() <= st.items.len() + 1,
{
    if st.glyphs.len() > 0 {
        let it = ItemG::Word { glyphs: st.glyphs, width: st.caret };
        lemma_abs_sum_push(st.items, it, st.items.len() as int);
    }
}

/// The segmentation state stays within `split_state_wf` bounds.
pub proof fn lemma_split_state_wf(s: Seq<char>, f: FontView, i: int)
    requires
        wf_font(f),
        0 <= i <= s.len(),
        text_covered(s, f),
    ensures
        split_state_wf(split_rec(s, f, i), i),
    decreases i,
{
    if i > 0 {
        lemma_split_state_wf(s, f, i - 1);
        let st = split_rec(s, f, i - 1);
        let c = s[i - 1];
        if c == '\t' || c == '\n' {
            lemma_flush_abs_sum(st);
            let fl = flush_word(st);
            let marker = if c == '\t' {
                ItemG::Tab
            } else {
                ItemG::Return
            };
            lemma_abs_sum_push(fl.items, marker, fl.items.len() as int);
        } else if c == ' ' {
            lemma_flush_abs_sum(st);
        } else {
            let id = glyph_id_of(f, c);
            crate::font::lemma_advance_bounds(f, c);
            match st.last {
                Some(l) => crate::font::lemma_kern_bounds(f, l, id),
                None => {},
            }
        }
    }
}

/// The unit split of a bounded text satisfies the unit bounds.
pub proof fn lemma_split_units_wf(s: Seq<char>, f: FontView)
    requires
        wf_font(f),
        s.len() <= MAX_TEXT_LEN,
        text_covered(s, f),
    ensures
        unit_items_wf(split_units(s, f)),
{
    lemma_split_state_wf(s, f, s.len() as int);
    lemma_flush_abs_sum(split_rec(s, f, s.len() as int));
}

pub proof fn lemma_scale_glyphs_push(gs: Seq<GlyphG>, g: GlyphG, s: int)
    ensures
        scale_glyphs(gs.push(g), s) == scale_glyphs(gs, s).push(scale_glyph(g, s)),
{
    assert(scale_glyphs(gs.push(g), s) =~= scale_glyphs(gs, s).push(scale_glyph(g, s)));
}

pub proof fn lemma_scale_items_push(us: Seq<ItemG>, it: ItemG, s: int)
    ensures
        scale_items(us.push(it), s) == scale_items(us, s).push(scale_item(it, s)),
{
    assert(scale_items(us.push(it), s) =~= scale_items(us, s).push(scale_item(it, s)));
}

/// Scaled absolute widths sum to the scale times the unit sum.
pub proof fn lemma_scale_abs_sum(us: Seq<ItemG>, s: int, i: int)
    requires
        s >= 0,
        i <= us.len(),
    ensures
        items_abs_width_sum(scale_items(us, s), i) == s * items_abs_width_sum(us, i),
    decreases i,
{
    if i <= 0 {
        assert(s * 0 == 0) by (nonlinear_arith);
    } else {
        lemma_scale_abs_sum(us, s, i - 1);
        let a = items_abs_width_sum(us, i - 1);
        match us[i - 1] {
            ItemG::Word { width: w, .. } => {
                let aw: int = if w >= 0 {
                    w
                } else {
                    -w
                };
                vstd::arithmetic::mul::lemma_mul_is_distributive_add(s, a, aw);
                vstd::arithmetic::mul::lemma_mul_is_commutative(w, s);
                if w < 0 {
                    assert(s * (-w) == -(s * w)) by (nonlinear_arith);
                    assert(s * w <= 0) by (nonlinear_arith)
                        requires
                            s >= 0,
                            w < 0,
                    ;
                }
            },
            _ => {
                vstd::arithmetic::mul::lemma_mul_is_distributive_add(s, a, 0);
            },
        }
    }
}

/// Scaling a well-formed unit split by a font scale keeps all layout
/// bounds.
pub proof fn lemma_scale_items_wf(us: Seq<ItemG>, s: int)
    requires
        unit_items_wf(us),
        1 <= s <= MAX_FONT_SCALE,
    ensures
        items_wf(scale_items(us, s)),
{
    lemma_scale_abs_sum(us, s, us.len() as int);
    lemma_abs_sum_nonneg(us, us.len() as int);
    assert(s * items_abs_width_sum(us, us.len() as int) <= MAX_FONT_SCALE * MAX_UNIT_COORD)
        by (nonlinear_arith)
        requires
            1 <= s <= MAX_FONT_SCALE,
            0 <= items_abs_width_sum(us, us.len() as int) <= MAX_UNIT_COORD,
    ;
    assert forall|i: int| 0 <= i < scale_items(us, s).len() implies crate::types::item_wf(
        #[trigger] scale_items(us, s)[i],
    ) by {
        match us[i] {
            ItemG::Word { glyphs, width } => {
                assert(-MAX_SCALED_COORD <= width * s <= MAX_SCALED_COORD) by (nonlinear_arith)
                    requires
                        -MAX_UNIT_COORD <= width <= MAX_UNIT_COORD,
                        1 <= s <= MAX_FONT_SCALE,
                ;
                assert forall|k: int| 0 <= k < glyphs.len() implies (-MAX_SCALED_COORD
                    <= (#[trigger] scale_glyphs(glyphs, s)[k]).x <= MAX_SCALED_COORD
                    && scale_glyphs(glyphs, s)[k].y == 0) by {
                    assert(-MAX_SCALED_COORD <= glyphs[k].x * s <= MAX_SCALED_COORD)
                        by (nonlinear_arith)
                        requires
                            -MAX_UNIT_COORD <= glyphs[k].x <= MAX_UNIT_COORD,
                            1 <= s <= MAX_FONT_SCALE,
                    ;
                }
            },
            _ => {},
        }
    }
}

/// The absolute width sum is never negative.
pub proof fn lemma_abs_sum_nonneg(us: Seq<ItemG>, i: int)
    ensures
        items_abs_width_sum(us, i) >= 0,
    decreases i,
{
    if i > 0 {
        lemma_abs_sum_nonneg(us, i - 1);
    }
}

/// Exact cancellation: `(u * a) * b / a == u * b` for positive `a`.
pub proof fn lemma_mul_div_cancel(u: int, a: int, b: int)
    requires
        1 <= a,
    ensures
        (u * a) * b / a == u * b,
{
    assert((u * a) * b == a * (u * b)) by (nonlinear_arith);
    vstd::arithmetic::div_mod::lemma_div_multiples_vanish(u * b, a);
}

/// Rescaling an exact scaling to a new size gives the exact scaling at
/// the new size.
pub proof fn lemma_rescale_exact(us: Seq<ItemG>, s1: int, s2: int)
    requires
        1 <= s1,
    ensures
        rescale_items(scale_items(us, s1), s2, s1) == scale_items(us, s2),
{
    assert forall|i: int| 0 <= i < us.len() implies rescale_item(
        #[trigger] scale_items(us, s1)[i],
        s2,
        s1,
    ) == scale_item(us[i], s2) by {
        match us[i] {
            ItemG::Word { glyphs, width } => {
                lemma_mul_div_cancel(width, s1, s2);
                assert forall|k: int| 0 <= k < glyphs.len() implies rescale_glyphs(
                    scale_glyphs(glyphs, s1),
                    s2,
                    s1,
                )[k] == scale_glyphs(glyphs, s2)[k] by {
                    lemma_mul_div_cancel(glyphs[k].x, s1, s2);
                }
                assert(rescale_glyphs(scale_glyphs(glyphs, s1), s2, s1) =~= scale_glyphs(
                    glyphs,
                    s2,
                ));
            },
            _ => {},
        }
    }
    assert(rescale_items(scale_items(us, s1), s2, s1) =~= scale_items(us, s2));
}

/// Scaling consistency: for a text and font, splitting at scale `s1` and
/// rescaling every horizontal coordinate by `s2 / s1` reproduces the
/// split at scale `s2` exactly.
pub proof fn lemma_scaling_consistency(text: Seq<char>, f: FontView, s1: int, s2: int)
    requires
        1 <= s1,
    ensures
        rescale_items(scale_items(split_units(text, f), s1), s2, s1) == scale_items(
            split_units(text, f),
            s2,
        ),
{
    lemma_rescale_exact(split_units(text, f), s1, s2);
}

/// Splits text into semantic items (words, tabs, returns), normalizing it
/// first and computing each glyph's kerned offset within its word, at the
/// given font scale.
///
/// One of the most expensive functions, use with care.
pub fn split_text_into_words(text: &str, font: &FontData, font_size: i64) -> (w: Words)
    requires
        wf_font(font@),
        1 <= font_size <= MAX_FONT_SCALE,
        nfc_of(text@).len() <= MAX_TEXT_LEN,
        text_covered(nfc_of(text@), font@),
    ensures
        w@ == scale_items(split_units(nfc_of(text@), font@), font_size as int),
        unit_items_wf(split_units(nfc_of(text@), font@)),
        items_wf(w@),
{
    let normalized: Vec<char> = normalize_nfc(text);
    let ghost norm = normalized@;
    let n = normalized.len();
    let s = font_size;

    let mut words: Vec<SemanticWordItem> = Vec::new();
    let mut glyphs_in_this_word: Vec<GlyphInstance> = Vec::new();
    let mut word_caret: i64 = 0;
    let mut last_glyph: Option<u32> = None;
    let mut i: usize = 0;

    proof {
        assert(words@.map_values(|it: SemanticWordItem| it@) =~= scale_items(
            split_init().items,
            s as int,
        ));
        assert(crate::types::glyphs_view(glyphs_in_this_word@) =~= scale_glyphs(
            split_init().glyphs,
            s as int,
        ));
    }

    while i < n
        invariant
            0 <= i <= n,
            n == norm.len(),
            norm == nfc_of(text@),
            normalized@ == norm,
            n <= MAX_TEXT_LEN,
            wf_font(font@),
            1 <= s <= MAX_FONT_SCALE,
            text_covered(norm, font@),
            words@.map_values(|it: SemanticWordItem| it@) == scale_items(
                split_rec(norm, font@, i as int).items,
                s as int,
            ),
            crate::types::glyphs_view(glyphs_in_this_word@) == scale_glyphs(
                split_rec(norm, font@, i as int).glyphs,
                s as int,
            ),
            word_caret as int == split_rec(norm, font@, i as int).caret,
            last_glyph == split_rec(norm, font@, i as int).last,
        decreases n - i,
    {
        let ghost st = split_rec(norm, font@, i as int);
        let ghost st1 = split_rec(norm, font@, i as int + 1);
        proof {
            lemma_split_state_wf(norm, font@, i as int);
            lemma_split_state_wf(norm, font@, i as int + 1);
            assert(st1 == split_step(st, norm[i as int], font@));
        }
        let c = normalized[i];

        if c == '\t' || c == '\n' || c == ' ' {
            // End of word, plus possibly a marker item
            if glyphs_in_this_word.len() > 0 {
                proof {
                    lemma_mul_le(word_caret as int, s as int, 2 * MAX_FONT_UNIT * (i as int));
                    lemma_scale_items_push(
                        st.items,
                        ItemG::Word { glyphs: st.glyphs, width: st.caret },
                        s as int,
                    );
                }
                let finished = Word { glyphs: glyphs_in_this_word, total_width: word_caret * s };
                words.push(SemanticWordItem::Word(finished));
                glyphs_in_this_word = Vec::new();
                word_caret = 0;
                last_glyph = None;
                proof {
                    assert(crate::types::glyphs_view(glyphs_in_this_word@) =~= scale_glyphs(
                        flush_word(st).glyphs,
                        s as int,
                    ));
                }
            }
            if c == '\t' {
                proof {
                    lemma_scale_items_push(flush_word(st).items, ItemG::Tab, s as int);
                }
                words.push(SemanticWordItem::Tab);
            } else if c == '\n' {
                proof {
                    lemma_scale_items_push(flush_word(st).items, ItemG::Return, s as int);
                }
                words.push(SemanticWordItem::Return);
            }
            proof {
                assert(words@.map_values(|it: SemanticWordItem| it@) =~= scale_items(
                    st1.items,
                    s as int,
                ));
            }
        } else {
            // Regular character
            let m = match font.lookup_char(c) {
                Some(m) => m,
                None => {
                    proof {
                        assert(false);
                    }
                    CharMetric { ch: c, glyph: 0, advance: 0 }
                },
            };
            let k: i64 = match last_glyph {
                Some(l) => font.lookup_kern(l, m.glyph),
                None => 0,
            };
            proof {
                crate::font::lemma_advance_bounds(font@, c);
                match last_glyph {
                    Some(l) => crate::font::lemma_kern_bounds(font@, l, m.glyph),
                    None => {},
                }
                lemma_mul_le(word_caret as int + k as int, s as int, 2 * MAX_FONT_UNIT * (i as int
                    + 1));
            }
            let glyph_x: i64 = (word_caret + k) * s;
            glyphs_in_this_word.push(
                GlyphInstance { index: m.glyph, point: LayoutPoint { x: glyph_x, y: 0 } },
            );
            word_caret = word_caret + k + m.advance;
            last_glyph = Some(m.glyph);
            proof {
                lemma_scale_glyphs_push(
                    st.glyphs,
                    GlyphG { index: m.glyph, x: st.caret + k as int, y: 0 },
                    s as int,
                );
                assert(crate::types::glyphs_view(glyphs_in_this_word@) =~= scale_glyphs(
                    st1.glyphs,
                    s as int,
                ));
            }
        }
        i = i + 1;
    }

    // Push last word
    let ghost stn = split_rec(norm, font@, n as int);
    proof {
        lemma_split_state_wf(norm, font@, n as int);
    }
    if glyphs_in_this_word.len() > 0 {
        proof {
            vstd::arithmetic::mul::lemma_mul_inequality(
                n as int,
                MAX_TEXT_LEN as int,
                2 * MAX_FONT_UNIT,
            );
            vstd::arithmetic::mul::lemma_mul_is_commutative(n as int, 2 * MAX_FONT_UNIT);
            vstd::arithmetic::mul::lemma_mul_is_commutative(MAX_TEXT_LEN as int, 2 * MAX_FONT_UNIT);
            lemma_mul_le(word_caret as int, s as int, 2 * MAX_FONT_UNIT * (n as int));
            lemma_scale_items_push(
                stn.items,
                ItemG::Word { glyphs: stn.glyphs, width: stn.caret },
                s as int,
            );
        }
        let finished = Word { glyphs: glyphs_in_this_word, total_width: word_caret * s };
        words.push(SemanticWordItem::Word(finished));
    }
    proof {
        assert(words@.map_values(|it: SemanticWordItem| it@) =~= scale_items(
            split_units(norm, font@),
            s as int,
        ));
        lemma_split_units_wf(norm, font@);
        lemma_scale_items_wf(split_units(norm, font@), s as int);
    }
    Words(words)
}

/// `|x| <= b` and `1 <= s <= MAX_FONT_SCALE` with `b` at most
/// `MAX_UNIT_COORD` bound the product within `i64` range.
proof fn lemma_mul_le(x: int, s: int, b: int)
    requires
        -b <= x <= b,
        0 <= b <= MAX_UNIT_COORD,
        1 <= s <= MAX_FONT_SCALE,
    ensures
        -MAX_SCALED_COORD <= x * s <= MAX_SCALED_COORD,
{
    assert(-MAX_SCALED_COORD <= x * s <= MAX_SCALED_COORD) by (nonlinear_arith)
        requires
            -b <= x <= b,
            0 <= b <= MAX_UNIT_COORD,
            1 <= s <= MAX_FONT_SCALE,
    ;
}

/// Whether the normalized text fits the splitter's length bound and the
/// font covers every non-separator character of it.
pub fn text_fits(text: &str, font: &FontData) -> (r: bool)
    requires
        wf_font(font@),
    ensures
        r == (nfc_of(text@).len() <= MAX_TEXT_LEN && text_covered(nfc_of(text@), font@)),
{
    let normalized: Vec<char> = normalize_nfc(text);
    let n = normalized.len();
    if n > MAX_TEXT_LEN {
        return false;
    }
    let mut i: usize = 0;
    while i < n
        invariant
            0 <= i <= n,
            n == normalized@.len(),
            normalized@ == nfc_of(text@),
            wf_font(font@),
            forall|j: int|
                0 <= j < i && !is_separator(#[trigger] normalized@[j]) ==> font_covers(
                    font@,
                    normalized@[j],
                ),
        decreases n - i,
    {
        let c = normalized[i];
        if !(c == '\t' || c == '\n' || c == ' ') {
            if font.lookup_char(c).is_none() {
                return false;
            }
        }
        i = i + 1;
    }
    true
}

/// Checks the inputs that `split_text_into_words` assumes — that the
/// normalized text is not over-long and that the font covers every
/// non-separator character — and splits only when they hold.
pub fn try_split_text_into_words(text: &str, font: &FontData, font_size: i64) -> (r: Option<
    Words,
>)
    requires
        wf_font(font@),
        1 <= font_size <= MAX_FONT_SCALE,
    ensures
        match r {
            Some(w) => {
                &&& nfc_of(text@).len() <= MAX_TEXT_LEN
                &&& text_covered(nfc_of(text@), font@)
                &&& w@ == scale_items(split_units(nfc_of(text@), font@), font_size as int)
                &&& items_wf(w@)
            },
            None => nfc_of(text@).len() > MAX_TEXT_LEN || !text_covered(nfc_of(text@), font@),
        },
{
    if text_fits(text, font) {
        Some(split_text_into_words(text, font, font_size))
    } else {
        None
    }
}

} // verus!
