//! Post-hoc alignment of already-positioned glyphs: horizontal alignment
//! shifts each line by a share of its leftover space, vertical alignment
//! shifts the whole block by a share of the vertical slack, and the origin
//! translation moves everything into the caller's absolute space.
//!
//! The bookkeeping invariant the aligners rely on — the last line-break
//! record naming the last glyph — is stated as a precondition and proved
//! of the positioner's output, so it can never fail at run time; zero
//! glyph input is an explicit no-op instead of an out-of-range fault.

use vstd::prelude::*;

use crate::font::FontData;
use crate::layout::breaks_wf;
use crate::layout::glyphs_bounded;
use crate::layout::place_glyph;
use crate::layout::place_glyphs;
use crate::types::glyphs_view;
use crate::types::GlyphG;
use crate::types::GlyphInstance;
use crate::types::LayoutPoint;
use crate::types::OverflowG;
use crate::types::TextAlignmentHorz;
use crate::types::TextAlignmentVert;
use crate::types::TextOverflow;
use crate::types::TextOverflowPass2;
use crate::types::MAX_LAID_COORD;
use crate::types::MAX_LEFTOVER;
use crate::types::MAX_OVERFLOW_AMOUNT;

verus! {

/// Half of a value, rounded toward zero: the integer analogue of
/// multiplying by one half.
pub open spec fn half_toward_zero(x: int) -> int {
    if x >= 0 {
        x / 2
    } else {
        -((-x) / 2)
    }
}

/// The horizontal shift a line's leftover space yields: none for left
/// alignment, half the leftover for centering, all of it for right
/// alignment.
pub open spec fn horz_shift(alignment: TextAlignmentHorz, space: int) -> int {
    match alignment {
        TextAlignmentHorz::Left => 0,
        TextAlignmentHorz::Center => half_toward_zero(space),
        TextAlignmentHorz::Right => space,
    }
}

/// The vertical shift the block's slack yields.
pub open spec fn vert_shift(alignment: TextAlignmentVert, space: int) -> int {
    match alignment {
        TextAlignmentVert::Top => 0,
        TextAlignmentVert::Center => half_toward_zero(space),
        TextAlignmentVert::Bottom => space,
    }
}

/// The first break record at or after `j` whose glyph index is at least
/// `k`: the line that glyph `k` sits on.
pub open spec fn line_of_from(breaks: Seq<(usize, i64)>, k: int, j: int) -> int
    decreases breaks.len() - j,
{
    if j < 0 || j >= breaks.len() {
        j
    } else if k <= breaks[j].0 {
        j
    } else {
        line_of_from(breaks, k, j + 1)
    }
}

pub open spec fn line_of(breaks: Seq<(usize, i64)>, k: int) -> int {
    line_of_from(breaks, k, 0)
}

/// Searching from the start and from `j` agree once every record before
/// `j` is known to lie strictly before glyph `k`.
pub proof fn lemma_line_of_prefix(breaks: Seq<(usize, i64)>, k: int, j: int)
    requires
        0 <= j <= breaks.len(),
        forall|q: int| 0 <= q < j ==> (#[trigger] breaks[q]).0 < k,
    ensures
        line_of_from(breaks, k, 0) == line_of_from(breaks, k, j),
    decreases j,
{
    if j > 0 {
        lemma_line_of_prefix(breaks, k, j - 1);
    }
}

/// Horizontal alignment: each glyph moves right by the shift its line's
/// leftover space yields. Left alignment, zero glyphs or zero break
/// records leave everything unchanged.
pub open spec fn align_horz_spec(
    alignment: TextAlignmentHorz,
    gs: Seq<GlyphG>,
    breaks: Seq<(usize, i64)>,
) -> Seq<GlyphG> {
    if alignment is Left || gs.len() == 0 || breaks.len() == 0 {
        gs
    } else {
        Seq::new(
            gs.len(),
            |k: int|
                GlyphG {
                    index: gs[k].index,
                    x: gs[k].x + horz_shift(alignment, breaks[line_of(breaks, k)].1 as int),
                    y: gs[k].y,
                },
        )
    }
}

/// Vertical alignment: the whole block moves down by the shift the
/// vertical slack yields, and only when the text is in bounds — never
/// when it overflows, since there is no slack to distribute.
pub open spec fn align_vert_spec(
    alignment: TextAlignmentVert,
    gs: Seq<GlyphG>,
    breaks: Seq<(usize, i64)>,
    vertical: OverflowG,
) -> Seq<GlyphG> {
    if alignment is Top || gs.len() == 0 || breaks.len() == 0 {
        gs
    } else {
        match vertical {
            OverflowG::IsOverflowing(_) => gs,
            OverflowG::InBounds(s) => Seq::new(
                gs.len(),
                |k: int|
                    GlyphG {
                        index: gs[k].index,
                        x: gs[k].x,
                        y: gs[k].y + vert_shift(alignment, s),
                    },
            ),
        }
    }
}

/// Bounds on the glyph coordinates, restated over the concrete glyphs.
proof fn lemma_bounded_exec_form(gs: Seq<GlyphInstance>)
    requires
        glyphs_bounded(glyphs_view(gs)),
    ensures
        forall|k: int|
            0 <= k < gs.len() ==> (-(MAX_LAID_COORD + MAX_LEFTOVER) <= (#[trigger] gs[k]).point.x
                <= MAX_LAID_COORD + MAX_LEFTOVER && -MAX_LAID_COORD <= gs[k].point.y
                <= MAX_LAID_COORD),
{
    assert forall|k: int|
        0 <= k < gs.len() implies (-(MAX_LAID_COORD + MAX_LEFTOVER) <= (#[trigger] gs[k]).point.x
        <= MAX_LAID_COORD + MAX_LEFTOVER && -MAX_LAID_COORD <= gs[k].point.y
        <= MAX_LAID_COORD) by {
        assert(glyphs_view(gs)[k] == gs[k]@);
    }
}

/// Aligns text horizontally: a no-op for `Left`; for `Center` and
/// `Right`, walks the glyphs line by line and moves each right by half
/// resp. all of its line's leftover space.
pub fn align_text_horz(
    alignment: TextAlignmentHorz,
    glyphs: &mut Vec<GlyphInstance>,
    line_breaks: &Vec<(usize, i64)>,
    overflow: &TextOverflowPass2,
)
    requires
        breaks_wf(line_breaks@, glyphs_view(old(glyphs)@)),
        glyphs_bounded(glyphs_view(old(glyphs)@)),
    ensures
        glyphs_view(final(glyphs)@) == align_horz_spec(
            alignment,
            glyphs_view(old(glyphs)@),
            line_breaks@,
        ),
        final(glyphs)@.len() == old(glyphs)@.len(),
        alignment is Left ==> final(glyphs)@ == old(glyphs)@,
        forall|k: int|
            0 <= k < final(glyphs)@.len() ==> (-(MAX_LAID_COORD + MAX_LEFTOVER)
                <= (#[trigger] final(glyphs)@[k]).point.x <= MAX_LAID_COORD + MAX_LEFTOVER
                && -MAX_LAID_COORD <= final(glyphs)@[k].point.y <= MAX_LAID_COORD),
{
    if line_breaks.len() == 0 {
        // Nothing was laid out; nothing to align.
        proof {
            lemma_bounded_exec_form(glyphs@);
        }
        return ;
    }
    if glyphs.len() == 0 {
        proof {
            lemma_bounded_exec_form(glyphs@);
        }
        return ;
    }
    match alignment {
        TextAlignmentHorz::Left => {
            proof {
                lemma_bounded_exec_form(glyphs@);
            }
            return ;
        },
        _ => {},
    }

    let n = glyphs.len();
    let nb = line_breaks.len();
    let mut current_line_num: usize = 0;
    let mut gi: usize = 0;
    while gi < n
        invariant
            0 <= gi <= n,
            n == glyphs@.len(),
            n == old(glyphs)@.len(),
            n > 0,
            nb == line_breaks@.len(),
            nb > 0,
            !(alignment is Left),
            breaks_wf(line_breaks@, glyphs_view(old(glyphs)@)),
            glyphs_bounded(glyphs_view(old(glyphs)@)),
            0 <= current_line_num < nb,
            forall|q: int| 0 <= q < current_line_num ==> (#[trigger] line_breaks@[q]).0 < gi,
            forall|q: int|
                gi <= q < n ==> (#[trigger] glyphs@[q]) == old(glyphs)@[q],
            forall|q: int|
                0 <= q < gi ==> (#[trigger] glyphs@[q])@ == align_horz_spec(
                    alignment,
                    glyphs_view(old(glyphs)@),
                    line_breaks@,
                )[q],
            forall|q: int|
                0 <= q < gi ==> (-(MAX_LAID_COORD + MAX_LEFTOVER)
                    <= (#[trigger] glyphs@[q]).point.x <= MAX_LAID_COORD + MAX_LEFTOVER
                    && -MAX_LAID_COORD <= glyphs@[q].point.y <= MAX_LAID_COORD),
        decreases n - gi,
    {
        while gi > line_breaks[current_line_num].0
            invariant
                0 <= gi < n,
                n == old(glyphs)@.len(),
                nb == line_breaks@.len(),
                breaks_wf(line_breaks@, glyphs_view(old(glyphs)@)),
                0 <= current_line_num < nb,
                forall|q: int| 0 <= q < current_line_num ==> (#[trigger] line_breaks@[q]).0 < gi,
            decreases nb - current_line_num,
        {
            proof {
                assert(line_breaks@[nb - 1].0 == n - 1);
                assert(line_breaks@[current_line_num as int].0 < gi <= n - 1);
            }
            current_line_num = current_line_num + 1;
        }
        proof {
            lemma_line_of_prefix(line_breaks@, gi as int, current_line_num as int);
            assert(line_of(line_breaks@, gi as int) == current_line_num as int);
        }
        let space_added_full = line_breaks[current_line_num].1;
        let shift: i64 = match alignment {
            TextAlignmentHorz::Left => {
                proof {
                    assert(false);
                }
                0
            },
            TextAlignmentHorz::Center => {
                if space_added_full >= 0 {
                    space_added_full / 2
                } else {
                    -((-space_added_full) / 2)
                }
            },
            TextAlignmentHorz::Right => space_added_full,
        };
        let g = glyphs[gi];
        proof {
            assert(glyphs_view(old(glyphs)@)[gi as int] == old(glyphs)@[gi as int]@);
        }
        glyphs.set(gi, GlyphInstance {
            index: g.index,
            point: LayoutPoint { x: g.point.x + shift, y: g.point.y },
        });
        gi = gi + 1;
    }
    proof {
        assert(glyphs_view(glyphs@) =~= align_horz_spec(
            alignment,
            glyphs_view(old(glyphs)@),
            line_breaks@,
        ));
    }
}

/// Aligns text vertically: a no-op for `Top`; for `Center` and `Bottom`,
/// shifts the whole glyph block uniformly by half resp. all of the
/// vertical slack — and only when the text is vertically in bounds.
/// The block moves as one unit; lines are not centered individually.
pub fn align_text_vert(
    alignment: TextAlignmentVert,
    glyphs: &mut Vec<GlyphInstance>,
    line_breaks: &Vec<(usize, i64)>,
    overflow: &TextOverflowPass2,
)
    requires
        breaks_wf(line_breaks@, glyphs_view(old(glyphs)@)),
        forall|k: int|
            0 <= k < old(glyphs)@.len() ==> (-(MAX_LAID_COORD + MAX_LEFTOVER)
                <= (#[trigger] old(glyphs)@[k]).point.x <= MAX_LAID_COORD + MAX_LEFTOVER
                && -MAX_LAID_COORD <= old(glyphs)@[k].point.y <= MAX_LAID_COORD),
        match overflow.vertical {
            TextOverflow::IsOverflowing(_) => true,
            TextOverflow::InBounds(s) => -MAX_OVERFLOW_AMOUNT <= s <= MAX_OVERFLOW_AMOUNT,
        },
    ensures
        glyphs_view(final(glyphs)@) == align_vert_spec(
            alignment,
            glyphs_view(old(glyphs)@),
            line_breaks@,
            overflow.vertical@,
        ),
        final(glyphs)@.len() == old(glyphs)@.len(),
        alignment is Top ==> final(glyphs)@ == old(glyphs)@,
        forall|k: int|
            0 <= k < final(glyphs)@.len() ==> (-(MAX_LAID_COORD + MAX_LEFTOVER)
                <= (#[trigger] final(glyphs)@[k]).point.x <= MAX_LAID_COORD + MAX_LEFTOVER
                && -(MAX_LAID_COORD + MAX_OVERFLOW_AMOUNT) <= final(glyphs)@[k].point.y
                <= MAX_LAID_COORD + MAX_OVERFLOW_AMOUNT),
{
    if line_breaks.len() == 0 {
        return ;
    }
    if glyphs.len() == 0 {
        return ;
    }
    match alignment {
        TextAlignmentVert::Top => {
            return ;
        },
        _ => {},
    }
    let space_to_add: i64 = match overflow.vertical {
        TextOverflow::IsOverflowing(_) => {
            return ;
        },
        TextOverflow::InBounds(s) => {
            match alignment {
                TextAlignmentVert::Top => {
                    proof {
                        assert(false);
                    }
                    0
                },
                TextAlignmentVert::Center => {
                    if s >= 0 {
                        s / 2
                    } else {
                        -((-s) / 2)
                    }
                },
                TextAlignmentVert::Bottom => s,
            }
        },
    };

    let n = glyphs.len();
    let ghost shift = space_to_add as int;
    let mut gi: usize = 0;
    while gi < n
        invariant
            0 <= gi <= n,
            n == glyphs@.len(),
            n == old(glyphs)@.len(),
            -MAX_OVERFLOW_AMOUNT <= space_to_add <= MAX_OVERFLOW_AMOUNT,
            shift == space_to_add as int,
            forall|k: int|
                0 <= k < old(glyphs)@.len() ==> (-(MAX_LAID_COORD + MAX_LEFTOVER)
                    <= (#[trigger] old(glyphs)@[k]).point.x <= MAX_LAID_COORD + MAX_LEFTOVER
                    && -MAX_LAID_COORD <= old(glyphs)@[k].point.y <= MAX_LAID_COORD),
            forall|q: int|
                gi <= q < n ==> (#[trigger] glyphs@[q]) == old(glyphs)@[q],
            forall|q: int|
                0 <= q < gi ==> (#[trigger] glyphs@[q]) == (GlyphInstance {
                    index: old(glyphs)@[q].index,
                    point: LayoutPoint {
                        x: old(glyphs)@[q].point.x,
                        y: (old(glyphs)@[q].point.y + space_to_add) as i64,
                    },
                }),
            forall|q: int|
                0 <= q < gi ==> -(MAX_LAID_COORD + MAX_OVERFLOW_AMOUNT)
                    <= (#[trigger] glyphs@[q]).point.y <= MAX_LAID_COORD + MAX_OVERFLOW_AMOUNT,
        decreases n - gi,
    {
        let g = glyphs[gi];
        glyphs.set(gi, GlyphInstance {
            index: g.index,
            point: LayoutPoint { x: g.point.x, y: g.point.y + space_to_add },
        });
        gi = gi + 1;
    }
    proof {
        assert(glyphs_view(glyphs@) =~= align_vert_spec(
            alignment,
            glyphs_view(old(glyphs)@),
            line_breaks@,
            overflow.vertical@,
        ));
    }
}

/// Adds the X and Y offset to each glyph, bringing it from rectangle
/// space into the caller's absolute space. Always the last pipeline step.
pub fn add_origin(positioned_glyphs: &mut Vec<GlyphInstance>, x: i64, y: i64)
    requires
        forall|k: int|
            0 <= k < old(positioned_glyphs)@.len() ==> (-0x7FFF_FFFF_FFFF_FFFF
                <= (#[trigger] old(positioned_glyphs)@[k]).point.x + x <= 0x7FFF_FFFF_FFFF_FFFF
                && -0x7FFF_FFFF_FFFF_FFFF <= old(positioned_glyphs)@[k].point.y + y
                <= 0x7FFF_FFFF_FFFF_FFFF),
    ensures
        glyphs_view(final(positioned_glyphs)@) == place_glyphs(
            glyphs_view(old(positioned_glyphs)@),
            x as int,
            y as int,
        ),
        final(positioned_glyphs)@.len() == old(positioned_glyphs)@.len(),
{
    let n = positioned_glyphs.len();
    let mut gi: usize = 0;
    while gi < n
        invariant
            0 <= gi <= n,
            n == positioned_glyphs@.len(),
            n == old(positioned_glyphs)@.len(),
            forall|k: int|
                0 <= k < old(positioned_glyphs)@.len() ==> (-0x7FFF_FFFF_FFFF_FFFF
                    <= (#[trigger] old(positioned_glyphs)@[k]).point.x + x
                    <= 0x7FFF_FFFF_FFFF_FFFF && -0x7FFF_FFFF_FFFF_FFFF <= old(
                    positioned_glyphs,
                )@[k].point.y + y <= 0x7FFF_FFFF_FFFF_FFFF),
            forall|q: int|
                gi <= q < n ==> (#[trigger] positioned_glyphs@[q]) == old(positioned_glyphs)@[q],
            forall|q: int|
                0 <= q < gi ==> (#[trigger] positioned_glyphs@[q])@ == place_glyph(
                    old(positioned_glyphs)@[q]@,
                    x as int,
                    y as int,
                ),
        decreases n - gi,
    {
        let g = positioned_glyphs[gi];
        positioned_glyphs.set(gi, GlyphInstance {
            index: g.index,
            point: LayoutPoint { x: g.point.x + x, y: g.point.y + y },
        });
        gi = gi + 1;
    }
    proof {
        assert(glyphs_view(positioned_glyphs@) =~= place_glyphs(
            glyphs_view(old(positioned_glyphs)@),
            x as int,
            y as int,
        ));
    }
}

/// Alignment distribution: under center alignment every glyph on a line
/// shifts right by exactly half the line's leftover space, under right
/// alignment by all of it, and no glyph moves vertically.
pub proof fn lemma_alignment_distribution(
    alignment: TextAlignmentHorz,
    gs: Seq<GlyphG>,
    breaks: Seq<(usize, i64)>,
    k: int,
)
    requires
        !(alignment is Left),
        gs.len() > 0,
        breaks.len() > 0,
        0 <= k < gs.len(),
    ensures
        align_horz_spec(alignment, gs, breaks)[k].x == gs[k].x + horz_shift(
            alignment,
            breaks[line_of(breaks, k)].1 as int,
        ),
        align_horz_spec(alignment, gs, breaks)[k].y == gs[k].y,
        alignment is Center ==> align_horz_spec(alignment, gs, breaks)[k].x == gs[k].x
            + half_toward_zero(breaks[line_of(breaks, k)].1 as int),
        alignment is Right ==> align_horz_spec(alignment, gs, breaks)[k].x == gs[k].x + breaks[
            line_of(breaks, k)].1 as int,
{
}

/// Origin round-trip: translating a glyph set by an offset and back
/// reproduces every original position exactly.
pub proof fn lemma_add_origin_round_trip(gs: Seq<GlyphG>, x: int, y: int)
    ensures
        place_glyphs(place_glyphs(gs, x, y), -x, -y) == gs,
{
    assert(place_glyphs(place_glyphs(gs, x, y), -x, -y) =~= gs);
}

/// Placeholder shaping-engine advance correction, in scaled subunits.
#[derive(Debug, Copy, Clone, PartialEq, Eq, Structural)]
pub struct HarfbuzzAdjustment(pub i64);

/// Placeholder paragraph-level break correction, in scaled subunits.
#[derive(Debug, Copy, Clone, PartialEq, Eq, Structural)]
pub struct KnuthPlassAdjustment(pub i64);

/// Extension point for shaping-engine advance correction; deliberately
/// computes nothing today.
pub fn calculate_harfbuzz_adjustments(text: &str, font: &FontData) -> (r: Vec<HarfbuzzAdjustment>)
    ensures
        r@.len() == 0,
{
    Vec::new()
}

/// Extension point that would apply shaping-engine corrections;
/// deliberately leaves the glyphs unchanged today.
pub fn apply_harfbuzz_adjustments(
    positioned_glyphs: &mut Vec<GlyphInstance>,
    harfbuzz_adjustments: Vec<HarfbuzzAdjustment>,
)
    ensures
        final(positioned_glyphs)@ == old(positioned_glyphs)@,
{
}

/// Extension point for paragraph-level break optimization; deliberately
/// computes nothing today.
pub fn calculate_knuth_plass_adjustments(
    positioned_glyphs: &Vec<GlyphInstance>,
    line_breaks: &Vec<(usize, i64)>,
) -> (r: Vec<KnuthPlassAdjustment>)
    ensures
        r@.len() == 0,
{
    Vec::new()
}

/// Extension point that would apply paragraph-level break corrections;
/// deliberately leaves the glyphs unchanged today.
pub fn apply_knuth_plass_adjustments(
    positioned_glyphs: &mut Vec<GlyphInstance>,
    knuth_plass_adjustments: Vec<KnuthPlassAdjustment>,
)
    ensures
        final(positioned_glyphs)@ == old(positioned_glyphs)@,
{
}

} // verus!
