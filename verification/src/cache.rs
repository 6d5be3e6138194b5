//! The word cache: memoizes split results keyed by text identity, font
//! identity and font size, and serves a new size of an already-seen font
//! by exactly rescaling an existing entry instead of re-splitting.

use vstd::prelude::*;

use crate::font::wf_font;
use crate::font::FontData;
use crate::normalize::nfc_of;
use crate::normalize::normalize_nfc;
use crate::split::is_separator;
use crate::split::lemma_rescale_exact;
use crate::split::lemma_scale_items_wf;
use crate::split::rescale_glyph;
use crate::split::rescale_item;
use crate::split::rescale_items;
use crate::split::scale_items;
use crate::split::split_text_into_words;
use crate::split::split_units;
use crate::split::text_covered;
use crate::split::unit_items_wf;
use crate::types::items_wf;
use crate::types::FontId;
use crate::types::GlyphInstance;
use crate::types::ItemG;
use crate::types::SemanticWordItem;
use crate::types::TextId;
use crate::types::Word;
use crate::types::Words;
use crate::types::MAX_FONT_SCALE;
use crate::types::MAX_TEXT_LEN;
use crate::types::MAX_UNIT_COORD;

verus! {

/// One cached split: the words computed for a (text, font, size) key.
/// Entries are immutable once inserted and never evicted.
pub struct CacheEntry {
    pub text_id: TextId,
    pub font_id: FontId,
    pub font_size: i64,
    pub words: Words,
}

/// The text cache: the registered strings and the cached splits.
/// It is owned by the caller's session and passed by mutable reference
/// into every layout call, never kept as process-wide state.
pub struct TextCache {
    pub strings: Vec<(TextId, String)>,
    pub entries: Vec<CacheEntry>,
    pub next_id: u64,
}

/// Mathematical model of one cached split.
pub struct EntryG {
    pub text_id: TextId,
    pub font_id: FontId,
    pub size: int,
    pub items: Seq<ItemG>,
}

/// Mathematical model of the cache.
pub struct CacheG {
    pub strings: Seq<(TextId, Seq<char>)>,
    pub entries: Seq<EntryG>,
    pub next_id: u64,
}

pub open spec fn entry_view(e: CacheEntry) -> EntryG {
    EntryG { text_id: e.text_id, font_id: e.font_id, size: e.font_size as int, items: e.words@ }
}

pub open spec fn entries_view(v: Seq<CacheEntry>) -> Seq<EntryG> {
    Seq::new(v.len(), |i: int| entry_view(v[i]))
}

pub open spec fn strings_view(v: Seq<(TextId, String)>) -> Seq<(TextId, Seq<char>)> {
    Seq::new(v.len(), |i: int| (v[i].0, v[i].1@))
}

impl View for TextCache {
    type V = CacheG;

    open spec fn view(&self) -> CacheG {
        CacheG {
            strings: strings_view(self.strings@),
            entries: entries_view(self.entries@),
            next_id: self.next_id,
        }
    }
}

/// Index of the first registered string for `id` at or after `i`, or -1.
pub open spec fn find_string(ss: Seq<(TextId, Seq<char>)>, id: TextId, i: int) -> int
    decreases ss.len() - i,
{
    if i < 0 || i >= ss.len() {
        -1
    } else if ss[i].0 == id {
        i
    } else {
        find_string(ss, id, i + 1)
    }
}

/// Whether a text with this identity is registered.
pub open spec fn has_string(c: CacheG, id: TextId) -> bool {
    find_string(c.strings, id, 0) >= 0
}

/// The registered text for this identity.
pub open spec fn string_of(c: CacheG, id: TextId) -> Seq<char> {
    c.strings[find_string(c.strings, id, 0)].1
}

/// Index of the first entry with exactly this key, or -1.
pub open spec fn find_entry(es: Seq<EntryG>, tid: TextId, fid: FontId, size: int, i: int) -> int
    decreases es.len() - i,
{
    if i < 0 || i >= es.len() {
        -1
    } else if es[i].text_id == tid && es[i].font_id == fid && es[i].size == size {
        i
    } else {
        find_entry(es, tid, fid, size, i + 1)
    }
}

/// Index of the first entry for this text and font at any size, or -1.
pub open spec fn find_font_entry(es: Seq<EntryG>, tid: TextId, fid: FontId, i: int) -> int
    decreases es.len() - i,
{
    if i < 0 || i >= es.len() {
        -1
    } else if es[i].text_id == tid && es[i].font_id == fid {
        i
    } else {
        find_font_entry(es, tid, fid, i + 1)
    }
}

/// Every entry is an exact scaling of a well-formed unit split by its own
/// size; that makes serving another size an exact division-free rescale.
pub open spec fn entry_wf(e: EntryG) -> bool {
    &&& 1 <= e.size <= MAX_FONT_SCALE
    &&& items_wf(e.items)
    &&& exists|u: Seq<ItemG>| unit_items_wf(u) && e.items == scale_items(u, e.size)
}

/// The cache invariant: every entry well-formed, every registered id
/// below the next one to be handed out.
pub open spec fn wf_cache(c: CacheG) -> bool {
    &&& forall|i: int| 0 <= i < c.entries.len() ==> entry_wf(#[trigger] c.entries[i])
    &&& forall|i: int| 0 <= i < c.strings.len() ==> (#[trigger] c.strings[i]).0.id < c.next_id
}

/// The unit bounds of one word item, instantiated for a given glyph.
proof fn lemma_unit_glyph_bound(u: Seq<ItemG>, i: int, gs: Seq<crate::types::GlyphG>, w: int, k: int)
    requires
        unit_items_wf(u),
        0 <= i < u.len(),
        u[i] == (ItemG::Word { glyphs: gs, width: w }),
        0 <= k < gs.len(),
    ensures
        -MAX_UNIT_COORD <= gs[k].x <= MAX_UNIT_COORD,
        gs[k].y == 0,
        -MAX_UNIT_COORD <= w <= MAX_UNIT_COORD,
{
    match u[i] {
        ItemG::Word { glyphs, width } => {
            assert(gs == glyphs);
            assert(-MAX_UNIT_COORD <= glyphs[k].x <= MAX_UNIT_COORD && glyphs[k].y == 0);
            assert(-MAX_UNIT_COORD <= width <= MAX_UNIT_COORD);
        },
        _ => {
            assert(false);
        },
    }
}

/// An exact element-wise copy of a glyph vector.
fn copy_glyphs(v: &Vec<GlyphInstance>) -> (r: Vec<GlyphInstance>)
    ensures
        r@ == v@,
{
    let mut r: Vec<GlyphInstance> = Vec::new();
    let n = v.len();
    let mut i: usize = 0;
    while i < n
        invariant
            0 <= i <= n,
            n == v@.len(),
            r@ == v@.take(i as int),
        decreases n - i,
    {
        r.push(v[i]);
        proof {
            assert(r@ =~= v@.take(i as int + 1));
        }
        i = i + 1;
    }
    proof {
        assert(v@.take(n as int) =~= v@);
    }
    r
}

/// An exact copy of a word list.
fn copy_words(w: &Words) -> (r: Words)
    ensures
        r@ == w@,
{
    let mut out: Vec<SemanticWordItem> = Vec::new();
    let n = w.0.len();
    let mut i: usize = 0;
    while i < n
        invariant
            0 <= i <= n,
            n == w.0@.len(),
            out@.len() == i,
            forall|j: int| 0 <= j < i ==> (#[trigger] out@[j])@ == w.0@[j]@,
        decreases n - i,
    {
        let copied = match &w.0[i] {
            SemanticWordItem::Word(word) => SemanticWordItem::Word(
                Word { glyphs: copy_glyphs(&word.glyphs), total_width: word.total_width },
            ),
            SemanticWordItem::Tab => SemanticWordItem::Tab,
            SemanticWordItem::Return => SemanticWordItem::Return,
        };
        out.push(copied);
        i = i + 1;
    }
    let r = Words(out);
    proof {
        assert(r@ =~= w@);
    }
    r
}

/// Exactly divides a coordinate known to be a multiple of `old_size` and
/// multiplies it by `new_size`: the integer value of `x * new / old`.
fn scale_coord(x: i64, new_size: i64, old_size: i64, Ghost(u0): Ghost<int>) -> (r: i64)
    requires
        1 <= old_size <= MAX_FONT_SCALE,
        1 <= new_size <= MAX_FONT_SCALE,
        -MAX_UNIT_COORD <= u0 <= MAX_UNIT_COORD,
        x as int == u0 * old_size,
    ensures
        r as int == x as int * (new_size as int) / (old_size as int),
        r as int == u0 * (new_size as int),
{
    proof {
        crate::split::lemma_mul_div_cancel(u0, old_size as int, new_size as int);
        assert(u0 >= 0 ==> x >= 0) by (nonlinear_arith)
            requires
                x as int == u0 * old_size,
                old_size >= 1,
        ;
        assert(u0 < 0 ==> x < 0) by (nonlinear_arith)
            requires
                x as int == u0 * old_size,
                old_size >= 1,
        ;
        vstd::arithmetic::div_mod::lemma_div_multiples_vanish(u0, old_size as int);
        vstd::arithmetic::mul::lemma_mul_is_commutative(u0, old_size as int);
        vstd::arithmetic::div_mod::lemma_div_multiples_vanish(-u0, old_size as int);
        vstd::arithmetic::mul::lemma_mul_is_commutative(-u0, old_size as int);
        assert((-u0) * old_size == -(u0 * old_size)) by (nonlinear_arith);
        assert(-MAX_UNIT_COORD * MAX_FONT_SCALE <= u0 * new_size <= MAX_UNIT_COORD
            * MAX_FONT_SCALE) by (nonlinear_arith)
            requires
                -0x100_0000_0000 <= u0 <= 0x100_0000_0000,
                1 <= new_size <= 0x1_0000,
        ;
    }
    proof {
        assert(-0x100_0000_0000_0000 <= u0 * old_size <= 0x100_0000_0000_0000)
            by (nonlinear_arith)
            requires
                -0x100_0000_0000 <= u0 <= 0x100_0000_0000,
                1 <= old_size <= 0x1_0000,
        ;
    }
    let q: i64 = if x >= 0 {
        x / old_size
    } else {
        -((-x) / old_size)
    };
    proof {
        assert(q as int == u0);
    }
    q * new_size
}

/// Scales the horizontal width of the words to match a new font size.
/// Since each word has a local origin, only each glyph's X position and
/// each word's total width change, by the exact ratio of the sizes.
pub fn scale_words(words: &mut Words, new_size: i64, old_size: i64)
    requires
        1 <= old_size <= MAX_FONT_SCALE,
        1 <= new_size <= MAX_FONT_SCALE,
        exists|u: Seq<ItemG>|
            unit_items_wf(u) && old(words)@ == scale_items(u, old_size as int),
    ensures
        final(words)@ == rescale_items(old(words)@, new_size as int, old_size as int),
        items_wf(final(words)@),
        exists|u: Seq<ItemG>|
            unit_items_wf(u) && final(words)@ == scale_items(u, new_size as int),
{
    let ghost u = choose|u: Seq<ItemG>|
        unit_items_wf(u) && old(words)@ == scale_items(u, old_size as int);
    let ghost olditems = words@;
    let mut out: Vec<SemanticWordItem> = Vec::new();
    let n = words.0.len();
    let mut i: usize = 0;
    while i < n
        invariant
            0 <= i <= n,
            n == words.0@.len(),
            words@ == olditems,
            olditems == scale_items(u, old_size as int),
            unit_items_wf(u),
            1 <= old_size <= MAX_FONT_SCALE,
            1 <= new_size <= MAX_FONT_SCALE,
            out@.len() == i,
            forall|j: int|
                0 <= j < i ==> (#[trigger] out@[j])@ == rescale_item(
                    olditems[j],
                    new_size as int,
                    old_size as int,
                ),
        decreases n - i,
    {
        proof {
            assert(olditems.len() == u.len());
            assert(olditems[i as int] == words.0@[i as int]@);
            assert(scale_items(u, old_size as int)[i as int] == crate::split::scale_item(
                u[i as int],
                old_size as int,
            ));
            assert(olditems[i as int] == crate::split::scale_item(u[i as int], old_size as int));
        }
        let scaled = match &words.0[i] {
            SemanticWordItem::Word(word) => {
                let ghost uw = match u[i as int] {
                    ItemG::Word { glyphs, width } => (glyphs, width),
                    _ => (Seq::empty(), 0int),
                };
                let mut glyphs: Vec<GlyphInstance> = Vec::new();
                let m = word.glyphs.len();
                let mut k: usize = 0;
                while k < m
                    invariant
                        0 <= k <= m,
                        m == word.glyphs@.len(),
                        crate::types::glyphs_view(word.glyphs@) == crate::split::scale_glyphs(
                            uw.0,
                            old_size as int,
                        ),
                        unit_items_wf(u),
                        0 <= i < u.len(),
                        u[i as int] == (ItemG::Word { glyphs: uw.0, width: uw.1 }),
                        1 <= old_size <= MAX_FONT_SCALE,
                        1 <= new_size <= MAX_FONT_SCALE,
                        glyphs@.len() == k,
                        forall|q: int|
                            0 <= q < k ==> (#[trigger] glyphs@[q])@ == rescale_glyph(
                                crate::types::glyphs_view(word.glyphs@)[q],
                                new_size as int,
                                old_size as int,
                            ),
                    decreases m - k,
                {
                    let g = word.glyphs[k];
                    proof {
                        assert(crate::types::glyphs_view(word.glyphs@).len() == m);
                        assert(crate::split::scale_glyphs(uw.0, old_size as int).len()
                            == uw.0.len());
                        assert(uw.0.len() == m);
                        lemma_unit_glyph_bound(u, i as int, uw.0, uw.1, k as int);
                        assert(crate::types::glyphs_view(word.glyphs@)[k as int] == g@);
                        assert(crate::split::scale_glyphs(uw.0, old_size as int)[k as int]
                            == crate::split::scale_glyph(uw.0[k as int], old_size as int));
                        assert(-MAX_UNIT_COORD <= uw.0[k as int].x <= MAX_UNIT_COORD);
                    }
                    let nx = scale_coord(
                        g.point.x,
                        new_size,
                        old_size,
                        Ghost(uw.0[k as int].x),
                    );
                    glyphs.push(
                        GlyphInstance {
                            index: g.index,
                            point: crate::types::LayoutPoint { x: nx, y: g.point.y },
                        },
                    );
                    k = k + 1;
                }
                let nw = scale_coord(word.total_width, new_size, old_size, Ghost(uw.1));
                proof {
                    assert(crate::types::glyphs_view(glyphs@) =~= crate::split::rescale_glyphs(
                        crate::types::glyphs_view(word.glyphs@),
                        new_size as int,
                        old_size as int,
                    ));
                }
                SemanticWordItem::Word(Word { glyphs, total_width: nw })
            },
            SemanticWordItem::Tab => SemanticWordItem::Tab,
            SemanticWordItem::Return => SemanticWordItem::Return,
        };
        out.push(scaled);
        i = i + 1;
    }
    words.0 = out;
    proof {
        assert(words@ =~= rescale_items(olditems, new_size as int, old_size as int));
        lemma_rescale_exact(u, old_size as int, new_size as int);
        lemma_scale_items_wf(u, new_size as int);
        assert(unit_items_wf(u) && words@ == scale_items(u, new_size as int));
    }
}

impl TextCache {
    /// An empty cache.
    pub fn new() -> (r: TextCache)
        ensures
            wf_cache(r@),
            r@.strings.len() == 0,
            r@.entries.len() == 0,
    {
        TextCache { strings: Vec::new(), entries: Vec::new(), next_id: 0 }
    }

    /// Registers a text and hands out its fresh identity.
    pub fn add_text(&mut self, text: String) -> (id: TextId)
        requires
            wf_cache(old(self)@),
            old(self)@.next_id < 0xFFFF_FFFF_FFFF_FFFF,
        ensures
            wf_cache(final(self)@),
            !has_string(old(self)@, id),
            has_string(final(self)@, id),
            string_of(final(self)@, id) == text@,
            final(self)@.entries == old(self)@.entries,
            final(self)@.strings.len() == old(self)@.strings.len() + 1,
    {
        let id = TextId { id: self.next_id };
        proof {
            lemma_find_string_misses(old(self)@.strings, id, 0);
        }
        self.strings.push((id, text));
        self.next_id = self.next_id + 1;
        proof {
            assert(final(self)@.strings =~= old(self)@.strings.push((id, text@)));
            assert(final(self)@.entries =~= old(self)@.entries);
            lemma_find_string_hits(final(self)@.strings, id, 0);
        }
        id
    }

    /// The registered text for an identity, if any.
    pub fn get_text(&self, text_id: &TextId) -> (r: Option<&String>)
        ensures
            match r {
                Some(s) => has_string(self@, *text_id) && s@ == string_of(self@, *text_id),
                None => !has_string(self@, *text_id),
            },
    {
        let n = self.strings.len();
        let mut i: usize = 0;
        while i < n
            invariant
                0 <= i <= n,
                n == self.strings@.len(),
                find_string(self@.strings, *text_id, 0) == find_string(
                    self@.strings,
                    *text_id,
                    i as int,
                ),
            decreases n - i,
        {
            proof {
                assert(self@.strings[i as int] == (self.strings@[i as int].0, self.strings@[
                    i as int].1@));
            }
            if self.strings[i].0.id == text_id.id {
                return Some(&self.strings[i].1);
            }
            i = i + 1;
        }
        None
    }
}

/// Looks the exact (text, font, size) key up; the first entry wins.
fn lookup_entry(c: &TextCache, tid: &TextId, fid: &FontId, size: i64) -> (r: Option<usize>)
    ensures
        match r {
            Some(i) => {
                &&& 0 <= i < c@.entries.len()
                &&& i as int == find_entry(c@.entries, *tid, *fid, size as int, 0)
                &&& c@.entries[i as int].text_id == *tid
                &&& c@.entries[i as int].font_id == *fid
                &&& c@.entries[i as int].size == size as int
            },
            None => find_entry(c@.entries, *tid, *fid, size as int, 0) == -1,
        },
{
    let n = c.entries.len();
    let mut i: usize = 0;
    while i < n
        invariant
            0 <= i <= n,
            n == c.entries@.len(),
            find_entry(c@.entries, *tid, *fid, size as int, 0) == find_entry(
                c@.entries,
                *tid,
                *fid,
                size as int,
                i as int,
            ),
        decreases n - i,
    {
        proof {
            assert(c@.entries[i as int] == entry_view(c.entries@[i as int]));
        }
        let e = &c.entries[i];
        if e.text_id.id == tid.id && e.font_id.id == fid.id && e.font_size == size {
            return Some(i);
        }
        i = i + 1;
    }
    None
}

/// Looks the first entry for a text and font at any size up.
fn lookup_font_entry(c: &TextCache, tid: &TextId, fid: &FontId) -> (r: Option<usize>)
    ensures
        match r {
            Some(i) => {
                &&& 0 <= i < c@.entries.len()
                &&& i as int == find_font_entry(c@.entries, *tid, *fid, 0)
                &&& c@.entries[i as int].text_id == *tid
                &&& c@.entries[i as int].font_id == *fid
            },
            None => find_font_entry(c@.entries, *tid, *fid, 0) == -1,
        },
{
    let n = c.entries.len();
    let mut i: usize = 0;
    while i < n
        invariant
            0 <= i <= n,
            n == c.entries@.len(),
            find_font_entry(c@.entries, *tid, *fid, 0) == find_font_entry(
                c@.entries,
                *tid,
                *fid,
                i as int,
            ),
        decreases n - i,
    {
        proof {
            assert(c@.entries[i as int] == entry_view(c.entries@[i as int]));
        }
        let e = &c.entries[i];
        if e.text_id.id == tid.id && e.font_id.id == fid.id {
            return Some(i);
        }
        i = i + 1;
    }
    None
}

/// What `get_words_cached` returns and leaves in the cache: an exact hit
/// is served as it is; a first sighting of the font is split afresh; a
/// known font at a new size is served by exactly rescaling the first
/// entry found for it. In the latter two cases the result is also
/// inserted, and nothing is ever evicted or overwritten.
pub open spec fn cached_words_post(
    c0: CacheG,
    c1: CacheG,
    tid: TextId,
    fid: FontId,
    size: int,
    f: crate::font::FontView,
    w: Seq<ItemG>,
) -> bool {
    let hit = find_entry(c0.entries, tid, fid, size, 0);
    let fhit = find_font_entry(c0.entries, tid, fid, 0);
    if hit >= 0 {
        &&& w == c0.entries[hit].items
        &&& c1 == c0
    } else if fhit < 0 {
        &&& w == scale_items(split_units(nfc_of(string_of(c0, tid)), f), size)
        &&& c1.entries == c0.entries.push(
            EntryG { text_id: tid, font_id: fid, size, items: w },
        )
    } else {
        &&& w == rescale_items(c0.entries[fhit].items, size, c0.entries[fhit].size)
        &&& c1.entries == c0.entries.push(
            EntryG { text_id: tid, font_id: fid, size, items: w },
        )
    }
}

/// The words `get_words_cached` returns, as a function of the cache
/// state and the key.
pub open spec fn cached_words_result(
    c0: CacheG,
    tid: TextId,
    fid: FontId,
    size: int,
    f: crate::font::FontView,
) -> Seq<ItemG> {
    let hit = find_entry(c0.entries, tid, fid, size, 0);
    let fhit = find_font_entry(c0.entries, tid, fid, 0);
    if hit >= 0 {
        c0.entries[hit].items
    } else if fhit < 0 {
        scale_items(split_units(nfc_of(string_of(c0, tid)), f), size)
    } else {
        rescale_items(c0.entries[fhit].items, size, c0.entries[fhit].size)
    }
}

/// Returns the cached words for this (text, font, size) key, computing
/// or rescaling and inserting them first when the key is new.
pub fn get_words_cached(
    text_id: &TextId,
    font: &FontData,
    font_id: &FontId,
    font_size: i64,
    text_cache: &mut TextCache,
) -> (w: Words)
    requires
        wf_cache(old(text_cache)@),
        wf_font(font@),
        1 <= font_size <= MAX_FONT_SCALE,
        has_string(old(text_cache)@, *text_id),
        nfc_of(string_of(old(text_cache)@, *text_id)).len() <= MAX_TEXT_LEN,
        text_covered(nfc_of(string_of(old(text_cache)@, *text_id)), font@),
    ensures
        wf_cache(final(text_cache)@),
        final(text_cache)@.strings == old(text_cache)@.strings,
        final(text_cache)@.next_id == old(text_cache)@.next_id,
        items_wf(w@),
        cached_words_post(
            old(text_cache)@,
            final(text_cache)@,
            *text_id,
            *font_id,
            font_size as int,
            font@,
            w@,
        ),
{
    let ghost c0 = text_cache@;

    if let Some(i) = lookup_entry(text_cache, text_id, font_id, font_size) {
        proof {
            assert(entry_wf(c0.entries[i as int]));
        }
        return copy_words(&text_cache.entries[i].words);
    }

    match lookup_font_entry(text_cache, text_id, font_id) {
        None => {
            // First time this font is seen for this text: split afresh.
            let s = text_cache.get_text(text_id).unwrap();
            let words = split_text_into_words(s.as_str(), font, font_size);
            let stored = copy_words(&words);
            let ghost new_entry = EntryG {
                text_id: *text_id,
                font_id: *font_id,
                size: font_size as int,
                items: words@,
            };
            text_cache.entries.push(
                CacheEntry { text_id: *text_id, font_id: *font_id, font_size, words: stored },
            );
            proof {
                assert(text_cache@.entries =~= c0.entries.push(new_entry));
                assert(text_cache@.strings =~= c0.strings);
                lemma_wf_after_push(c0, text_cache@, new_entry);
            }
            words
        },
        Some(j) => {
            // Known font at another size: rescale the first entry found.
            let old_size = text_cache.entries[j].font_size;
            proof {
                assert(c0.entries[j as int] == entry_view(text_cache.entries@[j as int]));
                assert(entry_wf(c0.entries[j as int]));
            }
            let mut words_cloned = copy_words(&text_cache.entries[j].words);
            scale_words(&mut words_cloned, font_size, old_size);
            let stored = copy_words(&words_cloned);
            let ghost new_entry = EntryG {
                text_id: *text_id,
                font_id: *font_id,
                size: font_size as int,
                items: words_cloned@,
            };
            text_cache.entries.push(
                CacheEntry { text_id: *text_id, font_id: *font_id, font_size, words: stored },
            );
            proof {
                assert(text_cache@.entries =~= c0.entries.push(new_entry));
                assert(text_cache@.strings =~= c0.strings);
                lemma_wf_after_push(c0, text_cache@, new_entry);
            }
            words_cloned
        },
    }
}

/// Pushing a well-formed entry keeps the cache well-formed.
proof fn lemma_wf_after_push(c0: CacheG, c1: CacheG, e: EntryG)
    requires
        wf_cache(c0),
        entry_wf(e),
        c1.entries == c0.entries.push(e),
        c1.strings == c0.strings,
        c1.next_id == c0.next_id,
    ensures
        wf_cache(c1),
{
    assert forall|i: int| 0 <= i < c1.entries.len() implies entry_wf(#[trigger] c1.entries[i]) by {
        if i < c0.entries.len() {
            assert(c1.entries[i] == c0.entries[i]);
        } else {
            assert(c1.entries[i] == e);
        }
    }
}

/// Checks whether the registered text for this identity exists, fits the
/// splitter's length bound after normalization, and is fully covered by
/// the font.
pub fn text_ready(cache: &TextCache, text_id: &TextId, font: &FontData) -> (r: bool)
    requires
        wf_font(font@),
    ensures
        r == (has_string(cache@, *text_id) && nfc_of(string_of(cache@, *text_id)).len()
            <= MAX_TEXT_LEN && text_covered(nfc_of(string_of(cache@, *text_id)), font@)),
{
    match cache.get_text(text_id) {
        None => false,
        Some(s) => {
            let normalized: Vec<char> = normalize_nfc(s.as_str());
            let n = normalized.len();
            if n > MAX_TEXT_LEN {
                return false;
            }
            let mut i: usize = 0;
            while i < n
                invariant
                    0 <= i <= n,
                    n == normalized@.len(),
                    normalized@ == nfc_of(string_of(cache@, *text_id)),
                    wf_font(font@),
                    forall|j: int|
                        0 <= j < i && !is_separator(#[trigger] normalized@[j]) ==>
                            crate::font::font_covers(font@, normalized@[j]),
                decreases n - i,
            {
                let ch = normalized[i];
                if !(ch == '\t' || ch == '\n' || ch == ' ') {
                    if font.lookup_char(ch).is_none() {
                        return false;
                    }
                }
                i = i + 1;
            }
            true
        },
    }
}

/// Checks the inputs that `get_words_cached` assumes — a registered,
/// normalizable, fully covered text — and serves from the cache only
/// when they hold.
pub fn try_get_words_cached(
    text_id: &TextId,
    font: &FontData,
    font_id: &FontId,
    font_size: i64,
    text_cache: &mut TextCache,
) -> (r: Option<Words>)
    requires
        wf_cache(old(text_cache)@),
        wf_font(font@),
        1 <= font_size <= MAX_FONT_SCALE,
    ensures
        match r {
            Some(w) => {
                &&& wf_cache(final(text_cache)@)
                &&& final(text_cache)@.strings == old(text_cache)@.strings
                &&& items_wf(w@)
                &&& cached_words_post(
                    old(text_cache)@,
                    final(text_cache)@,
                    *text_id,
                    *font_id,
                    font_size as int,
                    font@,
                    w@,
                )
            },
            None => {
                &&& *final(text_cache) == *old(text_cache)
                &&& (!has_string(old(text_cache)@, *text_id) || nfc_of(
                    string_of(old(text_cache)@, *text_id),
                ).len() > MAX_TEXT_LEN || !text_covered(
                    nfc_of(string_of(old(text_cache)@, *text_id)),
                    font@,
                ))
            },
        },
{
    if text_ready(text_cache, text_id, font) {
        Some(get_words_cached(text_id, font, font_id, font_size, text_cache))
    } else {
        None
    }
}

/// No identity at or past `next_id` is registered in a well-formed cache.
proof fn lemma_find_string_misses(ss: Seq<(TextId, Seq<char>)>, id: TextId, i: int)
    requires
        forall|j: int| 0 <= j < ss.len() ==> (#[trigger] ss[j]).0 != id,
        0 <= i,
    ensures
        find_string(ss, id, i) == -1,
    decreases ss.len() - i,
{
    if i < ss.len() {
        lemma_find_string_misses(ss, id, i + 1);
    }
}

/// A search over a list ending in the looked-for id succeeds.
proof fn lemma_find_string_hits(ss: Seq<(TextId, Seq<char>)>, id: TextId, i: int)
    requires
        0 <= i < ss.len(),
        ss[ss.len() - 1].0 == id,
    ensures
        0 <= find_string(ss, id, i) < ss.len(),
        ss[find_string(ss, id, i)].0 == id,
    decreases ss.len() - i,
{
    if i < ss.len() - 1 && ss[i].0 != id {
        lemma_find_string_hits(ss, id, i + 1);
    }
}

} // verus!
