//! Text: which glyphs of a laid-out line are drawn, which must be
//! rasterised first, and how a line is cut to fit a width.

use vstd::prelude::*;
use crate::atlas::AtlasRegion;
use crate::batch::indices_within;
use crate::fixed::{exceeds, is_beyond, logical_of, offset, offset_by, to_logical, Fixed};
use crate::geometry::{make_vertex, vertex_at, Color, Vertex};
use crate::glyphs::{bottom_edge, right_edge, Glyph, GlyphCache, GlyphKey};

verus! {

/// The number of glyphs before the first one that is `beyond`.
pub open spec fn count_within(glyphs: Seq<Glyph>, beyond: spec_fn(Glyph) -> bool) -> nat
    decreases glyphs.len(),
{
    if glyphs.len() == 0 || beyond(glyphs[0]) {
        0
    } else {
        1 + count_within(glyphs.drop_first(), beyond)
    }
}

/// `count_within` is the one index at which a glyph is `beyond` while none
/// before it is, or the length where no glyph is.
pub proof fn lemma_count_within(glyphs: Seq<Glyph>, beyond: spec_fn(Glyph) -> bool, n: nat)
    requires
        n <= glyphs.len(),
        forall|i: int| 0 <= i < n ==> !beyond(#[trigger] glyphs[i]),
        n == glyphs.len() || beyond(glyphs[n as int]),
    ensures
        count_within(glyphs, beyond) == n,
    decreases n,
{
    if n > 0 {
        let rest = glyphs.drop_first();
        assert(!beyond(glyphs[0]));
        assert forall|i: int| 0 <= i < n - 1 implies !beyond(#[trigger] rest[i]) by {
            assert(rest[i] == glyphs[i + 1]);
        }
        if n < glyphs.len() {
            assert(rest[n - 1] == glyphs[n as int]);
        }
        lemma_count_within(rest, beyond, (n - 1) as nat);
    }
}

/// `count_within` is at most the length, no glyph before it is `beyond`,
/// and the glyph at it, if there is one, is.
pub proof fn lemma_count_within_bounds(glyphs: Seq<Glyph>, beyond: spec_fn(Glyph) -> bool)
    ensures
        count_within(glyphs, beyond) <= glyphs.len(),
        forall|i: int| 0 <= i < count_within(glyphs, beyond) ==> !beyond(#[trigger] glyphs[i]),
        count_within(glyphs, beyond) < glyphs.len() ==> beyond(
            glyphs[count_within(glyphs, beyond) as int],
        ),
    decreases glyphs.len(),
{
    if glyphs.len() == 0 || beyond(glyphs[0]) {
    } else {
        let rest = glyphs.drop_first();
        lemma_count_within_bounds(rest, beyond);
        let n = count_within(glyphs, beyond);
        assert forall|i: int| 0 <= i < n implies !beyond(#[trigger] glyphs[i]) by {
            if i > 0 {
                assert(rest[i - 1] == glyphs[i]);
            }
        }
        if n < glyphs.len() {
            assert(rest[n - 1] == glyphs[n as int]);
        }
    }
}

/// Whether the bottom edge of `glyph` lies below the logical height `limit`.
pub open spec fn below(limit: int, scale: int) -> spec_fn(Glyph) -> bool {
    |glyph: Glyph| exceeds(bottom_edge(glyph), limit, scale)
}

/// Whether the right edge of `glyph` lies right of the logical width `limit`.
pub open spec fn right_of(limit: int, scale: int) -> spec_fn(Glyph) -> bool {
    |glyph: Glyph| exceeds(right_edge(glyph), limit, scale)
}

/// The glyphs that are drawn: all of them where no height is set, else
/// those before the first one whose bottom edge lies below the height.
pub open spec fn visible(glyphs: Seq<Glyph>, max_height: Option<Fixed>, scale: int) -> Seq<Glyph> {
    match max_height {
        Some(limit) => glyphs.take(count_within(glyphs, below(limit as int, scale)) as int),
        None => glyphs,
    }
}

/// Counts the glyphs that are drawn under `max_height`.
pub fn visible_count(glyphs: &[Glyph], max_height: Option<Fixed>, scale: Fixed) -> (count: usize)
    ensures
        count <= glyphs@.len(),
        glyphs@.take(count as int) == visible(glyphs@, max_height, scale as int),
{
    match max_height {
        None => {
            assert(glyphs@.take(glyphs@.len() as int) == glyphs@);
            glyphs.len()
        },
        Some(limit) => {
            let n: usize = glyphs.len();
            let ghost beyond = below(limit as int, scale as int);
            let mut i: usize = 0;
            while i < n
                invariant_except_break
                    i <= n,
                    n == glyphs@.len(),
                    beyond == below(limit as int, scale as int),
                    forall|k: int| 0 <= k < i ==> !beyond(#[trigger] glyphs@[k]),
                ensures
                    i <= n,
                    forall|k: int| 0 <= k < i ==> !beyond(#[trigger] glyphs@[k]),
                    i == n || beyond(glyphs@[i as int]),
                decreases n - i,
            {
                let glyph: Glyph = glyphs[i];
                if is_beyond(glyph.y as i64 + glyph.height as i64, limit, scale) {
                    break ;
                }
                i += 1;
            }
            proof {
                lemma_count_within(glyphs@, beyond, i as nat);
            }
            i
        },
    }
}

/// The characters of `glyphs`, in order.
pub open spec fn parents(glyphs: Seq<Glyph>) -> Seq<char> {
    Seq::new(glyphs.len(), |i: int| glyphs[i].parent)
}

/// The three full stops that end a line that was cut.
pub open spec fn ellipsis() -> Seq<char> {
    seq!['.', '.', '.']
}

/// The line that fits `max_width`: the characters of all the glyphs where
/// every right edge stays within the width; else the characters before the
/// first glyph that does not, less the last three of them (or as many as
/// there are), and an ellipsis.
pub open spec fn fitted_line(glyphs: Seq<Glyph>, max_width: int, scale: int) -> Seq<char> {
    let kept = count_within(glyphs, right_of(max_width, scale)) as int;
    if kept == glyphs.len() {
        parents(glyphs)
    } else {
        let stem = if kept > 3 {
            kept - 3
        } else {
            0
        };
        parents(glyphs).take(stem) + ellipsis()
    }
}

/// Cuts a laid-out line to `max_width`.
pub fn fit_line(glyphs: &[Glyph], max_width: Fixed, scale: Fixed) -> (line: Vec<char>)
    ensures
        line@ == fitted_line(glyphs@, max_width as int, scale as int),
{
    let n: usize = glyphs.len();
    let ghost beyond = right_of(max_width as int, scale as int);
    let mut line: Vec<char> = Vec::new();
    let mut i: usize = 0;
    let mut cut: bool = false;
    while i < n
        invariant_except_break
            i <= n,
            n == glyphs@.len(),
            !cut,
            beyond == right_of(max_width as int, scale as int),
            forall|k: int| 0 <= k < i ==> !beyond(#[trigger] glyphs@[k]),
            line@ == parents(glyphs@).take(i as int),
        ensures
            i <= n,
            forall|k: int| 0 <= k < i ==> !beyond(#[trigger] glyphs@[k]),
            cut ==> i < n && beyond(glyphs@[i as int]),
            !cut ==> i == n,
            line@ == parents(glyphs@).take(i as int),
        decreases n - i,
    {
        let glyph: Glyph = glyphs[i];
        if is_beyond(glyph.x as i64 + glyph.width as i64, max_width, scale) {
            cut = true;
            break ;
        }
        line.push(glyph.parent);
        assert(line@ == parents(glyphs@).take(i + 1));
        i += 1;
    }
    proof {
        lemma_count_within(glyphs@, beyond, i as nat);
    }
    if cut {
        let ghost whole = line@;
        let mut popped: usize = 0;
        while popped < 3 && line.len() > 0
            invariant
                popped <= 3,
                popped <= whole.len(),
                line@ == whole.take(whole.len() - popped),
                popped < 3 ==> line@.len() + popped == whole.len(),
            decreases 3 - popped,
        {
            line.pop();
            popped += 1;
        }
        line.push('.');
        line.push('.');
        line.push('.');
        assert(line@ == fitted_line(glyphs@, max_width as int, scale as int));
    } else {
        assert(parents(glyphs@).take(n as int) == parents(glyphs@));
    }
    line
}

/// A line that was cut ends with an ellipsis, and a cut line of more than
/// three glyphs comes out shorter than it went in.
pub proof fn lemma_fitted_line_shorter(glyphs: Seq<Glyph>, max_width: int, scale: int)
    requires
        exists|i: int| 0 <= i < glyphs.len() && exceeds(right_edge(glyphs[i]), max_width, scale),
    ensures
        fitted_line(glyphs, max_width, scale).len() >= 3,
        fitted_line(glyphs, max_width, scale).skip(
            fitted_line(glyphs, max_width, scale).len() - 3,
        ) == ellipsis(),
        glyphs.len() > 3 ==> fitted_line(glyphs, max_width, scale).len() < glyphs.len(),
{
    let beyond = right_of(max_width, scale);
    lemma_count_within_bounds(glyphs, beyond);
    let kept = count_within(glyphs, beyond) as int;
    let i = choose|i: int| 0 <= i < glyphs.len() && exceeds(right_edge(glyphs[i]), max_width, scale);
    assert(beyond(glyphs[i]));
    assert(kept <= i);
    let line = fitted_line(glyphs, max_width, scale);
    assert(line.skip(line.len() - 3) =~= ellipsis());
}

/// Whether one of `glyphs` has the key `key`.
pub open spec fn has_key(glyphs: Seq<Glyph>, key: GlyphKey) -> bool {
    exists|i: int| 0 <= i < glyphs.len() && (#[trigger] glyphs[i]).key == key
}

/// The glyphs that must be rasterised before `glyphs` can be drawn: for
/// each key that is not cached, the first glyph that has it, in the order
/// of the text.
pub open spec fn uncached(glyphs: Seq<Glyph>, regions: Map<GlyphKey, AtlasRegion>) -> Seq<Glyph>
    decreases glyphs.len(),
{
    if glyphs.len() == 0 {
        Seq::empty()
    } else {
        let front = uncached(glyphs.drop_last(), regions);
        let glyph = glyphs.last();
        if regions.contains_key(glyph.key) || has_key(front, glyph.key) {
            front
        } else {
            front.push(glyph)
        }
    }
}

/// No key is asked for twice, none that is asked for is cached, and every
/// glyph of the text is cached or asked for.
pub proof fn lemma_uncached(glyphs: Seq<Glyph>, regions: Map<GlyphKey, AtlasRegion>)
    ensures
        forall|i: int, j: int|
            0 <= i < j < uncached(glyphs, regions).len() ==> (#[trigger] uncached(
                glyphs,
                regions,
            )[i]).key != (#[trigger] uncached(glyphs, regions)[j]).key,
        forall|i: int|
            0 <= i < uncached(glyphs, regions).len() ==> !regions.contains_key(
                (#[trigger] uncached(glyphs, regions)[i]).key,
            ) && has_key(glyphs, uncached(glyphs, regions)[i].key),
        forall|i: int|
            0 <= i < glyphs.len() ==> regions.contains_key((#[trigger] glyphs[i]).key) || has_key(
                uncached(glyphs, regions),
                glyphs[i].key,
            ),
    decreases glyphs.len(),
{
    if glyphs.len() > 0 {
        let front = glyphs.drop_last();
        let glyph = glyphs.last();
        let before = uncached(front, regions);
        let all = uncached(glyphs, regions);
        lemma_uncached(front, regions);
        assert forall|i: int| 0 <= i < all.len() implies !regions.contains_key(
            (#[trigger] all[i]).key,
        ) && has_key(glyphs, all[i].key) by {
            if i < before.len() {
                assert(all[i] == before[i]);
                let k = choose|k: int| 0 <= k < front.len() && front[k].key == before[i].key;
                assert(glyphs[k] == front[k]);
            } else {
                assert(all[i] == glyph);
                assert(glyphs[glyphs.len() - 1] == glyph);
            }
        }
        assert forall|i: int| 0 <= i < glyphs.len() implies regions.contains_key(
            (#[trigger] glyphs[i]).key,
        ) || has_key(all, glyphs[i].key) by {
            if i < front.len() {
                assert(glyphs[i] == front[i]);
                if !regions.contains_key(front[i].key) {
                    let k = choose|k: int| 0 <= k < before.len() && before[k].key == front[i].key;
                    assert(all[k] == before[k]);
                }
            } else if !regions.contains_key(glyph.key) {
                if has_key(before, glyph.key) {
                    let k = choose|k: int| 0 <= k < before.len() && before[k].key == glyph.key;
                    assert(all[k] == before[k]);
                } else {
                    assert(all[all.len() - 1] == glyph);
                }
            }
        }
    }
}

/// Nothing is asked for where every glyph of the text is cached.
pub proof fn lemma_uncached_none(glyphs: Seq<Glyph>, regions: Map<GlyphKey, AtlasRegion>)
    requires
        forall|i: int| 0 <= i < glyphs.len() ==> regions.contains_key((#[trigger] glyphs[i]).key),
    ensures
        uncached(glyphs, regions) == Seq::<Glyph>::empty(),
    decreases glyphs.len(),
{
    if glyphs.len() > 0 {
        let front = glyphs.drop_last();
        assert forall|i: int| 0 <= i < front.len() implies regions.contains_key(
            (#[trigger] front[i]).key,
        ) by {
            assert(front[i] == glyphs[i]);
        }
        lemma_uncached_none(front, regions);
        assert(regions.contains_key(glyphs[glyphs.len() - 1].key));
    }
}

/// Lists the glyphs that must be rasterised before the text is drawn: one
/// glyph for each key of a drawn glyph that the cache does not hold.
pub fn glyphs_to_rasterize(
    cache: &GlyphCache,
    glyphs: &[Glyph],
    max_height: Option<Fixed>,
    scale: Fixed,
) -> (wanted: Vec<Glyph>)
    ensures
        wanted@ == uncached(visible(glyphs@, max_height, scale as int), cache.regions()),
{
    let count: usize = visible_count(glyphs, max_height, scale);
    let ghost drawn = glyphs@.take(count as int);
    let mut wanted: Vec<Glyph> = Vec::new();
    let mut i: usize = 0;
    assert(drawn.take(0) =~= Seq::<Glyph>::empty());
    while i < count
        invariant
            i <= count <= glyphs@.len(),
            drawn == glyphs@.take(count as int),
            wanted@ == uncached(drawn.take(i as int), cache.regions()),
        decreases count - i,
    {
        let glyph: Glyph = glyphs[i];
        proof {
            let next = drawn.take(i + 1);
            assert(next.drop_last() =~= drawn.take(i as int));
            assert(next.last() == glyph);
        }
        if !cache.contains(&glyph.key) {
            let mut known: bool = false;
            let mut k: usize = 0;
            while k < wanted.len()
                invariant
                    k <= wanted@.len(),
                    known == exists|m: int| 0 <= m < k && (#[trigger] wanted@[m]).key == glyph.key,
                decreases wanted@.len() - k,
            {
                let other: Glyph = wanted[k];
                if same_key(&other.key, &glyph.key) {
                    known = true;
                }
                k += 1;
            }
            if !known {
                wanted.push(glyph);
            }
        }
        i += 1;
    }
    assert(drawn.take(count as int) =~= drawn);
    wanted
}

/// Tells whether two keys are the same key.
pub fn same_key(a: &GlyphKey, b: &GlyphKey) -> (same: bool)
    ensures
        same == (*a == *b),
{
    a.font == b.font && a.glyph_index == b.glyph_index && a.px == b.px
}

/// The four corners of the quad of `glyph`: its box in device pixels
/// divided by `scale` and moved by the logical origin `(x, y)`, each corner
/// with the matching corner of `region` and with `color`. The corners run
/// from the top left down, right and up again.
pub open spec fn glyph_quad(
    glyph: Glyph,
    region: AtlasRegion,
    x: int,
    y: int,
    scale: int,
    color: Color,
) -> Seq<Vertex> {
    let left = offset_by(x, logical_of(glyph.x as int, scale));
    let top = offset_by(y, logical_of(glyph.y as int, scale));
    let right = offset_by(x, logical_of(right_edge(glyph), scale));
    let bottom = offset_by(y, logical_of(bottom_edge(glyph), scale));
    let uv = region.uv;
    seq![
        vertex_at(left, top, uv.x1 as int, uv.y1 as int, color),
        vertex_at(left, bottom, uv.x1 as int, uv.y2 as int, color),
        vertex_at(right, bottom, uv.x2 as int, uv.y2 as int, color),
        vertex_at(right, top, uv.x2 as int, uv.y1 as int, color),
    ]
}

/// The vertices of a text: the quad of each glyph that has a region, in
/// the order of the text. A glyph without a region is left out.
pub open spec fn text_vertices(
    glyphs: Seq<Glyph>,
    regions: Map<GlyphKey, AtlasRegion>,
    x: int,
    y: int,
    scale: int,
    color: Color,
) -> Seq<Vertex>
    decreases glyphs.len(),
{
    if glyphs.len() == 0 {
        Seq::empty()
    } else {
        let front = text_vertices(glyphs.drop_last(), regions, x, y, scale, color);
        let glyph = glyphs.last();
        if regions.contains_key(glyph.key) {
            front + glyph_quad(glyph, regions[glyph.key], x, y, scale, color)
        } else {
            front
        }
    }
}

/// The number of glyphs of a text that have a region.
pub open spec fn drawn_count(glyphs: Seq<Glyph>, regions: Map<GlyphKey, AtlasRegion>) -> nat
    decreases glyphs.len(),
{
    if glyphs.len() == 0 {
        0
    } else {
        drawn_count(glyphs.drop_last(), regions) + if regions.contains_key(glyphs.last().key) {
            1nat
        } else {
            0nat
        }
    }
}

/// A text has four vertices for each glyph that has a region, and no more
/// such glyphs than glyphs.
pub proof fn lemma_text_vertices_len(
    glyphs: Seq<Glyph>,
    regions: Map<GlyphKey, AtlasRegion>,
    x: int,
    y: int,
    scale: int,
    color: Color,
)
    ensures
        text_vertices(glyphs, regions, x, y, scale, color).len() == 4 * drawn_count(glyphs, regions),
        drawn_count(glyphs, regions) <= glyphs.len(),
    decreases glyphs.len(),
{
    if glyphs.len() > 0 {
        lemma_text_vertices_len(glyphs.drop_last(), regions, x, y, scale, color);
    }
}

/// A longer piece of a text has at least as many drawn glyphs.
pub proof fn lemma_drawn_count_grows(
    glyphs: Seq<Glyph>,
    regions: Map<GlyphKey, AtlasRegion>,
    i: int,
    j: int,
)
    requires
        0 <= i <= j <= glyphs.len(),
    ensures
        drawn_count(glyphs.take(i), regions) <= drawn_count(glyphs.take(j), regions),
    decreases j - i,
{
    if i < j {
        lemma_drawn_count_grows(glyphs, regions, i, j - 1);
        assert(glyphs.take(j).drop_last() =~= glyphs.take(j - 1));
    }
}

/// Every glyph of a text has a region exactly where as many glyphs are
/// drawn as the text has.
pub proof fn lemma_drawn_count_full(glyphs: Seq<Glyph>, regions: Map<GlyphKey, AtlasRegion>)
    ensures
        drawn_count(glyphs, regions) <= glyphs.len(),
        drawn_count(glyphs, regions) == glyphs.len() <==> forall|i: int|
            0 <= i < glyphs.len() ==> regions.contains_key((#[trigger] glyphs[i]).key),
    decreases glyphs.len(),
{
    if glyphs.len() > 0 {
        let front = glyphs.drop_last();
        lemma_drawn_count_full(front, regions);
        if drawn_count(glyphs, regions) == glyphs.len() {
            assert forall|i: int| 0 <= i < glyphs.len() implies regions.contains_key(
                (#[trigger] glyphs[i]).key,
            ) by {
                if i < front.len() {
                    assert(front[i] == glyphs[i]);
                }
            }
        }
        if forall|i: int| 0 <= i < glyphs.len() ==> regions.contains_key((#[trigger] glyphs[i]).key) {
            assert forall|i: int| 0 <= i < front.len() implies regions.contains_key(
                (#[trigger] front[i]).key,
            ) by {
                assert(front[i] == glyphs[i]);
            }
            assert(regions.contains_key(glyphs[glyphs.len() - 1].key));
        }
    }
}

/// The corner of a quad that the `k`-th index of its two triangles names.
pub open spec fn corner(k: int) -> int {
    if k == 1 {
        1
    } else if k == 2 || k == 4 {
        2
    } else if k == 5 {
        3
    } else {
        0
    }
}

/// The indices of `quads` quads in a row: two triangles for each, over the
/// corners 0, 1, 2 and 0, 2, 3 of its four vertices.
pub open spec fn quad_indices(quads: int) -> Seq<u32> {
    Seq::new((6 * quads) as nat, |k: int| (4 * (k / 6) + corner(k % 6)) as u32)
}

/// The indices of `quads` quads refer to their `4 * quads` vertices only.
pub proof fn lemma_quad_indices_within(quads: int)
    requires
        0 <= quads,
        4 * quads <= u32::MAX,
    ensures
        indices_within(quad_indices(quads), 4 * quads),
{
    assert forall|k: int| 0 <= k < quad_indices(quads).len() implies (#[trigger] quad_indices(
        quads,
    )[k]) < 4 * quads by {
        assert(k / 6 < quads);
        assert(0 <= corner(k % 6) <= 3);
    }
}

/// Builds the quads of the first `count` glyphs of a text, unless they
/// come to more than `max_quads`.
pub fn text_geometry(
    cache: &GlyphCache,
    glyphs: &[Glyph],
    count: usize,
    x: Fixed,
    y: Fixed,
    scale: Fixed,
    color: &Color,
    max_quads: usize,
) -> (geometry: Option<(Vec<Vertex>, Vec<u32>)>)
    requires
        count <= glyphs@.len(),
        4 * max_quads <= u32::MAX,
    ensures
        ({
            let drawn = glyphs@.take(count as int);
            let quads = drawn_count(drawn, cache.regions());
            match geometry {
                Some((vertices, indices)) => {
                    &&& quads <= max_quads
                    &&& vertices@ == text_vertices(
                        drawn,
                        cache.regions(),
                        x as int,
                        y as int,
                        scale as int,
                        *color,
                    )
                    &&& indices@ == quad_indices(quads as int)
                },
                None => quads > max_quads,
            }
        }),
{
    let ghost drawn = glyphs@.take(count as int);
    let ghost regions = cache.regions();
    let mut vertices: Vec<Vertex> = Vec::new();
    let mut indices: Vec<u32> = Vec::new();
    let mut quads: usize = 0;
    let mut i: usize = 0;
    assert(drawn.take(0) =~= Seq::<Glyph>::empty());
    while i < count
        invariant
            i <= count <= glyphs@.len(),
            drawn == glyphs@.take(count as int),
            regions == cache.regions(),
            4 * max_quads <= u32::MAX,
            quads <= max_quads,
            quads == drawn_count(drawn.take(i as int), regions),
            vertices@ == text_vertices(
                drawn.take(i as int),
                regions,
                x as int,
                y as int,
                scale as int,
                *color,
            ),
            indices@ == quad_indices(quads as int),
        decreases count - i,
    {
        let glyph: Glyph = glyphs[i];
        proof {
            let next = drawn.take(i + 1);
            assert(next.drop_last() =~= drawn.take(i as int));
            assert(next.last() == glyph);
        }
        match cache.get(&glyph.key) {
            Some(region) => {
                if quads >= max_quads {
                    proof {
                        lemma_drawn_count_grows(drawn, regions, i + 1, count as int);
                        assert(drawn.take(count as int) =~= drawn);
                    }
                    return None;
                }
                let left: Fixed = offset(x, to_logical(glyph.x as i64, scale));
                let top: Fixed = offset(y, to_logical(glyph.y as i64, scale));
                let right: Fixed = offset(
                    x,
                    to_logical(glyph.x as i64 + glyph.width as i64, scale),
                );
                let bottom: Fixed = offset(
                    y,
                    to_logical(glyph.y as i64 + glyph.height as i64, scale),
                );
                let uv = region.uv;
                let ghost before = vertices@;
                vertices.push(make_vertex(left, top, uv.x1, uv.y1, color));
                vertices.push(make_vertex(left, bottom, uv.x1, uv.y2, color));
                vertices.push(make_vertex(right, bottom, uv.x2, uv.y2, color));
                vertices.push(make_vertex(right, top, uv.x2, uv.y1, color));
                assert(vertices@ =~= before + glyph_quad(
                    glyph,
                    region,
                    x as int,
                    y as int,
                    scale as int,
                    *color,
                ));
                let base: u32 = (4 * quads) as u32;
                indices.push(base);
                indices.push(base + 1);
                indices.push(base + 2);
                indices.push(base);
                indices.push(base + 2);
                indices.push(base + 3);
                quads += 1;
                assert(indices@ =~= quad_indices(quads as int));
            },
            None => {},
        }
        i += 1;
    }
    assert(drawn.take(count as int) =~= drawn);
    Some((vertices, indices))
}

} // verus!
