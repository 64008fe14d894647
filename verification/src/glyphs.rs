//! Glyphs as the layout hands them over, and the cache that maps each
//! rasterised glyph to its region of the atlas.

use std::collections::HashMap;
use vstd::prelude::*;
use crate::atlas::AtlasRegion;
use crate::fixed::Fixed;

verus! {

broadcast use vstd::std_specs::hash::group_hash_axioms;

/// What tells one rasterised glyph from another: the font, the glyph's
/// index in it, and the size in device pixels at which it was rasterised.
#[derive(Clone, Copy, Debug, PartialEq, Eq)]
pub struct GlyphKey {
    pub font: u16,
    pub glyph_index: u16,
    pub px: Fixed,
}

/// One glyph of a laid-out text: its key, the character it came from, and
/// its box in whole device pixels, `y` growing downwards.
#[derive(Clone, Copy, Debug, PartialEq, Eq)]
pub struct Glyph {
    pub key: GlyphKey,
    pub parent: char,
    pub x: i32,
    pub y: i32,
    pub width: u32,
    pub height: u32,
}

/// The coverage bitmap of one rasterised glyph: `width * height` bytes, row
/// by row.
#[derive(Clone, Debug, PartialEq, Eq)]
pub struct Coverage {
    pub key: GlyphKey,
    pub width: u32,
    pub height: u32,
    pub data: Vec<u8>,
}

/// The right edge of a glyph's box, in device pixels.
pub open spec fn right_edge(glyph: Glyph) -> int {
    glyph.x + glyph.width
}

/// The bottom edge of a glyph's box, in device pixels.
pub open spec fn bottom_edge(glyph: Glyph) -> int {
    glyph.y + glyph.height
}

/// The number under which the cache files a key.
pub open spec fn packed(key: GlyphKey) -> int {
    key.font * 0x1_0000_0000_0000 + key.glyph_index * 0x1_0000_0000 + (key.px + 0x8000_0000)
}

/// Two keys are filed under one number only where they are the same key.
pub proof fn lemma_packed_injective(a: GlyphKey, b: GlyphKey)
    ensures
        0 <= packed(a) <= u64::MAX,
        packed(a) == packed(b) <==> a == b,
{
}

fn pack(key: &GlyphKey) -> (number: u64)
    ensures
        number == packed(*key),
{
    (key.font as u64) * 0x1_0000_0000_0000 + (key.glyph_index as u64) * 0x1_0000_0000 + ((key.px
        as i64 + 0x8000_0000) as u64)
}

/// The regions of the glyphs rasterised so far. An entry is made when a
/// glyph is first placed in the atlas and is never changed or removed.
pub struct GlyphCache {
    entries: HashMap<u64, AtlasRegion>,
}

impl GlyphCache {
    /// The region of each cached key.
    pub closed spec fn regions(&self) -> Map<GlyphKey, AtlasRegion> {
        Map::new(
            |key: GlyphKey| self.entries@.contains_key(packed(key) as u64),
            |key: GlyphKey| self.entries@[packed(key) as u64],
        )
    }

    pub fn new() -> (cache: Self)
        ensures
            cache.regions() == Map::<GlyphKey, AtlasRegion>::empty(),
    {
        let cache = GlyphCache { entries: HashMap::new() };
        assert(cache.regions() =~= Map::<GlyphKey, AtlasRegion>::empty());
        cache
    }

    /// The region of `key`, if the glyph is cached.
    pub fn get(&self, key: &GlyphKey) -> (region: Option<AtlasRegion>)
        ensures
            region == if self.regions().contains_key(*key) {
                Some(self.regions()[*key])
            } else {
                None
            },
    {
        let number: u64 = pack(key);
        match self.entries.get(&number) {
            Some(region) => Some(*region),
            None => None,
        }
    }

    pub fn contains(&self, key: &GlyphKey) -> (cached: bool)
        ensures
            cached == self.regions().contains_key(*key),
    {
        let number: u64 = pack(key);
        self.entries.contains_key(&number)
    }

    /// Files `region` under `key`.
    pub fn insert(&mut self, key: GlyphKey, region: AtlasRegion)
        ensures
            final(self).regions() == old(self).regions().insert(key, region),
    {
        let number: u64 = pack(&key);
        self.entries.insert(number, region);
        proof {
            assert forall|other: GlyphKey| other != key implies packed(other) as u64 != number by {
                lemma_packed_injective(other, key);
            }
            assert(self.regions() =~= old(self).regions().insert(key, region));
        }
    }
}

/// The RGBA texels of a coverage bitmap: white, with the coverage as alpha.
pub open spec fn rgba_of(coverage: Seq<u8>) -> Seq<u8> {
    Seq::new(
        4 * coverage.len(),
        |j: int|
            if j % 4 == 3 {
                coverage[j / 4]
            } else {
                0xffu8
            },
    )
}

/// Expands a coverage bitmap to RGBA texels.
pub fn expand_coverage(coverage: &[u8]) -> (texels: Vec<u8>)
    ensures
        texels@ == rgba_of(coverage@),
{
    let mut texels: Vec<u8> = Vec::new();
    let n: usize = coverage.len();
    let mut i: usize = 0;
    while i < n
        invariant
            i <= n,
            n == coverage@.len(),
            texels@.len() == 4 * i,
            forall|j: int| 0 <= j < 4 * i ==> #[trigger] texels@[j] == rgba_of(coverage@)[j],
        decreases n - i,
    {
        texels.push(0xff);
        texels.push(0xff);
        texels.push(0xff);
        texels.push(coverage[i]);
        i += 1;
    }
    assert(texels@ =~= rgba_of(coverage@));
    texels
}

} // verus!
