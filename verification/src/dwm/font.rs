//! Rasterised glyph bitmaps as the window manager draws them.

use vstd::prelude::*;
use crate::grid::cell;

verus! {

/// One rasterised character: a `width` by `height` coverage map (0 = transparent,
/// 255 = opaque) and its offset from the pen position.
pub struct CachedGlyph {
    pub width: usize,
    pub height: usize,
    pub top: i32,
    pub left: i32,
    /// Horizontal pen advance, as the bits of an IEEE-754 single.
    pub advance_bits: u32,
    /// Coverage of each pixel, row by row.
    pub alpha_map: Vec<u8>,
}

impl CachedGlyph {
    /// The coverage map holds one value for every pixel of the bitmap.
    pub open spec fn wf(&self) -> bool {
        self.alpha_map@.len() >= self.width * self.height
    }

    /// Coverage of column `dx`, row `dy`.
    pub open spec fn alpha(&self, dx: int, dy: int) -> u8 {
        self.alpha_map@[cell(self.width as int, dx, dy)]
    }
}

/// Cache key of character `c` rasterised at `size_px` tenths of a pixel.
pub open spec fn glyph_key_spec(c: char, size_px: u32) -> u64 {
    ((c as u64) << 32u64) | (size_px as u64)
}

pub fn glyph_key(c: char, size_px: u32) -> (k: u64)
    ensures
        k == glyph_key_spec(c, size_px),
{
    ((c as u32 as u64) << 32) | (size_px as u64)
}

/// Rasterised glyphs by key, so that each character and size is rasterised once.
#[verifier::external_body]
pub struct GlyphCache {
    map: hashbrown::HashMap<u64, CachedGlyph>,
}

/// A cache contents without any glyph.
pub open spec fn no_glyphs() -> Map<u64, CachedGlyph> {
    Map::empty()
}

/// The glyphs held by `cache`, by key.
pub uninterp spec fn cached_glyphs(cache: GlyphCache) -> Map<u64, CachedGlyph>;

impl GlyphCache {
    /// `hashbrown::HashMap::new`: an empty map.
    #[verifier::external_body]
    fn empty_map() -> (cache: GlyphCache)
        ensures
            cached_glyphs(cache) == no_glyphs(),
    {
        GlyphCache { map: hashbrown::HashMap::new() }
    }

    /// `hashbrown::HashMap::get`: the value stored under `key`, if any.
    #[verifier::external_body]
    fn map_get(&self, key: u64) -> (g: Option<&CachedGlyph>)
        ensures
            g == if cached_glyphs(*self).contains_key(key) {
                Some(&cached_glyphs(*self)[key])
            } else {
                None
            },
    {
        self.map.get(&key)
    }

    /// `hashbrown::HashMap::insert`: stores `glyph` under `key`, replacing any
    /// earlier value; nothing else changes.
    #[verifier::external_body]
    fn map_insert(&mut self, key: u64, glyph: CachedGlyph)
        ensures
            cached_glyphs(*final(self)) == cached_glyphs(*old(self)).insert(key, glyph),
    {
        self.map.insert(key, glyph);
    }

    /// A cache holding no glyph.
    pub fn new() -> (c: Self)
        ensures
            cached_glyphs(c) == no_glyphs(),
    {
        Self::empty_map()
    }

    /// The glyph rasterised earlier for `c` at `size_px` tenths of a pixel, if any.
    pub fn lookup(&self, c: char, size_px: u32) -> (g: Option<&CachedGlyph>)
        ensures
            g == if cached_glyphs(*self).contains_key(glyph_key_spec(c, size_px)) {
                Some(&cached_glyphs(*self)[glyph_key_spec(c, size_px)])
            } else {
                None
            },
    {
        self.map_get(glyph_key(c, size_px))
    }

    /// Remembers `glyph` as the rasterisation of `c` at `size_px` tenths of a pixel.
    pub fn store(&mut self, c: char, size_px: u32, glyph: CachedGlyph)
        ensures
            cached_glyphs(*final(self)) == cached_glyphs(*old(self)).insert(glyph_key_spec(c, size_px), glyph),
    {
        let key = glyph_key(c, size_px);
        self.map_insert(key, glyph);
    }
}

#[verifier::external_type_specification]
#[verifier::external_body]
pub struct ExFontRef<'a>(ab_glyph::FontRef<'a>);

/// Whether `data` is a font that `ab_glyph` can read (TrueType or OpenType).
pub uninterp spec fn font_parses(data: Seq<u8>) -> bool;

/// `ab_glyph::FontRef::try_from_slice`: the parsed font, or `None` where the
/// bytes are not a font it can read; which bytes parse is not stated beyond the
/// name `font_parses`.
#[verifier::external_body]
fn parse_font<'a>(data: &'a [u8]) -> (f: Option<ab_glyph::FontRef<'a>>)
    ensures
        f is Some == font_parses(data@),
{
    ab_glyph::FontRef::try_from_slice(data).ok()
}

/// A font and the glyphs rasterised from it so far.
pub struct FontManager<'a> {
    pub font: ab_glyph::FontRef<'a>,
    pub cache: GlyphCache,
}

impl<'a> FontManager<'a> {
    /// The font in `font_data` with an empty glyph cache, or `None` where the
    /// bytes are not a font.
    pub fn new(font_data: &'a [u8]) -> (r: Option<Self>)
        ensures
            r is Some == font_parses(font_data@),
            r matches Some(m) ==> cached_glyphs(m.cache) == no_glyphs(),
    {
        match parse_font(font_data) {
            Some(font) => Some(FontManager { font, cache: GlyphCache::new() }),
            None => None,
        }
    }
}

/// Different characters or sizes never share a cache entry.
pub proof fn lemma_glyph_key_injective(c1: char, s1: u32, c2: char, s2: u32)
    requires
        glyph_key_spec(c1, s1) == glyph_key_spec(c2, s2),
    ensures
        c1 == c2,
        s1 == s2,
{
    let a = c1 as u32;
    let b = c2 as u32;
    assert(a == b && s1 == s2) by (bit_vector)
        requires
            ((a as u64) << 32u64) | (s1 as u64) == ((b as u64) << 32u64) | (s2 as u64),
    ;
    assert(c1 as u64 == a as u64 && c2 as u64 == b as u64);
}

/// A lookup after a store finds the stored glyph, and storing one character and
/// size leaves the glyphs of all others as they were.
pub proof fn lemma_lookup_after_store(
    before: GlyphCache,
    after: GlyphCache,
    c: char,
    size_px: u32,
    glyph: CachedGlyph,
    c2: char,
    size2: u32,
)
    requires
        cached_glyphs(after) == cached_glyphs(before).insert(glyph_key_spec(c, size_px), glyph),
    ensures
        cached_glyphs(after).contains_key(glyph_key_spec(c, size_px)),
        cached_glyphs(after)[glyph_key_spec(c, size_px)] == glyph,
        (c2 != c || size2 != size_px) ==> {
            &&& cached_glyphs(after).contains_key(glyph_key_spec(c2, size2)) == cached_glyphs(
                before,
            ).contains_key(glyph_key_spec(c2, size2))
            &&& cached_glyphs(after)[glyph_key_spec(c2, size2)] == cached_glyphs(before)[glyph_key_spec(
                c2,
                size2,
            )]
        },
{
    if c2 != c || size2 != size_px {
        if glyph_key_spec(c2, size2) == glyph_key_spec(c, size_px) {
            lemma_glyph_key_injective(c2, size2, c, size_px);
        }
    }
}

} // verus!
