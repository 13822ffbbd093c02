//! Texel patterns of the baked world: the 4x4 ordered-dither lattice and
//! the palette colors each ground pattern shows at a canvas texel.
//!
//! Art rules: grass mowing bands alternate GRASS_BASE / GRASS_SHADOW,
//! speckled GRASS_LIGHT (base bands) or GRASS_BASE (shadow bands); Sand is
//! DRY_GOLD speckled DIRT_LIGHT; Dirt is DIRT_BASE speckled DIRT_SHADOW;
//! DarkGrass is GRASS_SHADOW speckled GRASS_BASE; road is ASPHALT_BASE
//! speckled ASPHALT_DARKEST and highlighted ASPHALT_LIGHT; gravel is
//! DIRT_LIGHT speckled DIRT_BASE and highlighted SUNLIT_STRAW; kerbs
//! alternate KERB_BASE / KERB_BONE; the start line is a checker of
//! CREAM_HIGHLIGHT and VOID_SHADOW ten cells across.

use vstd::prelude::*;

use crate::palette::{
    ASPHALT_BASE, ASPHALT_DARKEST, ASPHALT_LIGHT, CREAM_HIGHLIGHT, DIRT_BASE, DIRT_LIGHT,
    DIRT_SHADOW, DRY_GOLD, GRASS_BASE, GRASS_LIGHT, GRASS_SHADOW, KERB_BASE, KERB_BONE,
    SUNLIT_STRAW, VOID_SHADOW,
};

verus! {

/// Ordered-dither threshold for the fine speckle (grass, asphalt).
pub const SPECKLE: u8 = 2;

/// Ordered-dither threshold for the coarse speckle (zones, gravel).
pub const SPECKLE_COARSE: u8 = 3;

/// Ordered-dither threshold above which granular patterns highlight.
pub const HIGHLIGHT: u8 = 14;

/// The classic 4x4 ordered-dither (Bayer) lattice, row by row.
pub const BAYER_4X4: [u8; 16] = [0, 8, 2, 10, 12, 4, 14, 6, 3, 11, 1, 9, 15, 7, 13, 5];

/// The lattice as a sequence.
pub open spec fn lattice() -> Seq<u8> {
    seq![0u8, 8, 2, 10, 12, 4, 14, 6, 3, 11, 1, 9, 15, 7, 13, 5]
}

/// The dither threshold of a canvas texel: the lattice repeats every four
/// texels in both directions.
pub open spec fn dither(px: u32, py: u32) -> u8 {
    lattice()[(py % 4) * 4 + px % 4]
}

/// The lattice cell of a canvas texel.
pub fn bayer(px: u32, py: u32) -> (d: u8)
    ensures
        d == dither(px, py),
        d < 16,
{
    let table = BAYER_4X4;
    assert(table@ == lattice());
    let i = ((py % 4) * 4 + px % 4) as usize;
    table[i]
}

/// An opaque RGBA8 texel of the color `0xRRGGBB`.
pub open spec fn texel(rgb: u32) -> [u8; 4] {
    [((rgb / 65536) % 256) as u8, ((rgb / 256) % 256) as u8, (rgb % 256) as u8, 255u8]
}

/// Palette hex to an opaque RGBA8 texel.
pub fn rgba(rgb: u32) -> (t: [u8; 4])
    ensures
        t == texel(rgb),
{
    [((rgb / 65536) % 256) as u8, ((rgb / 256) % 256) as u8, (rgb % 256) as u8, 255u8]
}

/// A base color with a coarse speckle of a second color.
pub open spec fn speckled(px: u32, py: u32, speckle: u32, base: u32) -> [u8; 4] {
    if dither(px, py) < SPECKLE_COARSE {
        texel(speckle)
    } else {
        texel(base)
    }
}

/// Sand zone: dry gold with a light speckle.
pub fn sand(px: u32, py: u32) -> (t: [u8; 4])
    ensures
        t == speckled(px, py, DIRT_LIGHT, DRY_GOLD),
{
    if bayer(px, py) < SPECKLE_COARSE {
        rgba(DIRT_LIGHT)
    } else {
        rgba(DRY_GOLD)
    }
}

/// Dirt zone: bare earth with a dark speckle.
pub fn dirt(px: u32, py: u32) -> (t: [u8; 4])
    ensures
        t == speckled(px, py, DIRT_SHADOW, DIRT_BASE),
{
    if bayer(px, py) < SPECKLE_COARSE {
        rgba(DIRT_SHADOW)
    } else {
        rgba(DIRT_BASE)
    }
}

/// Dark grass zone: shaded grass mottled with the base green.
pub fn dark_grass(px: u32, py: u32) -> (t: [u8; 4])
    ensures
        t == speckled(px, py, GRASS_BASE, GRASS_SHADOW),
{
    if bayer(px, py) < SPECKLE_COARSE {
        rgba(GRASS_BASE)
    } else {
        rgba(GRASS_SHADOW)
    }
}

/// The grass field in mowing band `band` (bands count along world Y and
/// alternate from even to odd).
pub open spec fn grass_texel(px: u32, py: u32, band: i64) -> [u8; 4] {
    if band % 2 == 0 {
        if dither(px, py) < SPECKLE {
            texel(GRASS_LIGHT)
        } else {
            texel(GRASS_BASE)
        }
    } else if dither(px, py) < SPECKLE {
        texel(GRASS_BASE)
    } else {
        texel(GRASS_SHADOW)
    }
}

/// A grass texel in mowing band `band`; each band is base-colored with a
/// light speckle on the lattice's two lowest cells.
pub fn grass_hillside(px: u32, py: u32, band: i64) -> (t: [u8; 4])
    ensures
        t == grass_texel(px, py, band),
{
    if band % 2 == 0 {
        if bayer(px, py) < SPECKLE {
            rgba(GRASS_LIGHT)
        } else {
            rgba(GRASS_BASE)
        }
    } else if bayer(px, py) < SPECKLE {
        rgba(GRASS_BASE)
    } else {
        rgba(GRASS_SHADOW)
    }
}

/// A granular surface: speckle below `low`, highlight above
/// [`HIGHLIGHT`], base in between.
pub open spec fn grain(px: u32, py: u32, low: u8, speckle: u32, highlight: u32, base: u32) -> [u8; 4] {
    if dither(px, py) < low {
        texel(speckle)
    } else if dither(px, py) > HIGHLIGHT {
        texel(highlight)
    } else {
        texel(base)
    }
}

/// Asphalt grain: base charcoal, speckled darkest, highlighted light.
pub fn asphalt(px: u32, py: u32) -> (t: [u8; 4])
    ensures
        t == grain(px, py, SPECKLE, ASPHALT_DARKEST, ASPHALT_LIGHT, ASPHALT_BASE),
{
    let d = bayer(px, py);
    if d < SPECKLE {
        rgba(ASPHALT_DARKEST)
    } else if d > HIGHLIGHT {
        rgba(ASPHALT_LIGHT)
    } else {
        rgba(ASPHALT_BASE)
    }
}

/// Gravel: light tan base, dark speckle, straw highlight.
pub fn gravel(px: u32, py: u32) -> (t: [u8; 4])
    ensures
        t == grain(px, py, SPECKLE_COARSE, DIRT_BASE, SUNLIT_STRAW, DIRT_LIGHT),
{
    let d = bayer(px, py);
    if d < SPECKLE_COARSE {
        rgba(DIRT_BASE)
    } else if d > HIGHLIGHT {
        rgba(SUNLIT_STRAW)
    } else {
        rgba(DIRT_LIGHT)
    }
}

/// Kerb stripes alternate red and bone.
pub open spec fn kerb_rgb(i: int) -> u32 {
    if i % 2 == 0 {
        KERB_BASE
    } else {
        KERB_BONE
    }
}

/// Start-line cells, ten to a row, form a checker of cream and shadow.
pub open spec fn start_cell_rgb(i: int) -> u32 {
    if (i / 10 + i % 10) % 2 == 0 {
        CREAM_HIGHLIGHT
    } else {
        VOID_SHADOW
    }
}

/// The color of the `i`-th kerb stripe.
pub fn kerb_color(i: usize) -> (rgb: u32)
    ensures
        rgb == kerb_rgb(i as int),
{
    if i % 2 == 0 {
        KERB_BASE
    } else {
        KERB_BONE
    }
}

/// The color of the `i`-th start-line cell.
pub fn start_line_color(i: usize) -> (rgb: u32)
    ensures
        rgb == start_cell_rgb(i as int),
{
    if (i / 10 + i % 10) % 2 == 0 {
        CREAM_HIGHLIGHT
    } else {
        VOID_SHADOW
    }
}

/// Neighbouring kerb stripes never share a color.
pub proof fn kerb_stripes_alternate(i: nat)
    ensures
        kerb_rgb(i as int) != kerb_rgb(i + 1int),
{
}

/// Neighbouring start-line cells, along a row or down a column, never
/// share a color.
pub proof fn start_line_is_a_checker(i: nat)
    ensures
        i % 10 < 9 ==> start_cell_rgb(i as int) != start_cell_rgb(i + 1int),
        start_cell_rgb(i as int) != start_cell_rgb(i + 10int),
{
}

} // verus!
