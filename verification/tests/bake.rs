use topdown_racer::bake::{
    asphalt, bayer, dark_grass, dirt, grass_hillside, gravel, kerb_color, rgba, sand,
    start_line_color, BAYER_4X4,
};
use topdown_racer::palette::{
    color, ALL, ASPHALT_BASE, ASPHALT_DARKEST, ASPHALT_LIGHT, CREAM_HIGHLIGHT, DIRT_BASE,
    DIRT_LIGHT, DIRT_SHADOW, DRY_GOLD, GRASS_BASE, GRASS_LIGHT, GRASS_SHADOW, KERB_BASE,
    KERB_BONE, SUNLIT_STRAW, VOID_SHADOW,
};

#[test]
fn rgba_splits_the_hex_into_opaque_channels() {
    assert_eq!(rgba(0x0F8FC9), [0x0F, 0x8F, 0xC9, 0xFF]);
    assert_eq!(rgba(0xFFFFFF), [0xFF, 0xFF, 0xFF, 0xFF]);
    assert_eq!(rgba(0), [0, 0, 0, 0xFF]);
    assert_eq!(color(0xD8263C), (0xD8, 0x26, 0x3C));
}

#[test]
fn bayer_lattice_repeats_every_four_texels() {
    for py in 0..12u32 {
        for px in 0..12u32 {
            assert_eq!(bayer(px, py), BAYER_4X4[((py % 4) * 4 + px % 4) as usize]);
            assert_eq!(bayer(px, py), bayer(px + 4, py + 8));
        }
    }
    let mut seen: Vec<u8> = (0..4u32)
        .flat_map(|y| (0..4u32).map(move |x| bayer(x, y)))
        .collect();
    seen.sort();
    assert_eq!(seen, (0..16).collect::<Vec<u8>>());
}

#[test]
fn ground_patterns_speckle_on_the_lattice() {
    // (0, 0) is the lattice's 0 cell, (2, 2) its 1 cell, (2, 0) its 2 cell,
    // (3, 1) its 6 cell, (0, 3) its 15 cell.
    assert_eq!(sand(0, 0), rgba(DIRT_LIGHT));
    assert_eq!(sand(3, 1), rgba(DRY_GOLD));
    assert_eq!(dirt(2, 0), rgba(DIRT_SHADOW));
    assert_eq!(dirt(3, 1), rgba(DIRT_BASE));
    assert_eq!(dark_grass(2, 2), rgba(GRASS_BASE));
    assert_eq!(dark_grass(0, 3), rgba(GRASS_SHADOW));
    assert_eq!(asphalt(2, 2), rgba(ASPHALT_DARKEST));
    assert_eq!(asphalt(2, 0), rgba(ASPHALT_BASE));
    assert_eq!(asphalt(0, 3), rgba(ASPHALT_LIGHT));
    assert_eq!(gravel(2, 0), rgba(DIRT_BASE));
    assert_eq!(gravel(3, 1), rgba(DIRT_LIGHT));
    assert_eq!(gravel(0, 3), rgba(SUNLIT_STRAW));
}

#[test]
fn grass_bands_alternate_base_and_shadow() {
    assert_eq!(grass_hillside(0, 0, 0), rgba(GRASS_LIGHT));
    assert_eq!(grass_hillside(3, 1, 0), rgba(GRASS_BASE));
    assert_eq!(grass_hillside(0, 0, 1), rgba(GRASS_BASE));
    assert_eq!(grass_hillside(3, 1, 1), rgba(GRASS_SHADOW));
    assert_eq!(grass_hillside(3, 1, -1), rgba(GRASS_SHADOW));
    assert_eq!(grass_hillside(3, 1, -2), rgba(GRASS_BASE));
}

#[test]
fn kerbs_and_start_line_alternate() {
    assert_eq!(kerb_color(0), KERB_BASE);
    assert_eq!(kerb_color(1), KERB_BONE);
    assert_eq!(kerb_color(2), KERB_BASE);
    assert_eq!(start_line_color(0), CREAM_HIGHLIGHT);
    assert_eq!(start_line_color(1), VOID_SHADOW);
    assert_eq!(start_line_color(9), VOID_SHADOW);
    assert_eq!(start_line_color(10), VOID_SHADOW);
    assert_eq!(start_line_color(11), CREAM_HIGHLIGHT);
}

#[test]
fn palette_lists_every_color_once_in_order() {
    assert_eq!(ALL.len(), 32);
    assert_eq!(ALL[0], ("Void Shadow", VOID_SHADOW));
    assert_eq!(ALL[31], ("Kerb Bone", KERB_BONE));
    let mut names: Vec<&str> = ALL.iter().map(|(n, _)| *n).collect();
    names.sort();
    names.dedup();
    assert_eq!(names.len(), 32);
}
