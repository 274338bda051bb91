use nebula_term::AtlasError;
use nebula_term::AtlasRect;
use nebula_term::GlyphAtlas;
use nebula_term::GlyphKey;
use nebula_term::expand_coverage;

fn key(n: u32) -> GlyphKey {
    GlyphKey { font_id: n, glyph_id: (n % 100) as u16, font_size: 14 }
}

#[test]
fn first_glyph_packs_at_the_origin() {
    let mut atlas = GlyphAtlas::new(256);
    let rect = atlas.add_glyph(key(1), 10, 12).unwrap();
    assert_eq!(rect, AtlasRect { x: 0, y: 0, width: 10, height: 12 });
}

#[test]
fn glyphs_pack_left_to_right_in_a_row() {
    let mut atlas = GlyphAtlas::new(256);
    atlas.add_glyph(key(1), 10, 12).unwrap();
    let rect = atlas.add_glyph(key(2), 8, 9).unwrap();
    assert_eq!(rect, AtlasRect { x: 10, y: 0, width: 8, height: 9 });
}

#[test]
fn the_same_key_twice_returns_the_identical_rectangle() {
    let mut atlas = GlyphAtlas::new(256);
    let first = atlas.add_glyph(key(7), 10, 12).unwrap();
    let second = atlas.add_glyph(key(7), 10, 12).unwrap();
    assert_eq!(first, second);
    // A hit does not move the packing cursor: the next fresh glyph lands
    // where it would have anyway.
    let next = atlas.add_glyph(key(8), 5, 5).unwrap();
    assert_eq!(next.x, 10);
    // The cache answers lookups without packing.
    assert_eq!(atlas.get(key(7)), Some(first));
    assert_eq!(atlas.get(key(99)), None);
}

#[test]
fn overflowing_the_row_width_starts_a_new_row() {
    let mut atlas = GlyphAtlas::new(100);
    atlas.add_glyph(key(1), 60, 20).unwrap();
    // 60 + 60 > 100: wrap to y = row_height of the first row.
    let rect = atlas.add_glyph(key(2), 60, 30).unwrap();
    assert_eq!(rect, AtlasRect { x: 0, y: 20, width: 60, height: 30 });
    // The new row's height now governs the next wrap.
    let rect = atlas.add_glyph(key(3), 60, 10).unwrap();
    assert_eq!(rect, AtlasRect { x: 0, y: 50, width: 60, height: 10 });
    let rect = atlas.add_glyph(key(4), 60, 10).unwrap();
    assert_eq!(rect, AtlasRect { x: 0, y: 60, width: 60, height: 10 });
}

#[test]
fn zero_sized_images_are_rejected_as_empty() {
    let mut atlas = GlyphAtlas::new(64);
    assert_eq!(atlas.add_glyph(key(1), 0, 5), Err(AtlasError::EmptyGlyph));
    assert_eq!(atlas.add_glyph(key(1), 5, 0), Err(AtlasError::EmptyGlyph));
    // The rejection cached nothing.
    assert_eq!(atlas.get(key(1)), None);
}

#[test]
fn a_full_atlas_rejects_new_glyphs_without_forgetting_old_ones() {
    let mut atlas = GlyphAtlas::new(32);
    let first = atlas.add_glyph(key(1), 32, 32).unwrap();
    assert_eq!(atlas.add_glyph(key(2), 10, 10), Err(AtlasError::AtlasFull));
    // The first entry still answers.
    assert_eq!(atlas.add_glyph(key(1), 32, 32), Ok(first));
}

#[test]
fn a_glyph_wider_than_the_atlas_cannot_be_packed() {
    let mut atlas = GlyphAtlas::new(16);
    assert_eq!(atlas.add_glyph(key(1), 17, 4), Err(AtlasError::AtlasFull));
}

#[test]
fn a_glyph_taller_than_the_atlas_cannot_be_packed() {
    let mut atlas = GlyphAtlas::new(16);
    assert_eq!(atlas.add_glyph(key(1), 4, 17), Err(AtlasError::AtlasFull));
}

#[test]
fn coverage_expands_into_white_rgba() {
    let rgba = expand_coverage(&[7, 200]);
    assert_eq!(rgba, vec![255, 255, 255, 7, 255, 255, 255, 200]);
    assert_eq!(expand_coverage(&[]), Vec::<u8>::new());
}
