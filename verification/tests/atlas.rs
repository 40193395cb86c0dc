use snowfield::renderer::{make_power_2, Projection, RenderError, TextureAtlas};

#[test]
fn make_power_2_exact_values() {
    assert_eq!(make_power_2(0), 1);
    assert_eq!(make_power_2(1), 1);
    assert_eq!(make_power_2(2), 2);
    assert_eq!(make_power_2(3), 4);
    assert_eq!(make_power_2(64), 64);
    assert_eq!(make_power_2(65), 128);
    assert_eq!(make_power_2(384), 512);
    assert_eq!(make_power_2(0x8000_0000), 0x8000_0000);
}

#[test]
fn empty_atlas_has_nothing() {
    let a = TextureAtlas::empty();
    assert_eq!(a.items.len(), 0);
    assert_eq!(a.width, 0);
    assert_eq!(a.height, 0);
}

#[test]
fn pack_six_64x64_images() {
    // Six 64x64 sources: a 384-wide row rounds up to 512, the height stays
    // at the power of two 64.
    let sizes: Vec<(u32, u32)> = vec![(64, 64); 6];
    let a = TextureAtlas::pack(&sizes).unwrap();
    assert_eq!(a.width, 512);
    assert_eq!(a.height, 64);
    assert_eq!(a.items.len(), 6);
    for (i, item) in a.items.iter().enumerate() {
        assert_eq!(item.x, 64 * i as u32);
        assert_eq!(item.y, 0);
        assert_eq!(item.width, 64);
        assert_eq!(item.height, 64);
    }
}

#[test]
fn pack_places_each_rect_after_the_widths_before_it() {
    let sizes: Vec<(u32, u32)> = vec![(10, 5), (30, 12), (7, 9)];
    let a = TextureAtlas::pack(&sizes).unwrap();
    assert_eq!(a.items[0].x, 0);
    assert_eq!(a.items[1].x, 10);
    assert_eq!(a.items[2].x, 40);
    assert!(a.items.iter().all(|t| t.y == 0));
    // Row is 47 wide and 12 tall; the atlas rounds both up to powers of two.
    assert_eq!(a.width, 64);
    assert_eq!(a.height, 16);
}

#[test]
fn pack_rejects_a_zero_dimension() {
    let sizes: Vec<(u32, u32)> = vec![(64, 64), (0, 5)];
    let r = TextureAtlas::pack(&sizes);
    assert!(matches!(r, Err(RenderError::InvalidDimensions)));
    let sizes2: Vec<(u32, u32)> = vec![(3, 0)];
    assert!(matches!(TextureAtlas::pack(&sizes2), Err(RenderError::InvalidDimensions)));
}

#[test]
fn pack_of_no_images_is_a_unit_atlas() {
    let sizes: Vec<(u32, u32)> = Vec::new();
    let a = TextureAtlas::pack(&sizes).unwrap();
    assert_eq!(a.items.len(), 0);
    assert_eq!(a.width, 1);
    assert_eq!(a.height, 1);
}

#[test]
fn packing_twice_gives_identical_atlases() {
    // Rebuilding after a resize to the same dimensions must reproduce the
    // packing bit for bit.
    let sizes: Vec<(u32, u32)> = vec![(64, 64), (32, 48), (100, 20), (64, 64)];
    let a = TextureAtlas::pack(&sizes).unwrap();
    let b = TextureAtlas::pack(&sizes).unwrap();
    assert_eq!(a.width, b.width);
    assert_eq!(a.height, b.height);
    assert_eq!(a.items.len(), b.items.len());
    for (ta, tb) in a.items.iter().zip(b.items.iter()) {
        assert_eq!(ta, tb);
    }
}

#[test]
fn projection_matrix_for_800_by_600() {
    let p = Projection::create(800, 600);
    assert_eq!(p.canvas_width, 800);
    assert_eq!(p.canvas_height, 600);
    // 2/800 and -2/600 in fixed point, then the translation row.
    assert_eq!(p.matrix, [2_500, 0, 0, 0, -3_333, 0, -1_000_000, 1_000_000, 1_000_000]);
}

#[test]
fn projection_matrix_for_unit_canvas() {
    let p = Projection::create(1, 1);
    assert_eq!(p.matrix, [2_000_000, 0, 0, 0, -2_000_000, 0, -1_000_000, 1_000_000, 1_000_000]);
}
