use snowfield::fixed::FX_ONE;
use snowfield::geom::Point;
use snowfield::renderer::{build_buffers, Sprite, TextureAtlas};

fn one_item_atlas() -> TextureAtlas {
    TextureAtlas::pack(&vec![(64, 64)]).unwrap()
}

#[test]
fn buffers_for_one_unrotated_sprite() {
    let atlas = one_item_atlas();
    let sprite = Sprite {
        texture: 0,
        position: Point { x: 100_000_000, y: 50_000_000 },
        pivot: Point { x: 5_000_000, y: 5_000_000 },
        rotation: 0,
        width: 10_000_000,
        height: 20_000_000,
        alpha: 500_000,
    };
    let sprites = vec![sprite];
    let trig = vec![(FX_ONE, 0)];
    let (vertices, indices) = build_buffers(&sprites, &atlas, &trig);
    // Corner anchor: position minus the (unrotated) pivot.
    let expected: Vec<i64> = vec![
        95_000_000, 45_000_000, 0, 0, 500_000,
        105_000_000, 45_000_000, 1_000_000, 0, 500_000,
        105_000_000, 65_000_000, 1_000_000, 1_000_000, 500_000,
        95_000_000, 65_000_000, 0, 1_000_000, 500_000,
    ];
    assert_eq!(vertices, expected);
    assert_eq!(indices, vec![0, 1, 2, 0, 2, 3]);
}

#[test]
fn buffers_for_a_quarter_turned_sprite() {
    // A quarter turn is exact in fixed point: width edge becomes vertical,
    // height edge points left, and the pivot offset rotates with them.
    let atlas = one_item_atlas();
    let sprite = Sprite {
        texture: 0,
        position: Point { x: 0, y: 0 },
        pivot: Point { x: 2_000_000, y: 0 },
        rotation: 1_570_796,
        width: 10_000_000,
        height: 4_000_000,
        alpha: 1_000_000,
    };
    let sprites = vec![sprite];
    let trig = vec![(0, FX_ONE)];
    let (vertices, indices) = build_buffers(&sprites, &atlas, &trig);
    // Rotated pivot (2, 0) -> (0, 2); anchor = (0,0) - (0,2) = (0, -2).
    // Width edge (10, 0) -> (0, 10); height edge (0, 4) -> (-4, 0).
    let expected: Vec<i64> = vec![
        0, -2_000_000, 0, 0, 1_000_000,
        0, 8_000_000, 1_000_000, 0, 1_000_000,
        -4_000_000, 8_000_000, 1_000_000, 1_000_000, 1_000_000,
        -4_000_000, -2_000_000, 0, 1_000_000, 1_000_000,
    ];
    assert_eq!(vertices, expected);
    assert_eq!(indices, vec![0, 1, 2, 0, 2, 3]);
}

#[test]
fn buffers_index_two_sprites_in_order() {
    let atlas = one_item_atlas();
    let sprite = Sprite {
        texture: 0,
        position: Point { x: 0, y: 0 },
        pivot: Point { x: 0, y: 0 },
        rotation: 0,
        width: 1_000_000,
        height: 1_000_000,
        alpha: FX_ONE,
    };
    let sprites = vec![sprite, sprite];
    let trig = vec![(FX_ONE, 0), (FX_ONE, 0)];
    let (vertices, indices) = build_buffers(&sprites, &atlas, &trig);
    assert_eq!(vertices.len(), 40);
    assert_eq!(indices, vec![0, 1, 2, 0, 2, 3, 4, 5, 6, 4, 6, 7]);
}

#[test]
fn buffers_normalize_texture_coordinates_by_atlas_size() {
    // Two sources of different widths: the second rectangle starts at
    // x = 40 of a 64-wide atlas, so its u runs from 40/64 to 47/64.
    let atlas = TextureAtlas::pack(&vec![(40, 16), (7, 16)]).unwrap();
    assert_eq!(atlas.width, 64);
    let sprite = Sprite {
        texture: 1,
        position: Point { x: 0, y: 0 },
        pivot: Point { x: 0, y: 0 },
        rotation: 0,
        width: 1_000_000,
        height: 1_000_000,
        alpha: FX_ONE,
    };
    let sprites = vec![sprite];
    let trig = vec![(FX_ONE, 0)];
    let (vertices, _) = build_buffers(&sprites, &atlas, &trig);
    // u0 = 40/64 = 0.625; u1 = 47/64 = 0.734375; v1 = 16/16 = 1.
    assert_eq!(vertices[2], 625_000);
    assert_eq!(vertices[7], 734_375);
    assert_eq!(vertices[3], 0);
    assert_eq!(vertices[13], 1_000_000);
}

#[test]
fn buffers_for_no_sprites_are_empty() {
    let atlas = one_item_atlas();
    let sprites: Vec<Sprite> = Vec::new();
    let trig: Vec<(i64, i64)> = Vec::new();
    let (vertices, indices) = build_buffers(&sprites, &atlas, &trig);
    assert!(vertices.is_empty());
    assert!(indices.is_empty());
}
