use snowfield::fixed::FX_ONE;
use snowfield::geom::Point;

#[test]
fn add_and_sub_are_componentwise() {
    let a = Point { x: 3_000_000, y: -2_000_000 };
    let b = Point { x: 1_500_000, y: 4_000_000 };
    assert_eq!(a.add(b), Point { x: 4_500_000, y: 2_000_000 });
    assert_eq!(a.sub(b), Point { x: 1_500_000, y: -6_000_000 });
}

#[test]
fn mul_scales_both_coordinates() {
    let a = Point { x: 2_000_000, y: -3_000_000 };
    let half = 500_000;
    assert_eq!(a.mul(half), Point { x: 1_000_000, y: -1_500_000 });
}

#[test]
fn rotate_by_zero_angle_is_identity() {
    // Cosine one, sine zero: every point stays exactly in place.
    let p = Point { x: 123_456_789, y: -987_654_321 };
    let r = p.rotate(FX_ONE, 0);
    assert_eq!(r, p);
}

#[test]
fn rotate_by_quarter_turn_is_exact() {
    // Cosine zero, sine one is exact in fixed point: (x, y) -> (-y, x).
    let p = Point { x: 3_000_000, y: 4_000_000 };
    let r = p.rotate(0, FX_ONE);
    assert_eq!(r, Point { x: -4_000_000, y: 3_000_000 });
}

#[test]
fn rotate_preserves_length_within_tolerance() {
    // 30 degrees: cosine and sine samples rounded to fixed point.
    let c = 866_025;
    let s = 500_000;
    let p = Point { x: 5_000_000, y: -12_000_000 };
    let r = p.rotate(c, s);
    let before = ((p.x as f64).powi(2) + (p.y as f64).powi(2)).sqrt();
    let after = ((r.x as f64).powi(2) + (r.y as f64).powi(2)).sqrt();
    // The samples are within 1e-6 of the true cosine/sine, so the length
    // drifts by well under one fixed-point pixel here.
    assert!((before - after).abs() < 100.0, "length changed: {before} vs {after}");
}

#[test]
fn rotate_twice_matches_summed_angle_on_exact_samples() {
    // Two quarter turns equal one half turn; all three samples are exact
    // in fixed point, so the equality is exact.
    let p = Point { x: 7_000_000, y: 11_000_000 };
    let twice = p.rotate(0, FX_ONE).rotate(0, FX_ONE);
    let half_turn = p.rotate(-FX_ONE, 0);
    assert_eq!(twice, half_turn);
}

#[test]
fn zero_returns_origin() {
    assert_eq!(Point::zero(), Point { x: 0, y: 0 });
}
