use snowfield::geom::Point;
use snowfield::renderer::Sprite;
use snowfield::scene::{snowflake_count, SceneState, Stage, TickInput};

fn uniform_samples(n: usize) -> Vec<i64> {
    (0..n).map(|k| ((k as i64) * 37) % 1_000_000).collect()
}

fn quiet_input(now_millis: i64) -> TickInput {
    TickInput { now_millis, pointer: None, pulse_slow: 0, pulse_fast: 0 }
}

#[test]
fn snowflake_count_matches_density() {
    // floor(800 * 600 * 0.0006) = 288.
    assert_eq!(snowflake_count(800, 600), 288);
    assert_eq!(snowflake_count(1, 1), 0);
    assert_eq!(snowflake_count(1920, 1080), 1244);
}

#[test]
fn init_starts_loading_with_still_air() {
    let st = SceneState::init(800, 600, 6);
    assert_eq!(st.stage, Stage::Loading);
    assert_eq!(st.canvas_width, 800);
    assert_eq!(st.canvas_height, 600);
    assert_eq!(st.texture_count, 6);
    assert!(st.sprites.is_empty());
    assert_eq!(st.wind, Point { x: 0, y: 0 });
    assert!(st.prev_pointer.is_none());
    assert!(st.last_millis.is_none());
}

#[test]
fn loading_tick_builds_the_pulsing_sprite() {
    let mut st = SceneState::init(800, 600, 6);
    let input = TickInput {
        now_millis: 0,
        pointer: None,
        pulse_slow: 1_000_000,
        pulse_fast: 0,
    };
    st.tick(&input);
    assert_eq!(st.stage, Stage::Loading);
    assert_eq!(st.sprites.len(), 1);
    let s = &st.sprites[0];
    // dx = 0.15 * 1 = 150_000 millionths of a pixel; dy = dx * 80 / 270.
    assert_eq!(s.texture, 0);
    assert_eq!(s.position, Point { x: 399_850_000, y: 197_955_556 });
    assert_eq!(s.pivot, Point { x: 135_000_000, y: 40_000_000 });
    assert_eq!(s.rotation, 0);
    assert_eq!(s.width, 270_300_000);
    assert_eq!(s.height, 80_088_888);
    assert_eq!(s.alpha, 850_000);
}

#[test]
fn loading_tick_with_negative_pulse_shrinks_the_sprite() {
    let mut st = SceneState::init(800, 600, 1);
    let input = TickInput {
        now_millis: 0,
        pointer: None,
        pulse_slow: -1_000_000,
        pulse_fast: -1_000_000,
    };
    st.tick(&input);
    let s = &st.sprites[0];
    assert_eq!(s.width, 269_700_000);
    assert_eq!(s.height, 79_911_112);
    // alpha pulses between 0.7 and 1.0.
    assert_eq!(s.alpha, 700_000);
}

#[test]
fn begin_snowflakes_builds_the_field_once() {
    let mut st = SceneState::init(800, 600, 6);
    let rnd = vec![0i64; 3 * 288];
    st.begin_snowflakes(&rnd);
    assert_eq!(st.stage, Stage::Snowflakes);
    assert_eq!(st.sprites.len(), 288);
    assert!(st.last_millis.is_none());
    // With all-zero samples every sprite sits at the band's corner with no
    // rotation; depth still varies by index.
    let s0 = &st.sprites[0];
    assert_eq!(s0.texture, 0);
    assert_eq!(s0.position, Point { x: -100_000_000, y: -100_000_000 });
    assert_eq!(s0.rotation, 0);
    assert_eq!(s0.width, 15_000_000);
    assert_eq!(s0.height, 15_000_000);
    assert_eq!(s0.pivot, Point { x: 7_500_000, y: 7_500_000 });
    assert_eq!(s0.alpha, 250_000);
    // Index 1: depth fraction (2654435761 mod 1e6) = 435761.
    let s1 = &st.sprites[1];
    assert_eq!(s1.texture, 1);
    assert_eq!(s1.width, 49_860_880);
    assert_eq!(s1.alpha, 424_304);
}

#[test]
fn snowflake_samples_spread_position_and_rotation() {
    let mut st = SceneState::init(800, 600, 2);
    let mut rnd = vec![0i64; 3 * 288];
    rnd[0] = 500_000;
    rnd[1] = 100_000;
    rnd[2] = 250_000;
    st.begin_snowflakes(&rnd);
    let s0 = &st.sprites[0];
    // Half of the 1000-pixel band from -100: 400 px.
    assert_eq!(s0.position.x, 400_000_000);
    // A tenth of the 800-pixel band from -100: -20 px.
    assert_eq!(s0.position.y, -20_000_000);
    // A quarter turn.
    assert_eq!(s0.rotation, 1_570_796);
}

#[test]
fn first_tick_with_zero_delta_moves_nothing() {
    // The very first field tick has no previous timestamp: deltaSeconds is
    // zero and every sprite must stay exactly where it was built.
    let mut st = SceneState::init(800, 600, 3);
    let rnd = uniform_samples(3 * 288);
    st.begin_snowflakes(&rnd);
    let before: Vec<Sprite> = st.sprites.clone();
    st.tick(&quiet_input(123_456));
    assert_eq!(st.sprites.len(), before.len());
    for (now, then) in st.sprites.iter().zip(before.iter()) {
        assert_eq!(now.position, then.position);
        assert_eq!(now.rotation, then.rotation);
        assert_eq!(now.alpha, then.alpha);
        assert_eq!(now.width, then.width);
    }
    assert_eq!(st.wind, Point { x: 0, y: 0 });
    assert_eq!(st.last_millis, Some(123_456));
}

#[test]
fn wind_decays_by_half_the_elapsed_time() {
    // Half a second with no pointer: wind shrinks by the factor 1 - 0.25.
    let mut st = SceneState {
        stage: Stage::Snowflakes,
        canvas_width: 800,
        canvas_height: 600,
        texture_count: 1,
        sprites: Vec::new(),
        wind: Point { x: 100_000, y: -200_000 },
        prev_pointer: None,
        last_millis: Some(1_000),
    };
    st.tick(&quiet_input(1_500));
    assert_eq!(st.wind, Point { x: 75_000, y: -150_000 });
}

#[test]
fn zero_wind_with_no_input_stays_exactly_zero() {
    let mut st = SceneState {
        stage: Stage::Snowflakes,
        canvas_width: 800,
        canvas_height: 600,
        texture_count: 1,
        sprites: Vec::new(),
        wind: Point { x: 0, y: 0 },
        prev_pointer: None,
        last_millis: Some(0),
    };
    st.tick(&quiet_input(400));
    assert_eq!(st.wind, Point { x: 0, y: 0 });
    st.tick(&quiet_input(900));
    assert_eq!(st.wind, Point { x: 0, y: 0 });
}

#[test]
fn a_huge_delta_kills_the_wind_outright() {
    // More than a second between ticks (a backgrounded tab): the decay
    // factor is zero, whatever the wind was.
    let mut st = SceneState {
        stage: Stage::Snowflakes,
        canvas_width: 800,
        canvas_height: 600,
        texture_count: 1,
        sprites: Vec::new(),
        wind: Point { x: 650_000_000, y: -650_000_000 },
        prev_pointer: None,
        last_millis: Some(0),
    };
    st.tick(&quiet_input(30_000));
    assert_eq!(st.wind, Point { x: 0, y: 0 });
}

#[test]
fn pointer_movement_feeds_the_wind() {
    // A drag across half the canvas during one second at gain 350, then
    // one second's decay of one half.
    let mut st = SceneState {
        stage: Stage::Snowflakes,
        canvas_width: 800,
        canvas_height: 600,
        texture_count: 1,
        sprites: Vec::new(),
        wind: Point { x: 0, y: 0 },
        prev_pointer: Some(Point { x: 0, y: 0 }),
        last_millis: Some(0),
    };
    let input = TickInput {
        now_millis: 1_000,
        pointer: Some(Point { x: 400_000_000, y: 300_000_000 }),
        pulse_slow: 0,
        pulse_fast: 0,
    };
    st.tick(&input);
    assert_eq!(st.wind, Point { x: 87_500_000, y: 87_500_000 });
    assert_eq!(st.prev_pointer, Some(Point { x: 400_000_000, y: 300_000_000 }));
}

fn one_flake_state() -> SceneState {
    SceneState {
        stage: Stage::Snowflakes,
        canvas_width: 800,
        canvas_height: 600,
        texture_count: 1,
        sprites: vec![Sprite {
            texture: 0,
            position: Point { x: 0, y: 0 },
            pivot: Point { x: 7_500_000, y: 7_500_000 },
            rotation: 0,
            width: 15_000_000,
            height: 15_000_000,
            alpha: 500_000,
        }],
        wind: Point { x: 0, y: 0 },
        prev_pointer: None,
        last_millis: Some(0),
    }
}

#[test]
fn drift_moves_a_sprite_by_its_width() {
    // One second of still air: x drifts by 0.1 widths, y falls by 0.33
    // widths (the width scaling is the parallax cue).
    let mut st = one_flake_state();
    st.tick(&quiet_input(1_000));
    let s = &st.sprites[0];
    assert_eq!(s.position, Point { x: 1_500_000, y: 4_950_000 });
}

#[test]
fn rotation_advances_and_wraps_into_one_turn() {
    // Index 0 sits in the -0.05 spin bucket: one second takes the rotation
    // just below a full turn, still inside [0, tau).
    let mut st = one_flake_state();
    st.tick(&quiet_input(1_000));
    let s = &st.sprites[0];
    assert_eq!(s.rotation, 6_126_107);
    assert!(s.rotation >= 0 && s.rotation < 6_283_186);
}

#[test]
fn a_sprite_leaving_the_right_edge_reenters_left() {
    // The wrap band of an 800-wide canvas is [-100, 900): a sprite pushed
    // past it comes back offset by the 1000-pixel span.
    let mut st = one_flake_state();
    st.sprites[0].position.x = 899_000_000;
    st.tick(&quiet_input(1_000));
    let s = &st.sprites[0];
    assert_eq!(s.position.x, -99_500_000);
    assert!(s.position.x >= -100_000_000 && s.position.x < 900_000_000);
}

#[test]
fn resize_keeps_the_wind_and_rebuilds_the_field() {
    let mut st = SceneState::init(800, 600, 2);
    let rnd = uniform_samples(3 * 288);
    st.begin_snowflakes(&rnd);
    st.wind = Point { x: 1_234, y: -5_678 };
    let rnd2 = uniform_samples(3 * snowflake_count(1024, 768));
    st.resize(1024, 768, &rnd2);
    assert_eq!(st.stage, Stage::Snowflakes);
    assert_eq!(st.canvas_width, 1024);
    assert_eq!(st.canvas_height, 768);
    assert_eq!(st.wind, Point { x: 1_234, y: -5_678 });
    assert_eq!(st.sprites.len(), 471);
    assert!(st.last_millis.is_none());
    assert!(st.prev_pointer.is_none());
}

#[test]
fn resize_to_the_same_dimensions_rebuilds_the_same_field() {
    // The field is a function of dimensions and samples alone, so a
    // same-size rebuild with the same samples reproduces it exactly.
    let mut st = SceneState::init(800, 600, 4);
    let rnd = uniform_samples(3 * 288);
    st.begin_snowflakes(&rnd);
    let before: Vec<Sprite> = st.sprites.clone();
    st.resize(800, 600, &rnd);
    assert_eq!(st.sprites.len(), before.len());
    for (a, b) in st.sprites.iter().zip(before.iter()) {
        assert_eq!(a, b);
    }
}

#[test]
fn every_tick_keeps_rotations_wrapped_and_positions_banded() {
    // Many ticks under a pointer that circles the canvas: rotations stay
    // in [0, tau), positions stay inside the 100-pixel wrap band.
    let mut st = SceneState::init(640, 480, 3);
    let rnd = uniform_samples(3 * snowflake_count(640, 480));
    st.begin_snowflakes(&rnd);
    let mut now: i64 = 0;
    for step in 0i64..120 {
        now += 16;
        let pointer = if step % 3 == 0 {
            None
        } else {
            Some(Point {
                x: (step % 640) * 1_000_000,
                y: (step % 480) * 1_000_000,
            })
        };
        let input = TickInput { now_millis: now, pointer, pulse_slow: 0, pulse_fast: 0 };
        st.tick(&input);
        for s in st.sprites.iter() {
            assert!(s.rotation >= 0 && s.rotation < 6_283_186);
            assert!(s.position.x >= -100_000_000 && s.position.x < 740_000_000);
            assert!(s.position.y >= -100_000_000 && s.position.y < 580_000_000);
        }
    }
}
