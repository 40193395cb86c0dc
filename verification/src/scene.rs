//! The scene controller: a two-stage state machine (a pulsing loading
//! sprite, then a field of wind-driven drifting sprites) advanced by a pure
//! per-tick transition on fixed-point state. The host loop feeds each tick
//! the clock, the pointer, and two cosine samples; everything else — wind
//! inertia and decay, drift, screen-edge wrapping, bounded rotation — is
//! computed and proved here.

use vstd::prelude::*;
use vstd::pervasive::VecAdditionalExecFns;
use crate::fixed::{FX_ONE, fx_abs, fx_div, fx_mul, wrap_spec, div_fx, mul_fx, wrap_fx};
use crate::geom::Point;
use crate::renderer::Sprite;

verus! {

/// The circle constant pi in fixed-point units.
pub const FX_PI: i64 = 3_141_593;

/// A full turn (two pi) in fixed-point units; sprite rotations always stay
/// in `[0, FX_TAU)`.
pub const FX_TAU: i64 = 6_283_186;

/// Off-screen margin around the canvas, in fixed-point pixels (100 px):
/// sprites wander this far beyond every edge before wrapping across.
pub const MARGIN_FX: i64 = 100_000_000;

/// Upper bound on any sprite edge or pivot coordinate, in fixed-point
/// pixels (400 px).
pub const SIZE_LIM: i64 = 400_000_000;

/// Largest wind magnitude per axis that the decay model can reach
/// (700 units): the equilibrium of gaining at most 350 units per second
/// while decaying by half the elapsed time.
pub const WIND_LIM: i64 = 700_000_000;

/// Largest supported canvas edge, in pixels.
pub const MAX_DIM: u32 = 32_768;

/// Largest supported canvas area, in pixels: keeps the sprite count within
/// what sixteen-bit vertex indices can address.
pub const MAX_AREA: u64 = 27_000_000;

/// Latest supported clock reading, in milliseconds.
pub const MAX_MILLIS: i64 = 4_000_000_000_000;

/// Longest supported single frame delta, in milliseconds.
pub const MAX_TICK_MILLIS: i64 = 1_000_000_000;

/// The two stages of the scene. `Loading` shows one pulsing sprite;
/// `Snowflakes` runs the drifting field. The transition fires once, when
/// the images have arrived, and never goes back.
#[derive(Clone, Copy, PartialEq, Eq, Structural, Debug)]
pub enum Stage {
    Loading,
    Snowflakes,
}

/// What the host hands each tick: the clock, the pressed pointer position
/// (if any), and two cosine oscillator samples of the clock used by the
/// loading pulse.
pub struct TickInput {
    pub now_millis: i64,
    pub pointer: Option<Point>,
    pub pulse_slow: i64,
    pub pulse_fast: i64,
}

/// The whole mutable simulation state, owned by one controller.
pub struct SceneState {
    pub stage: Stage,
    pub canvas_width: u32,
    pub canvas_height: u32,
    pub texture_count: usize,
    pub sprites: Vec<Sprite>,
    pub wind: Point,
    pub prev_pointer: Option<Point>,
    pub last_millis: Option<i64>,
}

/// Supported canvas dimensions.
pub open spec fn dims_ok(w: int, h: int) -> bool {
    &&& 1 <= w <= MAX_DIM as int
    &&& 1 <= h <= MAX_DIM as int
    &&& w * h <= MAX_AREA as int
}

/// The motion part of sprite well-formedness: position inside the wrap band
/// of a `w` by `h` pixel canvas, rotation inside one turn, opacity inside
/// `[0, 1]`, sizes and pivot bounded.
pub open spec fn sprite_motion_wf(s: Sprite, w: int, h: int) -> bool {
    &&& -(MARGIN_FX as int) <= s.position.x < w * (FX_ONE as int) + MARGIN_FX
    &&& -(MARGIN_FX as int) <= s.position.y < h * (FX_ONE as int) + MARGIN_FX
    &&& 0 <= s.rotation < FX_TAU
    &&& 0 <= s.alpha <= FX_ONE
    &&& 0 < s.width <= SIZE_LIM
    &&& 0 <= s.height <= SIZE_LIM
    &&& 0 <= s.pivot.x <= SIZE_LIM
    &&& 0 <= s.pivot.y <= SIZE_LIM
}

/// Full sprite well-formedness: motion bounds plus a texture index that the
/// atlas can serve.
pub open spec fn sprite_wf(s: Sprite, w: int, h: int, ntex: int) -> bool {
    &&& sprite_motion_wf(s, w, h)
    &&& (s.texture as int) < ntex
}

/// The controller's invariant: supported dimensions, well-formed sprites,
/// wind within its decay equilibrium, and remembered pointer and clock
/// readings within their ranges.
pub open spec fn state_wf(st: SceneState) -> bool {
    &&& dims_ok(st.canvas_width as int, st.canvas_height as int)
    &&& 1 <= st.texture_count
    &&& st.sprites@.len() <= 16384
    &&& forall|i: int|
        0 <= i < st.sprites@.len() ==> sprite_wf(
            #[trigger] st.sprites@[i],
            st.canvas_width as int,
            st.canvas_height as int,
            st.texture_count as int,
        )
    &&& fx_abs(st.wind.x as int) <= WIND_LIM as int
    &&& fx_abs(st.wind.y as int) <= WIND_LIM as int
    &&& match st.prev_pointer {
        Some(p) => 0 <= p.x <= (st.canvas_width as int) * (FX_ONE as int) && 0 <= p.y <= (
        st.canvas_height as int) * (FX_ONE as int),
        None => true,
    }
    &&& match st.last_millis {
        Some(t) => 0 <= t <= MAX_MILLIS,
        None => true,
    }
}

/// How many sprites a `w` by `h` pixel canvas gets: its area times the
/// density constant 0.0006, rounded down.
pub open spec fn flake_count(w: int, h: int) -> int {
    (w * h * 600) / 1_000_000
}

/// The pseudo-random depth fraction of sprite `i`, in fixed-point `[0, 1)`:
/// a fixed multiplicative scramble of the index, so it needs no per-sprite
/// random state and survives rebuilds.
pub open spec fn depth_of(i: int) -> int {
    (i * 2_654_435_761) % 1_000_000
}

/// The number of sprites the snowflake stage builds on the given canvas.
pub fn snowflake_count(width: u32, height: u32) -> (n: usize)
    requires
        (width as int) * (height as int) <= MAX_AREA as int,
    ensures
        n == flake_count(width as int, height as int),
        n <= 16384,
{
    proof {
        assert((width as int) * (height as int) * 600 <= 16_384_000_000) by (nonlinear_arith)
            requires
                0 <= (width as int) * (height as int) <= 27_000_000,
        ;
        assert((width as int) * (height as int) >= 0) by (nonlinear_arith);
    }
    let area: u64 = (width as u64) * (height as u64);
    let n: u64 = (area * 600) / 1_000_000;
    n as usize
}

/// Sprite `i` of the snowflake field, built from its depth fraction and the
/// three uniform fixed-point samples `rnd[3i .. 3i+3]`: depth sets size and
/// opacity; the samples spread position over the wrap band and rotation
/// over one turn; textures cycle through the atlas.
pub open spec fn snowflake_at(s: Sprite, i: int, w: int, h: int, ntex: int, rnd: Seq<i64>) -> bool {
    let d = depth_of(i);
    let size = 15_000_000 + 80 * d;
    &&& s.texture as int == i % ntex
    &&& s.position.x == -(MARGIN_FX as int) + fx_mul((w + 200) * (FX_ONE as int), rnd[3 * i] as int)
    &&& s.position.y == -(MARGIN_FX as int) + fx_mul(
        (h + 200) * (FX_ONE as int),
        rnd[3 * i + 1] as int,
    )
    &&& s.pivot.x == size / 2
    &&& s.pivot.y == size / 2
    &&& s.rotation == fx_mul(FX_TAU as int, rnd[3 * i + 2] as int)
    &&& s.width == size
    &&& s.height == size
    &&& s.alpha == 250_000 + fx_mul(400_000, d)
}

/// Uniform fixed-point samples in `[0, 1)`.
pub open spec fn rnd_ok(rnd: Seq<i64>) -> bool {
    forall|k: int| 0 <= k < rnd.len() ==> 0 <= #[trigger] rnd[k] < FX_ONE
}

/// The depth fraction of index `i`.
fn depth_fraction(i: usize) -> (d: i64)
    requires
        i <= 16384,
    ensures
        d == depth_of(i as int),
        0 <= d < FX_ONE,
{
    (((i as u64) * 2_654_435_761) % 1_000_000) as i64
}

/// Builds one snowflake sprite.
fn build_snowflake(i: usize, w: u32, h: u32, ntex: usize, r0: i64, r1: i64, r2: i64) -> (s: Sprite)
    requires
        dims_ok(w as int, h as int),
        1 <= ntex,
        i <= 16384,
        0 <= r0 < FX_ONE,
        0 <= r1 < FX_ONE,
        0 <= r2 < FX_ONE,
    ensures
        ({
            let d = depth_of(i as int);
            let size = 15_000_000 + 80 * d;
            &&& s.texture as int == i as int % ntex as int
            &&& s.position.x == -(MARGIN_FX as int) + fx_mul(
                (w as int + 200) * (FX_ONE as int),
                r0 as int,
            )
            &&& s.position.y == -(MARGIN_FX as int) + fx_mul(
                (h as int + 200) * (FX_ONE as int),
                r1 as int,
            )
            &&& s.pivot.x == size / 2
            &&& s.pivot.y == size / 2
            &&& s.rotation == fx_mul(FX_TAU as int, r2 as int)
            &&& s.width == size
            &&& s.height == size
            &&& s.alpha == 250_000 + fx_mul(400_000, d)
        }),
        sprite_wf(s, w as int, h as int, ntex as int),
{
    let d: i64 = depth_fraction(i);
    let size: i64 = 15_000_000 + 80 * d;
    let span_x: i64 = (w as i64 + 200) * FX_ONE;
    let span_y: i64 = (h as i64 + 200) * FX_ONE;
    proof {
        assert(fx_abs((span_x as int) * (r0 as int)) <= (i64::MAX as int) * (FX_ONE as int))
            by (nonlinear_arith)
            requires
                0 <= span_x <= 33_000_000_000i64,
                0 <= r0 < 1_000_000i64,
        ;
        assert(fx_abs((span_y as int) * (r1 as int)) <= (i64::MAX as int) * (FX_ONE as int))
            by (nonlinear_arith)
            requires
                0 <= span_y <= 33_000_000_000i64,
                0 <= r1 < 1_000_000i64,
        ;
        assert(fx_abs((FX_TAU as int) * (r2 as int)) <= (i64::MAX as int) * (FX_ONE as int))
            by (nonlinear_arith)
            requires
                0 <= r2 < 1_000_000i64,
        ;
        assert(fx_abs((400_000 as int) * (d as int)) <= (i64::MAX as int) * (FX_ONE as int))
            by (nonlinear_arith)
            requires
                0 <= d < 1_000_000i64,
        ;
    }
    let off_x: i64 = mul_fx(span_x, r0);
    let off_y: i64 = mul_fx(span_y, r1);
    let rot: i64 = mul_fx(FX_TAU, r2);
    let da: i64 = mul_fx(400_000, d);
    proof {
        crate::fixed::lemma_fx_div_mag((span_x as int) * (r0 as int), FX_ONE as int);
        crate::fixed::lemma_fx_div_mag((span_y as int) * (r1 as int), FX_ONE as int);
        crate::fixed::lemma_fx_div_mag((FX_TAU as int) * (r2 as int), FX_ONE as int);
        crate::fixed::lemma_fx_div_mag((400_000 as int) * (d as int), FX_ONE as int);
        assert(fx_abs((span_x as int) * (r0 as int)) == (span_x as int) * (r0 as int))
            by (nonlinear_arith)
            requires
                0 <= span_x,
                0 <= r0,
        ;
        assert(fx_abs((span_y as int) * (r1 as int)) == (span_y as int) * (r1 as int))
            by (nonlinear_arith)
            requires
                0 <= span_y,
                0 <= r1,
        ;
        assert(fx_abs((FX_TAU as int) * (r2 as int)) == (FX_TAU as int) * (r2 as int))
            by (nonlinear_arith)
            requires
                0 <= r2,
        ;
        assert(fx_abs((400_000 as int) * (d as int)) == 400_000 * (d as int)) by (nonlinear_arith)
            requires
                0 <= d,
        ;
        assert((span_x as int) * (r0 as int) / (FX_ONE as int) < span_x as int)
            by (nonlinear_arith)
            requires
                201_000_000 <= span_x as int,
                0 <= r0 < 1_000_000i64,
        ;
        assert((span_y as int) * (r1 as int) / (FX_ONE as int) < span_y as int)
            by (nonlinear_arith)
            requires
                201_000_000 <= span_y as int,
                0 <= r1 < 1_000_000i64,
        ;
        assert((FX_TAU as int) * (r2 as int) / (FX_ONE as int) < FX_TAU as int)
            by (nonlinear_arith)
            requires
                0 <= r2 < 1_000_000i64,
        ;
        assert(400_000 * (d as int) / (FX_ONE as int) < 400_000) by (nonlinear_arith)
            requires
                0 <= d < 1_000_000i64,
        ;
    }
    let half: i64 = ((size as u64) / 2) as i64;
    Sprite {
        texture: i % ntex,
        position: Point { x: -MARGIN_FX + off_x, y: -MARGIN_FX + off_y },
        pivot: Point { x: half, y: half },
        rotation: rot,
        width: size,
        height: size,
        alpha: 250_000 + da,
    }
}

/// Builds the whole snowflake field from `3 * flake_count` uniform samples.
fn build_snowflakes(w: u32, h: u32, ntex: usize, rnd: &Vec<i64>) -> (v: Vec<Sprite>)
    requires
        dims_ok(w as int, h as int),
        1 <= ntex,
        rnd@.len() == 3 * flake_count(w as int, h as int),
        rnd_ok(rnd@),
    ensures
        v@.len() == flake_count(w as int, h as int),
        forall|i: int|
            0 <= i < v@.len() ==> snowflake_at(
                #[trigger] v@[i],
                i,
                w as int,
                h as int,
                ntex as int,
                rnd@,
            ),
        forall|i: int|
            0 <= i < v@.len() ==> sprite_wf(#[trigger] v@[i], w as int, h as int, ntex as int),
{
    let n: usize = snowflake_count(w, h);
    let mut v: Vec<Sprite> = Vec::new();
    let mut i: usize = 0;
    while i < n
        invariant
            dims_ok(w as int, h as int),
            1 <= ntex,
            n == flake_count(w as int, h as int),
            n <= 16384,
            rnd@.len() == 3 * n,
            rnd_ok(rnd@),
            0 <= i <= n,
            v@.len() == i,
            forall|j: int|
                0 <= j < i ==> snowflake_at(#[trigger] v@[j], j, w as int, h as int, ntex as int, rnd@),
            forall|j: int|
                0 <= j < i ==> sprite_wf(#[trigger] v@[j], w as int, h as int, ntex as int),
        decreases n - i,
    {
        let s: Sprite = build_snowflake(i, w, h, ntex, rnd[3 * i], rnd[3 * i + 1], rnd[3 * i + 2]);
        v.push(s);
        i = i + 1;
    }
    v
}

/// The loading-stage sprite for the given canvas and the two cosine samples
/// `c1` (size breathing) and `c2` (opacity pulsing): a fixed rectangle
/// centered horizontally at a third of the height, breathing by
/// `0.15 * c1` pixels (scaled by its aspect ratio vertically) and pulsing
/// between 0.7 and 1.0 opacity.
pub open spec fn loading_sprite_at(s: Sprite, w: int, h: int, c1: int, c2: int) -> bool {
    let dx = fx_mul(150_000, c1);
    let dy = fx_div(dx * 80, 270);
    &&& s.texture as int == 0
    &&& s.position.x == w * 500_000 - dx
    &&& s.position.y == h * 330_000 - dy
    &&& s.pivot.x == 135_000_000
    &&& s.pivot.y == 40_000_000
    &&& s.rotation == 0
    &&& s.width == 270_000_000 + 2 * dx
    &&& s.height == 80_000_000 + 2 * dy
    &&& s.alpha == 850_000 + fx_mul(150_000, c2)
}

/// Builds the loading-stage sprite.
fn loading_sprite(w: u32, h: u32, c1: i64, c2: i64) -> (s: Sprite)
    requires
        dims_ok(w as int, h as int),
        fx_abs(c1 as int) <= FX_ONE as int,
        fx_abs(c2 as int) <= FX_ONE as int,
    ensures
        loading_sprite_at(s, w as int, h as int, c1 as int, c2 as int),
        sprite_motion_wf(s, w as int, h as int),
        s.texture == 0,
{
    proof {
        crate::fixed::lemma_fx_mul_mag(150_000, c1 as int);
        crate::fixed::lemma_fx_mul_mag(150_000, c2 as int);
    }
    let dx: i64 = mul_fx(150_000, c1);
    proof {
        crate::fixed::lemma_fx_div_mag((dx as int) * 80, 270);
        assert(fx_abs((dx as int) * 80) <= 12_000_000) by (nonlinear_arith)
            requires
                fx_abs(dx as int) <= 150_000,
        ;
        assert(fx_abs((dx as int) * 80) / 270 <= 44_445) by (nonlinear_arith)
            requires
                fx_abs((dx as int) * 80) <= 12_000_000,
        ;
    }
    let dy: i64 = div_fx(dx * 80, 270);
    let px: i64 = (w as i64) * 500_000 - dx;
    let py: i64 = (h as i64) * 330_000 - dy;
    let alpha: i64 = 850_000 + mul_fx(150_000, c2);
    proof {
        assert((w as int) * 500_000 >= 500_000) by (nonlinear_arith)
            requires
                1 <= w as int,
        ;
        assert((w as int) * 500_000 <= (w as int) * 1_000_000) by (nonlinear_arith)
            requires
                1 <= w as int,
        ;
        assert((h as int) * 330_000 >= 330_000) by (nonlinear_arith)
            requires
                1 <= h as int,
        ;
        assert((h as int) * 330_000 <= (h as int) * 1_000_000) by (nonlinear_arith)
            requires
                1 <= h as int,
        ;
        assert((w as int) * 500_000 <= 16_384_000_000i64) by (nonlinear_arith)
            requires
                w as int <= 32_768,
        ;
        assert((h as int) * 330_000 <= 16_384_000_000i64) by (nonlinear_arith)
            requires
                h as int <= 32_768,
        ;
    }
    Sprite {
        texture: 0,
        position: Point { x: px, y: py },
        pivot: Point { x: 135_000_000, y: 40_000_000 },
        rotation: 0,
        width: 270_000_000 + 2 * dx,
        height: 80_000_000 + 2 * dy,
        alpha,
    }
}

impl SceneState {
    /// A fresh controller in the loading stage: no sprites yet, still air,
    /// nothing remembered.
    pub fn init(canvas_width: u32, canvas_height: u32, texture_count: usize) -> (st: SceneState)
        requires
            dims_ok(canvas_width as int, canvas_height as int),
            1 <= texture_count,
        ensures
            state_wf(st),
            st.stage is Loading,
            st.canvas_width == canvas_width,
            st.canvas_height == canvas_height,
            st.texture_count == texture_count,
            st.sprites@.len() == 0,
            st.wind.x == 0 && st.wind.y == 0,
            st.prev_pointer is None,
            st.last_millis is None,
    {
        SceneState {
            stage: Stage::Loading,
            canvas_width,
            canvas_height,
            texture_count,
            sprites: Vec::new(),
            wind: Point { x: 0, y: 0 },
            prev_pointer: None,
            last_millis: None,
        }
    }
}

/// Elapsed simulated time of one tick, in fixed-point seconds: the clock
/// delta since the remembered reading, or zero on the very first tick (so
/// a fresh scene never takes an initial jump).
pub open spec fn tick_dt(st: SceneState, inp: TickInput) -> int {
    match st.last_millis {
        Some(t) => (inp.now_millis - t) * 1000,
        None => 0,
    }
}

/// Horizontal pointer movement since the previous tick; zero unless a
/// pressed pointer was seen both then and now.
pub open spec fn pointer_delta_x(st: SceneState, inp: TickInput) -> int {
    match st.prev_pointer {
        Some(p) => match inp.pointer {
            Some(q) => q.x - p.x,
            None => 0,
        },
        None => 0,
    }
}

/// Vertical pointer movement since the previous tick; zero unless a
/// pressed pointer was seen both then and now.
pub open spec fn pointer_delta_y(st: SceneState, inp: TickInput) -> int {
    match st.prev_pointer {
        Some(p) => match inp.pointer {
            Some(q) => q.y - p.y,
            None => 0,
        },
        None => 0,
    }
}

/// The decay factor one tick applies to the wind: one minus half the
/// elapsed seconds, or zero outright for a delta beyond one second (a tab
/// waking from the background must not inherit runaway wind).
pub open spec fn decay_of(dt: int) -> int {
    if dt <= FX_ONE as int {
        (FX_ONE as int) - dt / 2
    } else {
        0
    }
}

/// One tick of the wind model on one axis: the pointer movement `d`,
/// normalized by the canvas dimension `dim`, feeds the wind at gain 350
/// per second of `dt`; the sum then decays.
pub open spec fn wind_step(w: int, d: int, dim: int, dt: int) -> int {
    fx_mul(w + fx_mul(fx_div(d, dim) * 350, dt), decay_of(dt))
}

/// The per-index spin bucket, a fixed-point multiple of pi radians per
/// second: five fixed rates keyed by the index, deterministic variety
/// with no per-sprite random state.
pub open spec fn spin_of(i: int) -> int {
    let m = i % 5;
    if m == 0 {
        -50_000
    } else if m == 1 {
        -25_000
    } else if m == 2 {
        0
    } else if m == 3 {
        25_000
    } else {
        50_000
    }
}

/// How one tick moves one sprite: position drifts by `dt` times the wind
/// plus a constant drift, scaled by the sprite's width (nearer, larger
/// sprites move faster — a cheap parallax cue), then wraps into the
/// off-screen band; rotation advances by `dt * pi` times the sprite's spin
/// bucket and wraps into one turn; nothing else changes.
pub open spec fn advanced_from(
    s2: Sprite,
    s: Sprite,
    i: int,
    wx: int,
    wy: int,
    dt: int,
    w: int,
    h: int,
) -> bool {
    &&& s2.texture == s.texture
    &&& s2.pivot == s.pivot
    &&& s2.width == s.width
    &&& s2.height == s.height
    &&& s2.alpha == s.alpha
    &&& s2.position.x == wrap_spec(
        s.position.x + fx_mul(fx_mul(dt, wx + 100_000), s.width as int),
        -(MARGIN_FX as int),
        (w + 200) * (FX_ONE as int),
    )
    &&& s2.position.y == wrap_spec(
        s.position.y + fx_mul(fx_mul(dt, fx_mul(wy, 500_000) + 330_000), s.width as int),
        -(MARGIN_FX as int),
        (h + 200) * (FX_ONE as int),
    )
    &&& s2.rotation == wrap_spec(
        s.rotation + fx_mul(dt, fx_mul(FX_PI as int, spin_of(i))),
        0,
        FX_TAU as int,
    )
}

/// What a tick may be handed: a clock reading within range and not before
/// the remembered one nor absurdly far past it, a pointer inside the
/// canvas, and cosine samples of magnitude at most one.
pub open spec fn input_ok(st: SceneState, inp: TickInput) -> bool {
    &&& 0 <= inp.now_millis <= MAX_MILLIS
    &&& match st.last_millis {
        Some(t) => t <= inp.now_millis && inp.now_millis - t <= MAX_TICK_MILLIS,
        None => true,
    }
    &&& match inp.pointer {
        Some(p) => 0 <= p.x <= (st.canvas_width as int) * (FX_ONE as int) && 0 <= p.y <= (
        st.canvas_height as int) * (FX_ONE as int),
        None => true,
    }
    &&& fx_abs(inp.pulse_slow as int) <= FX_ONE as int
    &&& fx_abs(inp.pulse_fast as int) <= FX_ONE as int
}

/// One wind step never leaves the equilibrium band: the gain is at most
/// 350 units per second of `dt` while the decay removes half the elapsed
/// time's worth, and 700 is exactly the balance point.
proof fn lemma_wind_step_bound(w: int, d: int, dim: int, dt: int)
    requires
        fx_abs(w) <= WIND_LIM as int,
        fx_abs(d) <= dim * (FX_ONE as int),
        1 <= dim,
        0 <= dt,
        dt % 2 == 0,
    ensures
        fx_abs(wind_step(w, d, dim, dt)) <= WIND_LIM as int,
{
    let nd = fx_div(d, dim);
    crate::fixed::lemma_fx_div_mag(d, dim);
    assert(fx_abs(d) / dim <= FX_ONE as int) by (nonlinear_arith)
        requires
            fx_abs(d) <= dim * (FX_ONE as int),
            1 <= dim,
            0 <= fx_abs(d),
    ;
    let c = fx_mul(nd * 350, dt);
    crate::fixed::lemma_fx_div_mag((nd * 350) * dt, FX_ONE as int);
    assert(fx_abs((nd * 350) * dt) <= 350_000_000 * dt) by (nonlinear_arith)
        requires
            fx_abs(nd) <= 1_000_000,
            0 <= dt,
    ;
    if dt > FX_ONE as int {
        assert((w + c) * 0 == 0) by (nonlinear_arith);
        assert(fx_div(0, FX_ONE as int) == 0) by {
            vstd::arithmetic::div_mod::lemma_div_of0(FX_ONE as int);
        }
    } else {
        let cc = fx_abs(c);
        assert(cc * 1_000_000 <= 350_000_000 * dt) by {
            vstd::arithmetic::div_mod::lemma_fundamental_div_mod(
                fx_abs((nd * 350) * dt),
                1_000_000,
            );
            assert(cc == fx_abs((nd * 350) * dt) / 1_000_000);
            assert(cc * 1_000_000 <= fx_abs((nd * 350) * dt)) by (nonlinear_arith)
                requires
                    fx_abs((nd * 350) * dt) == 1_000_000 * cc + fx_abs((nd * 350) * dt)
                        % 1_000_000,
                    0 <= fx_abs((nd * 350) * dt) % 1_000_000,
            ;
        }
        let dd = dt / 2;
        assert(2 * dd == dt) by {
            vstd::arithmetic::div_mod::lemma_fundamental_div_mod(dt, 2);
        }
        let decay = (FX_ONE as int) - dd;
        assert(decay_of(dt) == decay);
        assert(0 <= decay <= 1_000_000);
        crate::fixed::lemma_fx_div_mag((w + c) * decay, FX_ONE as int);
        assert(fx_abs((w + c) * decay) <= (700_000_000 + cc) * decay) by (nonlinear_arith)
            requires
                fx_abs(w) <= 700_000_000,
                cc == fx_abs(c),
                0 <= decay,
        ;
        assert((700_000_000 + cc) * decay <= 700_000_000 * 1_000_000) by (nonlinear_arith)
            requires
                cc * 1_000_000 <= 350_000_000 * dt,
                decay == 1_000_000 - dd,
                2 * dd == dt,
                0 <= dt <= 1_000_000,
                0 <= cc,
        ;
        assert(fx_abs((w + c) * decay) / (FX_ONE as int) <= 700_000_000) by (nonlinear_arith)
            requires
                fx_abs((w + c) * decay) <= 700_000_000 * 1_000_000,
                0 <= fx_abs((w + c) * decay),
        ;
    }
}

/// With no pointer contribution and a delta of at most one second, one wind
/// step is exactly the previous wind times the decay factor `1 - dt/2`
/// (all fixed-point); wind that is exactly zero stays exactly zero.
pub proof fn lemma_wind_decay(w: int, dim: int, dt: int)
    requires
        1 <= dim,
        0 <= dt <= FX_ONE as int,
    ensures
        wind_step(w, 0, dim, dt) == fx_mul(w, (FX_ONE as int) - dt / 2),
        w == 0 ==> wind_step(w, 0, dim, dt) == 0,
{
    vstd::arithmetic::div_mod::lemma_div_of0(dim);
    vstd::arithmetic::div_mod::lemma_div_of0(FX_ONE as int);
    assert(fx_div(0, dim) == 0);
    assert(fx_mul((0int) * 350, dt) == 0) by {
        assert((0int) * 350 == 0) by (nonlinear_arith);
        assert((0int) * dt == 0) by (nonlinear_arith);
    }
    assert(wind_step(w, 0, dim, dt) == fx_mul(w + 0, decay_of(dt)));
    if w == 0 {
        assert(0 * decay_of(dt) == 0) by (nonlinear_arith);
    }
}

/// A tick of zero elapsed time moves nothing: advancing a well-formed
/// sprite by `dt == 0` keeps its position and rotation exactly (the drift
/// terms vanish, and wrapping a value already inside its band is the
/// identity).
pub proof fn lemma_zero_delta_fixes_sprite(
    s2: Sprite,
    s: Sprite,
    i: int,
    wx: int,
    wy: int,
    w: int,
    h: int,
)
    requires
        advanced_from(s2, s, i, wx, wy, 0, w, h),
        sprite_motion_wf(s, w, h),
        1 <= w,
        1 <= h,
    ensures
        s2.position.x == s.position.x,
        s2.position.y == s.position.y,
        s2.rotation == s.rotation,
{
    vstd::arithmetic::div_mod::lemma_div_of0(FX_ONE as int);
    assert(0 * (wx + 100_000) == 0) by (nonlinear_arith);
    assert(0 * (fx_mul(wy, 500_000) + 330_000) == 0) by (nonlinear_arith);
    assert(0 * fx_mul(FX_PI as int, spin_of(i)) == 0) by (nonlinear_arith);
    assert(fx_mul(0, wx + 100_000) == 0);
    assert(fx_mul(0, fx_mul(wy, 500_000) + 330_000) == 0);
    assert(fx_mul(0, fx_mul(FX_PI as int, spin_of(i))) == 0);
    assert(0 * (s.width as int) == 0) by (nonlinear_arith);
    assert(fx_mul(0, s.width as int) == 0);
}

/// Advances one sprite by one tick of `dt` fixed-point seconds under the
/// given wind.
fn advance_sprite(s: Sprite, idx: usize, wx: i64, wy: i64, dt: i64, w: u32, h: u32) -> (r: Sprite)
    requires
        sprite_motion_wf(s, w as int, h as int),
        dims_ok(w as int, h as int),
        fx_abs(wx as int) <= WIND_LIM as int,
        fx_abs(wy as int) <= WIND_LIM as int,
        0 <= dt <= 1_000_000_000_000,
    ensures
        advanced_from(r, s, idx as int, wx as int, wy as int, dt as int, w as int, h as int),
        sprite_motion_wf(r, w as int, h as int),
        r.texture == s.texture,
{
    proof {
        assert(fx_abs((dt as int) * ((wx as int) + 100_000)) <= 800_000_000_000_000 * 1_000_000)
            by (nonlinear_arith)
            requires
                0 <= dt <= 1_000_000_000_000i64,
                fx_abs(wx as int) <= 700_000_000i64,
        ;
    }
    let vx: i64 = mul_fx(dt, wx + 100_000);
    proof {
        crate::fixed::lemma_fx_mul_le(dt as int, (wx as int) + 100_000, 800_000_000_000_000);
        assert(fx_abs((vx as int) * (s.width as int)) <= 320_000_000_000_000_000 * 1_000_000)
            by (nonlinear_arith)
            requires
                fx_abs(vx as int) <= 800_000_000_000_000i64,
                0 <= s.width <= 400_000_000i64,
        ;
    }
    let mx: i64 = mul_fx(vx, s.width);
    proof {
        crate::fixed::lemma_fx_mul_le(vx as int, s.width as int, 320_000_000_000_000_000);
        assert(fx_abs((wy as int) * 500_000) <= 350_000_000 * 1_000_000) by (nonlinear_arith)
            requires
                fx_abs(wy as int) <= 700_000_000i64,
        ;
    }
    let ry: i64 = mul_fx(wy, 500_000);
    proof {
        crate::fixed::lemma_fx_mul_le(wy as int, 500_000, 350_000_000);
        assert(fx_abs((dt as int) * ((ry as int) + 330_000)) <= 800_000_000_000_000 * 1_000_000)
            by (nonlinear_arith)
            requires
                0 <= dt <= 1_000_000_000_000i64,
                fx_abs(ry as int) <= 350_000_000i64,
        ;
    }
    let vy: i64 = mul_fx(dt, ry + 330_000);
    proof {
        crate::fixed::lemma_fx_mul_le(dt as int, (ry as int) + 330_000, 800_000_000_000_000);
        assert(fx_abs((vy as int) * (s.width as int)) <= 320_000_000_000_000_000 * 1_000_000)
            by (nonlinear_arith)
            requires
                fx_abs(vy as int) <= 800_000_000_000_000i64,
                0 <= s.width <= 400_000_000i64,
        ;
    }
    let my: i64 = mul_fx(vy, s.width);
    proof {
        crate::fixed::lemma_fx_mul_le(vy as int, s.width as int, 320_000_000_000_000_000);
    }
    let span_x: i64 = (w as i64 + 200) * FX_ONE;
    let span_y: i64 = (h as i64 + 200) * FX_ONE;
    let nx: i64 = wrap_fx(s.position.x + mx, -MARGIN_FX, span_x);
    let ny: i64 = wrap_fx(s.position.y + my, -MARGIN_FX, span_y);
    let m5: usize = idx % 5;
    let spin: i64 = if m5 == 0 {
        -50_000
    } else if m5 == 1 {
        -25_000
    } else if m5 == 2 {
        0
    } else if m5 == 3 {
        25_000
    } else {
        50_000
    };
    proof {
        assert(spin as int == spin_of(idx as int));
        assert(fx_abs((FX_PI as int) * (spin as int)) <= 3_141_593 * 1_000_000)
            by (nonlinear_arith)
            requires
                fx_abs(spin as int) <= 50_000i64,
        ;
    }
    let rrate: i64 = mul_fx(FX_PI, spin);
    proof {
        crate::fixed::lemma_fx_mul_le(FX_PI as int, spin as int, 3_141_593);
        assert(fx_abs((dt as int) * (rrate as int)) <= 3_141_593_000_000_000_000)
            by (nonlinear_arith)
            requires
                0 <= dt <= 1_000_000_000_000i64,
                fx_abs(rrate as int) <= 3_141_593i64,
        ;
        assert(fx_abs((dt as int) * (rrate as int)) <= 3_200_000_000_000 * 1_000_000);
    }
    let rd: i64 = mul_fx(dt, rrate);
    proof {
        crate::fixed::lemma_fx_mul_le(dt as int, rrate as int, 3_200_000_000_000);
    }
    let nrot: i64 = wrap_fx(s.rotation + rd, 0, FX_TAU);
    Sprite {
        texture: s.texture,
        position: Point { x: nx, y: ny },
        pivot: s.pivot,
        rotation: nrot,
        width: s.width,
        height: s.height,
        alpha: s.alpha,
    }
}

impl SceneState {
    /// Fires the one-way transition into the snowflake stage, building the
    /// field from `3 * flake_count` uniform fixed-point samples; the wind
    /// carries over, the pointer and clock memories start fresh (so the
    /// first field tick has a zero delta).
    pub fn begin_snowflakes(&mut self, rnd: &Vec<i64>)
        requires
            state_wf(*old(self)),
            old(self).stage is Loading,
            rnd@.len() == 3 * flake_count(
                old(self).canvas_width as int,
                old(self).canvas_height as int,
            ),
            rnd_ok(rnd@),
        ensures
            state_wf(*final(self)),
            final(self).stage is Snowflakes,
            final(self).canvas_width == old(self).canvas_width,
            final(self).canvas_height == old(self).canvas_height,
            final(self).texture_count == old(self).texture_count,
            final(self).wind == old(self).wind,
            final(self).prev_pointer is None,
            final(self).last_millis is None,
            final(self).sprites@.len() == flake_count(
                old(self).canvas_width as int,
                old(self).canvas_height as int,
            ),
            forall|i: int|
                0 <= i < final(self).sprites@.len() ==> snowflake_at(
                    #[trigger] final(self).sprites@[i],
                    i,
                    old(self).canvas_width as int,
                    old(self).canvas_height as int,
                    old(self).texture_count as int,
                    rnd@,
                ),
    {
        let v: Vec<Sprite> = build_snowflakes(
            self.canvas_width,
            self.canvas_height,
            self.texture_count,
            rnd,
        );
        self.sprites = v;
        self.stage = Stage::Snowflakes;
        self.prev_pointer = None;
        self.last_millis = None;
    }

    /// Adopts new canvas dimensions after a resize. The wind survives; the
    /// sprite field is reconstructed from scratch for the new dimensions
    /// (snowflake stage) or left for the next tick to rebuild (loading
    /// stage), and the pointer and clock memories start fresh.
    pub fn resize(&mut self, width: u32, height: u32, rnd: &Vec<i64>)
        requires
            state_wf(*old(self)),
            dims_ok(width as int, height as int),
            old(self).stage is Snowflakes ==> rnd@.len() == 3 * flake_count(
                width as int,
                height as int,
            ) && rnd_ok(rnd@),
        ensures
            state_wf(*final(self)),
            final(self).stage == old(self).stage,
            final(self).wind == old(self).wind,
            final(self).canvas_width == width,
            final(self).canvas_height == height,
            final(self).texture_count == old(self).texture_count,
            final(self).prev_pointer is None,
            final(self).last_millis is None,
            old(self).stage is Loading ==> final(self).sprites@.len() == 0,
            old(self).stage is Snowflakes ==> final(self).sprites@.len() == flake_count(
                width as int,
                height as int,
            ) && forall|i: int|
                0 <= i < final(self).sprites@.len() ==> snowflake_at(
                    #[trigger] final(self).sprites@[i],
                    i,
                    width as int,
                    height as int,
                    old(self).texture_count as int,
                    rnd@,
                ),
    {
        self.canvas_width = width;
        self.canvas_height = height;
        self.prev_pointer = None;
        self.last_millis = None;
        match self.stage {
            Stage::Loading => {
                self.sprites = Vec::new();
            },
            Stage::Snowflakes => {
                self.sprites = build_snowflakes(width, height, self.texture_count, rnd);
            },
        }
    }

    /// One tick. In the loading stage it rebuilds the single pulsing sprite
    /// from the two cosine samples and touches nothing else. In the
    /// snowflake stage it computes the elapsed time (zero on the first
    /// tick), steps the wind from the pointer movement, advances every
    /// sprite under the new wind, and remembers the pointer and the clock.
    pub fn tick(&mut self, input: &TickInput)
        requires
            state_wf(*old(self)),
            input_ok(*old(self), *input),
        ensures
            state_wf(*final(self)),
            final(self).stage == old(self).stage,
            final(self).canvas_width == old(self).canvas_width,
            final(self).canvas_height == old(self).canvas_height,
            final(self).texture_count == old(self).texture_count,
            old(self).stage is Loading ==> {
                &&& final(self).sprites@.len() == 1
                &&& loading_sprite_at(
                    final(self).sprites@[0],
                    old(self).canvas_width as int,
                    old(self).canvas_height as int,
                    input.pulse_slow as int,
                    input.pulse_fast as int,
                )
                &&& final(self).wind == old(self).wind
                &&& final(self).prev_pointer == old(self).prev_pointer
                &&& final(self).last_millis == old(self).last_millis
            },
            old(self).stage is Snowflakes ==> {
                let dt = tick_dt(*old(self), *input);
                &&& final(self).wind.x as int == wind_step(
                    old(self).wind.x as int,
                    pointer_delta_x(*old(self), *input),
                    old(self).canvas_width as int,
                    dt,
                )
                &&& final(self).wind.y as int == wind_step(
                    old(self).wind.y as int,
                    pointer_delta_y(*old(self), *input),
                    old(self).canvas_height as int,
                    dt,
                )
                &&& final(self).sprites@.len() == old(self).sprites@.len()
                &&& forall|i: int|
                    0 <= i < old(self).sprites@.len() ==> advanced_from(
                        #[trigger] final(self).sprites@[i],
                        old(self).sprites@[i],
                        i,
                        final(self).wind.x as int,
                        final(self).wind.y as int,
                        dt,
                        old(self).canvas_width as int,
                        old(self).canvas_height as int,
                    )
                &&& final(self).prev_pointer == input.pointer
                &&& final(self).last_millis == Some(input.now_millis)
            },
    {
        match self.stage {
            Stage::Loading => {
                let spr: Sprite = loading_sprite(
                    self.canvas_width,
                    self.canvas_height,
                    input.pulse_slow,
                    input.pulse_fast,
                );
                let mut v: Vec<Sprite> = Vec::new();
                v.push(spr);
                self.sprites = v;
            },
            Stage::Snowflakes => {
                let w: u32 = self.canvas_width;
                let h: u32 = self.canvas_height;
                let dt: i64 = match self.last_millis {
                    Some(t) => (input.now_millis - t) * 1000,
                    None => 0,
                };
                proof {
                    assert(dt as int == tick_dt(*old(self), *input));
                    match old(self).last_millis {
                        Some(t) => {
                            assert(dt == (input.now_millis - t) * 1000);
                            assert((input.now_millis - t) * 1000 == 2 * ((input.now_millis - t)
                                * 500)) by (nonlinear_arith);
                            assert(dt % 2 == 0) by (nonlinear_arith)
                                requires
                                    dt == 2 * ((input.now_millis - t) * 500),
                            ;
                        },
                        None => {
                            assert(dt % 2 == 0);
                        },
                    }
                }
                let (pdx, pdy): (i64, i64) = match (self.prev_pointer, input.pointer) {
                    (Some(p), Some(q)) => (q.x - p.x, q.y - p.y),
                    _ => (0, 0),
                };
                proof {
                    assert(pdx as int == pointer_delta_x(*old(self), *input));
                    assert(pdy as int == pointer_delta_y(*old(self), *input));
                    assert(fx_abs(pdx as int) <= (w as int) * (FX_ONE as int));
                    assert(fx_abs(pdy as int) <= (h as int) * (FX_ONE as int));
                }
                let ndx: i64 = div_fx(pdx, w as i64);
                let ndy: i64 = div_fx(pdy, h as i64);
                proof {
                    crate::fixed::lemma_fx_div_mag(pdx as int, w as int);
                    crate::fixed::lemma_fx_div_mag(pdy as int, h as int);
                    assert(fx_abs(pdx as int) / (w as int) <= FX_ONE as int) by (nonlinear_arith)
                        requires
                            fx_abs(pdx as int) <= (w as int) * (FX_ONE as int),
                            1 <= w as int,
                            0 <= fx_abs(pdx as int),
                    ;
                    assert(fx_abs(pdy as int) / (h as int) <= FX_ONE as int) by (nonlinear_arith)
                        requires
                            fx_abs(pdy as int) <= (h as int) * (FX_ONE as int),
                            1 <= h as int,
                            0 <= fx_abs(pdy as int),
                    ;
                    assert(fx_abs(((ndx * 350) as int) * (dt as int)) <= 350_000_000_000_000
                        * 1_000_000) by (nonlinear_arith)
                        requires
                            fx_abs(ndx as int) <= 1_000_000i64,
                            0 <= dt <= 1_000_000_000_000i64,
                    ;
                    assert(fx_abs(((ndy * 350) as int) * (dt as int)) <= 350_000_000_000_000
                        * 1_000_000) by (nonlinear_arith)
                        requires
                            fx_abs(ndy as int) <= 1_000_000i64,
                            0 <= dt <= 1_000_000_000_000i64,
                    ;
                }
                let cx: i64 = mul_fx(ndx * 350, dt);
                let cy: i64 = mul_fx(ndy * 350, dt);
                proof {
                    crate::fixed::lemma_fx_mul_le(
                        (ndx * 350) as int,
                        dt as int,
                        350_000_000_000_000,
                    );
                    crate::fixed::lemma_fx_mul_le(
                        (ndy * 350) as int,
                        dt as int,
                        350_000_000_000_000,
                    );
                }
                let hd: i64 = ((dt as u64) / 2) as i64;
                let decay: i64 = if dt <= FX_ONE {
                    FX_ONE - hd
                } else {
                    0
                };
                proof {
                    assert(decay as int == decay_of(dt as int));
                    assert(fx_abs(((self.wind.x + cx) as int) * (decay as int))
                        <= 800_000_000_000_000 * 1_000_000) by (nonlinear_arith)
                        requires
                            fx_abs(self.wind.x as int) <= 700_000_000i64,
                            fx_abs(cx as int) <= 350_000_000_000_000i64,
                            0 <= decay <= 1_000_000i64,
                    ;
                    assert(fx_abs(((self.wind.y + cy) as int) * (decay as int))
                        <= 800_000_000_000_000 * 1_000_000) by (nonlinear_arith)
                        requires
                            fx_abs(self.wind.y as int) <= 700_000_000i64,
                            fx_abs(cy as int) <= 350_000_000_000_000i64,
                            0 <= decay <= 1_000_000i64,
                    ;
                }
                let wx2: i64 = mul_fx(self.wind.x + cx, decay);
                let wy2: i64 = mul_fx(self.wind.y + cy, decay);
                proof {
                    assert(wx2 as int == wind_step(
                        old(self).wind.x as int,
                        pdx as int,
                        w as int,
                        dt as int,
                    ));
                    assert(wy2 as int == wind_step(
                        old(self).wind.y as int,
                        pdy as int,
                        h as int,
                        dt as int,
                    ));
                    lemma_wind_step_bound(old(self).wind.x as int, pdx as int, w as int, dt as int);
                    lemma_wind_step_bound(old(self).wind.y as int, pdy as int, h as int, dt as int);
                }
                self.wind = Point { x: wx2, y: wy2 };
                let ghost sprites0 = self.sprites@;
                let n: usize = self.sprites.len();
                let mut i: usize = 0;
                while i < n
                    invariant
                        n == self.sprites@.len(),
                        sprites0.len() == n,
                        n <= 16384,
                        0 <= i <= n,
                        dims_ok(w as int, h as int),
                        self.canvas_width == w,
                        self.canvas_height == h,
                        self.texture_count == old(self).texture_count,
                        1 <= self.texture_count,
                        self.stage == old(self).stage,
                        self.wind.x == wx2,
                        self.wind.y == wy2,
                        self.prev_pointer == old(self).prev_pointer,
                        self.last_millis == old(self).last_millis,
                        fx_abs(wx2 as int) <= WIND_LIM as int,
                        fx_abs(wy2 as int) <= WIND_LIM as int,
                        0 <= dt <= 1_000_000_000_000,
                        forall|j: int|
                            0 <= j < n ==> sprite_wf(
                                #[trigger] sprites0[j],
                                w as int,
                                h as int,
                                self.texture_count as int,
                            ),
                        forall|j: int|
                            0 <= j < i ==> advanced_from(
                                #[trigger] self.sprites@[j],
                                sprites0[j],
                                j,
                                wx2 as int,
                                wy2 as int,
                                dt as int,
                                w as int,
                                h as int,
                            ),
                        forall|j: int|
                            0 <= j < i ==> sprite_wf(
                                #[trigger] self.sprites@[j],
                                w as int,
                                h as int,
                                self.texture_count as int,
                            ),
                        forall|j: int| i <= j < n ==> self.sprites@[j] == sprites0[j],
                    decreases n - i,
                {
                    let s: Sprite = self.sprites[i];
                    proof {
                        assert(s == sprites0[i as int]);
                        assert(sprite_wf(
                            sprites0[i as int],
                            w as int,
                            h as int,
                            self.texture_count as int,
                        ));
                    }
                    let s2: Sprite = advance_sprite(s, i, wx2, wy2, dt, w, h);
                    self.sprites.set(i, s2);
                    proof {
                        assert(sprite_wf(s2, w as int, h as int, self.texture_count as int));
                    }
                    i = i + 1;
                }
                self.prev_pointer = input.pointer;
                self.last_millis = Some(input.now_millis);
            },
        }
    }
}

} // verus!
