//! The compute half of the rendering stack: texture-atlas packing, the
//! pixel-to-device projection matrix, and the vertex/index buffer layout that
//! one indexed triangle-list draw call consumes. The GPU itself (context,
//! shaders, uploads, the draw submission) lives outside the library and is
//! fed exclusively from values produced here.

use vstd::prelude::*;
use crate::fixed::{FX_ONE, fx_abs, fx_mul, mul_fx};
use crate::geom::{Point, rot_x, rot_y};

verus! {

/// Failures of the rendering stack. Packing raises `InvalidDimensions`
/// itself; the GPU-facing callers construct the other variants from driver
/// results (`ShaderCompile` and `ProgramLink` carry the driver's diagnostic
/// text).
#[derive(Debug)]
pub enum RenderError {
    ResourceCreation,
    ShaderCompile(String),
    ProgramLink(String),
    InvalidDimensions,
}

/// One packed sub-image: its rectangle inside the atlas texture, in pixels.
#[derive(Clone, Copy, PartialEq, Eq, Structural, Debug)]
pub struct TexAtlasItem {
    pub x: u32,
    pub y: u32,
    pub width: u32,
    pub height: u32,
}

/// The packed atlas: one rectangle per source image, in source order, plus
/// the power-of-two dimensions of the texture that holds them. The pixel
/// data itself lives only in the GPU texture this atlas is paired with.
#[derive(Debug)]
pub struct TextureAtlas {
    pub items: Vec<TexAtlasItem>,
    pub width: u32,
    pub height: u32,
}

/// Sum of the widths of the first `n` source images.
pub open spec fn widths_prefix_sum(sizes: Seq<(u32, u32)>, n: int) -> int
    decreases n,
{
    if n <= 0 {
        0
    } else {
        widths_prefix_sum(sizes, n - 1) + sizes[n - 1].0
    }
}

/// Largest height among the first `n` source images (zero for none).
pub open spec fn max_height(sizes: Seq<(u32, u32)>, n: int) -> int
    decreases n,
{
    if n <= 0 {
        0
    } else {
        let m = max_height(sizes, n - 1);
        if sizes[n - 1].1 > m {
            sizes[n - 1].1 as int
        } else {
            m
        }
    }
}

/// Whether `p` is a power of two.
pub open spec fn is_pow2(p: int) -> bool
    decreases p,
{
    if p <= 0 {
        false
    } else if p == 1 {
        true
    } else {
        p % 2 == 0 && is_pow2(p / 2)
    }
}

/// The first power of two at least `v`, reached by doubling from `p`.
pub open spec fn next_pow2_from(p: int, v: int) -> int
    decreases (if p >= v { 0int } else { v - p }), when 1 <= p
{
    if p >= v {
        p
    } else {
        next_pow2_from(2 * p, v)
    }
}

/// The least power of two at least `v` (and at least one).
pub open spec fn next_pow2(v: int) -> int {
    next_pow2_from(1, v)
}

/// Rounds `v` up to the next power of two, the shape GPU mipmapping wants.
pub fn make_power_2(v: u32) -> (r: u32)
    requires
        v <= 0x8000_0000,
    ensures
        r == next_pow2(v as int),
        is_pow2(r as int),
        r >= v,
        v >= 2 ==> r < 2 * v,
{
    let mut p: u64 = 1;
    while p < v as u64
        invariant
            1 <= p,
            v <= 0x8000_0000,
            p <= 0x1_0000_0000,
            is_pow2(p as int),
            p == 1 || p < 2 * (v as int),
            next_pow2_from(p as int, v as int) == next_pow2(v as int),
        decreases (if p >= v as u64 {
            0int
        } else {
            v as int - p
        }),
    {
        p = 2 * p;
    }
    p as u32
}

/// The rectangle single-row packing assigns to source image `i`: all earlier
/// widths to its left, at the top of the atlas.
pub open spec fn rect_for(sizes: Seq<(u32, u32)>, i: int) -> TexAtlasItem {
    TexAtlasItem {
        x: widths_prefix_sum(sizes, i) as u32,
        y: 0,
        width: sizes[i].0,
        height: sizes[i].1,
    }
}

/// Every source image has positive width and height.
pub open spec fn all_positive(sizes: Seq<(u32, u32)>) -> bool {
    forall|i: int| 0 <= i < sizes.len() ==> sizes[i].0 >= 1 && sizes[i].1 >= 1
}

/// `a` is exactly the single-row packing of `sizes`: one rectangle per
/// image, in order, and power-of-two rounded dimensions.
pub open spec fn atlas_packs(sizes: Seq<(u32, u32)>, a: TextureAtlas) -> bool {
    &&& a.items@.len() == sizes.len()
    &&& forall|i: int| 0 <= i < sizes.len() ==> a.items@[i] == rect_for(sizes, i)
    &&& a.width == next_pow2(widths_prefix_sum(sizes, sizes.len() as int))
    &&& a.height == next_pow2(max_height(sizes, sizes.len() as int))
}

/// Prefix sums of widths only grow.
proof fn lemma_prefix_sum_mono(sizes: Seq<(u32, u32)>, i: int, j: int)
    requires
        0 <= i <= j,
    ensures
        widths_prefix_sum(sizes, i) <= widths_prefix_sum(sizes, j),
    decreases j - i,
{
    if i < j {
        lemma_prefix_sum_mono(sizes, i, j - 1);
    }
}

/// Every height is at most the running maximum.
proof fn lemma_max_height_bound(sizes: Seq<(u32, u32)>, n: int, b: int)
    requires
        forall|i: int| 0 <= i < sizes.len() ==> sizes[i].1 <= b,
        0 <= b,
        n <= sizes.len(),
    ensures
        max_height(sizes, n) <= b,
    decreases n,
{
    if n > 0 {
        lemma_max_height_bound(sizes, n - 1, b);
    }
}

impl TextureAtlas {
    /// An atlas with nothing packed into it.
    pub fn empty() -> (r: TextureAtlas)
        ensures
            r.items@ =~= Seq::<TexAtlasItem>::empty(),
            r.width == 0,
            r.height == 0,
    {
        TextureAtlas { items: Vec::new(), width: 0, height: 0 }
    }

    /// Packs the given `(width, height)` source images, in order, into a
    /// single left-to-right row, then rounds the atlas dimensions up to
    /// powers of two. Succeeds exactly when every image has positive
    /// dimensions.
    pub fn pack(sizes: &Vec<(u32, u32)>) -> (r: Result<TextureAtlas, RenderError>)
        requires
            widths_prefix_sum(sizes@, sizes@.len() as int) <= 0x8000_0000,
            forall|i: int| 0 <= i < sizes@.len() ==> (#[trigger] sizes@[i]).1 <= 0x8000_0000,
        ensures
            r is Ok <==> all_positive(sizes@),
            r matches Ok(a) ==> atlas_packs(sizes@, a),
            r matches Err(e) ==> e is InvalidDimensions,
    {
        let n: usize = sizes.len();
        let mut items: Vec<TexAtlasItem> = Vec::new();
        let mut total_width: u32 = 0;
        let mut total_height: u32 = 0;
        let mut idx: usize = 0;
        while idx < n
            invariant
                n == sizes@.len(),
                0 <= idx <= n,
                widths_prefix_sum(sizes@, sizes@.len() as int) <= 0x8000_0000,
                forall|i: int| 0 <= i < sizes@.len() ==> (#[trigger] sizes@[i]).1 <= 0x8000_0000,
                items@.len() == idx,
                forall|i: int| 0 <= i < idx ==> items@[i] == rect_for(sizes@, i),
                total_width == widths_prefix_sum(sizes@, idx as int),
                total_height == max_height(sizes@, idx as int),
                forall|i: int| 0 <= i < idx ==> (#[trigger] sizes@[i]).0 >= 1 && sizes@[i].1 >= 1,
            decreases n - idx,
        {
            let (w, h): (u32, u32) = sizes[idx];
            if w == 0 || h == 0 {
                assert(!all_positive(sizes@));
                return Err(RenderError::InvalidDimensions);
            }
            proof {
                lemma_prefix_sum_mono(sizes@, idx + 1, sizes@.len() as int);
            }
            if total_height < h {
                total_height = h;
            }
            items.push(TexAtlasItem { x: total_width, y: 0, width: w, height: h });
            total_width = total_width + w;
            idx = idx + 1;
        }
        proof {
            lemma_max_height_bound(sizes@, sizes@.len() as int, 0x8000_0000);
        }
        let width: u32 = make_power_2(total_width);
        let height: u32 = make_power_2(total_height);
        Ok(TextureAtlas { items, width, height })
    }
}

/// The column-major 3x3 matrix taking `[0, w] x [0, h]` pixel space to
/// `[-1, 1] x [1, -1]` device space (the vertical flip matches a canvas
/// whose y axis grows downward), in fixed-point entries.
pub open spec fn projection_matrix(w: int, h: int) -> Seq<int> {
    seq![
        2 * (FX_ONE as int) / w,
        0,
        0,
        0,
        -(2 * (FX_ONE as int) / h),
        0,
        -(FX_ONE as int),
        FX_ONE as int,
        FX_ONE as int,
    ]
}

/// The canvas-to-device transform, rebuilt whole whenever the canvas is
/// resized.
#[derive(Debug)]
pub struct Projection {
    pub canvas_width: u32,
    pub canvas_height: u32,
    pub matrix: [i64; 9],
}

impl Projection {
    /// Builds the projection for a canvas of the given pixel dimensions.
    pub fn create(canvas_width: u32, canvas_height: u32) -> (r: Projection)
        requires
            1 <= canvas_width,
            1 <= canvas_height,
        ensures
            r.canvas_width == canvas_width,
            r.canvas_height == canvas_height,
            r.matrix@.map_values(|v: i64| v as int) =~= projection_matrix(
                canvas_width as int,
                canvas_height as int,
            ),
    {
        let sx: i64 = (((2 * FX_ONE) as u64) / (canvas_width as u64)) as i64;
        let sy: i64 = (((2 * FX_ONE) as u64) / (canvas_height as u64)) as i64;
        Projection {
            canvas_width,
            canvas_height,
            matrix: [sx, 0, 0, 0, -sy, 0, -FX_ONE, FX_ONE, FX_ONE],
        }
    }
}

/// One drawable sprite. `position` is where the pivot lands on screen,
/// `pivot` the point of the sprite's own rectangle that stays anchored there
/// under rotation; all lengths are fixed-point pixels, `rotation` fixed-point
/// radians, `alpha` a fixed-point opacity in `[0, 1]`.
#[derive(Clone, Copy, PartialEq, Eq, Structural, Debug)]
pub struct Sprite {
    pub texture: usize,
    pub position: Point,
    pub pivot: Point,
    pub rotation: i64,
    pub width: i64,
    pub height: i64,
    pub alpha: i64,
}

/// Coordinate bounds under which the quad arithmetic stays well inside
/// `i64`.
pub open spec fn sprite_bounded(s: Sprite) -> bool {
    &&& fx_abs(s.position.x as int) <= 0x1_0000_0000_0000
    &&& fx_abs(s.position.y as int) <= 0x1_0000_0000_0000
    &&& fx_abs(s.pivot.x as int) <= 0x1_0000_0000_0000
    &&& fx_abs(s.pivot.y as int) <= 0x1_0000_0000_0000
    &&& 0 <= s.width <= 0x1_0000_0000_0000
    &&& 0 <= s.height <= 0x1_0000_0000_0000
    &&& 0 <= s.alpha <= FX_ONE
}

/// The twenty interleaved vertex values of one sprite's quad: four corners,
/// each `[x, y, u, v, alpha]`. The corners start at the sprite position
/// minus the rotated pivot (so the pivot stays anchored), and step along the
/// rotated width and height edges; `u`/`v` are the atlas rectangle's corners
/// normalized by the atlas dimensions, in fixed-point.
pub open spec fn quad_vertices(s: Sprite, t: TexAtlasItem, aw: int, ah: int, c: int, sn: int) -> Seq<
    int,
> {
    let px = s.position.x - rot_x(s.pivot.x as int, s.pivot.y as int, c, sn);
    let py = s.position.y - rot_y(s.pivot.x as int, s.pivot.y as int, c, sn);
    let wx = fx_mul(s.width as int, c);
    let wy = fx_mul(s.width as int, sn);
    let hx = -fx_mul(s.height as int, sn);
    let hy = fx_mul(s.height as int, c);
    let u0 = (t.x * FX_ONE) / aw;
    let u1 = ((t.x + t.width) * FX_ONE) / aw;
    let v0 = (t.y * FX_ONE) / ah;
    let v1 = ((t.y + t.height) * FX_ONE) / ah;
    seq![
        px,
        py,
        u0,
        v0,
        s.alpha as int,
        px + wx,
        py + wy,
        u1,
        v0,
        s.alpha as int,
        px + wx + hx,
        py + wy + hy,
        u1,
        v1,
        s.alpha as int,
        px + hx,
        py + hy,
        u0,
        v1,
        s.alpha as int,
    ]
}

/// The six indices of sprite `i`'s two triangles over its four quad corners.
pub open spec fn quad_indices(i: int) -> Seq<u16> {
    seq![
        (4 * i) as u16,
        (4 * i + 1) as u16,
        (4 * i + 2) as u16,
        (4 * i) as u16,
        (4 * i + 2) as u16,
        (4 * i + 3) as u16,
    ]
}

/// Builds the twenty vertex values of one sprite's quad.
fn sprite_quad(s: &Sprite, t: &TexAtlasItem, aw: u32, ah: u32, c: i64, sn: i64) -> (q: Vec<i64>)
    requires
        sprite_bounded(*s),
        fx_abs(c as int) <= FX_ONE as int,
        fx_abs(sn as int) <= FX_ONE as int,
        aw >= 1,
        ah >= 1,
    ensures
        q@.len() == 20,
        q@.map_values(|v: i64| v as int) =~= quad_vertices(
            *s,
            *t,
            aw as int,
            ah as int,
            c as int,
            sn as int,
        ),
{
    proof {
        crate::fixed::lemma_fx_mul_mag(s.pivot.x as int, c as int);
        crate::fixed::lemma_fx_mul_mag(s.pivot.y as int, sn as int);
        crate::fixed::lemma_fx_mul_mag(s.pivot.x as int, sn as int);
        crate::fixed::lemma_fx_mul_mag(s.pivot.y as int, c as int);
        crate::fixed::lemma_fx_mul_mag(s.width as int, c as int);
        crate::fixed::lemma_fx_mul_mag(s.width as int, sn as int);
        crate::fixed::lemma_fx_mul_mag(s.height as int, c as int);
        crate::fixed::lemma_fx_mul_mag(s.height as int, sn as int);
        assert(fx_abs((s.width as int) * (c as int)) <= (i64::MAX as int) * (FX_ONE as int))
            by (nonlinear_arith)
            requires
                fx_abs(c as int) <= FX_ONE as int,
                fx_abs(s.width as int) <= 0x1_0000_0000_0000,
        ;
        assert(fx_abs((s.width as int) * (sn as int)) <= (i64::MAX as int) * (FX_ONE as int))
            by (nonlinear_arith)
            requires
                fx_abs(sn as int) <= FX_ONE as int,
                fx_abs(s.width as int) <= 0x1_0000_0000_0000,
        ;
        assert(fx_abs((s.height as int) * (c as int)) <= (i64::MAX as int) * (FX_ONE as int))
            by (nonlinear_arith)
            requires
                fx_abs(c as int) <= FX_ONE as int,
                fx_abs(s.height as int) <= 0x1_0000_0000_0000,
        ;
        assert(fx_abs((s.height as int) * (sn as int)) <= (i64::MAX as int) * (FX_ONE as int))
            by (nonlinear_arith)
            requires
                fx_abs(sn as int) <= FX_ONE as int,
                fx_abs(s.height as int) <= 0x1_0000_0000_0000,
        ;
    }
    proof {
        assert(t.x as u64 <= 0xFFFF_FFFF && t.width as u64 <= 0xFFFF_FFFF && t.y as u64
            <= 0xFFFF_FFFF && t.height as u64 <= 0xFFFF_FFFF);
        assert(FX_ONE as u64 == 1_000_000);
    }
    let rp: Point = s.pivot.rotate(c, sn);
    let px: i64 = s.position.x - rp.x;
    let py: i64 = s.position.y - rp.y;
    let wx: i64 = mul_fx(s.width, c);
    let wy: i64 = mul_fx(s.width, sn);
    let hx: i64 = -mul_fx(s.height, sn);
    let hy: i64 = mul_fx(s.height, c);
    let u0: i64 = (((t.x as u64) * (FX_ONE as u64)) / (aw as u64)) as i64;
    let u1: i64 = (((t.x as u64 + t.width as u64) * (FX_ONE as u64)) / (aw as u64)) as i64;
    let v0: i64 = (((t.y as u64) * (FX_ONE as u64)) / (ah as u64)) as i64;
    let v1: i64 = (((t.y as u64 + t.height as u64) * (FX_ONE as u64)) / (ah as u64)) as i64;
    let mut q: Vec<i64> = Vec::new();
    q.push(px);
    q.push(py);
    q.push(u0);
    q.push(v0);
    q.push(s.alpha);
    q.push(px + wx);
    q.push(py + wy);
    q.push(u1);
    q.push(v0);
    q.push(s.alpha);
    q.push(px + wx + hx);
    q.push(py + wy + hy);
    q.push(u1);
    q.push(v1);
    q.push(s.alpha);
    q.push(px + hx);
    q.push(py + hy);
    q.push(u0);
    q.push(v1);
    q.push(s.alpha);
    q
}

/// Lays out the vertex and index buffers for one indexed triangle-list draw
/// covering all sprites, in list order: twenty vertex values and six indices
/// per sprite. `trig` supplies, per sprite, the fixed-point cosine and sine
/// of its rotation.
pub fn build_buffers(sprites: &Vec<Sprite>, atlas: &TextureAtlas, trig: &Vec<(i64, i64)>) -> (r: (
    Vec<i64>,
    Vec<u16>,
))
    requires
        sprites@.len() <= 16384,
        trig@.len() == sprites@.len(),
        forall|i: int|
            0 <= i < sprites@.len() ==> sprite_bounded(#[trigger] sprites@[i]) && sprites@[i].texture
                < atlas.items@.len(),
        forall|i: int|
            0 <= i < trig@.len() ==> fx_abs((#[trigger] trig@[i]).0 as int) <= FX_ONE as int
                && fx_abs(trig@[i].1 as int) <= FX_ONE as int,
        atlas.width >= 1,
        atlas.height >= 1,
    ensures
        r.0@.len() == 20 * sprites@.len(),
        r.1@.len() == 6 * sprites@.len(),
        forall|i: int|
            #![trigger r.0@.subrange(20 * i, 20 * i + 20)]
            0 <= i < sprites@.len() ==> r.0@.subrange(20 * i, 20 * i + 20).map_values(
                |v: i64| v as int,
            ) =~= quad_vertices(
                sprites@[i],
                atlas.items@[sprites@[i].texture as int],
                atlas.width as int,
                atlas.height as int,
                trig@[i].0 as int,
                trig@[i].1 as int,
            ),
        forall|i: int|
            0 <= i < sprites@.len() ==> #[trigger] r.1@.subrange(6 * i, 6 * i + 6) =~= quad_indices(
                i,
            ),
{
    let n: usize = sprites.len();
    let mut vertices: Vec<i64> = Vec::new();
    let mut indices: Vec<u16> = Vec::new();
    let mut i: usize = 0;
    while i < n
        invariant
            n == sprites@.len(),
            n <= 16384,
            0 <= i <= n,
            trig@.len() == n,
            forall|j: int|
                0 <= j < sprites@.len() ==> sprite_bounded(#[trigger] sprites@[j])
                    && sprites@[j].texture < atlas.items@.len(),
            forall|j: int|
                0 <= j < trig@.len() ==> fx_abs((#[trigger] trig@[j]).0 as int) <= FX_ONE as int
                    && fx_abs(trig@[j].1 as int) <= FX_ONE as int,
            atlas.width >= 1,
            atlas.height >= 1,
            vertices@.len() == 20 * i,
            indices@.len() == 6 * i,
            forall|j: int|
                #![trigger vertices@.subrange(20 * j, 20 * j + 20)]
                0 <= j < i ==> vertices@.subrange(20 * j, 20 * j + 20).map_values(
                    |v: i64| v as int,
                ) =~= quad_vertices(
                    sprites@[j],
                    atlas.items@[sprites@[j].texture as int],
                    atlas.width as int,
                    atlas.height as int,
                    trig@[j].0 as int,
                    trig@[j].1 as int,
                ),
            forall|j: int|
                0 <= j < i ==> #[trigger] indices@.subrange(6 * j, 6 * j + 6) =~= quad_indices(j),
        decreases n - i,
    {
        let ghost old_vertices = vertices@;
        let ghost old_indices = indices@;
        let s: Sprite = sprites[i];
        let (c, sn): (i64, i64) = trig[i];
        let mut q: Vec<i64> = sprite_quad(&s, &atlas.items[s.texture], atlas.width, atlas.height, c, sn);
        let ghost quad = q@;
        vertices.append(&mut q);
        let base: u16 = (4 * i) as u16;
        indices.push(base);
        indices.push(base + 1);
        indices.push(base + 2);
        indices.push(base);
        indices.push(base + 2);
        indices.push(base + 3);
        proof {
            assert(vertices@ =~= old_vertices + quad);
            assert forall|j: int|
                #![trigger vertices@.subrange(20 * j, 20 * j + 20)]
                0 <= j < i implies vertices@.subrange(20 * j, 20 * j + 20).map_values(
                |v: i64| v as int,
            ) =~= quad_vertices(
                sprites@[j],
                atlas.items@[sprites@[j].texture as int],
                atlas.width as int,
                atlas.height as int,
                trig@[j].0 as int,
                trig@[j].1 as int,
            ) by {
                assert(vertices@.subrange(20 * j, 20 * j + 20) =~= old_vertices.subrange(
                    20 * j,
                    20 * j + 20,
                ));
            }
            assert(vertices@.subrange(20 * i as int, 20 * i as int + 20) =~= quad);
            assert forall|j: int| 0 <= j < i implies #[trigger] indices@.subrange(6 * j, 6 * j + 6)
                =~= quad_indices(j) by {
                assert(indices@.subrange(6 * j, 6 * j + 6) =~= old_indices.subrange(
                    6 * j,
                    6 * j + 6,
                ));
            }
            assert(indices@.subrange(6 * i as int, 6 * i as int + 6) =~= quad_indices(i as int));
        }
        i = i + 1;
    }
    (vertices, indices)
}

/// Doubling from a power of two reaches a power of two at least the target
/// and no less than where it started.
proof fn lemma_next_pow2_from_props(p: int, v: int)
    requires
        1 <= p,
        is_pow2(p),
    ensures
        is_pow2(next_pow2_from(p, v)),
        next_pow2_from(p, v) >= v,
        next_pow2_from(p, v) >= p,
    decreases (if p >= v {
        0int
    } else {
        v - p
    }),
{
    if p < v {
        assert((2 * p) % 2 == 0);
        assert((2 * p) / 2 == p);
        assert(is_pow2(2 * p));
        lemma_next_pow2_from_props(2 * p, v);
    }
}

/// A packed atlas is never smaller than its contents, and its dimensions
/// are exact powers of two: the width covers the summed image widths, the
/// height the tallest image.
pub proof fn lemma_atlas_pow2(sizes: Seq<(u32, u32)>, a: TextureAtlas)
    requires
        atlas_packs(sizes, a),
    ensures
        is_pow2(a.width as int),
        is_pow2(a.height as int),
        a.width as int >= widths_prefix_sum(sizes, sizes.len() as int),
        a.height as int >= max_height(sizes, sizes.len() as int),
{
    lemma_next_pow2_from_props(1, widths_prefix_sum(sizes, sizes.len() as int));
    lemma_next_pow2_from_props(1, max_height(sizes, sizes.len() as int));
}

/// Packing is a function of the source sizes alone: two atlases packed from
/// the same ordered size list are identical, rectangle for rectangle. This
/// is what makes a rebuild after a resize to the same dimensions
/// pixel-stable.
pub proof fn lemma_pack_deterministic(sizes: Seq<(u32, u32)>, a: TextureAtlas, b: TextureAtlas)
    requires
        atlas_packs(sizes, a),
        atlas_packs(sizes, b),
    ensures
        a.items@ =~= b.items@,
        a.width == b.width,
        a.height == b.height,
{
    assert forall|i: int| 0 <= i < sizes.len() implies a.items@[i] == b.items@[i] by {
        assert(a.items@[i] == rect_for(sizes, i));
        assert(b.items@[i] == rect_for(sizes, i));
    }
}

} // verus!
