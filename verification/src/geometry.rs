//! Scene geometry: vectors, colors, textures, materials, triangles and the
//! world they form.
//!
//! Coordinates are 16.16 fixed-point scalars (see `fx`). Every vector
//! operation is specified exactly over mathematical integers by the
//! `s_*` spec functions on integer triples, so the intersection and shading
//! code can state precisely what it computes.

use vstd::prelude::*;
use std::rc::Rc;
use crate::fx::{
    mag, tdiv, fx_mul, fx_div, fits64, sqrt_floor, fxmul, fxdiv, isqrt,
    lemma_mul_bound, lemma_tdiv_bound, lemma_fx_mul_bound, lemma_fx_mul_fits,
    lemma_sqrt_floor,
};

verus! {

/// Scene data (triangle vertices, light and texture-projection anchors) must
/// keep every component within this magnitude: 65536 world units.
pub const COORD_BOUND: i64 = 0x1_0000_0000;

/// An 8-bit color triple: red, green, blue.
#[derive(Clone, Copy, PartialEq, Eq, Structural, Debug)]
pub struct RGB(pub u8, pub u8, pub u8);

/// A coordinate axis.
#[derive(Clone, Copy, PartialEq, Eq, Structural, Debug)]
pub enum Dimension {
    X,
    Y,
    Z,
}

/// An axis-aligned plane, named by its normal dimension.
#[derive(Clone, Copy, PartialEq, Eq, Structural, Debug)]
pub struct Plane(pub Dimension);

/// A 3-component vector of 16.16 fixed-point scalars.
#[derive(Clone, Copy, PartialEq, Eq, Structural, Debug)]
pub struct Vector3(pub i64, pub i64, pub i64);

/// The integer triple a vector stands for.
pub open spec fn vx(v: Vector3) -> (int, int, int) {
    (v.0 as int, v.1 as int, v.2 as int)
}

pub open spec fn s_add(a: (int, int, int), b: (int, int, int)) -> (int, int, int) {
    (a.0 + b.0, a.1 + b.1, a.2 + b.2)
}

pub open spec fn s_sub(a: (int, int, int), b: (int, int, int)) -> (int, int, int) {
    (a.0 - b.0, a.1 - b.1, a.2 - b.2)
}

pub open spec fn s_scale(a: (int, int, int), k: int) -> (int, int, int) {
    (fx_mul(a.0, k), fx_mul(a.1, k), fx_mul(a.2, k))
}

pub open spec fn s_cross(a: (int, int, int), b: (int, int, int)) -> (int, int, int) {
    (
        fx_mul(a.1, b.2) - fx_mul(a.2, b.1),
        fx_mul(a.2, b.0) - fx_mul(a.0, b.2),
        fx_mul(a.0, b.1) - fx_mul(a.1, b.0),
    )
}

pub open spec fn s_dot(a: (int, int, int), b: (int, int, int)) -> int {
    fx_mul(a.0, b.0) + fx_mul(a.1, b.1) + fx_mul(a.2, b.2)
}

/// Fixed-point Euclidean length: with 16.16 scalars the representation of
/// `sqrt((x/S)^2 + (y/S)^2 + (z/S)^2)` is `sqrt(x^2 + y^2 + z^2)`.
pub open spec fn s_len(a: (int, int, int)) -> int {
    sqrt_floor(a.0 * a.0 + a.1 * a.1 + a.2 * a.2)
}

/// Componentwise division by the length.
pub open spec fn s_norm(a: (int, int, int)) -> (int, int, int)
    recommends
        s_len(a) != 0,
{
    (fx_div(a.0, s_len(a)), fx_div(a.1, s_len(a)), fx_div(a.2, s_len(a)))
}

/// Every component at most `b` in magnitude.
pub open spec fn in_range(a: (int, int, int), b: int) -> bool {
    mag(a.0) <= b && mag(a.1) <= b && mag(a.2) <= b
}

impl Vector3 {
    /// Componentwise sum.
    pub fn add(self, rhs: Vector3) -> (r: Vector3)
        requires
            fits64(self.0 + rhs.0),
            fits64(self.1 + rhs.1),
            fits64(self.2 + rhs.2),
        ensures
            vx(r) == s_add(vx(self), vx(rhs)),
    {
        Vector3(self.0 + rhs.0, self.1 + rhs.1, self.2 + rhs.2)
    }

    /// Componentwise difference.
    pub fn sub(self, rhs: Vector3) -> (r: Vector3)
        requires
            fits64(self.0 - rhs.0),
            fits64(self.1 - rhs.1),
            fits64(self.2 - rhs.2),
        ensures
            vx(r) == s_sub(vx(self), vx(rhs)),
    {
        Vector3(self.0 - rhs.0, self.1 - rhs.1, self.2 - rhs.2)
    }

    /// Multiplication by a fixed-point scalar.
    pub fn scale(self, rhs: i64) -> (r: Vector3)
        requires
            fits64(fx_mul(self.0 as int, rhs as int)),
            fits64(fx_mul(self.1 as int, rhs as int)),
            fits64(fx_mul(self.2 as int, rhs as int)),
        ensures
            vx(r) == s_scale(vx(self), rhs as int),
    {
        Vector3(fxmul(self.0, rhs), fxmul(self.1, rhs), fxmul(self.2, rhs))
    }

    /// Cross product.
    pub fn cross(self, rhs: Vector3) -> (r: Vector3)
        requires
            fits64(fx_mul(self.1 as int, rhs.2 as int)),
            fits64(fx_mul(self.2 as int, rhs.1 as int)),
            fits64(fx_mul(self.2 as int, rhs.0 as int)),
            fits64(fx_mul(self.0 as int, rhs.2 as int)),
            fits64(fx_mul(self.0 as int, rhs.1 as int)),
            fits64(fx_mul(self.1 as int, rhs.0 as int)),
            fits64(s_cross(vx(self), vx(rhs)).0),
            fits64(s_cross(vx(self), vx(rhs)).1),
            fits64(s_cross(vx(self), vx(rhs)).2),
        ensures
            vx(r) == s_cross(vx(self), vx(rhs)),
    {
        Vector3(
            fxmul(self.1, rhs.2) - fxmul(self.2, rhs.1),
            fxmul(self.2, rhs.0) - fxmul(self.0, rhs.2),
            fxmul(self.0, rhs.1) - fxmul(self.1, rhs.0),
        )
    }

    /// Dot product.
    pub fn dot(&self, rhs: Vector3) -> (r: i64)
        requires
            fits64(fx_mul(self.0 as int, rhs.0 as int)),
            fits64(fx_mul(self.1 as int, rhs.1 as int)),
            fits64(fx_mul(self.2 as int, rhs.2 as int)),
            fits64(
                fx_mul(self.0 as int, rhs.0 as int) + fx_mul(self.1 as int, rhs.1 as int),
            ),
            fits64(s_dot(vx(*self), vx(rhs))),
        ensures
            r == s_dot(vx(*self), vx(rhs)),
    {
        fxmul(self.0, rhs.0) + fxmul(self.1, rhs.1) + fxmul(self.2, rhs.2)
    }

    /// Euclidean length (non-negative).
    pub fn length(&self) -> (r: i64)
        requires
            mag(self.0 as int) <= 0x4000_0000_0000_0000,
            mag(self.1 as int) <= 0x4000_0000_0000_0000,
            mag(self.2 as int) <= 0x4000_0000_0000_0000,
        ensures
            r == s_len(vx(*self)),
            r >= 0,
    {
        let x = self.0 as i128;
        let y = self.1 as i128;
        let z = self.2 as i128;
        proof {
            assert(x * x >= 0 && y * y >= 0 && z * z >= 0 && x * x
                <= 0x1000_0000_0000_0000_0000_0000_0000_0000int && y * y
                <= 0x1000_0000_0000_0000_0000_0000_0000_0000int && z * z
                <= 0x1000_0000_0000_0000_0000_0000_0000_0000int) by (nonlinear_arith)
                requires
                    mag(x as int) <= 0x4000_0000_0000_0000,
                    mag(y as int) <= 0x4000_0000_0000_0000,
                    mag(z as int) <= 0x4000_0000_0000_0000,
            ;
        }
        let sum: i128 = x * x + y * y + z * z;
        let r = isqrt(sum as u128);
        proof {
            assert(r < 0x8000_0000_0000_0000u128) by (nonlinear_arith)
                requires
                    r * r <= sum as u128,
                    (sum as u128) < 0x4000_0000_0000_0000_0000_0000_0000_0000u128,
            ;
        }
        r as i64
    }

    /// Division by the own length; each component of the result is at most
    /// one (65536) in magnitude. The zero vector is excluded: its length is
    /// zero and the quotient undefined.
    pub fn normalize(&self) -> (r: Vector3)
        requires
            mag(self.0 as int) <= 0x4000_0000_0000_0000,
            mag(self.1 as int) <= 0x4000_0000_0000_0000,
            mag(self.2 as int) <= 0x4000_0000_0000_0000,
            s_len(vx(*self)) != 0,
        ensures
            vx(r) == s_norm(vx(*self)),
            in_range(vx(r), 65536),
    {
        let len = self.length();
        proof {
            lemma_norm_component_bound(vx(*self));
        }
        Vector3(fxdiv(self.0, len), fxdiv(self.1, len), fxdiv(self.2, len))
    }

    /// The components as a plain triple.
    pub fn into_inner(self) -> (r: (i64, i64, i64))
        ensures
            r.0 == self.0,
            r.1 == self.1,
            r.2 == self.2,
    {
        (self.0, self.1, self.2)
    }
}

/// Each component of a vector is bounded by the vector's length, so the
/// normalized components are bounded by one.
pub proof fn lemma_norm_component_bound(a: (int, int, int))
    requires
        s_len(a) != 0,
    ensures
        s_len(a) >= 1,
        fits64(fx_div(a.0, s_len(a))),
        fits64(fx_div(a.1, s_len(a))),
        fits64(fx_div(a.2, s_len(a))),
        in_range(s_norm(a), 65536),
{
    let sum = a.0 * a.0 + a.1 * a.1 + a.2 * a.2;
    let len = s_len(a);
    assert(a.0 * a.0 <= sum && a.1 * a.1 <= sum && a.2 * a.2 <= sum) by (nonlinear_arith)
        requires
            sum == a.0 * a.0 + a.1 * a.1 + a.2 * a.2,
    ;
    proof_norm_one_component(a.0, sum, len);
    proof_norm_one_component(a.1, sum, len);
    proof_norm_one_component(a.2, sum, len);
}

/// Componentwise bounds give a bound on the length: `sqrt(3 b^2) <= 2 b`.
pub proof fn lemma_s_len_bound(a: (int, int, int), b: int)
    requires
        in_range(a, b),
        b >= 0,
    ensures
        0 <= s_len(a) <= 2 * b,
{
    let sum = a.0 * a.0 + a.1 * a.1 + a.2 * a.2;
    assert(0 <= sum && sum <= 3 * (b * b)) by (nonlinear_arith)
        requires
            sum == a.0 * a.0 + a.1 * a.1 + a.2 * a.2,
            mag(a.0) <= b,
            mag(a.1) <= b,
            mag(a.2) <= b,
    ;
    lemma_sqrt_floor(sum);
    assert(s_len(a) <= 2 * b) by (nonlinear_arith)
        requires
            s_len(a) >= 0,
            s_len(a) * s_len(a) <= sum,
            sum <= 3 * (b * b),
            b >= 0,
    ;
}

proof fn proof_norm_one_component(c: int, sum: int, len: int)
    requires
        c * c <= sum,
        len == sqrt_floor(sum),
        len != 0,
    ensures
        len >= 1,
        mag(fx_div(c, len)) <= 65536,
        fits64(fx_div(c, len)),
{
    assert(sum >= 0) by (nonlinear_arith)
        requires
            c * c <= sum,
    ;
    lemma_sqrt_floor(sum);
    assert(mag(c) <= len) by (nonlinear_arith)
        requires
            c * c <= sum,
            len >= 0,
            sum < (len + 1) * (len + 1),
    ;
    lemma_tdiv_bound(c * 65536, len, len * 65536);
    assert((len * 65536) / len == 65536) by (nonlinear_arith)
        requires
            len >= 1,
    ;
}

/// How a shape's vertex list is assembled into triangles.
pub enum Primitive {
    /// Consecutive non-overlapping triples; a trailing incomplete group is
    /// dropped.
    TriangleList,
    /// A sliding window of three: each new vertex forms a triangle with the
    /// previous two. Winding alternates and is not corrected here.
    TriangleStrip,
}

/// An immutable color raster, row-major.
#[verifier::ext_equal]
pub struct Texture2d {
    pub width: u16,
    pub height: u16,
    pub values: Vec<RGB>,
}

/// A usable texture: both sides positive and one stored color per cell.
pub open spec fn tex_wf(t: Texture2d) -> bool {
    t.width >= 1 && t.height >= 1 && t.values.len() == t.width * t.height
}

impl Texture2d {
    /// The color at column `x` of row `y`.
    pub fn sample(&self, x: usize, y: usize) -> (r: RGB)
        requires
            tex_wf(*self),
            x < self.width,
            y < self.height,
        ensures
            r == self.values@[y * self.width + x],
    {
        proof {
            assert(y * self.width + x < self.width * self.height) by (nonlinear_arith)
                requires
                    x < self.width,
                    y < self.height,
            ;
        }
        self.values[y * (self.width as usize) + x]
    }
}

/// A strategy mapping a surface point to a color.
pub enum ColorGenerator {
    /// One fixed color.
    Uniform(RGB),
    /// One anchor color per triangle vertex, blended by inverse distance.
    Linear(RGB, RGB, RGB),
    /// Spherical projection of a texture around a center. The texture is
    /// shared by reference: many polygons may point at the same one.
    SphereTexture(Vector3, Rc<Texture2d>),
    /// Planar projection of a texture between two corners, `Plane` naming
    /// the normal dimension. The texture is shared by reference.
    PlaneTexture(Vector3, Vector3, Plane, Rc<Texture2d>),
}

pub open spec fn cg_wf(c: ColorGenerator) -> bool {
    match c {
        ColorGenerator::Uniform(_) => true,
        ColorGenerator::Linear(_, _, _) => true,
        ColorGenerator::SphereTexture(center, tex) => in_range(vx(center), COORD_BOUND as int)
            && tex_wf(*tex),
        ColorGenerator::PlaneTexture(corner0, corner1, _, tex) => in_range(
            vx(corner0),
            COORD_BOUND as int,
        ) && in_range(vx(corner1), COORD_BOUND as int) && tex_wf(*tex),
    }
}

impl Clone for ColorGenerator {
    fn clone(&self) -> (r: Self)
        ensures
            r == *self,
    {
        match self {
            ColorGenerator::Uniform(c) => ColorGenerator::Uniform(*c),
            ColorGenerator::Linear(c0, c1, c2) => ColorGenerator::Linear(*c0, *c1, *c2),
            ColorGenerator::SphereTexture(center, tex) => ColorGenerator::SphereTexture(
                *center,
                Rc::clone(tex),
            ),
            ColorGenerator::PlaneTexture(corner0, corner1, plane, tex) => {
                ColorGenerator::PlaneTexture(*corner0, *corner1, *plane, Rc::clone(tex))
            },
        }
    }
}

/// A surface description; wraps exactly one color generator.
pub struct Material {
    pub color: ColorGenerator,
}

pub open spec fn mat_wf(m: Material) -> bool {
    cg_wf(m.color)
}

impl Clone for Material {
    fn clone(&self) -> (r: Self)
        ensures
            r == *self,
    {
        Material { color: self.color.clone() }
    }
}

/// A triangle with a material. The three vertices are expected to be
/// non-collinear; a degenerate triangle has a zero cross product, can never
/// be hit, and has no usable normal.
pub struct Polygon {
    pub coords: (Vector3, Vector3, Vector3),
    pub material: Material,
}

pub open spec fn poly_wf(p: Polygon) -> bool {
    in_range(vx(p.coords.0), COORD_BOUND as int) && in_range(vx(p.coords.1), COORD_BOUND as int)
        && in_range(vx(p.coords.2), COORD_BOUND as int) && mat_wf(p.material)
}

impl Clone for Polygon {
    fn clone(&self) -> (r: Self)
        ensures
            r == *self,
    {
        Polygon { coords: self.coords, material: self.material.clone() }
    }
}

/// Hit points handed to the color model stay within this magnitude.
pub const POINT_BOUND: i64 = 0x2_0000_0000;

pub open spec fn clamp255(x: int) -> int {
    if x < 0 {
        0
    } else if x > 255 {
        255
    } else {
        x
    }
}

pub open spec fn min_i(a: int, b: int) -> int {
    if a < b {
        a
    } else {
        b
    }
}

/// The spherical texture coordinate for one normalized component
/// `x` in `[-65536, 65536]`: an odd cubic approximation of
/// `asin(x) / pi + 1/2`, scaled to `[0, 65536]`. It is exact at the poles
/// and the equator: `x = -65536` maps to 0, `x = 0` to 32768, and
/// `x = 65536` to 65536.
pub open spec fn spec_tex_coord(x: int) -> int {
    32768 + fx_mul(x, 20861 + fx_mul(fx_mul(x, x), 11907))
}

pub proof fn lemma_tex_coord_range(x: int)
    requires
        mag(x) <= 65536,
    ensures
        0 <= spec_tex_coord(x) <= 65536,
        fits64(fx_mul(x, x)),
        0 <= fx_mul(x, x) <= 65536,
        fits64(fx_mul(fx_mul(x, x), 11907)),
        0 <= fx_mul(fx_mul(x, x), 11907) <= 11907,
        fits64(fx_mul(x, 20861 + fx_mul(fx_mul(x, x), 11907))),
        mag(fx_mul(x, 20861 + fx_mul(fx_mul(x, x), 11907))) <= 32768,
{
    assert(x * x >= 0) by (nonlinear_arith);
    lemma_mul_bound(x, x, 65536, 65536);
    lemma_tdiv_bound(x * x, 65536, 65536 * 65536int);
    let w = fx_mul(x, x);
    assert(w * 11907 >= 0) by (nonlinear_arith)
        requires
            w >= 0,
    ;
    lemma_mul_bound(w, 11907, 65536, 11907);
    lemma_tdiv_bound(w * 11907, 65536, 65536 * 11907int);
    let inner = 20861 + fx_mul(w, 11907);
    lemma_mul_bound(x, inner, 65536, 32768);
    lemma_tdiv_bound(x * inner, 65536, 65536 * 32768int);
}

/// The spherical texture coordinate (see `spec_tex_coord`).
pub fn tex_coord(x: i64) -> (r: i64)
    requires
        mag(x as int) <= 65536,
    ensures
        r == spec_tex_coord(x as int),
        0 <= r <= 65536,
{
    proof {
        lemma_tex_coord_range(x as int);
    }
    let w = fxmul(x, x);
    let inner: i64 = 20861 + fxmul(w, 11907);
    32768 + fxmul(x, inner)
}

/// The two components of a point orthogonal to a dimension.
pub open spec fn project(d: Dimension, p: (int, int, int)) -> (int, int) {
    match d {
        Dimension::X => (p.1, p.2),
        Dimension::Y => (p.0, p.2),
        Dimension::Z => (p.0, p.1),
    }
}

/// One anchor's contribution to an inverse-distance blended channel:
/// `1 - d * c / t` in fixed point, with `d` the distance to the anchor,
/// `c` the anchor's channel and `t` the summed distance.
pub open spec fn linear_term(d: int, c: int, t: int) -> int {
    65536 - fx_div(d * c, t)
}

/// A blended channel: the three anchor terms summed, brought down from
/// fixed point and clamped into an 8-bit channel.
pub open spec fn linear_channel(
    d0: int,
    d1: int,
    d2: int,
    t: int,
    a0: int,
    a1: int,
    a2: int,
) -> int {
    clamp255(tdiv(linear_term(d0, a0, t) + linear_term(d1, a1, t) + linear_term(d2, a2, t), 65536))
}

pub open spec fn sphere_sample_spec(center: (int, int, int), tex: Texture2d, pt: (int, int, int)) -> RGB {
    let dir = s_sub(pt, center);
    let dir2 = (dir.0, dir.1, 100 * dir.2);
    if s_len(dir2) == 0 {
        RGB(0, 0, 0)
    } else {
        let n = s_norm(dir2);
        let tu = spec_tex_coord(n.0);
        let tv = spec_tex_coord(n.2);
        let xi = min_i(tdiv(tu * tex.width, 65536), tex.width - 1);
        let yi = min_i(tdiv(tv * tex.height, 65536), tex.height - 1);
        tex.values[yi * tex.width + xi]
    }
}

pub open spec fn plane_sample_spec(
    corner0: (int, int, int),
    corner1: (int, int, int),
    pl: Plane,
    tex: Texture2d,
    pt: (int, int, int),
) -> RGB {
    let c = project(pl.0, pt);
    let s = project(pl.0, corner0);
    let e = project(pl.0, corner1);
    if e.0 == s.0 || e.1 == s.1 {
        RGB(0, 0, 0)
    } else {
        let x = fx_div(c.0 - s.0, e.0 - s.0);
        let y = fx_div(c.1 - s.1, e.1 - s.1);
        if x >= tex.width * 65536 || y >= tex.height * 65536 || x < 0 || y < 0 {
            RGB(0, 0, 0)
        } else {
            tex.values[tdiv(y, 65536) * tex.width + tdiv(x, 65536)]
        }
    }
}

/// The color a polygon's material produces at a point.
pub open spec fn color_at_spec(p: Polygon, pt: (int, int, int)) -> RGB {
    match p.material.color {
        ColorGenerator::Uniform(c) => c,
        ColorGenerator::Linear(c0, c1, c2) => {
            let d0 = s_len(s_sub(vx(p.coords.0), pt));
            let d1 = s_len(s_sub(vx(p.coords.1), pt));
            let d2 = s_len(s_sub(vx(p.coords.2), pt));
            let t = d0 + d1 + d2;
            if t == 0 {
                RGB(0, 0, 0)
            } else {
                RGB(
                    linear_channel(
                        d0,
                        d1,
                        d2,
                        t,
                        c0.0 as int,
                        c1.0 as int,
                        c2.0 as int,
                    ) as u8,
                    linear_channel(
                        d0,
                        d1,
                        d2,
                        t,
                        c0.1 as int,
                        c1.1 as int,
                        c2.1 as int,
                    ) as u8,
                    linear_channel(
                        d0,
                        d1,
                        d2,
                        t,
                        c0.2 as int,
                        c1.2 as int,
                        c2.2 as int,
                    ) as u8,
                )
            }
        },
        ColorGenerator::SphereTexture(center, tex) => sphere_sample_spec(vx(center), *tex, pt),
        ColorGenerator::PlaneTexture(corner0, corner1, pl, tex) => plane_sample_spec(
            vx(corner0),
            vx(corner1),
            pl,
            *tex,
            pt,
        ),
    }
}

/// One blended channel of the `Linear` generator.
fn linear_channel_exec(d0: i64, d1: i64, d2: i64, t: i64, a0: u8, a1: u8, a2: u8) -> (c: u8)
    requires
        t >= 1,
        0 <= d0 <= 0x6_0000_0000,
        0 <= d1 <= 0x6_0000_0000,
        0 <= d2 <= 0x6_0000_0000,
    ensures
        c == linear_channel(
            d0 as int,
            d1 as int,
            d2 as int,
            t as int,
            a0 as int,
            a1 as int,
            a2 as int,
        ),
{
    proof {
        lemma_mul_bound(d0 as int, a0 as int, 0x6_0000_0000, 255);
        lemma_mul_bound(d1 as int, a1 as int, 0x6_0000_0000, 255);
        lemma_mul_bound(d2 as int, a2 as int, 0x6_0000_0000, 255);
        crate::fx::lemma_fx_div_fits(d0 as int * a0 as int, t as int, 0x6_0000_0000 * 255int);
        crate::fx::lemma_fx_div_fits(d1 as int * a1 as int, t as int, 0x6_0000_0000 * 255int);
        crate::fx::lemma_fx_div_fits(d2 as int * a2 as int, t as int, 0x6_0000_0000 * 255int);
    }
    let t0: i64 = 65536 - fxdiv(d0 * (a0 as i64), t);
    let t1: i64 = 65536 - fxdiv(d1 * (a1 as i64), t);
    let t2: i64 = 65536 - fxdiv(d2 * (a2 as i64), t);
    let v: i64 = (t0 + t1 + t2) / 65536;
    if v < 0 {
        0
    } else if v > 255 {
        255
    } else {
        v as u8
    }
}

/// The two in-plane components of a vector, given the plane's normal
/// dimension.
fn project_exec(d: Dimension, v: Vector3) -> (r: (i64, i64))
    ensures
        (r.0 as int, r.1 as int) == project(d, vx(v)),
{
    match d {
        Dimension::X => (v.1, v.2),
        Dimension::Y => (v.0, v.2),
        Dimension::Z => (v.0, v.1),
    }
}

impl Polygon {
    /// The color this polygon's material produces at a point, §4.4 of the
    /// shading model: dispatch on the generator variant.
    pub fn color_at(&self, point: Vector3) -> (r: RGB)
        requires
            poly_wf(*self),
            in_range(vx(point), POINT_BOUND as int),
        ensures
            r == color_at_spec(*self, vx(point)),
    {
        match &self.material.color {
            ColorGenerator::Uniform(c) => *c,
            ColorGenerator::Linear(c0, c1, c2) => {
                proof {
                    lemma_s_len_bound(s_sub(vx(self.coords.0), vx(point)), 0x3_0000_0000);
                    lemma_s_len_bound(s_sub(vx(self.coords.1), vx(point)), 0x3_0000_0000);
                    lemma_s_len_bound(s_sub(vx(self.coords.2), vx(point)), 0x3_0000_0000);
                }
                let d0 = self.coords.0.sub(point).length();
                let d1 = self.coords.1.sub(point).length();
                let d2 = self.coords.2.sub(point).length();
                let t: i64 = d0 + d1 + d2;
                if t == 0 {
                    RGB(0, 0, 0)
                } else {
                    RGB(
                        linear_channel_exec(d0, d1, d2, t, c0.0, c1.0, c2.0),
                        linear_channel_exec(d0, d1, d2, t, c0.1, c1.1, c2.1),
                        linear_channel_exec(d0, d1, d2, t, c0.2, c1.2, c2.2),
                    )
                }
            },
            ColorGenerator::SphereTexture(center, tex) => {
                let dir = point.sub(*center);
                let dir2 = Vector3(dir.0, dir.1, dir.2 * 100);
                let len = dir2.length();
                if len == 0 {
                    RGB(0, 0, 0)
                } else {
                    let n = dir2.normalize();
                    let tu = tex_coord(n.0);
                    let tv = tex_coord(n.2);
                    proof {
                        lemma_mul_bound(tu as int, tex.width as int, 65536, 65535);
                        lemma_mul_bound(tv as int, tex.height as int, 65536, 65535);
                        lemma_tdiv_bound(tu as int * tex.width as int, 65536, 65536 * 65535int);
                        lemma_tdiv_bound(tv as int * tex.height as int, 65536, 65536 * 65535int);
                    }
                    let w: i64 = tex.width as i64;
                    let h: i64 = tex.height as i64;
                    let xq: i64 = (tu * w) / 65536;
                    let yq: i64 = (tv * h) / 65536;
                    let xi: i64 = if xq < w - 1 {
                        xq
                    } else {
                        w - 1
                    };
                    let yi: i64 = if yq < h - 1 {
                        yq
                    } else {
                        h - 1
                    };
                    tex.sample(xi as usize, yi as usize)
                }
            },
            ColorGenerator::PlaneTexture(corner0, corner1, pl, tex) => {
                let Plane(d) = *pl;
                let c = project_exec(d, point);
                let s = project_exec(d, *corner0);
                let e = project_exec(d, *corner1);
                if e.0 == s.0 || e.1 == s.1 {
                    RGB(0, 0, 0)
                } else {
                    proof {
                        crate::fx::lemma_fx_div_fits(
                            c.0 as int - s.0 as int,
                            e.0 as int - s.0 as int,
                            0x3_0000_0000,
                        );
                        crate::fx::lemma_fx_div_fits(
                            c.1 as int - s.1 as int,
                            e.1 as int - s.1 as int,
                            0x3_0000_0000,
                        );
                    }
                    let x = fxdiv(c.0 - s.0, e.0 - s.0);
                    let y = fxdiv(c.1 - s.1, e.1 - s.1);
                    let wfx: i64 = (tex.width as i64) * 65536;
                    let hfx: i64 = (tex.height as i64) * 65536;
                    if x >= wfx || y >= hfx || x < 0 || y < 0 {
                        RGB(0, 0, 0)
                    } else {
                        proof {
                            vstd::arithmetic::div_mod::lemma_multiply_divide_lt(
                                x as int,
                                65536,
                                tex.width as int,
                            );
                            vstd::arithmetic::div_mod::lemma_multiply_divide_lt(
                                y as int,
                                65536,
                                tex.height as int,
                            );
                        }
                        let xq: i64 = x / 65536;
                        let yq: i64 = y / 65536;
                        tex.sample(xq as usize, yq as usize)
                    }
                }
            },
        }
    }

    /// The triangle's unnormalized face normal: the cross product of two
    /// edges from the first vertex.
    pub fn face_cross(&self) -> (r: Vector3)
        requires
            in_range(vx(self.coords.0), COORD_BOUND as int),
            in_range(vx(self.coords.1), COORD_BOUND as int),
            in_range(vx(self.coords.2), COORD_BOUND as int),
        ensures
            vx(r) == poly_cross(*self),
            in_range(vx(r), 0x10_0000_0000_0000),
    {
        let e1 = self.coords.1.sub(self.coords.0);
        let e2 = self.coords.2.sub(self.coords.0);
        proof {
            lemma_fx_mul_fits(e1.1 as int, e2.2 as int, 0x2_0000_0000, 0x2_0000_0000);
            lemma_fx_mul_fits(e1.2 as int, e2.1 as int, 0x2_0000_0000, 0x2_0000_0000);
            lemma_fx_mul_fits(e1.2 as int, e2.0 as int, 0x2_0000_0000, 0x2_0000_0000);
            lemma_fx_mul_fits(e1.0 as int, e2.2 as int, 0x2_0000_0000, 0x2_0000_0000);
            lemma_fx_mul_fits(e1.0 as int, e2.1 as int, 0x2_0000_0000, 0x2_0000_0000);
            lemma_fx_mul_fits(e1.1 as int, e2.0 as int, 0x2_0000_0000, 0x2_0000_0000);
        }
        e1.cross(e2)
    }

    /// The normalized face normal. A degenerate (collinear) triangle has a
    /// zero cross product and no normal: that case is excluded here.
    pub fn normal(&self) -> (r: Vector3)
        requires
            in_range(vx(self.coords.0), COORD_BOUND as int),
            in_range(vx(self.coords.1), COORD_BOUND as int),
            in_range(vx(self.coords.2), COORD_BOUND as int),
            s_len(poly_cross(*self)) != 0,
        ensures
            vx(r) == normal_spec(*self),
            in_range(vx(r), 65536),
    {
        let c = self.face_cross();
        c.normalize()
    }
}

/// A dot product of bounded triples is bounded.
pub proof fn lemma_s_dot_bound(a: (int, int, int), b: (int, int, int), ba: int, bb: int)
    requires
        in_range(a, ba),
        in_range(b, bb),
        0 <= ba,
        0 <= bb,
    ensures
        mag(s_dot(a, b)) <= 3 * ((ba * bb) / 65536 + 1),
{
    lemma_fx_mul_bound(a.0, b.0, ba, bb);
    lemma_fx_mul_bound(a.1, b.1, ba, bb);
    lemma_fx_mul_bound(a.2, b.2, ba, bb);
}

/// Only the zero vector has length zero.
pub proof fn lemma_len_zero(a: (int, int, int))
    requires
        s_len(a) == 0,
    ensures
        a.0 == 0 && a.1 == 0 && a.2 == 0,
{
    let sum = a.0 * a.0 + a.1 * a.1 + a.2 * a.2;
    assert(sum >= 0) by (nonlinear_arith)
        requires
            sum == a.0 * a.0 + a.1 * a.1 + a.2 * a.2,
    ;
    lemma_sqrt_floor(sum);
    assert(sum == 0);
    assert(a.0 == 0 && a.1 == 0 && a.2 == 0) by (nonlinear_arith)
        requires
            a.0 * a.0 + a.1 * a.1 + a.2 * a.2 == 0,
    ;
}

/// The dot product with the zero vector on the left is zero.
pub proof fn lemma_dot_zero_left(b: (int, int, int))
    ensures
        s_dot((0, 0, 0), b) == 0,
{
    assert(0 * b.0 == 0 && 0 * b.1 == 0 && 0 * b.2 == 0) by (nonlinear_arith);
}

/// The cross product of a polygon's two edges from its first vertex.
pub open spec fn poly_cross(p: Polygon) -> (int, int, int) {
    s_cross(s_sub(vx(p.coords.1), vx(p.coords.0)), s_sub(vx(p.coords.2), vx(p.coords.0)))
}

/// The normalized face normal of a polygon.
pub open spec fn normal_spec(p: Polygon) -> (int, int, int) {
    s_norm(poly_cross(p))
}

/// An ordered vertex list with one material and an assembly mode.
pub struct Shape {
    pub verts: Vec<Vector3>,
    pub material: Material,
    pub primitive: Primitive,
}

pub open spec fn shape_wf(s: Shape) -> bool {
    mat_wf(s.material) && forall|i: int|
        0 <= i < s.verts.len() ==> in_range(vx(#[trigger] s.verts[i]), COORD_BOUND as int)
}

/// The triangles a shape tessellates into: disjoint consecutive triples for
/// a list (a trailing incomplete group dropped), all length-3 windows for a
/// strip. Winding is not corrected: strip vertices must already be in strip
/// order.
pub open spec fn tess(s: Shape) -> Seq<Polygon> {
    match s.primitive {
        Primitive::TriangleList => Seq::new(
            (s.verts.len() as int / 3) as nat,
            |i: int|
                Polygon {
                    coords: (s.verts[3 * i], s.verts[3 * i + 1], s.verts[3 * i + 2]),
                    material: s.material,
                },
        ),
        Primitive::TriangleStrip => if s.verts.len() < 3 {
            Seq::empty()
        } else {
            Seq::new(
                (s.verts.len() - 2) as nat,
                |i: int|
                    Polygon {
                        coords: (s.verts[i], s.verts[i + 1], s.verts[i + 2]),
                        material: s.material,
                    },
            )
        },
    }
}

impl Shape {
    /// Tessellation: a pure, repeatable transform of the vertex list into
    /// triangles that all share this shape's material.
    pub fn to_polygons(&self) -> (r: Vec<Polygon>)
        ensures
            r@ == tess(*self),
    {
        let mut r: Vec<Polygon> = Vec::new();
        match self.primitive {
            Primitive::TriangleList => {
                let n: usize = self.verts.len() / 3;
                let mut i: usize = 0;
                while i < n
                    invariant
                        self.primitive is TriangleList,
                        n == self.verts.len() / 3,
                        i <= n,
                        r@ == tess(*self).take(i as int),
                    decreases n - i,
                {
                    let p = Polygon {
                        coords: (
                            self.verts[3 * i],
                            self.verts[3 * i + 1],
                            self.verts[3 * i + 2],
                        ),
                        material: self.material.clone(),
                    };
                    r.push(p);
                    i = i + 1;
                    proof {
                        assert(r@ =~= tess(*self).take(i as int));
                    }
                }
                proof {
                    assert(tess(*self).take(n as int) =~= tess(*self));
                }
            },
            Primitive::TriangleStrip => {
                if self.verts.len() >= 3 {
                    let n: usize = self.verts.len() - 2;
                    let mut i: usize = 0;
                    while i < n
                        invariant
                            self.primitive is TriangleStrip,
                            n == self.verts.len() - 2,
                            self.verts.len() >= 3,
                            i <= n,
                            r@ == tess(*self).take(i as int),
                        decreases n - i,
                    {
                        let p = Polygon {
                            coords: (self.verts[i], self.verts[i + 1], self.verts[i + 2]),
                            material: self.material.clone(),
                        };
                        r.push(p);
                        i = i + 1;
                        proof {
                            assert(r@ =~= tess(*self).take(i as int));
                        }
                    }
                    proof {
                        assert(tess(*self).take(n as int) =~= tess(*self));
                    }
                } else {
                    proof {
                        assert(r@ =~= tess(*self));
                    }
                }
            },
        }
        r
    }
}

/// Every triangle of a well-formed shape is well-formed.
pub proof fn lemma_tess_wf(s: Shape)
    requires
        shape_wf(s),
    ensures
        forall|i: int| 0 <= i < tess(s).len() ==> poly_wf(#[trigger] tess(s)[i]),
{
}

/// A scene: shapes to draw and point-light positions. Each light counts
/// with the same unit-less intensity.
pub struct World {
    pub shapes: Vec<Shape>,
    pub lighting: Vec<Vector3>,
}

pub open spec fn world_wf(w: World) -> bool {
    &&& forall|i: int| 0 <= i < w.shapes.len() ==> shape_wf(#[trigger] w.shapes[i])
    &&& forall|i: int|
        0 <= i < w.lighting.len() ==> in_range(vx(#[trigger] w.lighting[i]), COORD_BOUND as int)
    &&& w.lighting.len() <= 0x1_0000_0000
}

/// The triangles of the first `n` shapes, tessellated in order.
pub open spec fn world_polys_prefix(shapes: Seq<Shape>, n: int) -> Seq<Polygon>
    decreases n,
{
    if n <= 0 {
        Seq::empty()
    } else {
        world_polys_prefix(shapes, n - 1) + tess(shapes[n - 1])
    }
}

/// Every triangle of a world, shape by shape.
pub open spec fn world_polys(w: World) -> Seq<Polygon> {
    world_polys_prefix(w.shapes@, w.shapes@.len() as int)
}

pub proof fn lemma_world_polys_prefix_wf(shapes: Seq<Shape>, n: int)
    requires
        n <= shapes.len(),
        forall|i: int| 0 <= i < shapes.len() ==> shape_wf(#[trigger] shapes[i]),
    ensures
        forall|i: int|
            0 <= i < world_polys_prefix(shapes, n).len() ==> poly_wf(
                #[trigger] world_polys_prefix(shapes, n)[i],
            ),
    decreases n,
{
    if n > 0 {
        lemma_world_polys_prefix_wf(shapes, n - 1);
        lemma_tess_wf(shapes[n - 1]);
        let pre = world_polys_prefix(shapes, n - 1);
        let t = tess(shapes[n - 1]);
        assert forall|i: int|
            0 <= i < world_polys_prefix(shapes, n).len() implies poly_wf(
            #[trigger] world_polys_prefix(shapes, n)[i],
        ) by {
            if i < pre.len() {
                assert(world_polys_prefix(shapes, n)[i] == pre[i]);
            } else {
                assert(world_polys_prefix(shapes, n)[i] == t[i - pre.len()]);
            }
        }
    }
}

/// Every triangle of a well-formed world is well-formed.
pub proof fn lemma_world_polys_wf(w: World)
    requires
        world_wf(w),
    ensures
        forall|i: int|
            0 <= i < world_polys(w).len() ==> poly_wf(#[trigger] world_polys(w)[i]),
{
    lemma_world_polys_prefix_wf(w.shapes@, w.shapes@.len() as int);
}

/// Something that can produce a scene to draw.
pub trait Worldly {
    /// When this producer is in a fit state to build a scene.
    spec fn wf(&self) -> bool;

    /// The scene to draw, rebuilt from the producer's own state.
    fn scene(&self) -> (w: World)
        requires
            self.wf(),
        ensures
            world_wf(w),
    ;
}

} // verus!
