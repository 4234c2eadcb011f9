//! The intersection engine and the shading pipeline: ray-triangle tests,
//! nearest-hit search, Lambertian shading with shadow rays, one recursive
//! mirror bounce, and the per-pixel render loop.
//!
//! Every step is specified exactly over the integer model of `geometry`.
//! Two guards with no counterpart in real-number geometry bound the machine
//! arithmetic, and both are stated in the specification: a hit is dropped
//! when its ray parameter exceeds `T_MAX` or its point leaves
//! `POINT_BOUND`, both far outside any scene the coordinate bounds admit.

use vstd::prelude::*;
use crate::fx::{
    mag, tdiv, fx_mul, fx_div, lemma_mul_bound, lemma_tdiv_bound, lemma_fx_mul_fits,
};
use crate::geometry::{
    Vector3, RGB, Polygon, World, vx, s_add, s_sub, s_scale, s_cross, s_dot, s_len, s_norm,
    in_range, poly_cross, normal_spec, color_at_spec, poly_wf, world_wf, world_polys,
    world_polys_prefix, lemma_world_polys_wf, lemma_s_dot_bound, lemma_len_zero,
    lemma_dot_zero_left, clamp255, min_i, COORD_BOUND, POINT_BOUND,
};

verus! {

/// Ray origins handed to the intersection engine stay within this
/// magnitude.
pub const ORIGIN_BOUND: i64 = 0x4000_0000_0000;

/// Ray directions handed to the intersection engine stay within this
/// magnitude.
pub const DIR_BOUND: i64 = 0x10_0000_0000_0000;

/// The largest accepted ray parameter; greater hits are treated as misses.
pub const T_MAX: i64 = 0x1_0000_0000_0000;

/// The oriented edge test of the intersection algorithm: the face normal
/// dotted with `(a - b) x (p - b)`. Negative means `p` lies outside the
/// triangle on edge `(a, b)`'s side.
pub open spec fn edge_val(
    n: (int, int, int),
    a: (int, int, int),
    b: (int, int, int),
    p: (int, int, int),
) -> int {
    s_dot(n, s_cross(s_sub(a, b), s_sub(p, b)))
}

/// The ray-triangle intersection: face normal `n`, denominator `n . d`
/// (zero means the ray is parallel to the plane: a miss), ray parameter
/// `t = (n . (v0 - o)) / denom` (negative: triangle behind the origin),
/// hit point `p = o + d * t`, and the three oriented edge tests. The two
/// machine-limit guards (`t <= T_MAX`, `p` within `POINT_BOUND`) are part
/// of the definition.
pub open spec fn raytrace_spec(o: (int, int, int), d: (int, int, int), p: Polygon) -> Option<
    (int, (int, int, int)),
> {
    let n = poly_cross(p);
    let denom = s_dot(n, d);
    if denom == 0 {
        None
    } else {
        let tn = s_dot(n, s_sub(vx(p.coords.0), o));
        let t = fx_div(tn, denom);
        if t < 0 || t > T_MAX {
            None
        } else {
            let pt = s_add(o, s_scale(d, t));
            if !in_range(pt, POINT_BOUND as int) {
                None
            } else if edge_val(n, vx(p.coords.1), vx(p.coords.0), pt) < 0 {
                None
            } else if edge_val(n, vx(p.coords.2), vx(p.coords.1), pt) < 0 {
                None
            } else if edge_val(n, vx(p.coords.0), vx(p.coords.2), pt) < 0 {
                None
            } else {
                Some((t, pt))
            }
        }
    }
}

/// An executable hit, lifted to the specification's integers.
pub open spec fn lift_hit(r: Option<(i64, Vector3)>) -> Option<(int, (int, int, int))> {
    match r {
        None => None,
        Some((t, p)) => Some((t as int, vx(p))),
    }
}

/// A dot product over wide intermediates, for values too large for the
/// `i64` vector operations.
fn wide_dot(a: Vector3, b: Vector3) -> (r: i128)
    requires
        in_range(vx(a), 0x80_0000_0000_0000),
        in_range(vx(b), 0x80_0000_0000_0000),
    ensures
        r == s_dot(vx(a), vx(b)),
        mag(r as int) <= 0x1_0000_0000_0000_0000_0000_0000,
{
    proof {
        lemma_mul_bound(a.0 as int, b.0 as int, 0x80_0000_0000_0000, 0x80_0000_0000_0000);
        lemma_mul_bound(a.1 as int, b.1 as int, 0x80_0000_0000_0000, 0x80_0000_0000_0000);
        lemma_mul_bound(a.2 as int, b.2 as int, 0x80_0000_0000_0000, 0x80_0000_0000_0000);
        lemma_tdiv_bound(
            a.0 as int * b.0 as int,
            65536,
            0x4000_0000_0000_0000_0000_0000_0000int,
        );
        lemma_tdiv_bound(
            a.1 as int * b.1 as int,
            65536,
            0x4000_0000_0000_0000_0000_0000_0000int,
        );
        lemma_tdiv_bound(
            a.2 as int * b.2 as int,
            65536,
            0x4000_0000_0000_0000_0000_0000_0000int,
        );
    }
    let q0: i128 = ((a.0 as i128) * (b.0 as i128)) / 65536;
    let q1: i128 = ((a.1 as i128) * (b.1 as i128)) / 65536;
    let q2: i128 = ((a.2 as i128) * (b.2 as i128)) / 65536;
    q0 + q1 + q2
}

/// One oriented edge test, over wide intermediates.
fn edge_test(n: Vector3, a: Vector3, b: Vector3, p: Vector3) -> (r: i128)
    requires
        in_range(vx(n), 0x10_0000_0000_0000),
        in_range(vx(a), COORD_BOUND as int),
        in_range(vx(b), COORD_BOUND as int),
        in_range(vx(p), POINT_BOUND as int),
    ensures
        r == edge_val(vx(n), vx(a), vx(b), vx(p)),
{
    let ab = a.sub(b);
    let pb = p.sub(b);
    proof {
        lemma_fx_mul_fits(ab.1 as int, pb.2 as int, 0x2_0000_0000, 0x3_0000_0000);
        lemma_fx_mul_fits(ab.2 as int, pb.1 as int, 0x2_0000_0000, 0x3_0000_0000);
        lemma_fx_mul_fits(ab.2 as int, pb.0 as int, 0x2_0000_0000, 0x3_0000_0000);
        lemma_fx_mul_fits(ab.0 as int, pb.2 as int, 0x2_0000_0000, 0x3_0000_0000);
        lemma_fx_mul_fits(ab.0 as int, pb.1 as int, 0x2_0000_0000, 0x3_0000_0000);
        lemma_fx_mul_fits(ab.1 as int, pb.0 as int, 0x2_0000_0000, 0x3_0000_0000);
    }
    let c = ab.cross(pb);
    wide_dot(n, c)
}

impl Polygon {
    /// The ray-triangle hit test: `Some((t, p))` exactly when
    /// `raytrace_spec` yields a hit, with the same parameter and point.
    /// The direction need not be normalized; its magnitude scales `t`.
    pub fn raytrace(&self, origin: Vector3, direction: Vector3) -> (r: Option<(i64, Vector3)>)
        requires
            in_range(vx(self.coords.0), COORD_BOUND as int),
            in_range(vx(self.coords.1), COORD_BOUND as int),
            in_range(vx(self.coords.2), COORD_BOUND as int),
            in_range(vx(origin), ORIGIN_BOUND as int),
            in_range(vx(direction), DIR_BOUND as int),
        ensures
            lift_hit(r) == raytrace_spec(vx(origin), vx(direction), *self),
    {
        let n = self.face_cross();
        let denom: i128 = wide_dot(n, direction);
        if denom == 0 {
            return None;
        }
        let vo = self.coords.0.sub(origin);
        proof {
            lemma_s_dot_bound(vx(n), vx(vo), 0x10_0000_0000_0000int, 0x4100_0000_0000int);
        }
        let tn: i128 = wide_dot(n, vo);
        let tnum: i128 = tn * 65536;
        let (pn, bn): (i128, i128) = if denom < 0 {
            (-tnum, -denom)
        } else {
            (tnum, denom)
        };
        let t128: i128 = pn / bn;
        assert(t128 == fx_div(tn as int, denom as int));
        if t128 < 0 || t128 > (T_MAX as i128) {
            return None;
        }
        let t: i64 = t128 as i64;
        proof {
            lemma_mul_bound(direction.0 as int, t as int, DIR_BOUND as int, T_MAX as int);
            lemma_mul_bound(direction.1 as int, t as int, DIR_BOUND as int, T_MAX as int);
            lemma_mul_bound(direction.2 as int, t as int, DIR_BOUND as int, T_MAX as int);
            lemma_tdiv_bound(
                direction.0 as int * t as int,
                65536,
                0x10_0000_0000_0000 * 0x1_0000_0000_0000int,
            );
            lemma_tdiv_bound(
                direction.1 as int * t as int,
                65536,
                0x10_0000_0000_0000 * 0x1_0000_0000_0000int,
            );
            lemma_tdiv_bound(
                direction.2 as int * t as int,
                65536,
                0x10_0000_0000_0000 * 0x1_0000_0000_0000int,
            );
        }
        let px: i128 = (origin.0 as i128) + ((direction.0 as i128) * (t as i128)) / 65536;
        let py: i128 = (origin.1 as i128) + ((direction.1 as i128) * (t as i128)) / 65536;
        let pz: i128 = (origin.2 as i128) + ((direction.2 as i128) * (t as i128)) / 65536;
        let pb: i128 = POINT_BOUND as i128;
        if px > pb || px < -pb || py > pb || py < -pb || pz > pb || pz < -pb {
            return None;
        }
        let pt = Vector3(px as i64, py as i64, pz as i64);
        if edge_test(n, self.coords.1, self.coords.0, pt) < 0 {
            return None;
        }
        if edge_test(n, self.coords.2, self.coords.1, pt) < 0 {
            return None;
        }
        if edge_test(n, self.coords.0, self.coords.2, pt) < 0 {
            return None;
        }
        Some((t, pt))
    }
}

/// Every triangle of the list is well-formed.
pub open spec fn polys_wf(s: Seq<Polygon>) -> bool {
    forall|i: int| 0 <= i < s.len() ==> poly_wf(#[trigger] s[i])
}

/// Light positions within the scene bound, and few enough to sum their
/// contributions in a fixed-point scalar.
pub open spec fn lights_wf(s: Seq<Vector3>) -> bool {
    (forall|i: int| 0 <= i < s.len() ==> in_range(vx(#[trigger] s[i]), COORD_BOUND as int))
        && s.len() <= 0x1_0000_0000
}

/// The nearest hit among the first `n` triangles: index, hit point and ray
/// parameter. A later triangle replaces an earlier one only with a
/// strictly smaller parameter, so among equals the first wins.
pub open spec fn closest_upto(
    o: (int, int, int),
    d: (int, int, int),
    polys: Seq<Polygon>,
    n: int,
) -> Option<(int, (int, int, int), int)>
    decreases n,
{
    if n <= 0 {
        None
    } else {
        let prev = closest_upto(o, d, polys, n - 1);
        match raytrace_spec(o, d, polys[n - 1]) {
            None => prev,
            Some((t, pt)) => match prev {
                None => Some((n - 1, pt, t)),
                Some((pi, ppt, prev_t)) => if t < prev_t {
                    Some((n - 1, pt, t))
                } else {
                    prev
                },
            },
        }
    }
}

/// The nearest hit of a ray against a whole triangle list.
pub open spec fn closest_hit(
    o: (int, int, int),
    d: (int, int, int),
    polys: Seq<Polygon>,
) -> Option<(int, (int, int, int), int)> {
    closest_upto(o, d, polys, polys.len() as int)
}

/// An executable nearest hit, lifted to the specification's integers.
pub open spec fn lift_closest(r: Option<(usize, Vector3, i64)>) -> Option<
    (int, (int, int, int), int),
> {
    match r {
        None => None,
        Some((i, p, t)) => Some((i as int, vx(p), t as int)),
    }
}

proof fn lemma_closest_upto_minimal(
    o: (int, int, int),
    d: (int, int, int),
    polys: Seq<Polygon>,
    n: int,
)
    requires
        0 <= n <= polys.len(),
    ensures
        closest_upto(o, d, polys, n) is None ==> forall|j: int|
            0 <= j < n ==> raytrace_spec(o, d, #[trigger] polys[j]) is None,
        closest_upto(o, d, polys, n) matches Some((i, pt, t)) ==> {
            &&& 0 <= i < n
            &&& raytrace_spec(o, d, polys[i]) == Some((t, pt))
            &&& forall|j: int|
                0 <= j < n && raytrace_spec(o, d, #[trigger] polys[j]) is Some ==> t
                    <= raytrace_spec(o, d, polys[j]).unwrap().0
            &&& forall|j: int|
                0 <= j < i && raytrace_spec(o, d, #[trigger] polys[j]) is Some ==> t
                    < raytrace_spec(o, d, polys[j]).unwrap().0
        },
    decreases n,
{
    if n > 0 {
        lemma_closest_upto_minimal(o, d, polys, n - 1);
    }
}

/// Nearest-hit minimality: a returned hit belongs to a triangle of the
/// list, carries that triangle's own intersection, and no triangle of the
/// list intersects the ray with a strictly smaller parameter; among
/// triangles hit at the very same parameter, the one of least index is
/// returned. When no hit is returned, no triangle intersects the ray.
pub proof fn lemma_closest_hit_minimal(o: (int, int, int), d: (int, int, int), polys: Seq<Polygon>)
    ensures
        closest_hit(o, d, polys) is None ==> forall|j: int|
            0 <= j < polys.len() ==> raytrace_spec(o, d, #[trigger] polys[j]) is None,
        closest_hit(o, d, polys) matches Some((i, pt, t)) ==> {
            &&& 0 <= i < polys.len()
            &&& raytrace_spec(o, d, polys[i]) == Some((t, pt))
            &&& forall|j: int|
                0 <= j < polys.len() && raytrace_spec(o, d, #[trigger] polys[j]) is Some ==> t
                    <= raytrace_spec(o, d, polys[j]).unwrap().0
            &&& forall|j: int|
                0 <= j < i && raytrace_spec(o, d, #[trigger] polys[j]) is Some ==> t
                    < raytrace_spec(o, d, polys[j]).unwrap().0
        },
{
    lemma_closest_upto_minimal(o, d, polys, polys.len() as int);
}

/// A raster of pixels filled by the render loop.
pub struct Canvas {
    pub width: u16,
    pub height: u16,
    pub pixels: Vec<Vec<RGB>>,
}

impl Canvas {
    /// The nearest hit of a ray against the triangle list: triangle index,
    /// hit point, and ray parameter. Comparison is strict, so the first
    /// triangle wins exact ties.
    pub fn closest_polygon(origin: Vector3, direction: Vector3, polys: &Vec<Polygon>) -> (r:
        Option<(usize, Vector3, i64)>)
        requires
            polys_wf(polys@),
            in_range(vx(origin), ORIGIN_BOUND as int),
            in_range(vx(direction), DIR_BOUND as int),
        ensures
            lift_closest(r) == closest_hit(vx(origin), vx(direction), polys@),
    {
        let mut best: Option<(usize, Vector3, i64)> = None;
        let mut i: usize = 0;
        while i < polys.len()
            invariant
                polys_wf(polys@),
                in_range(vx(origin), ORIGIN_BOUND as int),
                in_range(vx(direction), DIR_BOUND as int),
                i <= polys.len(),
                lift_closest(best) == closest_upto(vx(origin), vx(direction), polys@, i as int),
            decreases polys.len() - i,
        {
            let hit = polys[i].raytrace(origin, direction);
            if let Some((t, c)) = hit {
                match best {
                    None => {
                        best = Some((i, c, t));
                    },
                    Some((_, _, best_t)) => {
                        if t < best_t {
                            best = Some((i, c, t));
                        }
                    },
                }
            }
            i = i + 1;
        }
        best
    }
}

/// One light's contribution to the Lambertian sum at a point: zero when a
/// triangle stands strictly nearer along the shadow ray than the light;
/// otherwise the magnitude of the cosine between the normalized light
/// direction and the surface normal, so back faces receive light too.
/// Two guards keep the term within the cosine model: a light at the very
/// point contributes zero (its direction cannot be normalized), and the
/// term is capped at one (65536) — truncation in the fixed-point
/// normalization of a short direction could otherwise push the dot
/// product past the unit bound a cosine promises. The shadow ray starts
/// at the point biased by `66/65536` (one thousandth) of the light
/// direction, to avoid immediate self-intersection.
pub open spec fn light_term(
    point: (int, int, int),
    polys: Seq<Polygon>,
    light: (int, int, int),
    normal: (int, int, int),
) -> int {
    let dir = s_sub(light, point);
    let sh_o = s_add(point, s_scale(dir, 66));
    let occluded = match closest_hit(sh_o, dir, polys) {
        Some((i, pt, t)) => t < s_len(dir),
        None => false,
    };
    if occluded {
        0
    } else if s_len(dir) == 0 {
        0
    } else {
        min_i(65536, mag(s_dot(s_norm(dir), normal)))
    }
}

/// The Lambertian sum over the first `n` lights.
pub open spec fn lambert_upto(
    point: (int, int, int),
    polys: Seq<Polygon>,
    lights: Seq<Vector3>,
    normal: (int, int, int),
    n: int,
) -> int
    decreases n,
{
    if n <= 0 {
        0
    } else {
        lambert_upto(point, polys, lights, normal, n - 1) + light_term(
            point,
            polys,
            vx(lights[n - 1]),
            normal,
        )
    }
}

/// The Lambertian sum over all lights of a scene.
pub open spec fn lambert_spec(
    point: (int, int, int),
    polys: Seq<Polygon>,
    lights: Seq<Vector3>,
    normal: (int, int, int),
) -> int {
    lambert_upto(point, polys, lights, normal, lights.len() as int)
}

/// One light contributes between zero and one (65536): zero when
/// occluded or at the shaded point, the capped cosine otherwise.
pub proof fn lemma_light_term_bound(
    point: (int, int, int),
    polys: Seq<Polygon>,
    light: (int, int, int),
    normal: (int, int, int),
)
    ensures
        0 <= light_term(point, polys, light, normal) <= 65536,
{
}

proof fn lemma_lambert_upto_bound(
    point: (int, int, int),
    polys: Seq<Polygon>,
    lights: Seq<Vector3>,
    normal: (int, int, int),
    n: int,
)
    requires
        0 <= n <= lights.len(),
    ensures
        0 <= lambert_upto(point, polys, lights, normal, n) <= n * 65536,
    decreases n,
{
    if n > 0 {
        lemma_lambert_upto_bound(point, polys, lights, normal, n - 1);
        lemma_light_term_bound(point, polys, vx(lights[n - 1]), normal);
    }
}

/// Each light's term is the magnitude of a cosine, capped at one, or
/// zero: the Lambertian sum lies between zero and the number of lights.
pub proof fn lemma_lambert_unit_bound(
    point: (int, int, int),
    polys: Seq<Polygon>,
    lights: Seq<Vector3>,
    normal: (int, int, int),
)
    ensures
        0 <= lambert_spec(point, polys, lights, normal) <= lights.len() * 65536,
{
    lemma_lambert_upto_bound(point, polys, lights, normal, lights.len() as int);
}

/// An occluded light contributes exactly zero: when some triangle's hit
/// along the shadow ray lies strictly nearer than the light, the term is
/// zero.
pub proof fn lemma_occluded_light_dark(
    point: (int, int, int),
    polys: Seq<Polygon>,
    light: (int, int, int),
    normal: (int, int, int),
)
    requires
        ({
            let dir = s_sub(light, point);
            let sh_o = s_add(point, s_scale(dir, 66));
            closest_hit(sh_o, dir, polys) matches Some((i, pt, t)) && t < s_len(dir)
        }),
    ensures
        light_term(point, polys, light, normal) == 0,
{
}

/// The mirror direction `d - n * (2 (d . n))`.
pub open spec fn reflect_spec(d: (int, int, int), n: (int, int, int)) -> (int, int, int) {
    s_sub(d, s_scale(n, 2 * s_dot(d, n)))
}

impl Canvas {
    /// The Lambertian term of the shading model: every light's
    /// contribution summed, each shadowed by the scene's own triangles.
    pub fn lambert_contribution(
        point: Vector3,
        polys: &Vec<Polygon>,
        lights: &Vec<Vector3>,
        normal: Vector3,
    ) -> (r: i64)
        requires
            polys_wf(polys@),
            lights_wf(lights@),
            in_range(vx(point), POINT_BOUND as int),
            in_range(vx(normal), 65536),
        ensures
            r == lambert_spec(vx(point), polys@, lights@, vx(normal)),
            0 <= r <= lights@.len() * 65536,
    {
        let mut acc: i64 = 0;
        let mut i: usize = 0;
        while i < lights.len()
            invariant
                polys_wf(polys@),
                lights_wf(lights@),
                in_range(vx(point), POINT_BOUND as int),
                in_range(vx(normal), 65536),
                i <= lights.len(),
                acc == lambert_upto(vx(point), polys@, lights@, vx(normal), i as int),
                0 <= acc <= i * 65536,
            decreases lights.len() - i,
        {
            let light = lights[i];
            let dir = light.sub(point);
            proof {
                lemma_fx_mul_fits(dir.0 as int, 66, 0x3_0000_0000, 66);
                lemma_fx_mul_fits(dir.1 as int, 66, 0x3_0000_0000, 66);
                lemma_fx_mul_fits(dir.2 as int, 66, 0x3_0000_0000, 66);
            }
            let sh_o = point.add(dir.scale(66));
            let hit = Canvas::closest_polygon(sh_o, dir, polys);
            let dl = dir.length();
            let occluded = match hit {
                Some((_, _, t)) => t < dl,
                None => false,
            };
            let term: i64 = if occluded {
                0
            } else if dl == 0 {
                0
            } else {
                let nn = dir.normalize();
                proof {
                    lemma_fx_mul_fits(nn.0 as int, normal.0 as int, 65536, 65536);
                    lemma_fx_mul_fits(nn.1 as int, normal.1 as int, 65536, 65536);
                    lemma_fx_mul_fits(nn.2 as int, normal.2 as int, 65536, 65536);
                }
                let dv = nn.dot(normal);
                let a: i64 = if dv < 0 {
                    -dv
                } else {
                    dv
                };
                if a > 65536 {
                    65536
                } else {
                    a
                }
            };
            proof {
                lemma_light_term_bound(vx(point), polys@, vx(light), vx(normal));
            }
            acc = acc + term;
            i = i + 1;
        }
        acc
    }

    /// The mirror reflection of a direction about a normalized normal.
    pub fn reflect(direction: Vector3, normal: Vector3) -> (r: Vector3)
        requires
            in_range(vx(direction), DIR_BOUND as int),
            in_range(vx(normal), 65536),
        ensures
            vx(r) == reflect_spec(vx(direction), vx(normal)),
            in_range(vx(r), 0x80_0000_0000_0000),
    {
        proof {
            lemma_fx_mul_fits(direction.0 as int, normal.0 as int, DIR_BOUND as int, 65536);
            lemma_fx_mul_fits(direction.1 as int, normal.1 as int, DIR_BOUND as int, 65536);
            lemma_fx_mul_fits(direction.2 as int, normal.2 as int, DIR_BOUND as int, 65536);
            lemma_s_dot_bound(vx(direction), vx(normal), DIR_BOUND as int, 65536);
        }
        let dv: i64 = direction.dot(normal);
        proof {
            lemma_fx_mul_fits(normal.0 as int, 2 * dv as int, 65536, 0x60_0000_0000_0006);
            lemma_fx_mul_fits(normal.1 as int, 2 * dv as int, 65536, 0x60_0000_0000_0006);
            lemma_fx_mul_fits(normal.2 as int, 2 * dv as int, 65536, 0x60_0000_0000_0006);
        }
        direction.sub(normal.scale(2 * dv))
    }
}

/// A hit triangle's face normal cannot be the zero vector: a zero cross
/// product makes the denominator zero, which the hit test calls a miss.
pub proof fn lemma_hit_normal_nonzero(o: (int, int, int), d: (int, int, int), p: Polygon)
    requires
        raytrace_spec(o, d, p) is Some,
    ensures
        s_len(poly_cross(p)) != 0,
{
    let n = poly_cross(p);
    if s_len(n) == 0 {
        lemma_len_zero(n);
        lemma_dot_zero_left(d);
        assert(false);
    }
}

/// A returned hit's point lies within `POINT_BOUND` and its parameter in
/// `[0, T_MAX]`: the hit test discards anything else.
pub proof fn lemma_hit_in_range(o: (int, int, int), d: (int, int, int), p: Polygon)
    requires
        raytrace_spec(o, d, p) is Some,
    ensures
        in_range(raytrace_spec(o, d, p).unwrap().1, POINT_BOUND as int),
        0 <= raytrace_spec(o, d, p).unwrap().0 <= T_MAX,
{
}

pub open spec fn max3(a: int, b: int, c: int) -> int {
    if a >= b && a >= c {
        a
    } else if b >= c {
        b
    } else {
        c
    }
}

/// The lit color: each channel times the Lambertian sum. If a channel
/// leaves the 8-bit range, all three are rescaled by the same factor so
/// the largest lands just under 255 (hue preserved), and each channel is
/// narrowed with saturation, never wrapping.
pub open spec fn scale_channels_spec(c: RGB, lamb: int) -> (int, int, int) {
    let v0 = fx_mul(c.0 * 65536, lamb);
    let v1 = fx_mul(c.1 * 65536, lamb);
    let v2 = fx_mul(c.2 * 65536, lamb);
    if v0 > 16711680 || v1 > 16711680 || v2 > 16711680 {
        let m = max3(tdiv(v0, 65536), tdiv(v1, 65536), tdiv(v2, 65536));
        (
            clamp255(tdiv(tdiv(fx_mul(v0, 16705126), m), 65536)),
            clamp255(tdiv(tdiv(fx_mul(v1, 16705126), m), 65536)),
            clamp255(tdiv(tdiv(fx_mul(v2, 16705126), m), 65536)),
        )
    } else {
        (clamp255(tdiv(v0, 65536)), clamp255(tdiv(v1, 65536)), clamp255(tdiv(v2, 65536)))
    }
}

/// Reflected light blended in at one quarter weight per channel, with
/// saturating addition: a channel never leaves `[0, 255]` and never wraps.
pub open spec fn blend_spec(base: (int, int, int), refl: RGB) -> (int, int, int) {
    (
        min_i(255, base.0 + refl.0 / 4),
        min_i(255, base.1 + refl.1 / 4),
        min_i(255, base.2 + refl.2 / 4),
    )
}

/// One channel of the lit color, over wide intermediates: `v` is the
/// channel times the Lambertian sum in fixed point, `m` the rescale
/// divisor (the truncated largest channel) when rescaling applies.
fn scale_one(v: i128, m: i128, rescale: bool) -> (r: u8)
    requires
        0 <= v <= 0x400_0000_0000_0000_0000,
        rescale ==> m >= 255,
    ensures
        rescale ==> r == clamp255(tdiv(tdiv(fx_mul(v as int, 16705126), m as int), 65536)),
        !rescale ==> r == clamp255(tdiv(v as int, 65536)),
{
    let x: i128 = if rescale {
        proof {
            lemma_mul_bound(v as int, 16705126, 0x400_0000_0000_0000_0000int, 16705126);
        }
        let w: i128 = (v * 16705126) / 65536;
        let u: i128 = w / m;
        u / 65536
    } else {
        v / 65536
    };
    if x < 0 {
        0
    } else if x > 255 {
        255
    } else {
        x as u8
    }
}

/// The lit color (see `scale_channels_spec`).
fn scale_channels(c: RGB, lamb: i64) -> (r: RGB)
    requires
        0 <= lamb <= 0x4_0000_0000_0000,
    ensures
        (r.0 as int, r.1 as int, r.2 as int) == scale_channels_spec(c, lamb as int),
{
    proof {
        lemma_mul_bound(c.0 as int * 65536, lamb as int, 16711680, 0x4_0000_0000_0000int);
        lemma_mul_bound(c.1 as int * 65536, lamb as int, 16711680, 0x4_0000_0000_0000int);
        lemma_mul_bound(c.2 as int * 65536, lamb as int, 16711680, 0x4_0000_0000_0000int);
        lemma_tdiv_bound(
            c.0 as int * 65536 * (lamb as int),
            65536,
            16711680 * 0x4_0000_0000_0000int,
        );
        lemma_tdiv_bound(
            c.1 as int * 65536 * (lamb as int),
            65536,
            16711680 * 0x4_0000_0000_0000int,
        );
        lemma_tdiv_bound(
            c.2 as int * 65536 * (lamb as int),
            65536,
            16711680 * 0x4_0000_0000_0000int,
        );
    }
    let l: i128 = lamb as i128;
    let v0: i128 = ((c.0 as i128) * 65536) * l / 65536;
    let v1: i128 = ((c.1 as i128) * 65536) * l / 65536;
    let v2: i128 = ((c.2 as i128) * 65536) * l / 65536;
    if v0 > 16711680 || v1 > 16711680 || v2 > 16711680 {
        let m0: i128 = v0 / 65536;
        let m1: i128 = v1 / 65536;
        let m2: i128 = v2 / 65536;
        let m: i128 = if m0 >= m1 && m0 >= m2 {
            m0
        } else if m1 >= m2 {
            m1
        } else {
            m2
        };
        proof {
            if v0 > 16711680 {
                vstd::arithmetic::div_mod::lemma_div_is_ordered(16711681, v0 as int, 65536);
            } else if v1 > 16711680 {
                vstd::arithmetic::div_mod::lemma_div_is_ordered(16711681, v1 as int, 65536);
            } else {
                vstd::arithmetic::div_mod::lemma_div_is_ordered(16711681, v2 as int, 65536);
            }
        }
        RGB(scale_one(v0, m, true), scale_one(v1, m, true), scale_one(v2, m, true))
    } else {
        RGB(scale_one(v0, 1, false), scale_one(v1, 1, false), scale_one(v2, 1, false))
    }
}

/// The saturating quarter-weight blend (see `blend_spec`).
fn blend(base: RGB, refl: RGB) -> (r: RGB)
    ensures
        (r.0 as int, r.1 as int, r.2 as int) == blend_spec((base.0 as int, base.1 as int, base.2 as int), refl),
{
    let s0: u16 = base.0 as u16 + (refl.0 / 4) as u16;
    let s1: u16 = base.1 as u16 + (refl.1 / 4) as u16;
    let s2: u16 = base.2 as u16 + (refl.2 / 4) as u16;
    RGB(
        if s0 > 255 {
            255
        } else {
            s0 as u8
        },
        if s1 > 255 {
            255
        } else {
            s1 as u8
        },
        if s2 > 255 {
            255
        } else {
            s2 as u8
        },
    )
}

/// The recursive shading pipeline: nearest hit, base color, Lambertian
/// term floored at the ambient minimum (6554, one tenth), channel scaling,
/// and one mirror bounce blended in at quarter weight. Depth 7 ends the
/// recursion with the background color, whatever the scene holds; a
/// reflected direction outside `DIR_BOUND` (possible only far beyond any
/// admitted scene) is treated as a black reflection.
pub open spec fn shade_spec(
    depth: int,
    o: (int, int, int),
    d: (int, int, int),
    polys: Seq<Polygon>,
    lights: Seq<Vector3>,
) -> RGB
    decreases 7 - depth,
{
    if depth >= 7 {
        RGB(0, 0, 0)
    } else {
        match closest_hit(o, d, polys) {
            None => RGB(0, 0, 0),
            Some((i, pt, t)) => {
                let poly = polys[i];
                let norm = normal_spec(poly);
                let base = color_at_spec(poly, pt);
                let lamb0 = lambert_spec(pt, polys, lights, norm);
                let lamb = if lamb0 < 6554 {
                    6554
                } else {
                    lamb0
                };
                let shaded = scale_channels_spec(base, lamb);
                let refl_dir = reflect_spec(d, norm);
                let refl = if !in_range(refl_dir, DIR_BOUND as int) {
                    RGB(0, 0, 0)
                } else {
                    shade_spec(
                        depth + 1,
                        s_add(pt, s_scale(refl_dir, 655)),
                        refl_dir,
                        polys,
                        lights,
                    )
                };
                if refl == RGB(0, 0, 0) {
                    RGB(shaded.0 as u8, shaded.1 as u8, shaded.2 as u8)
                } else {
                    let b = blend_spec(shaded, refl);
                    RGB(b.0 as u8, b.1 as u8, b.2 as u8)
                }
            },
        }
    }
}

impl Canvas {
    /// The color seen along one ray (the recursive shading pipeline; see
    /// `shade_spec`). The depth bound makes the reflection recursion end
    /// whatever the scene holds, mutually facing mirrors included.
    pub fn get_pixel_color(
        depth: u8,
        origin: Vector3,
        direction: Vector3,
        polys: &Vec<Polygon>,
        lights: &Vec<Vector3>,
    ) -> (r: RGB)
        requires
            depth <= 7,
            in_range(vx(origin), ORIGIN_BOUND as int),
            in_range(vx(direction), DIR_BOUND as int),
            polys_wf(polys@),
            lights_wf(lights@),
        ensures
            r == shade_spec(depth as int, vx(origin), vx(direction), polys@, lights@),
        decreases 7 - depth,
    {
        if depth == 7 {
            return RGB(0, 0, 0);
        }
        let closest = Canvas::closest_polygon(origin, direction, polys);
        match closest {
            None => RGB(0, 0, 0),
            Some((i, c, t)) => {
                proof {
                    lemma_closest_hit_minimal(vx(origin), vx(direction), polys@);
                    lemma_hit_normal_nonzero(vx(origin), vx(direction), polys@[i as int]);
                    lemma_hit_in_range(vx(origin), vx(direction), polys@[i as int]);
                }
                let poly = &polys[i];
                let norm = poly.normal();
                let color = poly.color_at(c);
                let lamb0 = Canvas::lambert_contribution(c, polys, lights, norm);
                let lamb: i64 = if lamb0 < 6554 {
                    6554
                } else {
                    lamb0
                };
                let shaded = scale_channels(color, lamb);
                let refl_dir = Canvas::reflect(direction, norm);
                let in_b = refl_dir.0 <= DIR_BOUND && refl_dir.0 >= -DIR_BOUND && refl_dir.1
                    <= DIR_BOUND && refl_dir.1 >= -DIR_BOUND && refl_dir.2 <= DIR_BOUND
                    && refl_dir.2 >= -DIR_BOUND;
                let refl_color = if in_b {
                    proof {
                        lemma_fx_mul_fits(refl_dir.0 as int, 655, DIR_BOUND as int, 655);
                        lemma_fx_mul_fits(refl_dir.1 as int, 655, DIR_BOUND as int, 655);
                        lemma_fx_mul_fits(refl_dir.2 as int, 655, DIR_BOUND as int, 655);
                    }
                    Canvas::get_pixel_color(
                        depth + 1,
                        c.add(refl_dir.scale(655)),
                        refl_dir,
                        polys,
                        lights,
                    )
                } else {
                    RGB(0, 0, 0)
                };
                if refl_color.0 > 0 || refl_color.1 > 0 || refl_color.2 > 0 {
                    blend(shaded, refl_color)
                } else {
                    shaded
                }
            },
        }
    }
}

/// One super-sampled ray of a pixel: the camera at `(w/2, h/2, -1)` and
/// the direction `(a - w/2 + jx, b - h/2 + jy, 1)`, both offset by the
/// same sub-pixel jitter.
pub open spec fn sample_spec(
    w: int,
    h: int,
    polys: Seq<Polygon>,
    lights: Seq<Vector3>,
    a: int,
    b: int,
    jx: int,
    jy: int,
) -> RGB {
    let ox = w * 32768;
    let oy = h * 32768;
    shade_spec(
        0,
        (ox + jx, oy + jy, -65536),
        (a * 65536 - ox + jx, b * 65536 - oy + jy, 65536),
        polys,
        lights,
    )
}

/// One pixel of a frame: four primary rays, jittered a quarter pixel
/// each way in both direction and origin, averaged channel by channel.
pub open spec fn pixel_spec(
    w: int,
    h: int,
    polys: Seq<Polygon>,
    lights: Seq<Vector3>,
    a: int,
    b: int,
) -> RGB {
    let c0 = sample_spec(w, h, polys, lights, a, b, -16384, 16384);
    let c1 = sample_spec(w, h, polys, lights, a, b, 16384, -16384);
    let c2 = sample_spec(w, h, polys, lights, a, b, -16384, -16384);
    let c3 = sample_spec(w, h, polys, lights, a, b, 16384, 16384);
    RGB(
        ((c0.0 + c1.0 + c2.0 + c3.0) / 4) as u8,
        ((c0.1 + c1.1 + c2.1 + c3.1) / 4) as u8,
        ((c0.2 + c1.2 + c2.2 + c3.2) / 4) as u8,
    )
}

/// One super-sampled primary ray of a pixel (see `sample_spec`).
fn sample(
    w: u16,
    h: u16,
    a: usize,
    b: usize,
    jx: i64,
    jy: i64,
    polys: &Vec<Polygon>,
    lights: &Vec<Vector3>,
) -> (r: RGB)
    requires
        polys_wf(polys@),
        lights_wf(lights@),
        a < w,
        b < h,
        mag(jx as int) <= 32768,
        mag(jy as int) <= 32768,
    ensures
        r == sample_spec(w as int, h as int, polys@, lights@, a as int, b as int, jx as int, jy as int),
{
    let ox: i64 = (w as i64) * 32768;
    let oy: i64 = (h as i64) * 32768;
    let origin = Vector3(ox + jx, oy + jy, -65536);
    let dir = Vector3((a as i64) * 65536 - ox + jx, (b as i64) * 65536 - oy + jy, 65536);
    Canvas::get_pixel_color(0, origin, dir, polys, lights)
}

impl Canvas {
    /// A canvas of the given size, all pixels black.
    pub fn new(w: u16, h: u16) -> (c: Canvas)
        ensures
            c.width == w,
            c.height == h,
            c.pixels@.len() == h,
            forall|b: int|
                0 <= b < h ==> #[trigger] c.pixels@[b]@.len() == w && forall|a: int|
                    0 <= a < w ==> c.pixels@[b]@[a] == RGB(0, 0, 0),
    {
        let mut pixels: Vec<Vec<RGB>> = Vec::new();
        let mut b: usize = 0;
        while b < h as usize
            invariant
                b <= h,
                pixels@.len() == b,
                forall|j: int|
                    0 <= j < b ==> #[trigger] pixels@[j]@.len() == w && forall|a: int|
                        0 <= a < w ==> pixels@[j]@[a] == RGB(0, 0, 0),
            decreases h - b,
        {
            let mut row: Vec<RGB> = Vec::new();
            let mut a: usize = 0;
            while a < w as usize
                invariant
                    a <= w,
                    row@.len() == a,
                    forall|i: int| 0 <= i < a ==> #[trigger] row@[i] == RGB(0, 0, 0),
                decreases w - a,
            {
                row.push(RGB(0, 0, 0));
                a = a + 1;
            }
            pixels.push(row);
            b = b + 1;
        }
        Canvas { width: w, height: h, pixels }
    }

    /// The pixel grid, row-major: one row per `b`, one color per `a`.
    pub fn pixels(&self) -> (r: &Vec<Vec<RGB>>)
        ensures
            r == &self.pixels,
    {
        &self.pixels
    }

    /// One whole frame: the scene's shapes are tessellated once, then
    /// every pixel is computed independently from the same read-only
    /// triangle list and written to its own cell of the grid.
    pub fn render(&mut self, scene: &World)
        requires
            world_wf(*scene),
        ensures
            final(self).width == old(self).width,
            final(self).height == old(self).height,
            final(self).pixels@.len() == old(self).height,
            forall|b: int|
                0 <= b < old(self).height ==> #[trigger] final(self).pixels@[b]@.len()
                    == old(self).width,
            forall|b: int, a: int|
                0 <= b < old(self).height && 0 <= a < old(self).width
                    ==> final(self).pixels@[b]@[a] == pixel_spec(
                    old(self).width as int,
                    old(self).height as int,
                    world_polys(*scene),
                    scene.lighting@,
                    a,
                    b,
                ),
    {
        let mut polys: Vec<Polygon> = Vec::new();
        let mut si: usize = 0;
        while si < scene.shapes.len()
            invariant
                si <= scene.shapes.len(),
                polys@ == world_polys_prefix(scene.shapes@, si as int),
            decreases scene.shapes.len() - si,
        {
            let mut ps = scene.shapes[si].to_polygons();
            polys.append(&mut ps);
            si = si + 1;
        }
        proof {
            lemma_world_polys_wf(*scene);
            assert(polys@ == world_polys(*scene));
            assert forall|i: int| 0 <= i < polys@.len() implies poly_wf(#[trigger] polys@[i]) by {
                assert(polys@[i] == world_polys(*scene)[i]);
            }
        }
        let w: u16 = self.width;
        let h: u16 = self.height;
        let mut px: Vec<Vec<RGB>> = Vec::new();
        let mut b: usize = 0;
        while b < h as usize
            invariant
                polys_wf(polys@),
                lights_wf(scene.lighting@),
                polys@ == world_polys(*scene),
                b <= h,
                px@.len() == b,
                forall|j: int|
                    0 <= j < b ==> #[trigger] px@[j]@.len() == w && forall|a: int|
                        0 <= a < w ==> px@[j]@[a] == pixel_spec(
                            w as int,
                            h as int,
                            polys@,
                            scene.lighting@,
                            a,
                            j,
                        ),
            decreases h - b,
        {
            let mut row: Vec<RGB> = Vec::new();
            let mut a: usize = 0;
            while a < w as usize
                invariant
                    polys_wf(polys@),
                    lights_wf(scene.lighting@),
                    b < h,
                    a <= w,
                    row@.len() == a,
                    forall|i: int|
                        0 <= i < a ==> #[trigger] row@[i] == pixel_spec(
                            w as int,
                            h as int,
                            polys@,
                            scene.lighting@,
                            i,
                            b as int,
                        ),
                decreases w - a,
            {
                let c0 = sample(w, h, a, b, -16384, 16384, &polys, &scene.lighting);
                let c1 = sample(w, h, a, b, 16384, -16384, &polys, &scene.lighting);
                let c2 = sample(w, h, a, b, -16384, -16384, &polys, &scene.lighting);
                let c3 = sample(w, h, a, b, 16384, 16384, &polys, &scene.lighting);
                let rc: u16 = c0.0 as u16 + c1.0 as u16 + c2.0 as u16 + c3.0 as u16;
                let gc: u16 = c0.1 as u16 + c1.1 as u16 + c2.1 as u16 + c3.1 as u16;
                let bc: u16 = c0.2 as u16 + c1.2 as u16 + c2.2 as u16 + c3.2 as u16;
                row.push(RGB((rc / 4) as u8, (gc / 4) as u8, (bc / 4) as u8));
                a = a + 1;
            }
            px.push(row);
            b = b + 1;
        }
        self.pixels = px;
        proof {
            assert forall|bb: int, aa: int| 0 <= bb < h && 0 <= aa < w implies self.pixels@[bb]@[aa]
                == pixel_spec(
                w as int,
                h as int,
                world_polys(*scene),
                scene.lighting@,
                aa,
                bb,
            ) by {
                assert(self.pixels@[bb]@.len() == w);
                assert(self.pixels@[bb]@[aa] == pixel_spec(
                    w as int,
                    h as int,
                    world_polys(*scene),
                    scene.lighting@,
                    aa,
                    bb,
                ));
            }
        }
    }
}

/// A returned intersection lies on the ray and within the triangle: the
/// hit point is exactly the origin advanced by the direction scaled with
/// the returned parameter, the parameter is non-negative, and all three
/// oriented edge tests are non-negative.
pub proof fn lemma_hit_on_ray(o: (int, int, int), d: (int, int, int), p: Polygon)
    requires
        raytrace_spec(o, d, p) is Some,
    ensures
        ({
            let t = raytrace_spec(o, d, p).unwrap().0;
            let pt = raytrace_spec(o, d, p).unwrap().1;
            &&& pt == s_add(o, s_scale(d, t))
            &&& 0 <= t <= T_MAX
            &&& edge_val(poly_cross(p), vx(p.coords.1), vx(p.coords.0), pt) >= 0
            &&& edge_val(poly_cross(p), vx(p.coords.2), vx(p.coords.1), pt) >= 0
            &&& edge_val(poly_cross(p), vx(p.coords.0), vx(p.coords.2), pt) >= 0
        }),
{
}

/// A ray parallel to a triangle's plane (its face normal orthogonal to
/// the direction) always misses, whatever the origin.
pub proof fn lemma_parallel_ray_misses(o: (int, int, int), d: (int, int, int), p: Polygon)
    requires
        s_dot(poly_cross(p), d) == 0,
    ensures
        raytrace_spec(o, d, p) is None,
{
}

/// A ray that intersects no triangle of the list is shaded with the
/// background color, at every depth.
pub proof fn lemma_all_miss_background(
    depth: int,
    o: (int, int, int),
    d: (int, int, int),
    polys: Seq<Polygon>,
    lights: Seq<Vector3>,
)
    requires
        forall|j: int| 0 <= j < polys.len() ==> raytrace_spec(o, d, #[trigger] polys[j]) is None,
    ensures
        shade_spec(depth, o, d, polys, lights) == RGB(0, 0, 0),
{
    if depth < 7 {
        lemma_closest_hit_minimal(o, d, polys);
        if closest_hit(o, d, polys) is Some {
            assert(false);
        }
    }
}

/// The lit color's channels stay within the 8-bit range.
pub proof fn lemma_scale_channels_in_range(c: RGB, lamb: int)
    ensures
        0 <= scale_channels_spec(c, lamb).0 <= 255,
        0 <= scale_channels_spec(c, lamb).1 <= 255,
        0 <= scale_channels_spec(c, lamb).2 <= 255,
{
}

/// At the depth bound the shading pipeline returns the background color
/// whatever the scene holds: the reflection recursion cannot run past it.
pub proof fn lemma_depth_exhausted(
    o: (int, int, int),
    d: (int, int, int),
    polys: Seq<Polygon>,
    lights: Seq<Vector3>,
)
    ensures
        shade_spec(7, o, d, polys, lights) == RGB(0, 0, 0),
{
}

/// The reflection blend keeps every channel within the 8-bit range:
/// the addition saturates at 255 and never wraps.
pub proof fn lemma_blend_in_range(base: (int, int, int), refl: RGB)
    requires
        0 <= base.0 <= 255,
        0 <= base.1 <= 255,
        0 <= base.2 <= 255,
    ensures
        0 <= blend_spec(base, refl).0 <= 255,
        0 <= blend_spec(base, refl).1 <= 255,
        0 <= blend_spec(base, refl).2 <= 255,
{
}

} // verus!
