use raymaze::geometry::{ColorGenerator, Material, Polygon, RGB, Vector3};
use raymaze::render::Canvas;

const S: i64 = 65536;

fn gray(v: u8) -> Material {
    Material { color: ColorGenerator::Uniform(RGB(v, v, v)) }
}

/// The unit square in the plane z = 0, as two triangles.
fn unit_square(mat: u8) -> Vec<Polygon> {
    let v0 = Vector3(0, 0, 0);
    let v1 = Vector3(S, 0, 0);
    let v2 = Vector3(0, S, 0);
    let v3 = Vector3(S, S, 0);
    vec![
        Polygon { coords: (v0, v1, v2), material: gray(mat) },
        Polygon { coords: (v1, v2, v3), material: gray(mat) },
    ]
}

#[test]
fn ray_through_square_center_hits() {
    let polys = unit_square(100);
    let origin = Vector3(S / 2, S / 2, 5 * S);
    let down = Vector3(0, 0, -S);
    let hit = polys[0].raytrace(origin, down);
    // t = 5.0 scaled by the unit direction; the point is the square's center.
    assert_eq!(hit, Some((5 * S, Vector3(S / 2, S / 2, 0))));
    // The face normal points toward +z.
    assert_eq!(polys[0].normal(), Vector3(0, 0, S));
}

#[test]
fn ray_outside_square_misses() {
    let polys = unit_square(100);
    let origin = Vector3(3 * S + S / 2, S / 2, 5 * S);
    let down = Vector3(0, 0, -S);
    assert_eq!(polys[0].raytrace(origin, down), None);
    assert_eq!(polys[1].raytrace(origin, down), None);
    assert_eq!(Canvas::closest_polygon(origin, down, &polys), None);
}

#[test]
fn ray_behind_origin_misses() {
    let polys = unit_square(100);
    // Pointing up, away from the square below: the triangle is behind.
    let origin = Vector3(S / 2, S / 2, 5 * S);
    let up = Vector3(0, 0, S);
    assert_eq!(polys[0].raytrace(origin, up), None);
    let black = Canvas::get_pixel_color(0, origin, up, &polys, &vec![]);
    assert_eq!(black, RGB(0, 0, 0));
}

#[test]
fn parallel_ray_misses() {
    let polys = unit_square(100);
    // Any direction in the square's own plane is parallel: never a hit,
    // wherever the ray starts.
    let sideways = Vector3(S, S / 3, 0);
    assert_eq!(polys[0].raytrace(Vector3(0, 0, S), sideways), None);
    assert_eq!(polys[0].raytrace(Vector3(7 * S, -3 * S, -S), sideways), None);
    assert_eq!(polys[0].raytrace(Vector3(S / 2, S / 2, 0), sideways), None);
}

#[test]
fn closest_hit_prefers_nearer_and_first() {
    let near = unit_square(10);
    let mut scene = vec![
        // A farther square at z = -2.
        Polygon {
            coords: (Vector3(0, 0, -2 * S), Vector3(S, 0, -2 * S), Vector3(0, S, -2 * S)),
            material: gray(200),
        },
    ];
    scene.extend(near);
    let origin = Vector3(S / 2, S / 2, 5 * S);
    let down = Vector3(0, 0, -S);
    // The nearer square (index 1) wins over the farther one (index 0).
    let hit = Canvas::closest_polygon(origin, down, &scene).unwrap();
    assert_eq!(hit.0, 1);
    assert_eq!(hit.2, 5 * S);
    // Identical triangles tie on t; the first of them wins.
    let twin = vec![scene[1].clone(), scene[1].clone()];
    let hit2 = Canvas::closest_polygon(origin, down, &twin).unwrap();
    assert_eq!(hit2.0, 0);
}

#[test]
fn occluder_blocks_light() {
    let surface = unit_square(100);
    let light = Vector3(S / 2, S / 2, 5 * S);
    let point = Vector3(S / 2, S / 2, 0);
    let normal = Vector3(0, 0, S);
    // Unobstructed: the light straight above contributes the full cosine.
    let open_lamb =
        Canvas::lambert_contribution(point, &surface, &vec![light], normal);
    assert_eq!(open_lamb, S);
    // A small square between the point and the light blocks it entirely.
    let mut blocked = surface.clone();
    let o0 = Vector3(S / 4, S / 4, 2 * S);
    let o1 = Vector3(3 * S / 4, S / 4, 2 * S);
    let o2 = Vector3(S / 4, 3 * S / 4, 2 * S);
    let o3 = Vector3(3 * S / 4, 3 * S / 4, 2 * S);
    blocked.push(Polygon { coords: (o0, o1, o2), material: gray(0) });
    blocked.push(Polygon { coords: (o1, o2, o3), material: gray(0) });
    let shut_lamb =
        Canvas::lambert_contribution(point, &blocked, &vec![light], normal);
    assert_eq!(shut_lamb, 0);
}

#[test]
fn diagonal_light_cosine() {
    // A light 45 degrees off the +z normal, nothing in the way: the term
    // is the cosine itself, about 0.707 in fixed point, computed from the
    // plain (unstretched) light direction.
    let polys: Vec<Polygon> = vec![];
    let point = Vector3(0, 0, 0);
    let normal = Vector3(0, 0, S);
    let light = vec![Vector3(0, 3 * S, 3 * S)];
    let lamb = Canvas::lambert_contribution(point, &polys, &light, normal);
    assert_eq!(lamb, 46341);
}

#[test]
fn near_light_term_capped() {
    // A light one representational step away from the shaded point:
    // truncation makes the normalized direction overshoot unit length,
    // and the cap holds the term at exactly one.
    let polys: Vec<Polygon> = vec![];
    let point = Vector3(0, 0, 0);
    let normal = Vector3(46341, 46341, 0);
    let light = vec![Vector3(1, 1, 0)];
    let lamb = Canvas::lambert_contribution(point, &polys, &light, normal);
    assert_eq!(lamb, S);
}

#[test]
fn lit_square_scenario() {
    // A unit square at z = 0, one light straight above its center: the
    // ray down through the center produces the base color at full
    // Lambertian weight, well above the ambient floor.
    let polys = unit_square(100);
    let light = vec![Vector3(S / 2, S / 2, 5 * S)];
    let origin = Vector3(S / 2, S / 2, 5 * S);
    let down = Vector3(0, 0, -S);
    let color = Canvas::get_pixel_color(0, origin, down, &polys, &light);
    assert_eq!(color, RGB(100, 100, 100));
    // The ambient floor alone would have scaled the color to one tenth.
    let unlit = Canvas::get_pixel_color(0, origin, down, &polys, &vec![]);
    assert_eq!(unlit, RGB(10, 10, 10));
}

#[test]
fn channels_rescale_without_wrapping() {
    // Two lights double the Lambertian term: a white surface overflows
    // the channel range and is rescaled to just under 255 on every
    // channel, never wrapping.
    let polys = unit_square(255);
    let lights = vec![Vector3(S / 2, S / 2, 5 * S), Vector3(S / 2, S / 2, 5 * S)];
    let origin = Vector3(S / 2, S / 2, 5 * S);
    let down = Vector3(0, 0, -S);
    let color = Canvas::get_pixel_color(0, origin, down, &polys, &lights);
    assert_eq!(color, RGB(254, 254, 254));
}

#[test]
fn reflection_terminates_between_mirrors() {
    // Two parallel squares facing each other: the reflection recursion
    // must stop at the depth bound rather than bounce forever.
    let mut polys = unit_square(60);
    polys.push(Polygon {
        coords: (Vector3(0, 0, 4 * S), Vector3(S, 0, 4 * S), Vector3(0, S, 4 * S)),
        material: gray(60),
    });
    polys.push(Polygon {
        coords: (Vector3(S, 0, 4 * S), Vector3(0, S, 4 * S), Vector3(S, S, 4 * S)),
        material: gray(60),
    });
    let light = vec![Vector3(S / 2, S / 2, 2 * S)];
    let origin = Vector3(S / 2, S / 2, 3 * S);
    let down = Vector3(0, 0, -S);
    // What matters is that this returns at all (bounded recursion) and
    // stays a sane channel value.
    let c = Canvas::get_pixel_color(0, origin, down, &polys, &light);
    let _ = c;
    let again = Canvas::get_pixel_color(7, origin, down, &polys, &light);
    assert_eq!(again, RGB(0, 0, 0));
}

#[test]
fn reflected_shine_blends_in() {
    // Inside a box of two facing squares with no lights: the floor shows
    // its ambient tenth (10) plus a quarter of the ceiling's bounced
    // ambient chain, giving exactly 15 per channel.
    let mut polys = unit_square(100);
    polys.push(Polygon {
        coords: (Vector3(0, 0, 4 * S), Vector3(S, 0, 4 * S), Vector3(0, S, 4 * S)),
        material: gray(200),
    });
    polys.push(Polygon {
        coords: (Vector3(S, 0, 4 * S), Vector3(0, S, 4 * S), Vector3(S, S, 4 * S)),
        material: gray(200),
    });
    let origin = Vector3(S / 2, S / 2, 2 * S);
    let down = Vector3(0, 0, -S);
    let c = Canvas::get_pixel_color(0, origin, down, &polys, &vec![]);
    assert_eq!(c, RGB(15, 15, 15));
    // A reflection that leaves the scene adds nothing: the plain lit
    // color stands alone.
    let open_polys = unit_square(100);
    let lights = vec![Vector3(S / 2, S / 2, 5 * S)];
    let plain = Canvas::get_pixel_color(
        0,
        Vector3(S / 2, S / 2, 5 * S),
        down,
        &open_polys,
        &lights,
    );
    assert_eq!(plain, RGB(100, 100, 100));
}
