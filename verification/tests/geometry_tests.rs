use std::rc::Rc;
use raymaze::geometry::{
    tex_coord, ColorGenerator, Dimension, Material, Plane, Polygon, Primitive, RGB, Shape,
    Texture2d, Vector3,
};
use raymaze::fx::{fxdiv, fxmul, isqrt, FX_ONE};
use raymaze::scene::scene;

const S: i64 = 65536;

#[test]
fn fixed_point_products_and_quotients() {
    assert_eq!(FX_ONE, 65536);
    assert_eq!(fxmul(2 * S, 3 * S), 6 * S);
    assert_eq!(fxmul(-2 * S, 3 * S), -6 * S);
    assert_eq!(fxdiv(S, 2 * S), S / 2);
    assert_eq!(fxdiv(S, -2 * S), -S / 2);
    assert_eq!(isqrt(0), 0);
    assert_eq!(isqrt(15), 3);
    assert_eq!(isqrt(16), 4);
    assert_eq!(isqrt(u128::MAX), (1u128 << 64) - 1);
}

#[test]
fn vector_algebra() {
    let a = Vector3(3 * S, 4 * S, 0);
    assert_eq!(a.length(), 5 * S);
    assert_eq!(a.normalize(), Vector3(39321, 52428, 0));
    let x = Vector3(S, 0, 0);
    let y = Vector3(0, S, 0);
    assert_eq!(x.cross(y), Vector3(0, 0, S));
    assert_eq!(y.cross(x), Vector3(0, 0, -S));
    assert_eq!(x.dot(x), S);
    assert_eq!(x.dot(y), 0);
    assert_eq!(x.add(y), Vector3(S, S, 0));
    assert_eq!(a.sub(x), Vector3(2 * S, 4 * S, 0));
    assert_eq!(x.scale(5 * S), Vector3(5 * S, 0, 0));
    assert_eq!(a.into_inner(), (3 * S, 4 * S, 0));
}

#[test]
fn sphere_texture_coordinates() {
    // The equator maps to exactly one half, the poles exactly to the ends.
    assert_eq!(tex_coord(0), 32768);
    assert_eq!(tex_coord(S), S);
    assert_eq!(tex_coord(-S), 0);
}

fn banded_texture() -> Texture2d {
    // One column, four rows, each row its own red value.
    Texture2d {
        width: 1,
        height: 4,
        values: vec![RGB(10, 0, 0), RGB(20, 0, 0), RGB(30, 0, 0), RGB(40, 0, 0)],
    }
}

#[test]
fn sphere_sampling_pole_and_equator() {
    let center = Vector3(5 * S, 5 * S, 2 * S);
    let poly = Polygon {
        coords: (Vector3(0, 0, 0), Vector3(S, 0, 0), Vector3(0, S, 0)),
        material: Material {
            color: ColorGenerator::SphereTexture(center, Rc::new(banded_texture())),
        },
    };
    // Directly above the center along +z: tv reaches 1.0 and samples the
    // last row.
    let pole = poly.color_at(Vector3(5 * S, 5 * S, 3 * S));
    assert_eq!(pole, RGB(40, 0, 0));
    // On the equator (dir.z == 0): tv is exactly one half, the third row.
    let equator = poly.color_at(Vector3(6 * S, 5 * S, 2 * S));
    assert_eq!(equator, RGB(30, 0, 0));
}

#[test]
fn plane_sampling_inside_and_outside() {
    let tex = Texture2d {
        width: 2,
        height: 2,
        values: vec![RGB(1, 1, 1), RGB(2, 2, 2), RGB(3, 3, 3), RGB(4, 4, 4)],
    };
    let poly = Polygon {
        coords: (Vector3(0, 0, 0), Vector3(S, 0, 0), Vector3(0, S, 0)),
        material: Material {
            color: ColorGenerator::PlaneTexture(
                Vector3(0, 0, 0),
                Vector3(4 * S, 4 * S, 0),
                Plane(Dimension::Z),
                Rc::new(tex),
            ),
        },
    };
    // Inside the span the normalized offset lands in the first cell.
    assert_eq!(poly.color_at(Vector3(2 * S, 2 * S, 0)), RGB(1, 1, 1));
    // Before the first corner the offset is negative: black.
    assert_eq!(poly.color_at(Vector3(-S, 2 * S, 0)), RGB(0, 0, 0));
}

#[test]
fn linear_blend_at_centroid() {
    let c = RGB(1, 2, 3);
    let poly = Polygon {
        coords: (Vector3(0, 0, 0), Vector3(S, 0, 0), Vector3(0, S, 0)),
        material: Material { color: ColorGenerator::Linear(c, c, c) },
    };
    let got = poly.color_at(Vector3(21845, 21845, 0));
    assert_eq!(got, RGB(2, 1, 0));
}

#[test]
fn uniform_color_everywhere() {
    let poly = Polygon {
        coords: (Vector3(0, 0, 0), Vector3(S, 0, 0), Vector3(0, S, 0)),
        material: Material { color: ColorGenerator::Uniform(RGB(7, 8, 9)) },
    };
    assert_eq!(poly.color_at(Vector3(123, -456, 789)), RGB(7, 8, 9));
}

#[test]
fn tessellation_list_and_strip() {
    let mat = Material { color: ColorGenerator::Uniform(RGB(1, 1, 1)) };
    let verts = vec![
        Vector3(0, 0, 0),
        Vector3(S, 0, 0),
        Vector3(0, S, 0),
        Vector3(S, S, 0),
        Vector3(2 * S, 0, 0),
        Vector3(2 * S, S, 0),
        Vector3(3 * S, 0, 0),
    ];
    let list = Shape {
        verts: verts.clone(),
        material: mat.clone(),
        primitive: Primitive::TriangleList,
    };
    // Seven vertices: two whole triples, the trailing vertex dropped.
    let lp = list.to_polygons();
    assert_eq!(lp.len(), 2);
    assert_eq!(lp[0].coords, (verts[0], verts[1], verts[2]));
    assert_eq!(lp[1].coords, (verts[3], verts[4], verts[5]));
    let strip = Shape { verts: verts.clone(), material: mat, primitive: Primitive::TriangleStrip };
    // Every sliding window of three: five triangles from seven vertices.
    let sp = strip.to_polygons();
    assert_eq!(sp.len(), 5);
    assert_eq!(sp[0].coords, (verts[0], verts[1], verts[2]));
    assert_eq!(sp[4].coords, (verts[4], verts[5], verts[6]));
}

#[test]
fn demo_scene_is_reproducible() {
    // Two builds of the demo world agree on every light, vertex and
    // material.
    let a = scene();
    let b = scene();
    assert_eq!(a.lighting, b.lighting);
    assert_eq!(a.shapes.len(), b.shapes.len());
    for (sa, sb) in a.shapes.iter().zip(b.shapes.iter()) {
        assert_eq!(sa.verts, sb.verts);
    }
}

#[test]
fn demo_scene_contents() {
    let w = scene();
    assert_eq!(w.shapes.len(), 4);
    assert_eq!(w.lighting.len(), 2);
    assert_eq!(w.lighting[0], Vector3(0, 13107200, 65536));
    assert_eq!(w.lighting[1], Vector3(32768000, 13107200, 0));
    // The floor band is a strip of four vertices: two triangles.
    assert_eq!(w.shapes[0].to_polygons().len(), 2);
    // Each cuboid is a triangle list of 36 vertices: twelve triangles.
    assert_eq!(w.shapes[1].to_polygons().len(), 12);
}
