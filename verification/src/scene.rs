//! A fixed demonstration scene: a sphere-mapped floor band, two large
//! cuboids and one small one, under two point lights.

use vstd::prelude::*;
use std::rc::Rc;
use crate::geometry::{
    Vector3, RGB, Material, ColorGenerator, Shape, Primitive, Texture2d, World, vx, in_range,
    shape_wf, world_wf, tex_wf, COORD_BOUND,
};

verus! {

/// Append a vertex, keeping every vertex so far within the scene bound.
fn push_v(verts: &mut Vec<Vector3>, v: Vector3)
    requires
        in_range(vx(v), COORD_BOUND as int),
        forall|i: int|
            0 <= i < old(verts)@.len() ==> in_range(
                vx(#[trigger] old(verts)@[i]),
                COORD_BOUND as int,
            ),
    ensures
        final(verts)@ == old(verts)@.push(v),
        forall|i: int|
            0 <= i < final(verts)@.len() ==> in_range(
                vx(#[trigger] final(verts)@[i]),
                COORD_BOUND as int,
            ),
{
    verts.push(v);
}

/// The 36 vertices of a cuboid's six faces, two strip-ordered triangles
/// each, spanning `[xa, xb] x [ya, yb] x [za, zb]`.
pub open spec fn cuboid_verts(xa: i64, xb: i64, ya: i64, yb: i64, za: i64, zb: i64) -> Seq<
    Vector3,
> {
    seq![
        Vector3(xa, ya, za),
        Vector3(xa, ya, zb),
        Vector3(xb, ya, za),
        Vector3(xa, ya, zb),
        Vector3(xb, ya, za),
        Vector3(xb, ya, zb),
        Vector3(xb, ya, za),
        Vector3(xb, yb, za),
        Vector3(xb, ya, zb),
        Vector3(xb, yb, za),
        Vector3(xb, ya, zb),
        Vector3(xb, yb, zb),
        Vector3(xa, yb, za),
        Vector3(xa, yb, zb),
        Vector3(xb, yb, za),
        Vector3(xa, yb, zb),
        Vector3(xb, yb, za),
        Vector3(xb, yb, zb),
        Vector3(xa, ya, za),
        Vector3(xa, yb, za),
        Vector3(xa, ya, zb),
        Vector3(xa, yb, za),
        Vector3(xa, ya, zb),
        Vector3(xa, yb, zb),
        Vector3(xa, ya, za),
        Vector3(xa, yb, za),
        Vector3(xb, ya, za),
        Vector3(xa, yb, za),
        Vector3(xb, ya, za),
        Vector3(xb, yb, za),
        Vector3(xa, ya, zb),
        Vector3(xa, yb, zb),
        Vector3(xb, ya, zb),
        Vector3(xa, yb, zb),
        Vector3(xb, ya, zb),
        Vector3(xb, yb, zb),
    ]
}

/// The floor band's 4 by 4 checker texture: rows of alternating dark and
/// bright ochre.
pub open spec fn floor_checker() -> Seq<RGB> {
    seq![
        RGB(0x70, 0x40, 0x00),
        RGB(0xB0, 0x40, 0x00),
        RGB(0x70, 0x40, 0x00),
        RGB(0xB0, 0x40, 0x00),
        RGB(0x70, 0x40, 0x00),
        RGB(0xB0, 0x40, 0x00),
        RGB(0x70, 0x40, 0x00),
        RGB(0xB0, 0x40, 0x00),
        RGB(0x70, 0x40, 0x00),
        RGB(0xB0, 0x40, 0x00),
        RGB(0x70, 0x40, 0x00),
        RGB(0xB0, 0x40, 0x00),
        RGB(0x70, 0x40, 0x00),
        RGB(0xB0, 0x40, 0x00),
        RGB(0x70, 0x40, 0x00),
        RGB(0xB0, 0x40, 0x00),
    ]
}

/// The floor band's four strip vertices.
pub open spec fn floor_verts_spec() -> Seq<Vector3> {
    seq![
        Vector3(6553600, 3276800, 196608),
        Vector3(6553600, 3276800, 6554),
        Vector3(39321600, 3276800, 196608),
        Vector3(39321600, 3276800, 6554),
    ]
}

/// A cuboid spanning `[xa, xb] x [ya, yb] x [za, zb]`, one flat color,
/// as a triangle list of six faces with two triangles each.
fn cuboid(xa: i64, xb: i64, ya: i64, yb: i64, za: i64, zb: i64, color: RGB) -> (s: Shape)
    requires
        crate::fx::mag(xa as int) <= COORD_BOUND as int,
        crate::fx::mag(xb as int) <= COORD_BOUND as int,
        crate::fx::mag(ya as int) <= COORD_BOUND as int,
        crate::fx::mag(yb as int) <= COORD_BOUND as int,
        crate::fx::mag(za as int) <= COORD_BOUND as int,
        crate::fx::mag(zb as int) <= COORD_BOUND as int,
    ensures
        shape_wf(s),
        s.verts@ == cuboid_verts(xa, xb, ya, yb, za, zb),
        s.primitive is TriangleList,
        s.material.color == ColorGenerator::Uniform(color),
{
    let mut verts: Vec<Vector3> = Vec::new();
    push_v(&mut verts, Vector3(xa, ya, za));
    push_v(&mut verts, Vector3(xa, ya, zb));
    push_v(&mut verts, Vector3(xb, ya, za));
    push_v(&mut verts, Vector3(xa, ya, zb));
    push_v(&mut verts, Vector3(xb, ya, za));
    push_v(&mut verts, Vector3(xb, ya, zb));
    push_v(&mut verts, Vector3(xb, ya, za));
    push_v(&mut verts, Vector3(xb, yb, za));
    push_v(&mut verts, Vector3(xb, ya, zb));
    push_v(&mut verts, Vector3(xb, yb, za));
    push_v(&mut verts, Vector3(xb, ya, zb));
    push_v(&mut verts, Vector3(xb, yb, zb));
    push_v(&mut verts, Vector3(xa, yb, za));
    push_v(&mut verts, Vector3(xa, yb, zb));
    push_v(&mut verts, Vector3(xb, yb, za));
    push_v(&mut verts, Vector3(xa, yb, zb));
    push_v(&mut verts, Vector3(xb, yb, za));
    push_v(&mut verts, Vector3(xb, yb, zb));
    push_v(&mut verts, Vector3(xa, ya, za));
    push_v(&mut verts, Vector3(xa, yb, za));
    push_v(&mut verts, Vector3(xa, ya, zb));
    push_v(&mut verts, Vector3(xa, yb, za));
    push_v(&mut verts, Vector3(xa, ya, zb));
    push_v(&mut verts, Vector3(xa, yb, zb));
    push_v(&mut verts, Vector3(xa, ya, za));
    push_v(&mut verts, Vector3(xa, yb, za));
    push_v(&mut verts, Vector3(xb, ya, za));
    push_v(&mut verts, Vector3(xa, yb, za));
    push_v(&mut verts, Vector3(xb, ya, za));
    push_v(&mut verts, Vector3(xb, yb, za));
    push_v(&mut verts, Vector3(xa, ya, zb));
    push_v(&mut verts, Vector3(xa, yb, zb));
    push_v(&mut verts, Vector3(xb, ya, zb));
    push_v(&mut verts, Vector3(xa, yb, zb));
    push_v(&mut verts, Vector3(xb, ya, zb));
    push_v(&mut verts, Vector3(xb, yb, zb));
    proof {
        assert(verts@ =~= cuboid_verts(xa, xb, ya, yb, za, zb));
    }
    Shape {
        verts,
        material: Material { color: ColorGenerator::Uniform(color) },
        primitive: Primitive::TriangleList,
    }
}

/// The demonstration world: a floor band wearing a spherically projected
/// 4 by 4 checker texture, two room-sized cuboids, a small cuboid, and
/// two point lights. All coordinates are 16.16 fixed-point scalars.
pub fn scene() -> (w: World)
    ensures
        world_wf(w),
        w.shapes@.len() == 4,
        w.lighting@ == seq![Vector3(0, 13107200, 65536), Vector3(32768000, 13107200, 0)],
        w.shapes@[0].verts@ == floor_verts_spec(),
        w.shapes@[0].primitive is TriangleStrip,
        w.shapes@[0].material.color matches ColorGenerator::SphereTexture(center, tex) && center
            == Vector3(22937600, 3276800, 95027) && tex.width == 4 && tex.height == 4
            && tex.values@ == floor_checker(),
        w.shapes@[1].verts@ == cuboid_verts(9830400, 16384000, 3283354, 9836954, 32768, 52429),
        w.shapes@[1].material.color == ColorGenerator::Uniform(RGB(0x15, 0x00, 0x30)),
        w.shapes@[2].verts@ == cuboid_verts(26214400, 36044800, 3283354, 26220954, 32768, 52429),
        w.shapes@[2].material.color == ColorGenerator::Uniform(RGB(0x00, 0x40, 0x30)),
        w.shapes@[3].verts@ == cuboid_verts(29491200, 30146560, 3283354, 4594074, 26214, 26870),
        w.shapes@[3].material.color == ColorGenerator::Uniform(RGB(0x78, 0x00, 0x30)),
        forall|i: int|
            1 <= i < 4 ==> (#[trigger] w.shapes@[i]).verts@.len() == 36
                && w.shapes@[i].primitive is TriangleList,
{
    let mut values: Vec<RGB> = Vec::new();
    let mut i: usize = 0;
    while i < 8
        invariant
            i <= 8,
            values@ == floor_checker().take(2 * i),
        decreases 8 - i,
    {
        values.push(RGB(0x70, 0x40, 0x00));
        values.push(RGB(0xB0, 0x40, 0x00));
        i = i + 1;
        proof {
            assert(values@ =~= floor_checker().take(2 * i));
        }
    }
    proof {
        assert(values@ =~= floor_checker());
    }
    let tex = Texture2d { width: 4, height: 4, values };
    proof {
        assert(tex_wf(tex));
    }
    let mut floor_verts: Vec<Vector3> = Vec::new();
    push_v(&mut floor_verts, Vector3(6553600, 3276800, 196608));
    push_v(&mut floor_verts, Vector3(6553600, 3276800, 6554));
    push_v(&mut floor_verts, Vector3(39321600, 3276800, 196608));
    push_v(&mut floor_verts, Vector3(39321600, 3276800, 6554));
    proof {
        assert(floor_verts@ =~= floor_verts_spec());
    }
    let floor = Shape {
        verts: floor_verts,
        material: Material {
            color: ColorGenerator::SphereTexture(
                Vector3(22937600, 3276800, 95027),
                Rc::new(tex),
            ),
        },
        primitive: Primitive::TriangleStrip,
    };
    let cube1 = cuboid(
        9830400,
        16384000,
        3283354,
        9836954,
        32768,
        52429,
        RGB(0x15, 0x00, 0x30),
    );
    let cube2 = cuboid(
        26214400,
        36044800,
        3283354,
        26220954,
        32768,
        52429,
        RGB(0x00, 0x40, 0x30),
    );
    let cube3 = cuboid(
        29491200,
        30146560,
        3283354,
        4594074,
        26214,
        26870,
        RGB(0x78, 0x00, 0x30),
    );
    let mut shapes: Vec<Shape> = Vec::new();
    shapes.push(floor);
    shapes.push(cube1);
    shapes.push(cube2);
    shapes.push(cube3);
    let mut lighting: Vec<Vector3> = Vec::new();
    lighting.push(Vector3(0, 13107200, 65536));
    lighting.push(Vector3(32768000, 13107200, 0));
    proof {
        assert(lighting@ =~= seq![
            Vector3(0, 13107200, 65536),
            Vector3(32768000, 13107200, 0),
        ]);
    }
    World { shapes, lighting }
}

} // verus!
