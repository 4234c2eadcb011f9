use raymaze::geometry::{
    ColorGenerator, Material, Primitive, RGB, Shape, Vector3, World, Worldly,
};
use raymaze::menu::MenuScreen;
use raymaze::render::Canvas;
use raymaze::state::ProgramState;

const S: i64 = 65536;

#[test]
fn fresh_canvas_is_black() {
    let c = Canvas::new(3, 2);
    let px = c.pixels();
    assert_eq!(px.len(), 2);
    for row in px {
        assert_eq!(row.len(), 3);
        for p in row {
            assert_eq!(*p, RGB(0, 0, 0));
        }
    }
}

#[test]
fn empty_world_renders_background() {
    let mut c = Canvas::new(2, 2);
    let w = World { shapes: vec![], lighting: vec![] };
    c.render(&w);
    for row in c.pixels() {
        for p in row {
            assert_eq!(*p, RGB(0, 0, 0));
        }
    }
}

#[test]
fn render_matches_per_pixel_shading() {
    // A broad lit wall in front of the camera; each rendered pixel must
    // be the average of its four jittered primary rays.
    let wall = Shape {
        verts: vec![
            Vector3(-8 * S, -8 * S, 4 * S),
            Vector3(8 * S, -8 * S, 4 * S),
            Vector3(-8 * S, 8 * S, 4 * S),
            Vector3(8 * S, 8 * S, 4 * S),
        ],
        material: Material { color: ColorGenerator::Uniform(RGB(120, 90, 60)) },
        primitive: Primitive::TriangleStrip,
    };
    let world = World { shapes: vec![wall], lighting: vec![Vector3(0, 0, 0)] };
    let mut c = Canvas::new(2, 2);
    c.render(&world);
    let polys = world.shapes[0].to_polygons();
    for b in 0..2i64 {
        for a in 0..2i64 {
            let ox = 1 * S;  // width/2 in fixed point
            let oy = 1 * S;
            let q = S / 4;
            let jitters = [(-q, q), (q, -q), (-q, -q), (q, q)];
            let mut rc: u16 = 0;
            let mut gc: u16 = 0;
            let mut bc: u16 = 0;
            for (jx, jy) in jitters {
                let o = Vector3(ox + jx, oy + jy, -S);
                let dir = Vector3(a * S - ox + jx, b * S - oy + jy, S);
                let s = Canvas::get_pixel_color(0, o, dir, &polys, &world.lighting);
                rc += s.0 as u16;
                gc += s.1 as u16;
                bc += s.2 as u16;
            }
            let want = RGB((rc / 4) as u8, (gc / 4) as u8, (bc / 4) as u8);
            assert_eq!(c.pixels()[b as usize][a as usize], want);
        }
    }
}

#[test]
fn menu_scene_is_empty() {
    let m = MenuScreen::new(ProgramState::new());
    let w = m.scene();
    assert_eq!(w.shapes.len(), 0);
    assert_eq!(w.lighting.len(), 0);
}

#[test]
fn play_scene_carries_one_light() {
    let mut s = ProgramState::new();
    s.width = 5;
    s.height = 4;
    s.new_game();
    let p = raymaze::play::PlayScreen::new(s);
    let w = p.scene();
    assert_eq!(w.lighting.len(), 1);
    // The light sits at the player's maze cell (1, 1).
    assert_eq!(w.lighting[0], Vector3(S, S, S));
    assert!(w.shapes.len() > 0);
}
