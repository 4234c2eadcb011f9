//! The game view: it projects the maze into a scene for the renderer and
//! forwards ticks to the running game.

use vstd::prelude::*;
use crate::geometry::{
    Vector3, RGB, Material, ColorGenerator, Shape, Primitive, World, Worldly, vx, in_range,
    shape_wf, COORD_BOUND,
};
use crate::labyrinth::Point;
use crate::state::{ProgramState, state_wf};
use crate::screen::{Screen, Transition};
use crate::tickable::{Tickable, Input};
use crate::menu::MenuScreen;
use crate::fx::lemma_mul_bound;

verus! {

/// The screen that shows the running game.
pub struct PlayScreen {
    pub state: ProgramState,
}

pub open spec fn play_wf(p: PlayScreen) -> bool {
    state_wf(p.state)
}

impl PlayScreen {
    /// A game view over the given program state.
    pub fn new(state: ProgramState) -> (r: PlayScreen)
        requires
            state_wf(state),
        ensures
            play_wf(r),
            r.state == state,
    {
        PlayScreen { state }
    }
}

/// A maze coordinate projected onto the image plane: `i` of `denom` grid
/// steps across `scale` pixels, as a fixed-point scalar.
fn grid_fx(i: usize, scale: usize, denom: usize) -> (r: i64)
    requires
        1 <= denom <= 0xffff,
        i <= denom,
        scale <= 640,
    ensures
        0 <= r <= scale * 65536,
        r == (i as int * scale as int / denom as int) * 65536,
{
    proof {
        lemma_mul_bound(i as int, scale as int, 0xffff, 640);
        assert(i * scale <= denom * scale) by (nonlinear_arith)
            requires
                i <= denom,
                0 <= scale,
                0 <= i,
        ;
        vstd::arithmetic::div_mod::lemma_multiply_divide_le(
            i as int * scale as int,
            denom as int,
            scale as int,
        );
    }
    let q: usize = i * scale / denom;
    (q as i64) * 65536
}

/// A wall or floor rectangle: four strip-ordered corners with one flat
/// color.
fn quad(v0: Vector3, v1: Vector3, v2: Vector3, v3: Vector3, color: RGB) -> (s: Shape)
    requires
        in_range(vx(v0), COORD_BOUND as int),
        in_range(vx(v1), COORD_BOUND as int),
        in_range(vx(v2), COORD_BOUND as int),
        in_range(vx(v3), COORD_BOUND as int),
    ensures
        shape_wf(s),
{
    let mut verts: Vec<Vector3> = Vec::new();
    verts.push(v0);
    verts.push(v1);
    verts.push(v2);
    verts.push(v3);
    Shape {
        verts,
        material: Material { color: ColorGenerator::Uniform(color) },
        primitive: Primitive::TriangleStrip,
    }
}

/// The player's marker: one triangle with an anchor color per vertex.
fn tri(v0: Vector3, v1: Vector3, v2: Vector3, c0: RGB, c1: RGB, c2: RGB) -> (s: Shape)
    requires
        in_range(vx(v0), COORD_BOUND as int),
        in_range(vx(v1), COORD_BOUND as int),
        in_range(vx(v2), COORD_BOUND as int),
    ensures
        shape_wf(s),
{
    let mut verts: Vec<Vector3> = Vec::new();
    verts.push(v0);
    verts.push(v1);
    verts.push(v2);
    Shape {
        verts,
        material: Material { color: ColorGenerator::Linear(c0, c1, c2) },
        primitive: Primitive::TriangleStrip,
    }
}

impl Worldly for PlayScreen {
    open spec fn wf(&self) -> bool {
        play_wf(*self)
    }

    /// The maze projected into scene geometry: for every wall cell its
    /// near face and the side faces next to carved cells, for every
    /// carved cell a far floor face, the player's marker triangle, and
    /// one light at the player's maze position.
    fn scene(&self) -> (w: World)
        ensures
            self.state.game is None ==> w.shapes@.len() == 0 && w.lighting@.len() == 0,
            self.state.game is Some ==> w.shapes@.len() > 0,
            self.state.game matches Some(g) ==> w.lighting@ == seq![
                Vector3((g.player.x * 65536) as i64, (g.player.y * 65536) as i64, 65536),
            ],
    {
        let mut shapes: Vec<Shape> = Vec::new();
        let mut light: Vec<Vector3> = Vec::new();
        match &self.state.game {
            Some(game) => {
                light.push(
                    Vector3(
                        (game.player.x as i64) * 65536,
                        (game.player.y as i64) * 65536,
                        65536,
                    ),
                );
                let gw = game.field.0.width();
                let gh = game.field.0.height();
                let mut x: usize = 0;
                while x < gh
                    invariant
                        crate::game::game_wf(*game),
                        gw == game.field.0.width,
                        gh == game.field.0.height,
                        x <= gh,
                        x > 0 ==> shapes@.len() > 0,
                        light@.len() == 1,
                        forall|i: int|
                            0 <= i < light@.len() ==> in_range(
                                vx(#[trigger] light@[i]),
                                COORD_BOUND as int,
                            ),
                        forall|i: int| 0 <= i < shapes@.len() ==> shape_wf(#[trigger] shapes@[i]),
                    decreases gh - x,
                {
                    let mut y: usize = 0;
                    while y < gw
                        invariant
                            crate::game::game_wf(*game),
                            gw == game.field.0.width,
                            gh == game.field.0.height,
                            x < gh,
                            y <= gw,
                            x > 0 || y > 0 ==> shapes@.len() > 0,
                            light@.len() == 1,
                            forall|i: int|
                                0 <= i < light@.len() ==> in_range(
                                    vx(#[trigger] light@[i]),
                                    COORD_BOUND as int,
                                ),
                            forall|i: int|
                                0 <= i < shapes@.len() ==> shape_wf(#[trigger] shapes@[i]),
                        decreases gw - y,
                    {
                        let zf: i64 = 19661;
                        let zn: i64 = 17039;
                        let pmid: i64 = 18350;
                        if game.field.0.at(Point { x, y }) {
                            let c_top = RGB(0x61, 0x40, 0x20);

                            shapes.push(
                                quad(
                                    Vector3(grid_fx(y, 640, gw), grid_fx(x + 1, 480, gh), zn),
                                    Vector3(grid_fx(y + 1, 640, gw), grid_fx(x + 1, 480, gh), zn),
                                    Vector3(grid_fx(y, 640, gw), grid_fx(x, 480, gh), zn),
                                    Vector3(grid_fx(y + 1, 640, gw), grid_fx(x, 480, gh), zn),
                                    c_top,
                                ),
                            );
                            let c_west = RGB(0x33, 0x41, 0x33);
                            if y > 0 && !game.field.0.get_or(Point { x, y: y - 1 }, false) {
                                shapes.push(
                                    quad(
                                        Vector3(grid_fx(y, 640, gw), grid_fx(x + 1, 480, gh), zn),
                                        Vector3(grid_fx(y, 640, gw), grid_fx(x, 480, gh), zn),
                                        Vector3(grid_fx(y, 640, gw), grid_fx(x + 1, 480, gh), zf),
                                        Vector3(grid_fx(y, 640, gw), grid_fx(x, 480, gh), zf),
                                        c_west,
                                    ),
                                );
                            }
                            let c_east = RGB(0x41, 0x33, 0x41);
                            if !game.field.0.get_or(Point { x, y: y + 1 }, false) {
                                shapes.push(
                                    quad(
                                        Vector3(
                                            grid_fx(y + 1, 640, gw),
                                            grid_fx(x + 1, 480, gh),
                                            zn,
                                        ),
                                        Vector3(grid_fx(y + 1, 640, gw), grid_fx(x, 480, gh), zn),
                                        Vector3(
                                            grid_fx(y + 1, 640, gw),
                                            grid_fx(x + 1, 480, gh),
                                            zf,
                                        ),
                                        Vector3(grid_fx(y + 1, 640, gw), grid_fx(x, 480, gh), zf),
                                        c_east,
                                    ),
                                );
                            }
                            let c_south = RGB(0x71, 0x15, 0xAA);
                            if x > 0 && !game.field.0.get_or(Point { x: x - 1, y }, false) {
                                shapes.push(
                                    quad(
                                        Vector3(grid_fx(y + 1, 640, gw), grid_fx(x, 480, gh), zn),
                                        Vector3(grid_fx(y, 640, gw), grid_fx(x, 480, gh), zn),
                                        Vector3(grid_fx(y + 1, 640, gw), grid_fx(x, 480, gh), zf),
                                        Vector3(grid_fx(y, 640, gw), grid_fx(x, 480, gh), zf),
                                        c_south,
                                    ),
                                );
                            }
                            let c_north = RGB(0x33, 0xBB, 0x33);
                            if !game.field.0.get_or(Point { x: x + 1, y }, false) {
                                shapes.push(
                                    quad(
                                        Vector3(
                                            grid_fx(y + 1, 640, gw),
                                            grid_fx(x + 1, 480, gh),
                                            zn,
                                        ),
                                        Vector3(grid_fx(y, 640, gw), grid_fx(x + 1, 480, gh), zn),
                                        Vector3(
                                            grid_fx(y + 1, 640, gw),
                                            grid_fx(x + 1, 480, gh),
                                            zf,
                                        ),
                                        Vector3(grid_fx(y, 640, gw), grid_fx(x + 1, 480, gh), zf),
                                        c_north,
                                    ),
                                );
                            }
                        } else {
                            let c_floor = RGB(0x40, 0x20, 0x61);
                            shapes.push(
                                quad(
                                    Vector3(grid_fx(y, 640, gw), grid_fx(x + 1, 480, gh), zf),
                                    Vector3(grid_fx(y + 1, 640, gw), grid_fx(x + 1, 480, gh), zf),
                                    Vector3(grid_fx(y, 640, gw), grid_fx(x, 480, gh), zf),
                                    Vector3(grid_fx(y + 1, 640, gw), grid_fx(x, 480, gh), zf),
                                    c_floor,
                                ),
                            );
                        }
                        let px = game.player.x;
                        let py = game.player.y;
                        shapes.push(
                            tri(
                                Vector3(grid_fx(py, 640, gw), grid_fx(px, 480, gh), pmid),
                                Vector3(grid_fx(py, 640, gw), grid_fx(px + 1, 480, gh), pmid),
                                Vector3(grid_fx(py + 1, 640, gw), grid_fx(px, 480, gh), pmid),
                                RGB(0x00, 0xFF, 0xFF),
                                RGB(0xFF, 0x00, 0xFF),
                                RGB(0xFF, 0xFF, 0x00),
                            ),
                        );
                        y = y + 1;
                    }
                    x = x + 1;
                }
            },
            None => {},
        }
        World { shapes, lighting: light }
    }
}

impl Screen for PlayScreen {
    /// A menu input pauses the game and opens the menu; any other input
    /// is handed to the game, and a finished game drops back to the menu
    /// with the game cleared.
    fn tick(&mut self, input: Option<Input>) -> (r: Transition)
        ensures
            input == Some(Input::Menu) ==> crate::menu::reset_state(final(self).state) && (r
                matches Transition::ToMenu(m) && m.state == old(self).state),
            old(self).state.game is None && input != Some(Input::Menu) ==> r is Stay
                && *final(self) == *old(self),
    {
        match input {
            Some(Input::Menu) => {
                let mut st = ProgramState::new();
                core::mem::swap(&mut self.state, &mut st);
                Transition::ToMenu(MenuScreen::new(st))
            },
            _ => {
                let mut finished = false;
                let taken = self.state.game.take();
                match taken {
                    Some(mut g) => {
                        g.tick(input);
                        finished = g.is_finished();
                        self.state.game = Some(g);
                    },
                    None => {},
                }
                if finished {
                    self.state.game = None;
                    let mut st = ProgramState::new();
                    core::mem::swap(&mut self.state, &mut st);
                    Transition::ToMenu(MenuScreen::new(st))
                } else {
                    Transition::Stay
                }
            },
        }
    }
}

} // verus!
