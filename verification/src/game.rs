//! A running game: the maze, the player, and the per-tick rules.

use vstd::prelude::*;
use crate::labyrinth::{Labyrinth, Field, Point, laby_wf, field_wf};
use crate::tickable::{Tickable, Input};

verus! {

/// A running game: the maze, the player's cell, the elapsed play time in
/// ticks, and the cells walked over. The seed the maze was carved from is
/// kept as a ghost record, so contracts can say which seed a game was
/// built with.
pub struct Game {
    pub field: Labyrinth,
    pub player: Point,
    pub playtime: u64,
    pub walked: Field,
    pub seed: Ghost<u16>,
}

/// Where one tick leaves the player: the neighboring cell named by a
/// direction input, when that cell is a carved passage; otherwise the
/// player stays.
pub open spec fn tick_target(g: Game, input: Option<Input>) -> Point {
    match input {
        Some(Input::Direction(d)) => {
            let np = crate::labyrinth::neighbor_spec(g.player, d);
            if np.x < g.field.0.height && np.y < g.field.0.width
                && !g.field.0.cells@[np.x as int]@[np.y as int] {
                np
            } else {
                g.player
            }
        },
        _ => g.player,
    }
}

/// Whether one tick moves the player: a direction input naming a carved
/// in-grid neighbor.
pub open spec fn tick_moved(g: Game, input: Option<Input>) -> bool {
    match input {
        Some(Input::Direction(d)) => {
            let np = crate::labyrinth::neighbor_spec(g.player, d);
            np.x < g.field.0.height && np.y < g.field.0.width
                && !g.field.0.cells@[np.x as int]@[np.y as int]
        },
        _ => false,
    }
}

pub open spec fn game_wf(g: Game) -> bool {
    &&& laby_wf(g.field)
    &&& field_wf(g.walked)
    &&& g.walked.width == g.field.0.width
    &&& g.walked.height == g.field.0.height
    &&& g.player.x < g.field.0.height
    &&& g.player.y < g.field.0.width
}

impl Game {
    /// A fresh game on a newly carved maze, the player at cell (1, 1)
    /// and nothing walked yet. With both sides at least 3 the maze comes
    /// back with the starting cell open (see `Labyrinth::new`).
    pub fn new(width: usize, height: usize, seed: u16) -> (r: Game)
        requires
            2 <= width <= 0xffff,
            2 <= height <= 0xffff,
        ensures
            game_wf(r),
            r.field.0.width == width,
            r.field.0.height == height,
            r.player == (Point { x: 1, y: 1 }),
            r.playtime == 0,
            forall|p: Point| !crate::labyrinth::get_or_spec(r.walked, p, false),
            3 <= width && 3 <= height ==> crate::labyrinth::start_open(r.field.0),
            r.seed@ == seed,
    {
        Game {
            field: Labyrinth::new(width, height, seed),
            player: Point { x: 1, y: 1 },
            playtime: 0,
            walked: Field::new(width, height, false),
            seed: Ghost(seed),
        }
    }

    /// Whether the player stands on the exit: the far corner at row
    /// `height - 1`, column `width - 1`.
    pub fn is_finished(&self) -> (r: bool)
        requires
            game_wf(*self),
        ensures
            r == (self.player == (Point {
                x: (self.field.0.height - 1) as usize,
                y: (self.field.0.width - 1) as usize,
            })),
    {
        let target = Point { x: self.field.0.height() - 1, y: self.field.0.width() - 1 };
        self.player == target
    }
}

impl Tickable for Game {
    open spec fn tick_wf(&self) -> bool {
        game_wf(*self)
    }

    /// One tick: the player's cell is marked walked and a second of play
    /// time passes. On a direction input the player moves to the
    /// neighboring cell when that cell is a carved passage; stepping onto
    /// an already-walked cell unmarks the cell left behind.
    fn tick(&mut self, input: Option<Input>)
        ensures
            final(self).field == old(self).field,
            final(self).playtime == (if old(self).playtime < 0xffff_ffff_ffff_ffff {
                old(self).playtime + 1
            } else {
                old(self).playtime as int
            }),
            final(self).player == tick_target(*old(self), input),
            final(self).walked.width == old(self).walked.width,
            final(self).walked.height == old(self).walked.height,
            forall|q: Point, def: bool|
                !(q.x == old(self).player.x && q.y == old(self).player.y)
                    ==> crate::labyrinth::get_or_spec(final(self).walked, q, def)
                    == crate::labyrinth::get_or_spec(old(self).walked, q, def),
            ({
                let p = old(self).player;
                let np = tick_target(*old(self), input);
                crate::labyrinth::get_or_spec(final(self).walked, p, false) == (
                if tick_moved(*old(self), input) {
                    !(if np == p {
                        true
                    } else {
                        crate::labyrinth::get_or_spec(old(self).walked, np, false)
                    })
                } else {
                    true
                })
            }),
    {
        let p = self.player;
        self.walked.set(p, true);
        self.playtime = if self.playtime < 0xffff_ffff_ffff_ffff {
            self.playtime + 1
        } else {
            self.playtime
        };
        match input {
            Some(Input::Direction(d)) => {
                let np = self.player.neighbor(d);
                let cell = self.field.0.get(np);
                if let Some(false) = cell {
                    let was = self.walked.at(np);
                    proof {
                        assert(was == crate::labyrinth::get_or_spec(self.walked, np, false));
                        assert(np != p ==> was == crate::labyrinth::get_or_spec(
                            old(self).walked,
                            np,
                            false,
                        ));
                    }
                    self.walked.set(p, !was);
                    self.player = np;
                    proof {
                        assert(crate::labyrinth::get_or_spec(self.walked, p, false) == !was);
                    }
                }
            },
            _ => {},
        }
    }
}

} // verus!
