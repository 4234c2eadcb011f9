//! The program state the screens pass among themselves.

use vstd::prelude::*;
use crate::game::{Game, game_wf};

verus! {

/// One recorded score.
pub struct ScoreEntry {
    pub player: String,
    pub score: u32,
}

/// The score table.
pub struct Score {
    pub entries: Vec<ScoreEntry>,
}

impl Score {
    /// An empty score table.
    pub fn new() -> (r: Score)
        ensures
            r.entries@.len() == 0,
    {
        Score { entries: Vec::new() }
    }
}

/// Everything the screens carry between each other: the paused game, if
/// any, the score table, and the options for the next maze.
pub struct ProgramState {
    pub game: Option<Game>,
    pub score: Score,
    pub width: usize,
    pub height: usize,
    pub seed: Option<u16>,
}

pub open spec fn state_wf(s: ProgramState) -> bool {
    &&& 2 <= s.width <= 0xffff
    &&& 2 <= s.height <= 0xffff
    &&& match s.game {
        Some(g) => game_wf(g),
        None => true,
    }
}

impl ProgramState {
    /// The starting state: no game, an empty score table, a 70 by 30
    /// maze and no chosen seed.
    pub fn new() -> (r: ProgramState)
        ensures
            state_wf(r),
            r.game is None,
            r.score.entries@.len() == 0,
            r.width == 70,
            r.height == 30,
            r.seed is None,
    {
        ProgramState { game: None, score: Score::new(), width: 70, height: 30, seed: None }
    }

    /// Start a new game from the chosen options; a missing seed counts
    /// as 0. The game starts with the player at cell (1, 1), nothing
    /// walked, and no elapsed play time; with both dimensions at least 3
    /// the maze comes back with that starting cell open.
    pub fn new_game(&mut self)
        requires
            state_wf(*old(self)),
        ensures
            state_wf(*final(self)),
            final(self).game is Some,
            game_wf(final(self).game.unwrap()),
            final(self).game.unwrap().field.0.width == old(self).width,
            final(self).game.unwrap().field.0.height == old(self).height,
            final(self).game.unwrap().playtime == 0,
            final(self).game.unwrap().player == (crate::labyrinth::Point { x: 1, y: 1 }),
            forall|p: crate::labyrinth::Point|
                !crate::labyrinth::get_or_spec(final(self).game.unwrap().walked, p, false),
            3 <= old(self).width && 3 <= old(self).height ==> crate::labyrinth::start_open(
                final(self).game.unwrap().field.0,
            ),
            final(self).game.unwrap().seed@ == (match old(self).seed {
                Some(x) => x,
                None => 0,
            }),
            final(self).width == old(self).width,
            final(self).height == old(self).height,
            final(self).seed == old(self).seed,
            final(self).score == old(self).score,
    {
        let seed: u16 = match self.seed {
            Some(s) => s,
            None => 0,
        };
        let w = self.width;
        let h = self.height;
        self.game = Some(Game::new(w, h, seed));
    }
}

} // verus!
