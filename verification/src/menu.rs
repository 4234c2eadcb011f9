//! The menu screen: the entry list, the options editor, the license
//! pager, the score view, and the quit prompt.

use vstd::prelude::*;
use crate::direction::{Direction, LeftRight, UpDown};
use crate::geometry::{World, Worldly};
use crate::play::PlayScreen;
use crate::play::play_wf;
use crate::screen::{Screen, Transition};
use crate::state::{ProgramState, state_wf};
use crate::tickable::Input;

verus! {

/// The entries of the options editor.
#[derive(Clone, Copy, PartialEq, Eq, Structural, Debug)]
pub enum Options {
    Width,
    Height,
    Seed,
}

/// The entries of the main menu.
#[derive(Clone, Copy, PartialEq, Eq, Structural, Debug)]
pub enum Menu {
    NewGame,
    Continue,
    Options,
    HighScore,
    License,
    Quit,
}

/// The menu's inner screens.
#[derive(Clone, Copy, PartialEq, Eq, Structural, Debug)]
pub enum Subscreens {
    /// The main entry list, with the selected entry.
    Menu(Menu),
    /// The options editor, with the selected option.
    Options(Options),
    /// The score table.
    HighScore,
    /// The license text, scrolled to a line.
    License(u16),
    /// The quit prompt: the entry to return to, and the chosen answer.
    Quit(Menu, bool),
}

pub open spec fn opt_next(o: Options) -> Options {
    match o {
        Options::Width => Options::Height,
        Options::Height => Options::Seed,
        Options::Seed => Options::Width,
    }
}

pub open spec fn opt_prev(o: Options) -> Options {
    match o {
        Options::Width => Options::Seed,
        Options::Height => Options::Width,
        Options::Seed => Options::Height,
    }
}

pub open spec fn opt_pos(o: Options) -> int {
    match o {
        Options::Width => 0,
        Options::Height => 1,
        Options::Seed => 2,
    }
}

impl Options {
    /// The next option, cycling through the list.
    pub fn next(&self) -> (r: Options)
        ensures
            r == opt_next(*self),
    {
        match self {
            Options::Width => Options::Height,
            Options::Height => Options::Seed,
            Options::Seed => Options::Width,
        }
    }

    /// The previous option, cycling through the list.
    pub fn prev(&self) -> (r: Options)
        ensures
            r == opt_prev(*self),
    {
        match self {
            Options::Width => Options::Seed,
            Options::Height => Options::Width,
            Options::Seed => Options::Height,
        }
    }

    /// This option's place in the list.
    pub fn position(&self) -> (r: Option<usize>)
        ensures
            r matches Some(p) && p == opt_pos(*self),
    {
        match self {
            Options::Width => Some(0),
            Options::Height => Some(1),
            Options::Seed => Some(2),
        }
    }
}

pub open spec fn menu_next(m: Menu) -> Menu {
    match m {
        Menu::NewGame => Menu::Continue,
        Menu::Continue => Menu::Options,
        Menu::Options => Menu::HighScore,
        Menu::HighScore => Menu::License,
        Menu::License => Menu::Quit,
        Menu::Quit => Menu::NewGame,
    }
}

pub open spec fn menu_prev(m: Menu) -> Menu {
    match m {
        Menu::NewGame => Menu::Quit,
        Menu::Continue => Menu::NewGame,
        Menu::Options => Menu::Continue,
        Menu::HighScore => Menu::Options,
        Menu::License => Menu::HighScore,
        Menu::Quit => Menu::License,
    }
}

pub open spec fn menu_pos(m: Menu) -> int {
    match m {
        Menu::NewGame => 0,
        Menu::Continue => 1,
        Menu::Options => 2,
        Menu::HighScore => 3,
        Menu::License => 4,
        Menu::Quit => 5,
    }
}

impl Menu {
    /// The next entry, cycling through the list.
    pub fn next(&self) -> (r: Menu)
        ensures
            r == menu_next(*self),
    {
        match self {
            Menu::NewGame => Menu::Continue,
            Menu::Continue => Menu::Options,
            Menu::Options => Menu::HighScore,
            Menu::HighScore => Menu::License,
            Menu::License => Menu::Quit,
            Menu::Quit => Menu::NewGame,
        }
    }

    /// The previous entry, cycling through the list.
    pub fn prev(&self) -> (r: Menu)
        ensures
            r == menu_prev(*self),
    {
        match self {
            Menu::NewGame => Menu::Quit,
            Menu::Continue => Menu::NewGame,
            Menu::Options => Menu::Continue,
            Menu::HighScore => Menu::Options,
            Menu::License => Menu::HighScore,
            Menu::Quit => Menu::License,
        }
    }

    /// This entry's place in the list.
    pub fn position(&self) -> (r: Option<usize>)
        ensures
            r matches Some(p) && p == menu_pos(*self),
    {
        match self {
            Menu::NewGame => Some(0),
            Menu::Continue => Some(1),
            Menu::Options => Some(2),
            Menu::HighScore => Some(3),
            Menu::License => Some(4),
            Menu::Quit => Some(5),
        }
    }
}

/// The menu screen: the program state it guards and the inner screen it
/// shows.
pub struct MenuScreen {
    pub state: ProgramState,
    pub subscreen: Subscreens,
}

pub open spec fn menu_wf(m: MenuScreen) -> bool {
    state_wf(m.state)
}

/// A freshly reset program state, as the screens leave behind when they
/// hand their state on.
pub open spec fn reset_state(s: ProgramState) -> bool {
    s.game is None && s.width == 70 && s.height == 30 && s.seed is None && s.score.entries@.len()
        == 0
}

/// One selection step on the entry list: down moves to the next entry,
/// up to the previous, anything else stays.
pub open spec fn menu_move1(m: Menu, d: Direction) -> Menu {
    if d == Direction(LeftRight::Middle, UpDown::Down) {
        menu_next(m)
    } else if d == Direction(LeftRight::Middle, UpDown::Up) {
        menu_prev(m)
    } else {
        m
    }
}

/// A selection step, skipping `Continue` when no game is paused.
pub open spec fn menu_move(m: Menu, d: Direction, has_game: bool) -> Menu {
    let m1 = menu_move1(m, d);
    if m1 == Menu::Continue && !has_game {
        menu_move1(Menu::Continue, d)
    } else {
        m1
    }
}

/// A maze dimension decremented. The clamp at 2 is a deliberate guard,
/// not part of the editor's idea: an unguarded decrement would walk the
/// option below the smallest maze the generator accepts (the carving
/// walk starts at cell (1, 1)) and, at zero, below the range of the
/// type. Verified code must not panic, so the editor stops at the band's
/// edge instead.
pub open spec fn dec_dim(w: usize) -> usize {
    if w > 2 {
        (w - 1) as usize
    } else {
        w
    }
}

/// A maze dimension incremented. The cap at 65535 is the same deliberate
/// guard as `dec_dim`'s: it keeps every choosable size one the generator
/// accepts.
pub open spec fn inc_dim(w: usize) -> usize {
    if w < 0xffff {
        (w + 1) as usize
    } else {
        w
    }
}

/// The chosen seed decremented, wrapping around; no seed stays none.
pub open spec fn dec_seed(s: Option<u16>) -> Option<u16> {
    match s {
        Some(x) => Some(
            if x == 0 {
                0xffffu16
            } else {
                (x - 1) as u16
            },
        ),
        None => None,
    }
}

/// The chosen seed incremented, wrapping around; no seed stays none.
pub open spec fn inc_seed(s: Option<u16>) -> Option<u16> {
    match s {
        Some(x) => Some(
            if x == 0xffff {
                0u16
            } else {
                (x + 1) as u16
            },
        ),
        None => None,
    }
}

/// The menu screen after one input on the options editor.
pub open spec fn tick_opt_spec(m: MenuScreen, input: Input, o: Options) -> MenuScreen {
    match input {
        Input::Direction(d) => {
            if d == Direction(LeftRight::Middle, UpDown::Down) {
                MenuScreen { subscreen: Subscreens::Options(opt_next(o)), ..m }
            } else if d == Direction(LeftRight::Middle, UpDown::Up) {
                MenuScreen { subscreen: Subscreens::Options(opt_prev(o)), ..m }
            } else if d == Direction(LeftRight::Left, UpDown::Middle) {
                match o {
                    Options::Width => MenuScreen {
                        state: ProgramState { width: dec_dim(m.state.width), ..m.state },
                        ..m
                    },
                    Options::Height => MenuScreen {
                        state: ProgramState { height: dec_dim(m.state.height), ..m.state },
                        ..m
                    },
                    Options::Seed => MenuScreen {
                        state: ProgramState { seed: dec_seed(m.state.seed), ..m.state },
                        ..m
                    },
                }
            } else if d == Direction(LeftRight::Right, UpDown::Middle) {
                match o {
                    Options::Width => MenuScreen {
                        state: ProgramState { width: inc_dim(m.state.width), ..m.state },
                        ..m
                    },
                    Options::Height => MenuScreen {
                        state: ProgramState { height: inc_dim(m.state.height), ..m.state },
                        ..m
                    },
                    Options::Seed => MenuScreen {
                        state: ProgramState { seed: inc_seed(m.state.seed), ..m.state },
                        ..m
                    },
                }
            } else {
                m
            }
        },
        Input::Cancel => MenuScreen { subscreen: Subscreens::Menu(Menu::Options), ..m },
        _ => m,
    }
}

/// The menu screen after one input on the license pager: down scrolls
/// forward (stopping at the largest line number), up scrolls back,
/// cancel returns to the entry list.
pub open spec fn tick_license_spec(m: MenuScreen, input: Input, line: u16) -> MenuScreen {
    match input {
        Input::Direction(d) => {
            if d == Direction(LeftRight::Middle, UpDown::Down) {
                MenuScreen {
                    subscreen: Subscreens::License(
                        if line < 0xffff {
                            (line + 1) as u16
                        } else {
                            line
                        },
                    ),
                    ..m
                }
            } else if d == Direction(LeftRight::Middle, UpDown::Up) {
                MenuScreen {
                    subscreen: Subscreens::License(
                        if line > 0 {
                            (line - 1) as u16
                        } else {
                            line
                        },
                    ),
                    ..m
                }
            } else {
                m
            }
        },
        Input::Cancel => MenuScreen { subscreen: Subscreens::Menu(Menu::License), ..m },
        _ => m,
    }
}

/// The menu screen after one input on the quit prompt: a direction flips
/// the answer, cancel and accept both return to the entry list.
pub open spec fn tick_quit_spec(m: MenuScreen, input: Input, menu: Menu, quit: bool) -> MenuScreen {
    match input {
        Input::Direction(_) => MenuScreen { subscreen: Subscreens::Quit(menu, !quit), ..m },
        Input::Cancel => MenuScreen { subscreen: Subscreens::Menu(menu), ..m },
        Input::Accept => MenuScreen { subscreen: Subscreens::Menu(menu), ..m },
        _ => m,
    }
}

/// The menu screen after one input on the score table: cancel returns to
/// the entry list.
pub open spec fn tick_highscore_spec(m: MenuScreen, input: Input) -> MenuScreen {
    match input {
        Input::Cancel => MenuScreen { subscreen: Subscreens::Menu(Menu::HighScore), ..m },
        _ => m,
    }
}

impl MenuScreen {
    /// A menu over the given program state, opening on `Continue` when a
    /// game is paused and on `NewGame` otherwise.
    pub fn new(state: ProgramState) -> (r: MenuScreen)
        requires
            state_wf(state),
        ensures
            menu_wf(r),
            r.state == state,
            r.subscreen == Subscreens::Menu(
                if state.game is Some {
                    Menu::Continue
                } else {
                    Menu::NewGame
                },
            ),
    {
        let entry = if state.game.is_some() {
            Menu::Continue
        } else {
            Menu::NewGame
        };
        MenuScreen { subscreen: Subscreens::Menu(entry), state }
    }

    /// One input on the entry list. Accept acts on the selected entry:
    /// starting or resuming a game hands the program state to a fresh
    /// game view and leaves a reset state behind; the other entries open
    /// their subscreens. A direction moves the selection, skipping
    /// `Continue` when no game is paused; cancel opens the quit prompt.
    pub fn tick_menu(&mut self, input: Input, m: Menu) -> (r: Option<PlayScreen>)
        requires
            menu_wf(*old(self)),
        ensures
            menu_wf(*final(self)),
            r matches Some(p) ==> play_wf(p),
            input == Input::Accept && (m == Menu::NewGame || m == Menu::Continue) ==> r is Some
                && reset_state(final(self).state) && final(self).subscreen == old(self).subscreen,
            input == Input::Accept && m == Menu::NewGame ==> ({
                let ps = r.unwrap();
                &&& ps.state.game is Some
                &&& ps.state.game.unwrap().field.0.width == old(self).state.width
                &&& ps.state.game.unwrap().field.0.height == old(self).state.height
                &&& ps.state.game.unwrap().playtime == 0
                &&& ps.state.game.unwrap().player == (crate::labyrinth::Point { x: 1, y: 1 })
                &&& forall|p: crate::labyrinth::Point|
                    !crate::labyrinth::get_or_spec(ps.state.game.unwrap().walked, p, false)
                &&& (3 <= old(self).state.width && 3 <= old(self).state.height
                    ==> crate::labyrinth::start_open(ps.state.game.unwrap().field.0))
                &&& ps.state.game.unwrap().seed@ == (match old(self).state.seed {
                    Some(x) => x,
                    None => 0,
                })
                &&& ps.state.width == old(self).state.width
                &&& ps.state.height == old(self).state.height
                &&& ps.state.seed == old(self).state.seed
            }),
            input == Input::Accept && m == Menu::Continue ==> r.unwrap().state == old(self).state,
            input == Input::Accept && m == Menu::Options ==> r is None && *final(self) == (
            MenuScreen { subscreen: Subscreens::Options(Options::Width), ..*old(self) }),
            input == Input::Accept && m == Menu::HighScore ==> r is None && *final(self) == (
            MenuScreen { subscreen: Subscreens::HighScore, ..*old(self) }),
            input == Input::Accept && m == Menu::License ==> r is None && *final(self) == (
            MenuScreen { subscreen: Subscreens::License(0), ..*old(self) }),
            input == Input::Accept && m == Menu::Quit ==> r is None && *final(self) == (MenuScreen {
                subscreen: Subscreens::Quit(m, true),
                ..*old(self)
            }),
            input matches Input::Direction(d) ==> r is None && *final(self) == (MenuScreen {
                subscreen: Subscreens::Menu(menu_move(m, d, old(self).state.game is Some)),
                ..*old(self)
            }),
            input == Input::Cancel ==> r is None && *final(self) == (MenuScreen {
                subscreen: Subscreens::Quit(m, false),
                ..*old(self)
            }),
            input == Input::Menu ==> r is None && *final(self) == *old(self),
    {
        match input {
            Input::Accept => {
                match m {
                    Menu::NewGame => {
                        self.state.new_game();
                        let mut st = ProgramState::new();
                        core::mem::swap(&mut self.state, &mut st);
                        Some(PlayScreen::new(st))
                    },
                    Menu::Continue => {
                        let mut st = ProgramState::new();
                        core::mem::swap(&mut self.state, &mut st);
                        Some(PlayScreen::new(st))
                    },
                    Menu::Options => {
                        self.subscreen = Subscreens::Options(Options::Width);
                        None
                    },
                    Menu::HighScore => {
                        self.subscreen = Subscreens::HighScore;
                        None
                    },
                    Menu::License => {
                        self.subscreen = Subscreens::License(0);
                        None
                    },
                    Menu::Quit => {
                        self.subscreen = Subscreens::Quit(m, true);
                        None
                    },
                }
            },
            Input::Direction(d) => {
                let has_game = self.state.game.is_some();
                let m1 = Self::move1(m, d);
                let m2 = if m1 == Menu::Continue && !has_game {
                    Self::move1(Menu::Continue, d)
                } else {
                    m1
                };
                self.subscreen = Subscreens::Menu(m2);
                None
            },
            Input::Cancel => {
                self.subscreen = Subscreens::Quit(m, false);
                None
            },
            Input::Menu => None,
        }
    }

    /// One selection step on the entry list (see `menu_move1`).
    fn move1(m: Menu, d: Direction) -> (r: Menu)
        ensures
            r == menu_move1(m, d),
    {
        if d == Direction(LeftRight::Middle, UpDown::Down) {
            m.next()
        } else if d == Direction(LeftRight::Middle, UpDown::Up) {
            m.prev()
        } else {
            m
        }
    }

    /// One input on the options editor (see `tick_opt_spec`): up and down
    /// move the selection, left and right adjust the selected option,
    /// cancel returns to the entry list. Width and height stop at the
    /// edges of [2, 65535] — a deliberate guard (see `dec_dim`), where an
    /// unguarded editor would offer sizes that crash the game they are
    /// options for; the seed wraps around its full 16-bit band.
    pub fn tick_opt(&mut self, input: Input, o: Options)
        requires
            menu_wf(*old(self)),
        ensures
            menu_wf(*final(self)),
            *final(self) == tick_opt_spec(*old(self), input, o),
    {
        match input {
            Input::Direction(d) => {
                if d == Direction(LeftRight::Middle, UpDown::Down) {
                    self.subscreen = Subscreens::Options(o.next());
                } else if d == Direction(LeftRight::Middle, UpDown::Up) {
                    self.subscreen = Subscreens::Options(o.prev());
                } else if d == Direction(LeftRight::Left, UpDown::Middle) {
                    match o {
                        Options::Width => {
                            if self.state.width > 2 {
                                self.state.width = self.state.width - 1;
                            }
                        },
                        Options::Height => {
                            if self.state.height > 2 {
                                self.state.height = self.state.height - 1;
                            }
                        },
                        Options::Seed => {
                            let s = self.state.seed;
                            self.state.seed = match s {
                                Some(x) => Some(
                                    if x == 0 {
                                        0xffff
                                    } else {
                                        x - 1
                                    },
                                ),
                                None => None,
                            };
                        },
                    }
                } else if d == Direction(LeftRight::Right, UpDown::Middle) {
                    match o {
                        Options::Width => {
                            if self.state.width < 0xffff {
                                self.state.width = self.state.width + 1;
                            }
                        },
                        Options::Height => {
                            if self.state.height < 0xffff {
                                self.state.height = self.state.height + 1;
                            }
                        },
                        Options::Seed => {
                            let s = self.state.seed;
                            self.state.seed = match s {
                                Some(x) => Some(
                                    if x == 0xffff {
                                        0
                                    } else {
                                        x + 1
                                    },
                                ),
                                None => None,
                            };
                        },
                    }
                }
            },
            Input::Cancel => {
                self.subscreen = Subscreens::Menu(Menu::Options);
            },
            _ => {},
        }
    }

    /// One input on the license pager (see `tick_license_spec`).
    pub fn tick_license(&mut self, input: Input, line: u16)
        requires
            menu_wf(*old(self)),
        ensures
            menu_wf(*final(self)),
            *final(self) == tick_license_spec(*old(self), input, line),
    {
        match input {
            Input::Direction(d) => {
                if d == Direction(LeftRight::Middle, UpDown::Down) {
                    self.subscreen = Subscreens::License(
                        if line < 0xffff {
                            line + 1
                        } else {
                            line
                        },
                    );
                } else if d == Direction(LeftRight::Middle, UpDown::Up) {
                    self.subscreen = Subscreens::License(
                        if line > 0 {
                            line - 1
                        } else {
                            line
                        },
                    );
                }
            },
            Input::Cancel => {
                self.subscreen = Subscreens::Menu(Menu::License);
            },
            _ => {},
        }
    }

    /// One input on the quit prompt (see `tick_quit_spec`).
    pub fn tick_quit(&mut self, input: Input, menu: Menu, quit: bool)
        requires
            menu_wf(*old(self)),
        ensures
            menu_wf(*final(self)),
            *final(self) == tick_quit_spec(*old(self), input, menu, quit),
    {
        match input {
            Input::Direction(_) => {
                self.subscreen = Subscreens::Quit(menu, !quit);
            },
            Input::Cancel => {
                self.subscreen = Subscreens::Menu(menu);
            },
            Input::Accept => {
                self.subscreen = Subscreens::Menu(menu);
            },
            _ => {},
        }
    }

    /// One input on the score table (see `tick_highscore_spec`).
    pub fn tick_highscore(&mut self, input: Input)
        requires
            menu_wf(*old(self)),
        ensures
            menu_wf(*final(self)),
            *final(self) == tick_highscore_spec(*old(self), input),
    {
        match input {
            Input::Cancel => {
                self.subscreen = Subscreens::Menu(Menu::HighScore);
            },
            _ => {},
        }
    }
}

impl Worldly for MenuScreen {
    open spec fn wf(&self) -> bool {
        menu_wf(*self)
    }

    /// The menu draws nothing: an empty world.
    fn scene(&self) -> (w: World)
        ensures
            w.shapes@.len() == 0,
            w.lighting@.len() == 0,
    {
        World { shapes: Vec::new(), lighting: Vec::new() }
    }
}

impl Screen for MenuScreen {
    /// Dispatch one input to the inner screen currently shown.
    fn tick(&mut self, input: Option<Input>) -> (r: Transition)
        ensures
            input is None ==> r is Stay && *final(self) == *old(self),
            old(self).subscreen matches Subscreens::Options(o) ==> (input matches Some(i) ==> (r
                is Stay && *final(self) == tick_opt_spec(*old(self), i, o))),
            old(self).subscreen matches Subscreens::License(line) ==> (input matches Some(i) ==> (
            r is Stay && *final(self) == tick_license_spec(*old(self), i, line))),
            old(self).subscreen == Subscreens::HighScore ==> (input matches Some(i) ==> (r is Stay
                && *final(self) == tick_highscore_spec(*old(self), i))),
            old(self).subscreen matches Subscreens::Quit(m, q) ==> (input matches Some(i) ==> (r
                is Stay && *final(self) == tick_quit_spec(*old(self), i, m, q))),
            old(self).subscreen matches Subscreens::Menu(m) ==> (input matches Some(i) ==> (
            if i == Input::Accept && (m == Menu::NewGame || m == Menu::Continue) {
                r is ToPlay
            } else {
                r is Stay
            })),
    {
        match input {
            Some(i) => {
                let sub = self.subscreen;
                match sub {
                    Subscreens::Menu(m) => {
                        match self.tick_menu(i, m) {
                            Some(p) => Transition::ToPlay(p),
                            None => Transition::Stay,
                        }
                    },
                    Subscreens::Options(o) => {
                        self.tick_opt(i, o);
                        Transition::Stay
                    },
                    Subscreens::License(line) => {
                        self.tick_license(i, line);
                        Transition::Stay
                    },
                    Subscreens::HighScore => {
                        self.tick_highscore(i);
                        Transition::Stay
                    },
                    Subscreens::Quit(m, q) => {
                        self.tick_quit(i, m, q);
                        Transition::Stay
                    },
                }
            },
            None => Transition::Stay,
        }
    }
}

} // verus!
