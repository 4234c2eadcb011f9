use raymaze::direction::{Direction, LeftRight, UpDown};
use raymaze::game::Game;
use raymaze::labyrinth::{Field, Labyrinth, Point};
use raymaze::menu::{Menu, MenuScreen, Options, Subscreens};
use raymaze::play::PlayScreen;
use raymaze::screen::{Screen, Transition};
use raymaze::state::ProgramState;
use raymaze::tickable::{Input, Tickable};

#[test]
fn field_construction_and_lookup() {
    let mut f = Field::new(3, 4, false);
    assert_eq!(f.width(), 3);
    assert_eq!(f.height(), 4);
    assert_eq!(f.get(Point { x: 0, y: 0 }), Some(false));
    assert_eq!(f.get(Point { x: 4, y: 0 }), None);
    assert_eq!(f.get_or(Point { x: 9, y: 9 }, true), true);
    f.set(Point { x: 1, y: 2 }, true);
    assert_eq!(f.at(Point { x: 1, y: 2 }), true);
    assert_eq!(f.at(Point { x: 1, y: 1 }), false);
}

#[test]
fn wall_characters() {
    let mut f = Field::new(3, 3, false);
    // An empty cell reads as a floor dot.
    assert_eq!(f.get_wall_character(Point { x: 1, y: 1 }), '.');
    // A lone wall with no wall neighbor reads as a block.
    f.set(Point { x: 1, y: 1 }, true);
    assert_eq!(f.get_wall_character(Point { x: 1, y: 1 }), '#');
    // With a wall on each side it becomes a horizontal run.
    f.set(Point { x: 1, y: 0 }, true);
    f.set(Point { x: 1, y: 2 }, true);
    assert_eq!(f.get_wall_character(Point { x: 1, y: 1 }), 'q');
}

#[test]
fn filter_around_full_grid() {
    let f = Field::new(3, 3, false);
    // Every one of the nine surrounding cells (the center included)
    // matches `false` inside the grid.
    let found = f.filter_around(true, false, &Point { x: 1, y: 1 });
    assert_eq!(found.len(), 9);
    // At a corner, out-of-grid neighbors take the default `true` and
    // fall out of the filter.
    let corner = f.filter_around(true, false, &Point { x: 0, y: 0 });
    assert_eq!(corner.len(), 4);
}

#[test]
fn carved_labyrinth_basics() {
    let l = Labyrinth::new(9, 7, 3);
    assert_eq!(l.0.width(), 9);
    assert_eq!(l.0.height(), 7);
    // The walk always carves its starting cell.
    assert_eq!(l.0.at(Point { x: 1, y: 1 }), false);
    // A carved cell has empty neighbors; a freshly walled grid has none.
    let walls = Labyrinth(Field::new(5, 5, true));
    assert_eq!(walls.empty_neighbors(&Point { x: 2, y: 2 }).len(), 0);
    assert!(!walls.essential_cell(&Point { x: 2, y: 2 }));
}

#[test]
fn neighbor_steps() {
    let p = Point { x: 2, y: 3 };
    let up = p.neighbor(Direction(LeftRight::Middle, UpDown::Up));
    assert_eq!((up.x, up.y), (3, 3));
    let down_left = p.neighbor(Direction(LeftRight::Left, UpDown::Down));
    assert_eq!((down_left.x, down_left.y), (1, 2));
    // Stepping below zero leaves the grid entirely.
    let out = Point { x: 0, y: 0 }.neighbor(Direction(LeftRight::Left, UpDown::Middle));
    assert_eq!(out.y, usize::MAX);
}

#[test]
fn game_tick_marks_and_moves() {
    let mut g = Game::new(7, 7, 1);
    assert!(!g.is_finished());
    assert_eq!(g.playtime, 0);
    g.tick(None);
    assert_eq!(g.playtime, 1);
    assert!(g.walked.at(Point { x: 1, y: 1 }));
    // Find a carved neighbor of the start and step into it.
    let right = Point { x: 1, y: 2 };
    let down = Point { x: 2, y: 1 };
    if g.field.0.at(right) == false {
        g.tick(Some(Input::Direction(Direction(LeftRight::Right, UpDown::Middle))));
        assert_eq!((g.player.x, g.player.y), (right.x, right.y));
    } else if g.field.0.at(down) == false {
        g.tick(Some(Input::Direction(Direction(LeftRight::Middle, UpDown::Up))));
        assert_eq!((g.player.x, g.player.y), (down.x, down.y));
    }
    // A step into a wall leaves the player in place.
    let before = g.player;
    let blocked = Direction(LeftRight::Middle, UpDown::Down);
    let target = before.neighbor(blocked);
    if g.field.0.get_or(target, true) {
        g.tick(Some(Input::Direction(blocked)));
        assert_eq!((g.player.x, g.player.y), (before.x, before.y));
    }
}

#[test]
fn program_state_defaults_and_new_game() {
    let mut s = ProgramState::new();
    assert!(s.game.is_none());
    assert_eq!((s.width, s.height), (70, 30));
    assert!(s.seed.is_none());
    assert_eq!(s.score.entries.len(), 0);
    s.width = 5;
    s.height = 4;
    s.new_game();
    let g = s.game.as_ref().unwrap();
    assert_eq!(g.field.0.width(), 5);
    assert_eq!(g.field.0.height(), 4);
    assert_eq!(g.playtime, 0);
}

#[test]
fn menu_opens_on_the_right_entry() {
    let m = MenuScreen::new(ProgramState::new());
    assert_eq!(m.subscreen, Subscreens::Menu(Menu::NewGame));
    let mut s = ProgramState::new();
    s.width = 5;
    s.height = 5;
    s.new_game();
    let paused = MenuScreen::new(s);
    assert_eq!(paused.subscreen, Subscreens::Menu(Menu::Continue));
}

#[test]
fn menu_cycles_and_positions() {
    assert_eq!(Menu::NewGame.next(), Menu::Continue);
    assert_eq!(Menu::Quit.next(), Menu::NewGame);
    assert_eq!(Menu::NewGame.prev(), Menu::Quit);
    assert_eq!(Menu::Options.position(), Some(2));
    assert_eq!(Options::Width.next(), Options::Height);
    assert_eq!(Options::Seed.next(), Options::Width);
    assert_eq!(Options::Width.prev(), Options::Seed);
    assert_eq!(Options::Seed.position(), Some(2));
}

#[test]
fn menu_selection_skips_continue_without_game() {
    let mut m = MenuScreen::new(ProgramState::new());
    let down = Input::Direction(Direction(LeftRight::Middle, UpDown::Down));
    let r = m.tick_menu(down, Menu::NewGame);
    assert!(r.is_none());
    // Continue is skipped: the selection lands on Options.
    assert_eq!(m.subscreen, Subscreens::Menu(Menu::Options));
}

#[test]
fn menu_accept_opens_subscreens() {
    let mut m = MenuScreen::new(ProgramState::new());
    assert!(m.tick_menu(Input::Accept, Menu::Options).is_none());
    assert_eq!(m.subscreen, Subscreens::Options(Options::Width));
    m.tick_opt(Input::Cancel, Options::Width);
    assert_eq!(m.subscreen, Subscreens::Menu(Menu::Options));
    assert!(m.tick_menu(Input::Accept, Menu::License).is_none());
    assert_eq!(m.subscreen, Subscreens::License(0));
    m.tick_license(
        Input::Direction(Direction(LeftRight::Middle, UpDown::Down)),
        0,
    );
    assert_eq!(m.subscreen, Subscreens::License(1));
    m.tick_license(Input::Cancel, 1);
    assert_eq!(m.subscreen, Subscreens::Menu(Menu::License));
    assert!(m.tick_menu(Input::Cancel, Menu::License).is_none());
    assert_eq!(m.subscreen, Subscreens::Quit(Menu::License, false));
    m.tick_quit(
        Input::Direction(Direction(LeftRight::Middle, UpDown::Up)),
        Menu::License,
        false,
    );
    assert_eq!(m.subscreen, Subscreens::Quit(Menu::License, true));
    m.tick_quit(Input::Cancel, Menu::License, true);
    assert_eq!(m.subscreen, Subscreens::Menu(Menu::License));
}

#[test]
fn options_adjust_within_bounds() {
    let mut m = MenuScreen::new(ProgramState::new());
    let left = Input::Direction(Direction(LeftRight::Left, UpDown::Middle));
    let right = Input::Direction(Direction(LeftRight::Right, UpDown::Middle));
    m.tick_opt(left, Options::Width);
    assert_eq!(m.state.width, 69);
    m.tick_opt(right, Options::Width);
    assert_eq!(m.state.width, 70);
    m.tick_opt(left, Options::Seed);
    assert!(m.state.seed.is_none());
    m.state.seed = Some(0);
    m.tick_opt(left, Options::Seed);
    assert_eq!(m.state.seed, Some(0xffff));
    m.tick_opt(right, Options::Seed);
    assert_eq!(m.state.seed, Some(0));
    // The maze never shrinks below the workable minimum.
    m.state.width = 2;
    m.tick_opt(left, Options::Width);
    assert_eq!(m.state.width, 2);
}

#[test]
fn starting_a_game_hands_over_the_state() {
    let mut m = MenuScreen::new(ProgramState::new());
    m.state.width = 6;
    m.state.height = 5;
    let p = m.tick_menu(Input::Accept, Menu::NewGame).unwrap();
    let g = p.state.game.as_ref().unwrap();
    assert_eq!(g.field.0.width(), 6);
    assert_eq!(g.field.0.height(), 5);
    assert_eq!((p.state.width, p.state.height), (6, 5));
    // The menu keeps a reset state behind.
    assert!(m.state.game.is_none());
    assert_eq!((m.state.width, m.state.height), (70, 30));
}

#[test]
fn play_screen_returns_to_menu() {
    let mut s = ProgramState::new();
    s.width = 5;
    s.height = 5;
    s.new_game();
    let mut p = PlayScreen::new(s);
    match p.tick(Some(Input::Menu)) {
        Transition::ToMenu(m) => {
            assert!(m.state.game.is_some());
            assert_eq!(m.subscreen, Subscreens::Menu(Menu::Continue));
        },
        _ => panic!("expected a hand-over to the menu"),
    }
}

#[test]
fn menu_screen_dispatches_through_tick() {
    let mut m = MenuScreen::new(ProgramState::new());
    // No input: nothing changes.
    match m.tick(None) {
        Transition::Stay => {},
        _ => panic!("expected to stay on the menu"),
    }
    // Accepting NewGame hands over to the game view.
    match m.tick(Some(Input::Accept)) {
        Transition::ToPlay(p) => assert!(p.state.game.is_some()),
        _ => panic!("expected a hand-over to the game view"),
    }
    assert!(m.state.game.is_none());
}

#[test]
fn license_scroll_stops_at_the_ends() {
    let mut m = MenuScreen::new(ProgramState::new());
    let up = Input::Direction(Direction(LeftRight::Middle, UpDown::Up));
    let down = Input::Direction(Direction(LeftRight::Middle, UpDown::Down));
    m.tick_license(up, 0);
    assert_eq!(m.subscreen, Subscreens::License(0));
    m.tick_license(down, 0xffff);
    assert_eq!(m.subscreen, Subscreens::License(0xffff));
}

#[test]
fn labyrinth_is_deterministic() {
    // Equal size and seed give the same maze, cell for cell; the start
    // cell is open on any grid with both sides at least 3.
    let a = Labyrinth::new(9, 7, 3);
    let b = Labyrinth::new(9, 7, 3);
    for x in 0..7 {
        for y in 0..9 {
            let p = Point { x, y };
            assert_eq!(a.0.at(p), b.0.at(p));
        }
    }
    assert!(!a.0.at(Point { x: 1, y: 1 }));
    let c = Labyrinth::new(3, 3, 0xffff);
    assert!(!c.0.at(Point { x: 1, y: 1 }));
}
