//! The maze: a grid of wall cells, carved by a pseudo-random walk.

use vstd::prelude::*;
use crate::direction::{Direction, LeftRight, UpDown, lr_int, ud_int};

verus! {

/// A cell coordinate: `x` is the row, `y` the column.
#[derive(Clone, Copy, PartialEq, Eq, Structural, Debug)]
pub struct Point {
    pub x: usize,
    pub y: usize,
}

/// One coordinate moved by a signed unit step. A step below zero wraps to
/// `usize::MAX`, which no grid contains, so a lookup at such a point
/// misses.
pub open spec fn step_coord(x: int, d: int) -> int {
    if d < 0 {
        if x == 0 {
            usize::MAX as int
        } else {
            x - 1
        }
    } else if d > 0 {
        x + 1
    } else {
        x
    }
}

impl Point {
    /// The neighboring point one step in a direction: the vertical part
    /// moves `x`, the horizontal part moves `y`.
    pub fn neighbor(&self, d: Direction) -> (r: Point)
        requires
            self.x <= 0x7fff_fffe,
            self.y <= 0x7fff_fffe,
        ensures
            r.x == step_coord(self.x as int, ud_int(d.1)),
            r.y == step_coord(self.y as int, lr_int(d.0)),
    {
        let dx = d.1.as_int();
        let dy = d.0.as_int();
        let x: usize = if dx < 0 {
            if self.x == 0 {
                usize::MAX
            } else {
                self.x - 1
            }
        } else if dx > 0 {
            self.x + 1
        } else {
            self.x
        };
        let y: usize = if dy < 0 {
            if self.y == 0 {
                usize::MAX
            } else {
                self.y - 1
            }
        } else if dy > 0 {
            self.y + 1
        } else {
            self.y
        };
        Point { x, y }
    }
}

/// A rectangular grid of boolean cells, row-major: `cells[x][y]` with
/// `x` below `height` and `y` below `width`.
pub struct Field {
    pub cells: Vec<Vec<bool>>,
    pub height: usize,
    pub width: usize,
}

pub open spec fn field_wf(f: Field) -> bool {
    &&& f.cells@.len() == f.height
    &&& forall|i: int| 0 <= i < f.height ==> (#[trigger] f.cells@[i])@.len() == f.width
    &&& f.width <= 0xffff
    &&& f.height <= 0xffff
}

/// The cell at a point, or `def` outside the grid.
pub open spec fn get_or_spec(f: Field, p: Point, def: bool) -> bool {
    if p.x < f.height && p.y < f.width {
        f.cells@[p.x as int]@[p.y as int]
    } else {
        def
    }
}

impl Field {
    /// A field of the given size with every cell set to `default`. Either
    /// side may hold at most 65535 cells.
    pub fn new(width: usize, height: usize, default: bool) -> (r: Field)
        requires
            width <= 0xffff,
            height <= 0xffff,
        ensures
            field_wf(r),
            r.width == width,
            r.height == height,
            forall|p: Point| get_or_spec(r, p, default) == default,
    {
        let mut cells: Vec<Vec<bool>> = Vec::new();
        let mut i: usize = 0;
        while i < height
            invariant
                i <= height,
                cells@.len() == i,
                forall|j: int|
                    0 <= j < i ==> (#[trigger] cells@[j])@.len() == width && forall|k: int|
                        0 <= k < width ==> cells@[j]@[k] == default,
            decreases height - i,
        {
            let mut row: Vec<bool> = Vec::new();
            let mut k: usize = 0;
            while k < width
                invariant
                    k <= width,
                    row@.len() == k,
                    forall|m: int| 0 <= m < k ==> #[trigger] row@[m] == default,
                decreases width - k,
            {
                row.push(default);
                k = k + 1;
            }
            cells.push(row);
            i = i + 1;
        }
        Field { cells, height, width }
    }

    pub fn width(&self) -> (r: usize)
        ensures
            r == self.width,
    {
        self.width
    }

    pub fn height(&self) -> (r: usize)
        ensures
            r == self.height,
    {
        self.height
    }

    /// The cell at a point, or `None` outside the grid.
    pub fn get(&self, p: Point) -> (r: Option<bool>)
        requires
            field_wf(*self),
        ensures
            p.x < self.height && p.y < self.width ==> r == Some(
                self.cells@[p.x as int]@[p.y as int],
            ),
            !(p.x < self.height && p.y < self.width) ==> r is None,
    {
        if p.x < self.height && p.y < self.width {
            Some(self.cells[p.x][p.y])
        } else {
            None
        }
    }

    /// The cell at a point, with a default for points outside the grid.
    pub fn get_or(&self, p: Point, def: bool) -> (r: bool)
        requires
            field_wf(*self),
        ensures
            r == get_or_spec(*self, p, def),
    {
        if p.x < self.height && p.y < self.width {
            self.cells[p.x][p.y]
        } else {
            def
        }
    }

    /// The cell at a point that lies inside the grid.
    pub fn at(&self, p: Point) -> (r: bool)
        requires
            field_wf(*self),
            p.x < self.height,
            p.y < self.width,
        ensures
            r == self.cells@[p.x as int]@[p.y as int],
    {
        self.cells[p.x][p.y]
    }

    /// Write the cell at a point that lies inside the grid.
    pub fn set(&mut self, p: Point, v: bool)
        requires
            field_wf(*old(self)),
            p.x < old(self).height,
            p.y < old(self).width,
        ensures
            field_wf(*final(self)),
            final(self).width == old(self).width,
            final(self).height == old(self).height,
            forall|q: Point, def: bool|
                get_or_spec(*final(self), q, def) == (if q.x == p.x && q.y == p.y {
                    v
                } else {
                    get_or_spec(*old(self), q, def)
                }),
    {
        self.cells[p.x][p.y] = v;
    }
}

/// The nine directions around a point, in the order the neighborhood
/// filter visits them: columns left to right, each top to bottom.
pub open spec fn around_dirs() -> Seq<Direction> {
    seq![
        Direction(LeftRight::Left, UpDown::Up),
        Direction(LeftRight::Left, UpDown::Middle),
        Direction(LeftRight::Left, UpDown::Down),
        Direction(LeftRight::Middle, UpDown::Up),
        Direction(LeftRight::Middle, UpDown::Middle),
        Direction(LeftRight::Middle, UpDown::Down),
        Direction(LeftRight::Right, UpDown::Up),
        Direction(LeftRight::Right, UpDown::Middle),
        Direction(LeftRight::Right, UpDown::Down),
    ]
}

/// The neighbor a point has in a direction.
pub open spec fn neighbor_spec(p: Point, d: Direction) -> Point {
    Point {
        x: step_coord(p.x as int, ud_int(d.1)) as usize,
        y: step_coord(p.y as int, lr_int(d.0)) as usize,
    }
}

/// The neighbors reached by the first `n` of the nine directions whose
/// cell, read with `def` outside the grid, equals `req`; each paired with
/// its direction, in visiting order. The point itself is among the nine.
pub open spec fn filter_upto(f: Field, def: bool, req: bool, p: Point, n: int) -> Seq<
    (Point, Direction),
>
    decreases n,
{
    if n <= 0 {
        Seq::empty()
    } else {
        let d = around_dirs()[n - 1];
        let q = neighbor_spec(p, d);
        let rest = filter_upto(f, def, req, p, n - 1);
        if get_or_spec(f, q, def) == req {
            rest.push((q, d))
        } else {
            rest
        }
    }
}

/// The whole filtered neighborhood of a point.
pub open spec fn filter_around_spec(f: Field, def: bool, req: bool, p: Point) -> Seq<
    (Point, Direction),
> {
    filter_upto(f, def, req, p, 9)
}

/// When the default differs from the requested value, every filtered
/// neighbor lies inside the grid.
pub proof fn lemma_filter_entries_in_bounds(f: Field, def: bool, req: bool, p: Point, n: int)
    requires
        def != req,
    ensures
        forall|k: int|
            0 <= k < filter_upto(f, def, req, p, n).len() ==> {
                let q = (#[trigger] filter_upto(f, def, req, p, n)[k]).0;
                q.x < f.height && q.y < f.width
            },
    decreases n,
{
    if n > 0 {
        lemma_filter_entries_in_bounds(f, def, req, p, n - 1);
        let s = filter_upto(f, def, req, p, n);
        let rest = filter_upto(f, def, req, p, n - 1);
        assert forall|k: int|
            0 <= k < s.len() implies ((#[trigger] s[k]).0.x < f.height && s[k].0.y
            < f.width) by {
            if k < rest.len() {
                assert(s[k] == rest[k]);
            }
        }
    }
}

impl Field {
    /// The neighbors of a point (the point itself included) whose cell,
    /// read with `def` outside the grid, equals `req`, each paired with
    /// the direction that reaches it.
    pub fn filter_around(&self, def: bool, req: bool, p: &Point) -> (r: Vec<(Point, Direction)>)
        requires
            field_wf(*self),
            p.x <= 0x7fff_fffe,
            p.y <= 0x7fff_fffe,
        ensures
            r@ == filter_around_spec(*self, def, req, *p),
    {
        let mut ds: Vec<Direction> = Vec::new();
        ds.push(Direction(LeftRight::Left, UpDown::Up));
        ds.push(Direction(LeftRight::Left, UpDown::Middle));
        ds.push(Direction(LeftRight::Left, UpDown::Down));
        ds.push(Direction(LeftRight::Middle, UpDown::Up));
        ds.push(Direction(LeftRight::Middle, UpDown::Middle));
        ds.push(Direction(LeftRight::Middle, UpDown::Down));
        ds.push(Direction(LeftRight::Right, UpDown::Up));
        ds.push(Direction(LeftRight::Right, UpDown::Middle));
        ds.push(Direction(LeftRight::Right, UpDown::Down));
        proof {
            assert(ds@ =~= around_dirs());
        }
        let mut r: Vec<(Point, Direction)> = Vec::new();
        let mut i: usize = 0;
        while i < 9
            invariant
                field_wf(*self),
                p.x <= 0x7fff_fffe,
                p.y <= 0x7fff_fffe,
                ds@ == around_dirs(),
                i <= 9,
                r@ == filter_upto(*self, def, req, *p, i as int),
            decreases 9 - i,
        {
            let d = ds[i];
            let q = p.neighbor(d);
            if self.get_or(q, def) == req {
                r.push((q, d));
            }
            i = i + 1;
        }
        r
    }

    /// The box-drawing character for a wall cell, chosen from the four
    /// neighboring cells; `'.'` for an empty cell, `'#'` for a wall with
    /// no wall neighbor.
    pub open spec fn wall_char_spec(f: Field, p: Point) -> char {
        let left = p.y > 0 && get_or_spec(
            f,
            Point { x: p.x, y: (p.y - 1) as usize },
            false,
        );
        let up = p.x > 0 && get_or_spec(f, Point { x: (p.x - 1) as usize, y: p.y }, false);
        let right = get_or_spec(f, Point { x: p.x, y: (p.y + 1) as usize }, false);
        let down = get_or_spec(f, Point { x: (p.x + 1) as usize, y: p.y }, false);
        if !f.cells@[p.x as int]@[p.y as int] {
            '.'
        } else if left {
            if up {
                if right {
                    if down {
                        'n'
                    } else {
                        'w'
                    }
                } else if down {
                    'u'
                } else {
                    'k'
                }
            } else if right {
                if down {
                    'v'
                } else {
                    'q'
                }
            } else if down {
                'j'
            } else {
                'q'
            }
        } else if up {
            if right {
                if down {
                    't'
                } else {
                    'l'
                }
            } else if down {
                'x'
            } else {
                'x'
            }
        } else if right {
            if down {
                'm'
            } else {
                'q'
            }
        } else if down {
            'x'
        } else {
            '#'
        }
    }

    /// The box-drawing character for a cell (see `wall_char_spec`).
    pub fn get_wall_character(&self, p: Point) -> (r: char)
        requires
            field_wf(*self),
            p.x < self.height,
            p.y < self.width,
        ensures
            r == Field::wall_char_spec(*self, p),
    {
        let left = p.y > 0 && self.get_or(Point { x: p.x, y: p.y - 1 }, false);
        let up = p.x > 0 && self.get_or(Point { x: p.x - 1, y: p.y }, false);
        let right = self.get_or(Point { x: p.x, y: p.y + 1 }, false);
        let down = self.get_or(Point { x: p.x + 1, y: p.y }, false);
        if !self.at(p) {
            '.'
        } else if left {
            if up {
                if right {
                    if down {
                        'n'
                    } else {
                        'w'
                    }
                } else if down {
                    'u'
                } else {
                    'k'
                }
            } else if right {
                if down {
                    'v'
                } else {
                    'q'
                }
            } else if down {
                'j'
            } else {
                'q'
            }
        } else if up {
            if right {
                if down {
                    't'
                } else {
                    'l'
                }
            } else if down {
                'x'
            } else {
                'x'
            }
        } else if right {
            if down {
                'm'
            } else {
                'q'
            }
        } else if down {
            'x'
        } else {
            '#'
        }
    }
}

/// The maze: a field of wall cells (`true` is wall) carved by a
/// pseudo-random walk.
pub struct Labyrinth(pub Field);

pub open spec fn laby_wf(l: Labyrinth) -> bool {
    field_wf(l.0) && l.0.width >= 2 && l.0.height >= 2
}

/// Every in-grid cell of the field holds `v`.
pub open spec fn all_cells(f: Field, v: bool) -> bool {
    forall|i: int, j: int|
        0 <= i < f.height && 0 <= j < f.width ==> (#[trigger] f.cells@[i]@[j]) == v
}

/// The walk's starting cell (1, 1) is carved open.
pub open spec fn start_open(f: Field) -> bool {
    get_or_spec(f, Point { x: 1, y: 1 }, true) == false
}

/// On a grid of nothing but walls with both sides at least 3, the
/// starting cell (1, 1) has no empty neighbor, so it is not essential:
/// the walk may carve it.
proof fn lemma_start_not_essential(l: Labyrinth)
    requires
        field_wf(l.0),
        l.0.height >= 3,
        l.0.width >= 3,
        all_cells(l.0, true),
    ensures
        !essential_spec(l, Point { x: 1, y: 1 }),
{
    let f = l.0;
    let p = Point { x: 1, y: 1 };
    assert forall|d: Direction| get_or_spec(f, #[trigger] neighbor_spec(p, d), false)
        == true by {
        let q = neighbor_spec(p, d);
        assert(0 <= q.x < 3 && 0 <= q.y < 3);
        assert(f.cells@[q.x as int]@[q.y as int] == true);
    }
    assert(filter_upto(f, false, false, p, 0) =~= Seq::<(Point, Direction)>::empty());
    assert(filter_upto(f, false, false, p, 1) =~= Seq::<(Point, Direction)>::empty());
    assert(filter_upto(f, false, false, p, 2) =~= Seq::<(Point, Direction)>::empty());
    assert(filter_upto(f, false, false, p, 3) =~= Seq::<(Point, Direction)>::empty());
    assert(filter_upto(f, false, false, p, 4) =~= Seq::<(Point, Direction)>::empty());
    assert(filter_upto(f, false, false, p, 5) =~= Seq::<(Point, Direction)>::empty());
    assert(filter_upto(f, false, false, p, 6) =~= Seq::<(Point, Direction)>::empty());
    assert(filter_upto(f, false, false, p, 7) =~= Seq::<(Point, Direction)>::empty());
    assert(filter_upto(f, false, false, p, 8) =~= Seq::<(Point, Direction)>::empty());
    assert(filter_upto(f, false, false, p, 9) =~= Seq::<(Point, Direction)>::empty());
    assert(empty_neighbors_spec(l, p).len() == 0);
}

/// The directions of the empty neighbors around a point: cells that read
/// empty, with outside-the-grid treated as empty.
pub open spec fn empty_neighbors_spec(l: Labyrinth, p: Point) -> Seq<Direction> {
    filter_around_spec(l.0, false, false, p).map_values(|t: (Point, Direction)| t.1)
}

/// Directions among the first `n` whose horizontal part is `h`.
pub open spec fn count_lr(s: Seq<Direction>, h: LeftRight, n: int) -> int
    decreases n,
{
    if n <= 0 {
        0
    } else {
        count_lr(s, h, n - 1) + if s[n - 1].0 == h {
            1int
        } else {
            0int
        }
    }
}

/// Directions among the first `n` whose vertical part is `v`.
pub open spec fn count_ud(s: Seq<Direction>, v: UpDown, n: int) -> int
    decreases n,
{
    if n <= 0 {
        0
    } else {
        count_ud(s, v, n - 1) + if s[n - 1].1 == v {
            1int
        } else {
            0int
        }
    }
}

/// A cell the walk must not carve: its empty neighbors do not all lie to
/// one side of it, and it separates empty cells on opposite sides (or an
/// orthogonally and a diagonally empty one), so carving it would join two
/// passages.
pub open spec fn essential_spec(l: Labyrinth, p: Point) -> bool {
    let en = empty_neighbors_spec(l, p);
    let n = en.len() as int;
    let all_left = count_lr(en, LeftRight::Left, n) == n;
    let all_right = count_lr(en, LeftRight::Right, n) == n;
    let all_up = count_ud(en, UpDown::Up, n) == n;
    let all_down = count_ud(en, UpDown::Down, n) == n;
    let any_left = count_lr(en, LeftRight::Left, n) > 0;
    let any_right = count_lr(en, LeftRight::Right, n) > 0;
    let any_up = count_ud(en, UpDown::Up, n) > 0;
    let any_down = count_ud(en, UpDown::Down, n) > 0;
    let any_hmid = count_lr(en, LeftRight::Middle, n) > 0;
    let any_vmid = count_ud(en, UpDown::Middle, n) > 0;
    !(all_left || all_right || all_up || all_down) && (any_left && any_right || any_up && any_down
        || any_hmid && any_vmid)
}

impl Labyrinth {
    /// The directions of the empty neighbors around a point.
    pub fn empty_neighbors(&self, p: &Point) -> (r: Vec<Direction>)
        requires
            laby_wf(*self),
            p.x <= 0x7fff_fffe,
            p.y <= 0x7fff_fffe,
        ensures
            r@ == empty_neighbors_spec(*self, *p),
    {
        let found = self.0.filter_around(false, false, p);
        let mut r: Vec<Direction> = Vec::new();
        let mut i: usize = 0;
        while i < found.len()
            invariant
                i <= found.len(),
                found@ == filter_around_spec(self.0, false, false, *p),
                r@ == found@.map_values(|t: (Point, Direction)| t.1).take(i as int),
            decreases found.len() - i,
        {
            let entry = found[i];
            r.push(entry.1);
            i = i + 1;
            proof {
                assert(r@ =~= found@.map_values(|t: (Point, Direction)| t.1).take(i as int));
            }
        }
        proof {
            assert(r@ =~= empty_neighbors_spec(*self, *p));
        }
        r
    }

    /// Whether a cell must stay a wall (see `essential_spec`).
    pub fn essential_cell(&self, p: &Point) -> (r: bool)
        requires
            laby_wf(*self),
            p.x <= 0x7fff_fffe,
            p.y <= 0x7fff_fffe,
        ensures
            r == essential_spec(*self, *p),
    {
        let en = self.empty_neighbors(p);
        let mut n_left: usize = 0;
        let mut n_right: usize = 0;
        let mut n_hmid: usize = 0;
        let mut n_up: usize = 0;
        let mut n_down: usize = 0;
        let mut n_vmid: usize = 0;
        let mut i: usize = 0;
        while i < en.len()
            invariant
                i <= en.len(),
                en@ == empty_neighbors_spec(*self, *p),
                n_left == count_lr(en@, LeftRight::Left, i as int),
                n_right == count_lr(en@, LeftRight::Right, i as int),
                n_hmid == count_lr(en@, LeftRight::Middle, i as int),
                n_up == count_ud(en@, UpDown::Up, i as int),
                n_down == count_ud(en@, UpDown::Down, i as int),
                n_vmid == count_ud(en@, UpDown::Middle, i as int),
                n_left <= i && n_right <= i && n_hmid <= i && n_up <= i && n_down <= i && n_vmid
                    <= i,
            decreases en.len() - i,
        {
            let d = en[i];
            match d.0 {
                LeftRight::Left => {
                    n_left = n_left + 1;
                },
                LeftRight::Middle => {
                    n_hmid = n_hmid + 1;
                },
                LeftRight::Right => {
                    n_right = n_right + 1;
                },
            }
            match d.1 {
                UpDown::Up => {
                    n_up = n_up + 1;
                },
                UpDown::Middle => {
                    n_vmid = n_vmid + 1;
                },
                UpDown::Down => {
                    n_down = n_down + 1;
                },
            }
            i = i + 1;
        }
        let n = en.len();
        let all_one_side = n_left == n || n_right == n || n_up == n || n_down == n;
        let separates = (n_left > 0 && n_right > 0) || (n_up > 0 && n_down > 0) || (n_hmid > 0
            && n_vmid > 0);
        !all_one_side && separates
    }

    /// A maze of the given size, all walls carved by the seeded walk.
    /// Both sides must be at least 2 (the walk starts at cell (1, 1)) and
    /// at most 65535. With both sides at least 3 the starting cell has
    /// its whole neighborhood inside the grid, the walk's first step
    /// carves it, and the maze comes back with cell (1, 1) open.
    pub fn new(width: usize, height: usize, seed: u16) -> (r: Labyrinth)
        requires
            2 <= width <= 0xffff,
            2 <= height <= 0xffff,
        ensures
            laby_wf(r),
            r.0.width == width,
            r.0.height == height,
            3 <= width && 3 <= height ==> start_open(r.0),
    {
        let mut v = Labyrinth(Field::new(width, height, true));
        proof {
            assert forall|i: int, j: int|
                0 <= i < v.0.height && 0 <= j < v.0.width implies (#[trigger] v.0.cells@[i]@[j])
                == true by {
                assert(get_or_spec(v.0, Point { x: i as usize, y: j as usize }, true) == true);
            }
        }
        v.fill_labyrinth(seed);
        v
    }

    /// Carve passages with a seeded depth-first walk over the wall grid:
    /// cells are carved only where `essential_spec` forbids joining two
    /// passages, the walk turns by a congruential pseudo-random rule, and
    /// unvisited wall neighbors are queued for later runs. The fuel bounds
    /// both loops far beyond the number of steps a grid of this size can
    /// demand, so the walk visibly terminates.
    fn fill_labyrinth(&mut self, seed: u16)
        requires
            laby_wf(*old(self)),
        ensures
            laby_wf(*final(self)),
            final(self).0.width == old(self).0.width,
            final(self).0.height == old(self).0.height,
            3 <= old(self).0.height && 3 <= old(self).0.width && all_cells(old(self).0, true)
                ==> start_open(final(self).0),
    {
        let w = self.0.width();
        let h = self.0.height();
        let mut visited = Field::new(w, h, false);
        let mut stack: Vec<Point> = Vec::new();
        stack.push(Point { x: 1, y: 1 });
        let mut dir = Direction(LeftRight::Middle, UpDown::Up);
        let mut prng: u16 = 0;
        let mut total: u32 = 0;
        proof {
            assert(0 <= 20 * (w as int) * (h as int) <= 0x50_0000_0000_0000int)
                by (nonlinear_arith)
                requires
                    0 <= w <= 0xffff,
                    0 <= h <= 0xffff,
            ;
        }
        let mut fuel: u64 = 20 * (w as u64) * (h as u64) + 100;
        proof {
            assert(stack@ =~= seq![Point { x: 1, y: 1 }]);
            assert forall|i: int, j: int|
                0 <= i < visited.height && 0 <= j < visited.width implies (
            #[trigger] visited.cells@[i]@[j]) == false by {
                assert(get_or_spec(visited, Point { x: i as usize, y: j as usize }, false)
                    == false);
            }
        }
        while stack.len() > 0 && fuel > 0
            invariant
                3 <= h && 3 <= w && all_cells(old(self).0, true) ==> (start_open(self.0) || (
                all_cells(self.0, true) && all_cells(visited, false) && stack@ == seq![
                    Point { x: 1, y: 1 },
                ] && fuel >= 2)),
                field_wf(visited),
                visited.width == w,
                visited.height == h,
                field_wf(self.0),
                self.0.width == w,
                self.0.height == h,
                2 <= w <= 0xffff,
                2 <= h <= 0xffff,
                forall|k: int|
                    0 <= k < stack@.len() ==> (#[trigger] stack@[k]).x < h && stack@[k].y < w,
            decreases fuel,
        {
            fuel = fuel - 1;
            let ghost fuel0 = fuel;
            let mut curr = stack.remove(0);
            let mut walking = true;
            while walking && fuel > 0
                invariant
                    3 <= h && 3 <= w && all_cells(old(self).0, true) ==> (start_open(self.0)
                        || (walking && fuel >= 1 && all_cells(self.0, true) && all_cells(
                        visited,
                        false,
                    ) && curr == (Point { x: 1, y: 1 }))),
                    fuel <= fuel0,
                    field_wf(visited),
                    visited.width == w,
                    visited.height == h,
                    field_wf(self.0),
                    self.0.width == w,
                    self.0.height == h,
                    2 <= w <= 0xffff,
                    2 <= h <= 0xffff,
                    curr.x < h,
                    curr.y < w,
                    forall|k: int|
                        0 <= k < stack@.len() ==> (#[trigger] stack@[k]).x < h && stack@[k].y
                            < w,
                decreases fuel,
            {
                fuel = fuel - 1;
                if visited.at(curr) {
                    walking = false;
                } else {
                    visited.set(curr, true);
                    let essential = self.essential_cell(&curr);
                    proof {
                        if 3 <= h && 3 <= w && all_cells(self.0, true) && curr == (Point {
                            x: 1,
                            y: 1,
                        }) {
                            lemma_start_not_essential(*self);
                        }
                    }
                    if essential {
                        walking = false;
                    } else {
                        total = if total < 0xffff_ffff {
                            total + 1
                        } else {
                            total
                        };
                        self.0.set(curr, false);
                        let around = visited.filter_around(true, false, &curr);
                        proof {
                            lemma_filter_entries_in_bounds(visited, true, false, curr, 9);
                        }
                        let mut ai: usize = 0;
                        while ai < around.len()
                            invariant
                                ai <= around.len(),
                                visited.width == w,
                                visited.height == h,
                                forall|k: int|
                                    0 <= k < around@.len() ==> {
                                        let q = (#[trigger] around@[k]).0;
                                        q.x < h && q.y < w
                                    },
                                forall|k: int|
                                    0 <= k < stack@.len() ==> (#[trigger] stack@[k]).x < h
                                        && stack@[k].y < w,
                            decreases around.len() - ai,
                        {
                            let entry = around[ai];
                            if entry.1.1 == UpDown::Middle || entry.1.0 == LeftRight::Middle {
                                stack.push(entry.0);
                            }
                            ai = ai + 1;
                        }
                        proof {
                            assert((prng as int) * 770 * ((seed as int) * 2 + 1)
                                < 0x1_0000_0000_0000_0000int) by (nonlinear_arith)
                                requires
                                    0 <= prng < 0x1_0000,
                                    0 <= seed < 0x1_0000,
                            ;
                            assert((prng as int) * 770 * ((seed as int) * 2 + 1) >= 0)
                                by (nonlinear_arith)
                                requires
                                    0 <= prng,
                                    0 <= seed,
                            ;
                        }
                        let prng_in: u16 = (((prng as u64) * 770 * ((seed as u64) * 2 + 1))
                            % 65536) as u16;
                        proof {
                            assert(0 <= (total as int) * (prng_in as int)
                                < 0x1_0000_0000_0000_0000int && 0 <= (total as int) * (((
                            prng_in as int) % 2) * 2 + 1) < 0x1_0000_0000_0000_0000int)
                                by (nonlinear_arith)
                                requires
                                    0 <= total < 0x1_0000_0000,
                                    0 <= prng_in < 0x1_0000,
                            ;
                        }
                        let cw_turn: bool = (((total as u64) * (prng_in as u64)) % 65536)
                            > 32768;
                        let reps: u64 = ((total as u64) * (((prng_in as u64) % 2) * 2 + 1)) % 4;
                        let mut rep: u64 = 0;
                        while rep < reps
                            invariant
                                rep <= reps <= 3,
                            decreases reps - rep,
                        {
                            dir = Labyrinth::turn(dir, cw_turn);
                            rep = rep + 1;
                        }
                        prng = if prng == 0xffff {
                            0
                        } else {
                            prng + 1
                        };
                        let mut tries: usize = 0;
                        let mut advanced = false;
                        while tries < 4 && !advanced
                            invariant
                                field_wf(visited),
                                visited.width == w,
                                visited.height == h,
                                field_wf(self.0),
                                self.0.width == w,
                                self.0.height == h,
                                2 <= w <= 0xffff,
                                2 <= h <= 0xffff,
                                tries <= 4,
                                curr.x < h,
                                curr.y < w,
                            decreases 4 - tries,
                        {
                            let cp = curr.neighbor(dir);
                            let mut stepped = false;
                            if self.0.get_or(cp, false) {
                                if !visited.at(cp) {
                                    let ess = self.essential_cell(&cp);
                                    if !ess {
                                        curr = cp;
                                        advanced = true;
                                        stepped = true;
                                    }
                                }
                            }
                            if !stepped {
                                dir = Labyrinth::turn(dir, cw_turn);
                            }
                            tries = tries + 1;
                        }
                        if !advanced {
                            walking = false;
                        }
                    }
                }
            }
        }
    }

    /// A quarter turn of the walk's direction, the way the pseudo-random
    /// rule chose: two eighth turns clockwise or two counterclockwise.
    fn turn(d: Direction, cw_turn: bool) -> Direction {
        if cw_turn {
            d.rot_cw().rot_cw()
        } else {
            d.rot_ctr_cw().rot_ctr_cw()
        }
    }
}

} // verus!
