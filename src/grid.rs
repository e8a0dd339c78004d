//! Positions and directions on the toroidal grid.
use vstd::prelude::*;

verus! {

/// A cell of the grid.
#[derive(Debug, Clone, Copy, PartialEq, Eq, Hash, Structural)]
pub struct Position {
    pub x: i32,
    pub y: i32,
}

/// One of the four moves a snake can make.
#[derive(Debug, Clone, Copy, PartialEq, Eq, Hash, Structural)]
pub enum Direction {
    Up,
    Down,
    Left,
    Right,
}

/// The direction that undoes `d`.
pub open spec fn opposite_of(d: Direction) -> Direction {
    match d {
        Direction::Up => Direction::Down,
        Direction::Down => Direction::Up,
        Direction::Left => Direction::Right,
        Direction::Right => Direction::Left,
    }
}

/// The four directions in their fixed order.
pub open spec fn all_directions() -> Seq<Direction> {
    seq![Direction::Up, Direction::Down, Direction::Left, Direction::Right]
}

/// Horizontal offset of one step in `d`.
pub open spec fn delta_x(d: Direction) -> int {
    match d {
        Direction::Left => -1,
        Direction::Right => 1,
        _ => 0,
    }
}

/// Vertical offset of one step in `d` (up is towards row 0).
pub open spec fn delta_y(d: Direction) -> int {
    match d {
        Direction::Up => -1,
        Direction::Down => 1,
        _ => 0,
    }
}

/// A coordinate after a step: past either edge it re-enters from the other.
pub open spec fn wrap(v: int, size: int) -> int {
    if v < 0 {
        size - 1
    } else if v >= size {
        0
    } else {
        v
    }
}

/// Whether `p` lies on a `w` by `h` grid.
pub open spec fn in_grid(p: Position, w: int, h: int) -> bool {
    0 <= p.x < w && 0 <= p.y < h
}

/// The cell reached from `p` by one step in `d` on a `w` by `h` torus.
pub open spec fn step(p: Position, d: Direction, w: int, h: int) -> Position {
    Position { x: wrap(p.x + delta_x(d), w) as i32, y: wrap(p.y + delta_y(d), h) as i32 }
}

/// Whether `p` can take one step without leaving the range of `i32`.
pub open spec fn steppable(p: Position) -> bool {
    i32::MIN < p.x < i32::MAX && i32::MIN < p.y < i32::MAX
}

impl Position {
    pub fn new(x: i32, y: i32) -> (r: Position)
        ensures
            r == (Position { x, y }),
    {
        Position { x, y }
    }

    /// Moves one cell in `direction`, wrapping around the grid's edges.
    pub fn move_in_direction(&self, direction: Direction, grid_width: i32, grid_height: i32) -> (r:
        Position)
        requires
            grid_width > 0,
            grid_height > 0,
            steppable(*self),
        ensures
            r == step(*self, direction, grid_width as int, grid_height as int),
    {
        let mut new_x: i32 = self.x;
        let mut new_y: i32 = self.y;
        match direction {
            Direction::Up => new_y = new_y - 1,
            Direction::Down => new_y = new_y + 1,
            Direction::Left => new_x = new_x - 1,
            Direction::Right => new_x = new_x + 1,
        }
        if new_x < 0 {
            new_x = grid_width - 1;
        } else if new_x >= grid_width {
            new_x = 0;
        }
        if new_y < 0 {
            new_y = grid_height - 1;
        } else if new_y >= grid_height {
            new_y = 0;
        }
        Position::new(new_x, new_y)
    }
}

/// A step from a cell of the grid lands on a cell of the grid, at the
/// coordinates of the plain step taken modulo the grid's size.
pub proof fn lemma_step_stays_on_grid(p: Position, d: Direction, w: int, h: int)
    requires
        in_grid(p, w, h),
        w <= i32::MAX,
        h <= i32::MAX,
    ensures
        in_grid(step(p, d, w, h), w, h),
        step(p, d, w, h).x == (p.x + delta_x(d)) % w,
        step(p, d, w, h).y == (p.y + delta_y(d)) % h,
{
    assert((p.x + delta_x(d)) == -1 ==> (p.x + delta_x(d)) % w == w - 1) by {
        if p.x + delta_x(d) == -1 {
            vstd::arithmetic::div_mod::lemma_mod_add_multiples_vanish(-1, w);
            vstd::arithmetic::div_mod::lemma_small_mod((w - 1) as nat, w as nat);
        }
    };
    assert((p.y + delta_y(d)) == -1 ==> (p.y + delta_y(d)) % h == h - 1) by {
        if p.y + delta_y(d) == -1 {
            vstd::arithmetic::div_mod::lemma_mod_add_multiples_vanish(-1, h);
            vstd::arithmetic::div_mod::lemma_small_mod((h - 1) as nat, h as nat);
        }
    };
    if p.x + delta_x(d) == w {
        vstd::arithmetic::div_mod::lemma_mod_self_0(w);
    } else if p.x + delta_x(d) >= 0 {
        vstd::arithmetic::div_mod::lemma_small_mod((p.x + delta_x(d)) as nat, w as nat);
    }
    if p.y + delta_y(d) == h {
        vstd::arithmetic::div_mod::lemma_mod_self_0(h);
    } else if p.y + delta_y(d) >= 0 {
        vstd::arithmetic::div_mod::lemma_small_mod((p.y + delta_y(d)) as nat, h as nat);
    }
}

impl Direction {
    /// The direction pointing the other way.
    pub fn opposite(&self) -> (r: Direction)
        ensures
            r == opposite_of(*self),
    {
        match self {
            Direction::Up => Direction::Down,
            Direction::Down => Direction::Up,
            Direction::Left => Direction::Right,
            Direction::Right => Direction::Left,
        }
    }

    /// All four directions: up, down, left, right.
    pub fn all() -> (r: [Direction; 4])
        ensures
            r@ == all_directions(),
    {
        let r = [Direction::Up, Direction::Down, Direction::Left, Direction::Right];
        assert(r@ =~= all_directions());
        r
    }
}

} // verus!
