//! Grid geometry: the arena, points and the four headings.
use vstd::prelude::*;

verus! {

/// Width of the arena in pixels.
pub const WIDTH: i32 = 512;

/// Height of the arena in pixels.
pub const HEIGHT: i32 = 512;

/// Side of one grid cell in pixels; every position is a multiple of it.
pub const UNIT: i32 = 8;

/// A position in pixels.
#[derive(Clone, Copy, Debug, PartialEq, Eq, Structural)]
pub struct Point {
    pub x: i32,
    pub y: i32,
}

/// One of the four unit moves on the grid.
#[derive(Clone, Copy, Debug, PartialEq, Eq, Structural)]
pub enum Direction {
    Up,
    Right,
    Left,
    Down,
}

impl Direction {
    /// Horizontal displacement of one step.
    pub open spec fn dx(self) -> int {
        match self {
            Direction::Left => -(UNIT as int),
            Direction::Right => UNIT as int,
            _ => 0,
        }
    }

    /// Vertical displacement of one step (the y axis points down).
    pub open spec fn dy(self) -> int {
        match self {
            Direction::Up => -(UNIT as int),
            Direction::Down => UNIT as int,
            _ => 0,
        }
    }

    /// The displacement of one step, as `(dx, dy)`.
    pub fn delta(&self) -> (r: (i32, i32))
        ensures
            r.0 == self.dx(),
            r.1 == self.dy(),
    {
        match self {
            Direction::Up => (0, -UNIT),
            Direction::Right => (UNIT, 0),
            Direction::Left => (-UNIT, 0),
            Direction::Down => (0, UNIT),
        }
    }
}

/// `p` lies inside the arena `[0, WIDTH) x [0, HEIGHT)`.
pub open spec fn in_arena(p: Point) -> bool {
    0 <= p.x < WIDTH && 0 <= p.y < HEIGHT
}

/// Both coordinates of `p` are multiples of the grid unit.
pub open spec fn aligned(p: Point) -> bool {
    p.x % UNIT == 0 && p.y % UNIT == 0
}

/// Moving `p` one step towards `d` stays within `i32`.
pub open spec fn can_step(p: Point, d: Direction) -> bool {
    i32::MIN <= p.x + d.dx() <= i32::MAX && i32::MIN <= p.y + d.dy() <= i32::MAX
}

/// `p` moved one step towards `d`.
pub open spec fn stepped(p: Point, d: Direction) -> Point {
    Point { x: (p.x + d.dx()) as i32, y: (p.y + d.dy()) as i32 }
}

/// Moves `p` one step towards `d`.
pub fn step(p: Point, d: Direction) -> (r: Point)
    requires
        can_step(p, d),
    ensures
        r == stepped(p, d),
{
    let (dx, dy) = d.delta();
    Point { x: p.x + dx, y: p.y + dy }
}

/// Whether `p` lies inside the arena.
pub fn is_in_arena(p: Point) -> (r: bool)
    ensures
        r == in_arena(p),
{
    0 <= p.x && p.x < WIDTH && 0 <= p.y && p.y < HEIGHT
}

} // verus!
