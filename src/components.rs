//! Grid cells, directions and the kinds of entity that live on the grid.

use vstd::prelude::*;

verus! {

/// One cell of the integer grid.
#[derive(Debug, Clone, Copy, PartialEq, Eq, Structural)]
pub struct Position {
    pub x: i32,
    pub y: i32,
}

impl Position {
    pub fn new(x: i32, y: i32) -> (r: Self)
        ensures
            r.x == x,
            r.y == y,
    {
        Self { x, y }
    }

    /// The cell offset from this one by `(x, y)`.
    pub fn add(&self, x: i32, y: i32) -> (r: Self)
        requires
            i32::MIN <= self.x + x <= i32::MAX,
            i32::MIN <= self.y + y <= i32::MAX,
        ensures
            r.x == self.x + x,
            r.y == self.y + y,
    {
        Self { x: self.x + x, y: self.y + y }
    }
}

impl Default for Position {
    fn default() -> (r: Self)
        ensures
            r == (Position { x: 0, y: 0 }),
    {
        Position { x: 0, y: 0 }
    }
}

/// The four ways a bullet can travel. `Up` lowers `y`, `Down` raises it.
#[derive(Debug, Clone, Copy, PartialEq, Eq, Structural)]
pub enum Direction {
    Up,
    Left,
    Down,
    Right,
}

/// The index of a direction: `Up` 0, `Left` 1, `Down` 2, `Right` 3.
pub open spec fn index_of(d: Direction) -> int {
    match d {
        Direction::Up => 0,
        Direction::Left => 1,
        Direction::Down => 2,
        Direction::Right => 3,
    }
}

/// The direction with a given index in `0..4`.
pub open spec fn direction_at(n: int) -> Direction {
    if n == 0 {
        Direction::Up
    } else if n == 1 {
        Direction::Left
    } else if n == 2 {
        Direction::Down
    } else {
        Direction::Right
    }
}

/// The direction that points the other way.
pub open spec fn opposite_of(d: Direction) -> Direction {
    match d {
        Direction::Up => Direction::Down,
        Direction::Left => Direction::Right,
        Direction::Down => Direction::Up,
        Direction::Right => Direction::Left,
    }
}

/// The cell one step from `p` in direction `d`.
pub open spec fn neighbor_of(d: Direction, p: Position) -> Position {
    match d {
        Direction::Up => Position { x: p.x, y: (p.y - 1) as i32 },
        Direction::Left => Position { x: (p.x - 1) as i32, y: p.y },
        Direction::Down => Position { x: p.x, y: (p.y + 1) as i32 },
        Direction::Right => Position { x: (p.x + 1) as i32, y: p.y },
    }
}

/// Whether `p` is far enough from the limits of `i32` that each neighbour exists.
pub open spec fn has_neighbors(p: Position) -> bool {
    i32::MIN < p.x < i32::MAX && i32::MIN < p.y < i32::MAX
}

impl Direction {
    /// The four directions in index order.
    pub fn all() -> (r: [Self; 4])
        ensures
            r@ == seq![Direction::Up, Direction::Left, Direction::Down, Direction::Right],
    {
        let r = [Direction::Up, Direction::Left, Direction::Down, Direction::Right];
        assert(r@ =~= seq![Direction::Up, Direction::Left, Direction::Down, Direction::Right]);
        r
    }

    pub fn from_i32(n: i32) -> (r: Self)
        requires
            0 <= n < 4,
        ensures
            r == direction_at(n as int),
            index_of(r) == n,
    {
        match n {
            0 => Direction::Up,
            1 => Direction::Left,
            2 => Direction::Down,
            _ => Direction::Right,
        }
    }

    pub fn to_i32(&self) -> (r: i32)
        ensures
            r == index_of(*self),
            0 <= r < 4,
            direction_at(r as int) == *self,
    {
        match self {
            Direction::Up => 0,
            Direction::Left => 1,
            Direction::Down => 2,
            Direction::Right => 3,
        }
    }

    pub fn opposite(&self) -> (r: Self)
        ensures
            r == opposite_of(*self),
            opposite_of(r) == *self,
    {
        match self {
            Direction::Up => Direction::Down,
            Direction::Left => Direction::Right,
            Direction::Down => Direction::Up,
            Direction::Right => Direction::Left,
        }
    }

    pub fn neighbor(&self, pos: Position) -> (r: Position)
        requires
            has_neighbors(pos),
        ensures
            r == neighbor_of(*self, pos),
    {
        match self {
            Direction::Up => pos.add(0, -1),
            Direction::Left => pos.add(-1, 0),
            Direction::Down => pos.add(0, 1),
            Direction::Right => pos.add(1, 0),
        }
    }
}

} // verus!

verus! {

/// The one entity the keyboard moves. Its footprint is three cells wide,
/// from `pos.x` to `pos.x + 2` on row `pos.y`.
#[derive(Debug, Clone, Copy, PartialEq, Eq, Structural)]
pub struct Player {
    pub pos: Position,
}

/// A moving shot. A dust bullet moves and collides like any other and is
/// only drawn differently.
#[derive(Debug, Clone, Copy, PartialEq, Eq, Structural)]
pub struct Bullet {
    pub pos: Position,
    pub dir: Direction,
    pub is_dust: bool,
}

impl Bullet {
    pub fn new(pos: Position, dir: Direction, is_dust: bool) -> (r: Self)
        ensures
            r == (Bullet { pos, dir, is_dust }),
    {
        Bullet { pos, dir, is_dust }
    }
}

/// A target waiting to be shot.
#[derive(Debug, Clone, Copy, PartialEq, Eq, Structural)]
pub struct Target {
    pub pos: Position,
}

/// Which of the two numbers on the top row a digit belongs to.
#[derive(Debug, Clone, Copy, PartialEq, Eq, Structural)]
pub enum ScoreLabel {
    Score,
    HiScore,
}

/// One visible digit of a number on the top row: the number it belongs to,
/// its slot (0 is the leftmost of eight) and the digit it shows.
#[derive(Debug, Clone, Copy, PartialEq, Eq, Structural)]
pub struct NumberType {
    pub label: ScoreLabel,
    pub slot: usize,
    pub glyph: u8,
}

} // verus!
