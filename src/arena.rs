//! The fixed size of the arena, and where its cells are drawn.

use crate::components::Position;
use vstd::prelude::*;

verus! {

/// Width of the screen in pixels.
pub const SCREEN_WIDTH: i32 = 640;

/// Height of the screen in pixels.
pub const SCREEN_HEIGHT: i32 = 400;

/// Side of one grid cell in pixels.
pub const CELL_SIZE: i32 = 16;

/// Leftmost column of the playfield.
pub const X_MIN: i32 = 2;

/// Rightmost column of the playfield: three columns short of the screen's width.
pub const X_MAX: i32 = 37;

/// Top row of the playfield.
pub const Y_MIN: i32 = 2;

/// Bottom row of the playfield, where the player stands: three rows short of
/// the screen's height.
pub const Y_MAX: i32 = 22;

/// Lowest row on which a target may appear.
pub const SPAWN_Y_MAX: i32 = 15;

/// Column at which the player starts a game.
pub const PLAYER_START_X: i32 = 18;

/// Column of the leftmost digit of the best score.
pub const HI_SCORE_X: i32 = 18;

/// Column of the leftmost digit of the score.
pub const SCORE_X: i32 = 32;

/// The pixel at which the top left corner of cell `p` is drawn: columns grow
/// to the right, rows grow downward from the top of the screen.
pub open spec fn pixel_of(p: Position) -> (int, int) {
    (p.x * CELL_SIZE, SCREEN_HEIGHT - p.y * CELL_SIZE)
}

pub fn position_to_pixel(p: Position) -> (r: (i64, i64))
    ensures
        r.0 == pixel_of(p).0,
        r.1 == pixel_of(p).1,
{
    (p.x as i64 * CELL_SIZE as i64, SCREEN_HEIGHT as i64 - p.y as i64 * CELL_SIZE as i64)
}

/// The wall cells, row by row from the top: the left wall's cell and the right
/// wall's cell of each row `1..=Y_MAX`, then the top wall's columns `1..=X_MAX`
/// on row 1.
pub open spec fn walls() -> Seq<Position> {
    Seq::new(
        (2 * Y_MAX) as nat,
        |k: int| Position { x: (if k % 2 == 0 { 1 } else { X_MAX + 1 }) as i32, y: (k / 2 + 1) as i32 },
    ) + Seq::new(X_MAX as nat, |k: int| Position { x: (k + 1) as i32, y: 1 })
}

/// The strip below the playfield, from two columns left of `X_MIN` to two
/// columns right of `X_MAX`, on row `Y_MAX + 1`.
pub open spec fn back_strip() -> Seq<Position> {
    Seq::new((X_MAX - X_MIN + 5) as nat, |k: int| Position { x: (X_MIN - 2 + k) as i32, y: (Y_MAX + 1) as i32 })
}

pub fn wall_cells() -> (r: Vec<Position>)
    ensures
        r@ == walls(),
{
    let mut r: Vec<Position> = Vec::new();
    let mut y: i32 = 1;
    while y <= Y_MAX
        invariant
            1 <= y <= Y_MAX + 1,
            r@ == walls().subrange(0, 2 * (y - 1)),
        decreases Y_MAX + 1 - y,
    {
        r.push(Position::new(1, y));
        r.push(Position::new(X_MAX + 1, y));
        y += 1;
        assert(r@ =~= walls().subrange(0, 2 * (y - 1)));
    }
    let mut x: i32 = 1;
    while x < X_MAX + 1
        invariant
            1 <= x <= X_MAX + 1,
            r@ == walls().subrange(0, 2 * Y_MAX + x - 1),
        decreases X_MAX + 1 - x,
    {
        r.push(Position::new(x, 1));
        x += 1;
        assert(r@ =~= walls().subrange(0, 2 * Y_MAX + x - 1));
    }
    assert(r@ =~= walls());
    r
}

pub fn back_cells() -> (r: Vec<Position>)
    ensures
        r@ == back_strip(),
{
    let mut r: Vec<Position> = Vec::new();
    let mut i: i32 = X_MIN - 2;
    while i <= X_MAX + 2
        invariant
            X_MIN - 2 <= i <= X_MAX + 3,
            r@ == back_strip().subrange(0, i - (X_MIN - 2)),
        decreases X_MAX + 3 - i,
    {
        r.push(Position::new(i, Y_MAX + 1));
        i += 1;
        assert(r@ =~= back_strip().subrange(0, i - (X_MIN - 2)));
    }
    assert(r@ =~= back_strip());
    r
}

/// The cell of the title's top left corner, above the wall.
pub fn title_cell() -> (r: Position)
    ensures
        r == (Position { x: 1, y: 0 }),
{
    Position::new(1, 0)
}

} // verus!
