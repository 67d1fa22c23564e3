//! How the player and the bullets move in one tick.

use crate::arena::{X_MAX, X_MIN, Y_MAX, Y_MIN};
use crate::components::{has_neighbors, neighbor_of, Bullet, Direction, Player, Position};
use crate::world::{World, WorldView};
use vstd::prelude::*;

verus! {

/// The keys held during a tick.
#[derive(Debug, Clone, Copy, PartialEq, Eq, Structural)]
pub struct Input {
    pub left: bool,
    pub right: bool,
    pub fire: bool,
}

/// The player's cell after a tick: one column left while `left` is held and
/// the player is right of `X_MIN`, then one column right while `right` is held
/// and the footprint's right end is left of `X_MAX`.
pub open spec fn moved_player(p: Position, input: Input) -> Position {
    let x1 = if input.left && p.x > X_MIN { p.x - 1 } else { p.x as int };
    let x2 = if input.right && x1 < X_MAX - 2 { x1 + 1 } else { x1 };
    Position { x: x2 as i32, y: p.y }
}

/// The bullet fired from a player at `p`: one column right of and one row
/// above `p`, moving up.
pub open spec fn fired_from(p: Position) -> Bullet {
    Bullet { pos: Position { x: (p.x + 1) as i32, y: (p.y - 1) as i32 }, dir: Direction::Up, is_dust: false }
}

/// One tick of a bullet: a step in its direction, after which a bullet that
/// reached the side or top edge turns around, and one that moved down past
/// `Y_MAX` is gone.
pub open spec fn step(b: Bullet) -> Option<Bullet> {
    let p = neighbor_of(b.dir, b.pos);
    match b.dir {
        Direction::Left => if p.x <= X_MIN {
            Some(Bullet { pos: p, dir: Direction::Right, ..b })
        } else {
            Some(Bullet { pos: p, ..b })
        },
        Direction::Right => if p.x >= X_MAX {
            Some(Bullet { pos: p, dir: Direction::Left, ..b })
        } else {
            Some(Bullet { pos: p, ..b })
        },
        Direction::Up => if p.y <= Y_MIN {
            Some(Bullet { pos: p, dir: Direction::Down, ..b })
        } else {
            Some(Bullet { pos: p, ..b })
        },
        Direction::Down => if p.y > Y_MAX {
            None
        } else {
            Some(Bullet { pos: p, ..b })
        },
    }
}

/// `n` ticks of a bullet, `None` once it has left the arena.
pub open spec fn steps(b: Bullet, n: nat) -> Option<Bullet>
    decreases n,
{
    if n == 0 {
        Some(b)
    } else {
        match steps(b, (n - 1) as nat) {
            Some(c) => step(c),
            None => None,
        }
    }
}

/// Where a bullet can be: at most one cell beyond the side walls' inner
/// columns, at most two rows above `Y_MIN`, never below `Y_MAX`, and, if it is
/// about to step outward, not yet past the cell from which that step stays in
/// these bounds.
pub open spec fn bullet_ok(b: Bullet) -> bool {
    &&& X_MIN - 1 <= b.pos.x <= X_MAX + 1
    &&& Y_MIN - 2 <= b.pos.y <= Y_MAX
    &&& b.dir == Direction::Left ==> b.pos.x >= X_MIN
    &&& b.dir == Direction::Right ==> b.pos.x <= X_MAX
    &&& b.dir == Direction::Up ==> b.pos.y >= Y_MIN - 1
}

/// A bullet travelling along a row inside the side walls, which it keeps
/// doing: it lies in `X_MIN..=X_MAX` and still has a cell to go to.
pub open spec fn in_columns(b: Bullet) -> bool {
    &&& X_MIN <= b.pos.x <= X_MAX
    &&& b.dir == Direction::Left ==> b.pos.x > X_MIN
    &&& b.dir == Direction::Right ==> b.pos.x < X_MAX
    &&& (b.dir == Direction::Left || b.dir == Direction::Right)
}

pub fn step_bullet(b: Bullet) -> (r: Option<Bullet>)
    requires
        has_neighbors(b.pos),
    ensures
        r == step(b),
{
    let pos = b.dir.neighbor(b.pos);
    match b.dir {
        Direction::Left => {
            if pos.x <= X_MIN {
                Some(Bullet { pos, dir: b.dir.opposite(), is_dust: b.is_dust })
            } else {
                Some(Bullet { pos, dir: b.dir, is_dust: b.is_dust })
            }
        },
        Direction::Right => {
            if pos.x >= X_MAX {
                Some(Bullet { pos, dir: b.dir.opposite(), is_dust: b.is_dust })
            } else {
                Some(Bullet { pos, dir: b.dir, is_dust: b.is_dust })
            }
        },
        Direction::Up => {
            if pos.y <= Y_MIN {
                Some(Bullet { pos, dir: b.dir.opposite(), is_dust: b.is_dust })
            } else {
                Some(Bullet { pos, dir: b.dir, is_dust: b.is_dust })
            }
        },
        Direction::Down => {
            if pos.y > Y_MAX {
                None
            } else {
                Some(Bullet { pos, dir: b.dir, is_dust: b.is_dust })
            }
        },
    }
}

/// The player's move for one tick, and the bullet it fires if `fire` is held.
pub fn move_player(p: Position, input: Input) -> (r: (Position, Option<Bullet>))
    requires
        i32::MIN < p.y,
        p.x < i32::MAX,
    ensures
        r.0 == moved_player(p, input),
        r.1 == (if input.fire { Some(fired_from(r.0)) } else { None::<Bullet> }),
{
    let mut x = p.x;
    if input.left && x > X_MIN {
        x = x - 1;
    }
    if input.right && x < X_MAX - 2 {
        x = x + 1;
    }
    let moved = Position::new(x, p.y);
    if input.fire {
        (moved, Some(Bullet::new(Position::new(moved.x + 1, moved.y - 1), Direction::Up, false)))
    } else {
        (moved, None)
    }
}

/// Each tick keeps a bullet within `bullet_ok`, if it stays.
pub proof fn lemma_step_keeps_bullet_ok(b: Bullet)
    requires
        bullet_ok(b),
    ensures
        has_neighbors(b.pos),
        step(b) matches Some(c) ==> bullet_ok(c),
{
}

/// A player inside the columns `X_MIN..=X_MAX - 2` stays there, whatever is held.
pub proof fn lemma_player_stays_in_arena(p: Position, input: Input)
    requires
        X_MIN <= p.x <= X_MAX - 2,
    ensures
        X_MIN <= moved_player(p, input).x <= X_MAX - 2,
        moved_player(p, input).y == p.y,
{
}

/// A bullet travelling along a row inside the side walls keeps doing so on
/// every later tick: it is never removed and never left of `X_MIN`.
pub proof fn lemma_row_bullet_stays_in_columns(b: Bullet, n: nat)
    requires
        in_columns(b),
    ensures
        steps(b, n) matches Some(c) && in_columns(c) && c.pos.y == b.pos.y && X_MIN <= c.pos.x,
    decreases n,
{
    if n > 0 {
        lemma_row_bullet_stays_in_columns(b, (n - 1) as nat);
    }
}

/// A bullet moving left from the column next to `X_MIN` reaches `X_MIN` on the
/// next tick and moves right from then on, one column a tick, until it
/// reaches `X_MAX`; it is never left of `X_MIN`.
pub proof fn lemma_left_bullet_bounces(b: Bullet, n: nat)
    requires
        b.dir == Direction::Left,
        b.pos.x == X_MIN + 1,
    ensures
        step(b) == Some(Bullet { pos: Position { x: X_MIN, y: b.pos.y }, dir: Direction::Right, ..b }),
        1 <= n <= X_MAX - X_MIN ==> steps(b, n) == Some(
            Bullet { pos: Position { x: (X_MIN + n - 1) as i32, y: b.pos.y }, dir: Direction::Right, ..b },
        ),
        steps(b, n) matches Some(c) && X_MIN <= c.pos.x,
    decreases n,
{
    reveal_with_fuel(steps, 2);
    lemma_row_bullet_stays_in_columns(b, n);
    if n > 1 {
        lemma_left_bullet_bounces(b, (n - 1) as nat);
    }
}

/// A bullet moving down from the bottom row is gone after one tick.
pub proof fn lemma_down_bullet_leaves(b: Bullet)
    requires
        b.dir == Direction::Down,
        b.pos.y == Y_MAX,
    ensures
        step(b) is None,
        steps(b, 1) is None,
{
    reveal_with_fuel(steps, 2);
}

impl WorldView {
    /// The player's move for the tick, and the bullet it fires if `fire` is held.
    pub open spec fn after_player_move(self, input: Input) -> WorldView {
        match self.player {
            Some(p) => {
                let q = moved_player(p.pos, input);
                WorldView {
                    player: Some(Player { pos: q }),
                    bullets: if input.fire { self.bullets.push(fired_from(q)) } else { self.bullets },
                    ..self
                }
            },
            None => self,
        }
    }

    /// Every bullet takes its step; those that leave the arena are gone.
    pub open spec fn after_bullet_move(self) -> WorldView {
        WorldView { bullets: self.bullets.filter_map(|b: Bullet| step(b)), ..self }
    }
}

impl World {
    /// Moves the player by the held keys and fires if `fire` is held.
    pub fn update_player(&mut self, input: Input)
        requires
            old(self)@.entities_ok(),
        ensures
            final(self)@ == old(self)@.after_player_move(input),
            final(self)@.entities_ok(),
            final(self).player matches Some(p) ==> X_MIN <= p.pos.x <= X_MAX - 2,
    {
        if let Some(p) = self.player {
            let (q, fired) = move_player(p.pos, input);
            self.player = Some(Player { pos: q });
            if let Some(b) = fired {
                self.bullets.push(b);
            }
        }
    }

    /// Moves every bullet one step, turning it at the side and top edges and
    /// taking it once it passes the bottom row.
    pub fn update_bullets(&mut self)
        requires
            old(self)@.entities_ok(),
        ensures
            final(self)@ == old(self)@.after_bullet_move(),
            final(self)@.entities_ok(),
    {
        let ghost bs = self.bullets@;
        let mut bullets: Vec<Bullet> = Vec::new();
        let mut i: usize = 0;
        while i < self.bullets.len()
            invariant
                self@ == old(self)@,
                bs == self.bullets@,
                old(self)@.entities_ok(),
                forall|k: int| 0 <= k < bs.len() ==> bullet_ok(#[trigger] bs[k]),
                i <= bs.len(),
                bullets@ == bs.subrange(0, i as int).filter_map(|b: Bullet| step(b)),
                forall|m: int| 0 <= m < bullets@.len() ==> bullet_ok(#[trigger] bullets@[m]),
            decreases bs.len() - i,
        {
            let b = self.bullets[i];
            proof {
                lemma_step_keeps_bullet_ok(b);
            }
            let moved = step_bullet(b);
            if let Some(c) = moved {
                bullets.push(c);
            }
            proof {
                let pre = bs.subrange(0, i + 1);
                assert(pre.drop_last() =~= bs.subrange(0, i as int));
                assert(pre.last() == b);
            }
            i += 1;
            assert(bullets@ =~= bs.subrange(0, i as int).filter_map(|b: Bullet| step(b)));
        }
        assert(bs.subrange(0, bs.len() as int) =~= bs);
        self.bullets = bullets;
    }
}

} // verus!
