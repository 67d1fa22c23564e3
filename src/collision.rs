//! The three collision passes of a tick: bullet against target, bullet
//! against bullet, and player against bullet.

use crate::components::{
    direction_at, has_neighbors, neighbor_of, opposite_of, Bullet, Direction, Player, Position, Target,
};
use crate::events::{CrashEvent, HitEvent};
use crate::movement::bullet_ok;
use crate::resources::{Game, GameState, HIT_SCORE};
use crate::world::{in_spawn_band, target_at, targets_distinct, World, WorldView, SCORE_LIMIT};
use vstd::prelude::*;

verus! {

/// The elements `s[k]` with `k < n` for which `keep(k)` holds, in order.
pub open spec fn kept_prefix<A>(s: Seq<A>, keep: spec_fn(int) -> bool, n: int) -> Seq<A>
    decreases n,
{
    if n <= 0 {
        Seq::empty()
    } else if keep(n - 1) {
        kept_prefix(s, keep, n - 1).push(s[n - 1])
    } else {
        kept_prefix(s, keep, n - 1)
    }
}

/// The elements `s[k]` for which `keep(k)` holds, in order.
pub open spec fn kept<A>(s: Seq<A>, keep: spec_fn(int) -> bool) -> Seq<A> {
    kept_prefix(s, keep, s.len() as int)
}

/// Whether a bullet is at `p`.
pub open spec fn bullet_at(bs: Seq<Bullet>, p: Position) -> bool {
    exists|k: int| 0 <= k < bs.len() && (#[trigger] bs[k]).pos == p
}

/// No bullet before `bs[i]` shares its cell.
pub open spec fn first_at(bs: Seq<Bullet>, i: int) -> bool {
    forall|k: int| 0 <= k < i ==> (#[trigger] bs[k]).pos != bs[i].pos
}

/// `bs[i]` hits a target: one stands in its cell, and no earlier bullet there
/// has taken it.
pub open spec fn hits_target(bs: Seq<Bullet>, ts: Seq<Target>, i: int) -> bool {
    first_at(bs, i) && target_at(ts, bs[i].pos)
}

/// The four bullets a target shot at `p` bursts into: one on each neighbouring
/// cell, moving away from `p`, in index order; the one moving down is dust.
pub open spec fn explosion(p: Position) -> Seq<Bullet> {
    Seq::new(4, |k: int| Bullet { pos: neighbor_of(direction_at(k), p), dir: direction_at(k), is_dust: k == 2 })
}

/// The bursts of the targets among the first `n` of `ts` that a bullet hits, in target order.
pub open spec fn debris_prefix(bs: Seq<Bullet>, ts: Seq<Target>, n: int) -> Seq<Bullet>
    decreases n,
{
    if n <= 0 {
        Seq::empty()
    } else if bullet_at(bs, ts[n - 1].pos) {
        debris_prefix(bs, ts, n - 1) + explosion(ts[n - 1].pos)
    } else {
        debris_prefix(bs, ts, n - 1)
    }
}

/// How many of the first `n` of `ts` a bullet hits.
pub open spec fn hits_prefix(bs: Seq<Bullet>, ts: Seq<Target>, n: int) -> nat
    decreases n,
{
    if n <= 0 {
        0
    } else if bullet_at(bs, ts[n - 1].pos) {
        hits_prefix(bs, ts, n - 1) + 1
    } else {
        hits_prefix(bs, ts, n - 1)
    }
}

/// How many targets the bullets hit.
pub open spec fn hit_count(bs: Seq<Bullet>, ts: Seq<Target>) -> nat {
    hits_prefix(bs, ts, ts.len() as int)
}

/// The score after `h` hits: `HIT_SCORE` points each, and a best score that
/// keeps up with it.
pub open spec fn scored(g: Game, h: nat) -> Game {
    let s = g.score + HIT_SCORE * h;
    Game { score: s as i32, hi_score: (if s > g.hi_score { s } else { g.hi_score as int }) as i32 }
}

impl WorldView {
    /// The bullet against target pass: every target with a bullet in its cell
    /// is gone, together with the first bullet there; each such hit scores and
    /// leaves its burst of four bullets, added after the bullets that remain.
    pub open spec fn after_bullet_target(self) -> WorldView {
        let bs = self.bullets;
        let ts = self.targets;
        WorldView {
            bullets: kept(bs, |i: int| !hits_target(bs, ts, i)) + debris_prefix(bs, ts, ts.len() as int),
            targets: kept(ts, |k: int| !bullet_at(bs, ts[k].pos)),
            game: scored(self.game, hit_count(bs, ts)),
            ..self
        }
    }
}

pub(crate) fn any_bullet_at(bs: &Vec<Bullet>, p: Position) -> (r: bool)
    ensures
        r == bullet_at(bs@, p),
{
    let mut i: usize = 0;
    while i < bs.len()
        invariant
            i <= bs.len(),
            forall|k: int| 0 <= k < i ==> (#[trigger] bs@[k]).pos != p,
        decreases bs.len() - i,
    {
        if bs[i].pos == p {
            return true;
        }
        i += 1;
    }
    false
}

pub(crate) fn any_target_at(ts: &Vec<Target>, p: Position) -> (r: bool)
    ensures
        r == target_at(ts@, p),
{
    let mut i: usize = 0;
    while i < ts.len()
        invariant
            i <= ts.len(),
            forall|k: int| 0 <= k < i ==> (#[trigger] ts@[k]).pos != p,
        decreases ts.len() - i,
    {
        if ts[i].pos == p {
            return true;
        }
        i += 1;
    }
    false
}

fn is_first_at(bs: &Vec<Bullet>, i: usize) -> (r: bool)
    requires
        i < bs.len(),
    ensures
        r == first_at(bs@, i as int),
{
    let p = bs[i].pos;
    let mut k: usize = 0;
    while k < i
        invariant
            i < bs.len(),
            p == bs@[i as int].pos,
            k <= i,
            forall|m: int| 0 <= m < k ==> (#[trigger] bs@[m]).pos != p,
        decreases i - k,
    {
        if bs[k].pos == p {
            return false;
        }
        k += 1;
    }
    true
}

/// The burst of a target shot at `p`.
fn explode(p: Position) -> (r: Vec<Bullet>)
    requires
        has_neighbors(p),
    ensures
        r@ == explosion(p),
{
    let dirs = Direction::all();
    let mut r: Vec<Bullet> = Vec::new();
    let mut k: usize = 0;
    while k < 4
        invariant
            k <= 4,
            has_neighbors(p),
            dirs@ == seq![Direction::Up, Direction::Left, Direction::Down, Direction::Right],
            r@ == explosion(p).subrange(0, k as int),
        decreases 4 - k,
    {
        let dir = dirs[k];
        r.push(Bullet::new(dir.neighbor(p), dir, dir == Direction::Down));
        k += 1;
        assert(r@ =~= explosion(p).subrange(0, k as int));
    }
    assert(r@ =~= explosion(p));
    r
}

impl World {
    /// Takes every target that a bullet reaches, with the bullet that reached
    /// it, and scores and bursts for each; reports one hit for each.
    pub fn check_for_bullet_target_collisions(&mut self) -> (hits: Vec<HitEvent>)
        requires
            old(self)@.entities_ok(),
            old(self).game.score <= SCORE_LIMIT,
        ensures
            final(self)@ == old(self)@.after_bullet_target(),
            hits@.len() == hit_count(old(self).bullets@, old(self).targets@),
            final(self)@.entities_ok(),
    {
        let ghost bs = self.bullets@;
        let ghost ts = self.targets@;
        let ghost keep_target = |k: int| !bullet_at(bs, ts[k].pos);
        let ghost keep_bullet = |i: int| !hits_target(bs, ts, i);
        let mut game = self.game;
        let mut targets: Vec<Target> = Vec::new();
        let mut debris: Vec<Bullet> = Vec::new();
        let mut hits: Vec<HitEvent> = Vec::new();
        let mut j: usize = 0;
        while j < self.targets.len()
            invariant
                self@ == old(self)@,
                bs == self.bullets@,
                ts == self.targets@,
                old(self)@.entities_ok(),
                old(self).game.score <= SCORE_LIMIT,
                j <= ts.len(),
                keep_target == (|k: int| !bullet_at(bs, ts[k].pos)),
                targets@ == kept_prefix(ts, keep_target, j as int),
                debris@ == debris_prefix(bs, ts, j as int),
                hits@.len() == hits_prefix(bs, ts, j as int),
                hits_prefix(bs, ts, j as int) <= j,
                game == scored(old(self).game, hits_prefix(bs, ts, j as int)),
                targets@.len() <= j,
                forall|m: int| 0 <= m < targets@.len() ==> in_spawn_band((#[trigger] targets@[m]).pos),
                targets_distinct(targets@),
                forall|m: int, k: int|
                    0 <= m < targets@.len() && j <= k < ts.len() ==> (#[trigger] targets@[m]).pos != (#[trigger] ts[k]).pos,
                forall|m: int| 0 <= m < debris@.len() ==> bullet_ok(#[trigger] debris@[m]),
            decreases ts.len() - j,
        {
            let t = self.targets[j];
            assert(ts[j as int] == t);
            if any_bullet_at(&self.bullets, t.pos) {
                game.score = game.score + HIT_SCORE;
                if game.score > game.hi_score {
                    game.hi_score = game.score;
                }
                hits.push(HitEvent);
                let mut burst = explode(t.pos);
                debris.append(&mut burst);
            } else {
                targets.push(t);
            }
            j += 1;
        }
        let mut bullets: Vec<Bullet> = Vec::new();
        let mut i: usize = 0;
        while i < self.bullets.len()
            invariant
                self@ == old(self)@,
                bs == self.bullets@,
                ts == self.targets@,
                old(self)@.entities_ok(),
                i <= bs.len(),
                keep_bullet == (|i: int| !hits_target(bs, ts, i)),
                forall|k: int| 0 <= k < bs.len() ==> bullet_ok(#[trigger] bs[k]),
                bullets@ == kept_prefix(bs, keep_bullet, i as int),
                forall|m: int| 0 <= m < bullets@.len() ==> bullet_ok(#[trigger] bullets@[m]),
            decreases bs.len() - i,
        {
            let b = self.bullets[i];
            if !(is_first_at(&self.bullets, i) && any_target_at(&self.targets, b.pos)) {
                bullets.push(b);
            }
            i += 1;
        }
        bullets.append(&mut debris);
        self.bullets = bullets;
        self.targets = targets;
        self.game = game;
        hits
    }
}


/// How many of the first `n` bullets are at `p` moving in direction `d`.
pub open spec fn count_at(bs: Seq<Bullet>, p: Position, d: Direction, n: int) -> nat
    decreases n,
{
    if n <= 0 {
        0
    } else if bs[n - 1].pos == p && bs[n - 1].dir == d {
        count_at(bs, p, d, n - 1) + 1
    } else {
        count_at(bs, p, d, n - 1)
    }
}

/// `bs[i]` moves along a row and meets a bullet moving the other way: at
/// each cell the k-th bullet moving left and the k-th moving right, in store
/// order, destroy each other, and the bullets left over have no partner.
pub open spec fn annihilated(bs: Seq<Bullet>, i: int) -> bool {
    let b = bs[i];
    &&& (b.dir == Direction::Left || b.dir == Direction::Right)
    &&& count_at(bs, b.pos, b.dir, i) < count_at(bs, b.pos, opposite_of(b.dir), bs.len() as int)
}

/// A bullet in the player's three cells.
pub open spec fn strikes(p: Player, b: Bullet) -> bool {
    b.pos.y == p.pos.y && p.pos.x <= b.pos.x <= p.pos.x + 2
}

/// Some bullet is in the player's three cells.
pub open spec fn struck(p: Player, bs: Seq<Bullet>) -> bool {
    exists|k: int| 0 <= k < bs.len() && strikes(p, #[trigger] bs[k])
}

/// The index of the first bullet from `bs[i]` on that is in the player's
/// cells, or `bs.len()` if there is none.
pub open spec fn first_strike_from(p: Player, bs: Seq<Bullet>, i: int) -> int
    decreases bs.len() - i,
{
    if i < 0 || i >= bs.len() {
        bs.len() as int
    } else if strikes(p, bs[i]) {
        i
    } else {
        first_strike_from(p, bs, i + 1)
    }
}

/// The index of the first bullet, in store order, that is in the player's
/// cells, or `bs.len()` if there is none.
pub open spec fn first_strike(p: Player, bs: Seq<Bullet>) -> int {
    first_strike_from(p, bs, 0)
}

/// `first_strike_from` finds the least index from `i` on whose bullet strikes.
pub proof fn lemma_first_strike_from(p: Player, bs: Seq<Bullet>, i: int)
    requires
        0 <= i <= bs.len(),
    ensures
        i <= first_strike_from(p, bs, i) <= bs.len(),
        first_strike_from(p, bs, i) < bs.len() ==> strikes(p, bs[first_strike_from(p, bs, i)]),
        forall|m: int| i <= m < first_strike_from(p, bs, i) ==> !strikes(p, #[trigger] bs[m]),
    decreases bs.len() - i,
{
    if i < bs.len() && !strikes(p, bs[i]) {
        lemma_first_strike_from(p, bs, i + 1);
    }
}

/// The first striking bullet is the least index whose bullet strikes, and it
/// exists exactly when some bullet strikes.
pub proof fn lemma_first_strike(p: Player, bs: Seq<Bullet>)
    ensures
        0 <= first_strike(p, bs) <= bs.len(),
        struck(p, bs) <==> first_strike(p, bs) < bs.len(),
        first_strike(p, bs) < bs.len() ==> strikes(p, bs[first_strike(p, bs)]),
        forall|m: int| 0 <= m < first_strike(p, bs) ==> !strikes(p, #[trigger] bs[m]),
{
    lemma_first_strike_from(p, bs, 0);
    if first_strike(p, bs) < bs.len() {
        assert(strikes(p, bs[first_strike(p, bs)]));
    }
}

impl WorldView {
    /// The bullet against bullet pass: the pairs that `annihilated` describes are gone.
    pub open spec fn after_bullet_bullet(self) -> WorldView {
        let bs = self.bullets;
        WorldView { bullets: kept(bs, |i: int| !annihilated(bs, i)), ..self }
    }

    /// The crash that the player against bullet pass reports: at the player's
    /// cell, if a bullet is in the player's cells.
    pub open spec fn crash_in(self) -> Option<CrashEvent> {
        match self.player {
            Some(p) => if struck(p, self.bullets) { Some(CrashEvent { pos: p.pos }) } else { None },
            None => None,
        }
    }

    /// The player against bullet pass: if a bullet is in the player's cells,
    /// the player is gone, and so is the first such bullet in store order.
    /// Once the player is gone no other bullet can meet it, so the others stay.
    pub open spec fn after_player_bullet(self) -> WorldView {
        let bs = self.bullets;
        match self.player {
            Some(p) => if struck(p, bs) {
                WorldView { player: None, bullets: bs.remove(first_strike(p, bs)), ..self }
            } else {
                self
            },
            None => self,
        }
    }
}

fn count_bullets(bs: &Vec<Bullet>, p: Position, d: Direction, n: usize) -> (r: usize)
    requires
        n <= bs.len(),
    ensures
        r == count_at(bs@, p, d, n as int),
{
    let mut r: usize = 0;
    let mut k: usize = 0;
    while k < n
        invariant
            n <= bs.len(),
            k <= n,
            r == count_at(bs@, p, d, k as int),
            r <= k,
        decreases n - k,
    {
        if bs[k].pos == p && bs[k].dir == d {
            r += 1;
        }
        k += 1;
    }
    r
}

impl World {
    /// Takes every bullet moving left or right that meets, in its cell, a
    /// partner moving the other way.
    pub fn check_for_bullet_bullet_collisions(&mut self)
        requires
            old(self)@.entities_ok(),
        ensures
            final(self)@ == old(self)@.after_bullet_bullet(),
            final(self)@.entities_ok(),
    {
        let ghost bs = self.bullets@;
        let ghost keep = |i: int| !annihilated(bs, i);
        let mut bullets: Vec<Bullet> = Vec::new();
        let mut i: usize = 0;
        while i < self.bullets.len()
            invariant
                self@ == old(self)@,
                bs == self.bullets@,
                old(self)@.entities_ok(),
                forall|k: int| 0 <= k < bs.len() ==> bullet_ok(#[trigger] bs[k]),
                keep == (|i: int| !annihilated(bs, i)),
                i <= bs.len(),
                bullets@ == kept_prefix(bs, keep, i as int),
                forall|m: int| 0 <= m < bullets@.len() ==> bullet_ok(#[trigger] bullets@[m]),
            decreases bs.len() - i,
        {
            let b = self.bullets[i];
            let horizontal = b.dir == Direction::Left || b.dir == Direction::Right;
            if !(horizontal && count_bullets(&self.bullets, b.pos, b.dir, i)
                < count_bullets(&self.bullets, b.pos, b.dir.opposite(), self.bullets.len())) {
                bullets.push(b);
            }
            i += 1;
        }
        self.bullets = bullets;
    }

    /// If a bullet is in the player's cells, takes the player and the first
    /// such bullet, and reports the crash at the player's cell.
    pub fn check_for_player_bullet_collisions(&mut self) -> (crash: Option<CrashEvent>)
        requires
            old(self)@.entities_ok(),
        ensures
            final(self)@ == old(self)@.after_player_bullet(),
            crash == old(self)@.crash_in(),
            final(self)@.entities_ok(),
    {
        let p = match self.player {
            Some(p) => p,
            None => return None,
        };
        let ghost bs = self.bullets@;
        proof {
            lemma_first_strike(p, bs);
        }
        let mut i: usize = 0;
        while i < self.bullets.len()
            invariant
                self@ == old(self)@,
                bs == self.bullets@,
                self.player == Some(p),
                old(self)@.entities_ok(),
                i <= bs.len(),
                first_strike_from(p, bs, i as int) == first_strike(p, bs),
                forall|m: int| 0 <= m < i ==> !strikes(p, #[trigger] bs[m]),
            decreases bs.len() - i,
        {
            let b = self.bullets[i];
            if b.pos.y == p.pos.y && p.pos.x <= b.pos.x && b.pos.x <= p.pos.x + 2 {
                assert(strikes(p, bs[i as int]));
                self.player = None;
                self.bullets.remove(i);
                assert(forall|m: int| 0 <= m < self.bullets@.len() ==> #[trigger] self.bullets@[m] == (if m < i {
                    bs[m]
                } else {
                    bs[m + 1]
                }));
                return Some(CrashEvent { pos: p.pos });
            }
            i += 1;
        }
        None
    }
}

/// `kept_prefix` keeps everything when `keep` holds throughout.
pub proof fn lemma_kept_all<A>(s: Seq<A>, keep: spec_fn(int) -> bool, n: int)
    requires
        0 <= n <= s.len(),
        forall|k: int| 0 <= k < n ==> #[trigger] keep(k),
    ensures
        kept_prefix(s, keep, n) == s.subrange(0, n),
    decreases n,
{
    if n > 0 {
        lemma_kept_all(s, keep, n - 1);
        assert(s.subrange(0, n - 1).push(s[n - 1]) =~= s.subrange(0, n));
    }
}

/// `kept_prefix` drops exactly the element `i` when `keep` fails there alone.
pub proof fn lemma_kept_all_but<A>(s: Seq<A>, keep: spec_fn(int) -> bool, n: int, i: int)
    requires
        0 <= i < n <= s.len(),
        !keep(i),
        forall|k: int| 0 <= k < n && k != i ==> #[trigger] keep(k),
    ensures
        kept_prefix(s, keep, n) == s.subrange(0, n).remove(i),
    decreases n,
{
    if n == i + 1 {
        lemma_kept_all(s, keep, i);
        assert(s.subrange(0, i) =~= s.subrange(0, n).remove(i));
    } else {
        lemma_kept_all_but(s, keep, n - 1, i);
        assert(s.subrange(0, n - 1).remove(i).push(s[n - 1]) =~= s.subrange(0, n).remove(i));
    }
}

/// Every element that `kept_prefix` keeps is some `s[k]` with `keep(k)`.
pub proof fn lemma_kept_from<A>(s: Seq<A>, keep: spec_fn(int) -> bool, n: int)
    requires
        n <= s.len(),
    ensures
        forall|m: int|
            0 <= m < kept_prefix(s, keep, n).len() ==> exists|k: int|
                0 <= k < n && keep(k) && #[trigger] kept_prefix(s, keep, n)[m] == s[k],
    decreases n,
{
    if n > 0 {
        lemma_kept_from(s, keep, n - 1);
        let prev = kept_prefix(s, keep, n - 1);
        assert forall|m: int| 0 <= m < kept_prefix(s, keep, n).len() implies exists|k: int|
            0 <= k < n && keep(k) && #[trigger] kept_prefix(s, keep, n)[m] == s[k] by {
            if m < prev.len() {
                let k = choose|k: int| 0 <= k < n - 1 && keep(k) && #[trigger] prev[m] == s[k];
                assert(kept_prefix(s, keep, n)[m] == s[k]);
            } else {
                assert(kept_prefix(s, keep, n)[m] == s[n - 1]);
            }
        }
    }
}

/// A longer prefix keeps at least as many elements.
pub proof fn lemma_kept_grows<A>(s: Seq<A>, keep: spec_fn(int) -> bool, m: int, n: int)
    requires
        0 <= m <= n,
    ensures
        kept_prefix(s, keep, m).len() <= kept_prefix(s, keep, n).len(),
    decreases n - m,
{
    if m < n {
        lemma_kept_grows(s, keep, m, n - 1);
    }
}

/// An element `s[k]` that `keep` accepts stands in `kept_prefix` at the
/// number of elements kept before it.
pub proof fn lemma_kept_at<A>(s: Seq<A>, keep: spec_fn(int) -> bool, n: int, k: int)
    requires
        0 <= k < n <= s.len(),
        keep(k),
    ensures
        kept_prefix(s, keep, k).len() < kept_prefix(s, keep, n).len(),
        kept_prefix(s, keep, n)[kept_prefix(s, keep, k).len() as int] == s[k],
    decreases n,
{
    if n > k + 1 {
        lemma_kept_at(s, keep, n - 1, k);
    }
}

/// The count of bullets at `p` moving in `d` when `bs[i]` is the only
/// candidate (none at all if `i` is out of range).
pub proof fn lemma_count_single(bs: Seq<Bullet>, p: Position, d: Direction, n: int, i: int)
    requires
        n <= bs.len(),
        forall|k: int| 0 <= k < n && (#[trigger] bs[k]).pos == p && bs[k].dir == d ==> k == i,
    ensures
        count_at(bs, p, d, n) == (if 0 <= i < n && bs[i].pos == p && bs[i].dir == d { 1nat } else { 0nat }),
    decreases n,
{
    if n > 0 {
        lemma_count_single(bs, p, d, n - 1, i);
    }
}

/// A cell holding one bullet moving left and one moving right, and otherwise
/// only bullets moving up or down: after the bullet against bullet pass the
/// two are gone and the others in the cell remain. If instead the two both
/// move left, both remain.
pub proof fn lemma_crossing_bullets(w: WorldView, i: int, j: int)
    requires
        0 <= i < w.bullets.len(),
        0 <= j < w.bullets.len(),
        i != j,
        w.bullets[i].pos == w.bullets[j].pos,
        forall|k: int|
            0 <= k < w.bullets.len() && k != i && k != j && (#[trigger] w.bullets[k]).pos == w.bullets[i].pos
                ==> w.bullets[k].dir == Direction::Up || w.bullets[k].dir == Direction::Down,
    ensures
        w.bullets[i].dir == Direction::Left && w.bullets[j].dir == Direction::Right ==> {
            &&& annihilated(w.bullets, i)
            &&& annihilated(w.bullets, j)
            &&& forall|m: int|
                0 <= m < w.after_bullet_bullet().bullets.len() && (#[trigger] w.after_bullet_bullet().bullets[m]).pos
                    == w.bullets[i].pos ==> w.after_bullet_bullet().bullets[m].dir == Direction::Up
                    || w.after_bullet_bullet().bullets[m].dir == Direction::Down
        },
        w.bullets[i].dir == Direction::Left && w.bullets[j].dir == Direction::Left ==> {
            &&& !annihilated(w.bullets, i)
            &&& !annihilated(w.bullets, j)
            &&& exists|mi: int, mj: int|
                0 <= mi < w.after_bullet_bullet().bullets.len() && 0 <= mj < w.after_bullet_bullet().bullets.len()
                    && mi != mj && w.after_bullet_bullet().bullets[mi] == w.bullets[i]
                    && w.after_bullet_bullet().bullets[mj] == w.bullets[j]
        },
        forall|k: int|
            0 <= k < w.bullets.len() && k != i && k != j && (#[trigger] w.bullets[k]).pos == w.bullets[i].pos
                ==> w.after_bullet_bullet().bullets.contains(w.bullets[k]),
{
    let bs = w.bullets;
    let n = bs.len() as int;
    let p = bs[i].pos;
    let keep = |k: int| !annihilated(bs, k);
    let out = w.after_bullet_bullet().bullets;
    assert(out == kept_prefix(bs, keep, n));
    assert forall|k: int| 0 <= k < n && k != i && k != j && (#[trigger] bs[k]).pos == p implies out.contains(bs[k]) by {
        assert(keep(k));
        lemma_kept_at(bs, keep, n, k);
        assert(out[kept_prefix(bs, keep, k).len() as int] == bs[k]);
    }
    if bs[i].dir == Direction::Left && bs[j].dir == Direction::Right {
        lemma_count_single(bs, p, Direction::Left, i, i);
        lemma_count_single(bs, p, Direction::Right, n, j);
        lemma_count_single(bs, p, Direction::Right, j, j);
        lemma_count_single(bs, p, Direction::Left, n, i);
        lemma_kept_from(bs, keep, n);
        assert forall|m: int| 0 <= m < out.len() && (#[trigger] out[m]).pos == p implies out[m].dir == Direction::Up
            || out[m].dir == Direction::Down by {
            let k = choose|k: int| 0 <= k < n && keep(k) && out[m] == bs[k];
            assert(k != i && k != j);
        }
    }
    if bs[i].dir == Direction::Left && bs[j].dir == Direction::Left {
        lemma_count_single(bs, p, Direction::Right, n, -1);
        assert(!annihilated(bs, i));
        assert(!annihilated(bs, j));
        let (a, b) = if i < j { (i, j) } else { (j, i) };
        lemma_kept_at(bs, keep, n, a);
        lemma_kept_at(bs, keep, n, b);
        lemma_kept_at(bs, keep, b, a);
        lemma_kept_grows(bs, keep, a + 1, b);
        let ma = kept_prefix(bs, keep, a).len() as int;
        let mb = kept_prefix(bs, keep, b).len() as int;
        assert(ma < mb);
        if i < j {
            assert(out[ma] == bs[i] && out[mb] == bs[j]);
        } else {
            assert(out[mb] == bs[i] && out[ma] == bs[j]);
        }
    }
}

/// With the bursts and hits of a single target `j`, the debris is that
/// target's burst and the count is one, once the prefix covers `j`.
proof fn lemma_single_burst(bs: Seq<Bullet>, ts: Seq<Target>, n: int, j: int)
    requires
        0 <= j < ts.len(),
        n <= ts.len(),
        bullet_at(bs, ts[j].pos),
        forall|k: int| 0 <= k < ts.len() && k != j ==> !bullet_at(bs, (#[trigger] ts[k]).pos),
    ensures
        debris_prefix(bs, ts, n) == (if n > j { explosion(ts[j].pos) } else { Seq::empty() }),
        hits_prefix(bs, ts, n) == (if n > j { 1nat } else { 0nat }),
    decreases n,
{
    if n > 0 {
        lemma_single_burst(bs, ts, n - 1, j);
        if n - 1 == j {
            assert(Seq::<Bullet>::empty() + explosion(ts[j].pos) =~= explosion(ts[j].pos));
        }
    }
}

/// A bullet that hits a target, where no other bullet meets a target: the
/// pass takes that bullet and that target, scores `HIT_SCORE` once with the
/// best score keeping up, and adds the four bullets of the burst, one on each
/// neighbouring cell moving away, of which only the one moving down is dust.
pub proof fn lemma_single_hit(w: WorldView, i: int, j: int)
    requires
        w.entities_ok(),
        w.game.score + HIT_SCORE <= i32::MAX,
        0 <= i < w.bullets.len(),
        0 <= j < w.targets.len(),
        w.bullets[i].pos == w.targets[j].pos,
        forall|k: int| 0 <= k < w.bullets.len() && k != i ==> !target_at(w.targets, (#[trigger] w.bullets[k]).pos),
    ensures
        ({
            let p = w.targets[j].pos;
            let r = w.after_bullet_target();
            &&& r.targets == w.targets.remove(j)
            &&& r.bullets == w.bullets.remove(i) + explosion(p)
            &&& r.game.score == w.game.score + HIT_SCORE
            &&& r.game.hi_score == (if w.game.score + HIT_SCORE > w.game.hi_score {
                w.game.score + HIT_SCORE
            } else {
                w.game.hi_score as int
            })
            &&& explosion(p).len() == 4
            &&& forall|k: int|
                0 <= k < 4 ==> (#[trigger] explosion(p)[k]).pos == neighbor_of(explosion(p)[k].dir, p)
                    && explosion(p)[k].dir == direction_at(k) && (explosion(p)[k].is_dust <==> explosion(p)[k].dir
                    == Direction::Down)
            &&& r.player == w.player && r.state == w.state
        }),
{
    let bs = w.bullets;
    let ts = w.targets;
    let p = ts[j].pos;
    let keep_bullet = |k: int| !hits_target(bs, ts, k);
    let keep_target = |k: int| !bullet_at(bs, ts[k].pos);
    assert(target_at(ts, p) && (#[trigger] ts[j]).pos == p);
    assert forall|k: int| 0 <= k < bs.len() && k != i implies #[trigger] keep_bullet(k) by {}
    assert(hits_target(bs, ts, i));
    lemma_kept_all_but(bs, keep_bullet, bs.len() as int, i);
    assert(bs.subrange(0, bs.len() as int) =~= bs);
    assert(bullet_at(bs, p) && (#[trigger] bs[i]).pos == p);
    assert forall|k: int| 0 <= k < ts.len() && k != j implies !bullet_at(bs, (#[trigger] ts[k]).pos) by {
        if bullet_at(bs, ts[k].pos) {
            let m = choose|m: int| 0 <= m < bs.len() && (#[trigger] bs[m]).pos == ts[k].pos;
            if m != i {
                assert(ts[k].pos == bs[m].pos);
                assert(target_at(ts, bs[m].pos));
            }
        }
    }
    assert forall|k: int| 0 <= k < ts.len() && k != j implies #[trigger] keep_target(k) by {}
    lemma_kept_all_but(ts, keep_target, ts.len() as int, j);
    assert(ts.subrange(0, ts.len() as int) =~= ts);
    lemma_single_burst(bs, ts, ts.len() as int, j);
}

/// A bullet in the player's three cells: the pass takes the player and the
/// first bullet in those cells, which is this one unless an earlier bullet in
/// store order is in them too, keeps every other bullet, reports the crash at
/// the player's cell, and the crash ends the game.
pub proof fn lemma_player_struck(w: WorldView, k: int)
    requires
        w.player is Some,
        0 <= k < w.bullets.len(),
        w.bullets[k].pos.y == w.player->Some_0.pos.y,
        w.player->Some_0.pos.x <= w.bullets[k].pos.x <= w.player->Some_0.pos.x + 2,
    ensures
        ({
            let p = w.player->Some_0;
            let bs = w.bullets;
            let k0 = first_strike(p, bs);
            let r = w.after_player_bullet();
            &&& 0 <= k0 <= k
            &&& strikes(p, bs[k0])
            &&& forall|m: int| 0 <= m < k0 ==> !strikes(p, #[trigger] bs[m])
            &&& (forall|m: int| 0 <= m < k ==> !strikes(p, #[trigger] bs[m])) ==> k0 == k
            &&& r.player is None
            &&& r.bullets == bs.remove(k0)
            &&& w.crash_in() == Some(CrashEvent { pos: p.pos })
            &&& r.after_crash(w.crash_in()).state == GameState::GameOver
        }),
{
    let p = w.player->Some_0;
    let bs = w.bullets;
    assert(strikes(p, bs[k]));
    assert(struck(p, bs));
    lemma_first_strike(p, bs);
}

} // verus!
