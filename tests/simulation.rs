use u235::arena::{
    back_cells, position_to_pixel, title_cell, wall_cells, X_MAX, X_MIN, Y_MAX, Y_MIN,
};
use u235::components::{Bullet, Direction, NumberType, Player, Position, ScoreLabel, Target};
use u235::movement::{move_player, step_bullet, Input};
use u235::resources::{Game, GameState};
use u235::score::{decimal_digits, digit_slots, spawn_number, update_score};
use u235::world::World;

const NO_KEYS: Input = Input { left: false, right: false, fire: false };

fn bullet(x: i32, y: i32, dir: Direction) -> Bullet {
    Bullet::new(Position::new(x, y), dir, false)
}

fn world_with(bullets: Vec<Bullet>, targets: Vec<Target>) -> World {
    let mut w = World::new();
    w.bullets = bullets;
    w.targets = targets;
    w
}

#[test]
fn direction_index_round_trip() {
    for n in 0..4 {
        assert_eq!(Direction::from_i32(n).to_i32(), n);
    }
    assert_eq!(Direction::all(), [Direction::Up, Direction::Left, Direction::Down, Direction::Right]);
    assert_eq!(Direction::from_i32(2), Direction::Down);
}

#[test]
fn direction_opposite_and_neighbor() {
    assert_eq!(Direction::Up.opposite(), Direction::Down);
    assert_eq!(Direction::Left.opposite(), Direction::Right);
    assert_eq!(Direction::Down.opposite(), Direction::Up);
    assert_eq!(Direction::Right.opposite(), Direction::Left);
    let p = Position::new(5, 7);
    assert_eq!(Direction::Up.neighbor(p), Position::new(5, 6));
    assert_eq!(Direction::Left.neighbor(p), Position::new(4, 7));
    assert_eq!(Direction::Down.neighbor(p), Position::new(5, 8));
    assert_eq!(Direction::Right.neighbor(p), Position::new(6, 7));
}

#[test]
fn position_add_offsets() {
    assert_eq!(Position::new(3, 4).add(-1, 2), Position::new(2, 6));
    assert_eq!(Position::default(), Position::new(0, 0));
}

#[test]
fn player_stops_at_left_wall() {
    let (p, fired) = move_player(Position::new(X_MIN, Y_MAX), Input { left: true, ..NO_KEYS });
    assert_eq!(p, Position::new(X_MIN, Y_MAX));
    assert_eq!(fired, None);
    let (p, _) = move_player(Position::new(X_MIN + 1, Y_MAX), Input { left: true, ..NO_KEYS });
    assert_eq!(p.x, X_MIN);
}

#[test]
fn player_stops_at_right_wall() {
    let (p, _) = move_player(Position::new(X_MAX - 2, Y_MAX), Input { right: true, ..NO_KEYS });
    assert_eq!(p.x, X_MAX - 2);
    let (p, _) = move_player(Position::new(X_MAX - 3, Y_MAX), Input { right: true, ..NO_KEYS });
    assert_eq!(p.x, X_MAX - 2);
}

#[test]
fn player_stays_in_arena_over_many_ticks() {
    let mut w = World::new();
    for t in 0..100 {
        let input = Input { left: t % 3 != 0, right: t % 5 == 0, fire: false };
        w.update_player(input);
        let x = w.player.unwrap().pos.x;
        assert!(X_MIN <= x && x <= X_MAX - 2);
    }
}

#[test]
fn fire_spawns_bullet_above_and_right() {
    let mut w = World::new();
    w.update_player(Input { fire: true, ..NO_KEYS });
    assert_eq!(w.bullets, vec![Bullet::new(Position::new(19, Y_MAX - 1), Direction::Up, false)]);
    w.update_player(Input { left: true, fire: true, ..NO_KEYS });
    assert_eq!(w.bullets[1].pos, Position::new(18, Y_MAX - 1));
}

#[test]
fn left_bullet_bounces_at_x_min() {
    let b = bullet(X_MIN + 1, 10, Direction::Left);
    let next = step_bullet(b).unwrap();
    assert_eq!(next, bullet(X_MIN, 10, Direction::Right));
    let after = step_bullet(next).unwrap();
    assert_eq!(after, bullet(X_MIN + 1, 10, Direction::Right));
}

#[test]
fn right_and_up_bullets_bounce() {
    assert_eq!(step_bullet(bullet(X_MAX - 1, 10, Direction::Right)), Some(bullet(X_MAX, 10, Direction::Left)));
    assert_eq!(step_bullet(bullet(10, Y_MIN + 1, Direction::Up)), Some(bullet(10, Y_MIN, Direction::Down)));
    assert_eq!(step_bullet(bullet(10, 10, Direction::Up)), Some(bullet(10, 9, Direction::Up)));
}

#[test]
fn row_bullet_never_passes_x_min() {
    let mut b = bullet(X_MIN + 1, 10, Direction::Left);
    for _ in 0..200 {
        b = step_bullet(b).unwrap();
        assert!(b.pos.x >= X_MIN && b.pos.x <= X_MAX);
    }
}

#[test]
fn down_bullet_leaves_after_bottom_row() {
    assert_eq!(step_bullet(bullet(10, Y_MAX, Direction::Down)), None);
    let mut w = world_with(vec![bullet(10, Y_MAX, Direction::Down), bullet(11, Y_MAX - 1, Direction::Down)], vec![]);
    w.update_bullets();
    assert_eq!(w.bullets, vec![bullet(11, Y_MAX, Direction::Down)]);
    w.update_bullets();
    assert!(w.bullets.is_empty());
}

#[test]
fn crossing_bullets_destroy_each_other() {
    let mut w = world_with(
        vec![bullet(10, 10, Direction::Left), bullet(5, 5, Direction::Up), bullet(10, 10, Direction::Right)],
        vec![],
    );
    w.check_for_bullet_bullet_collisions();
    assert_eq!(w.bullets, vec![bullet(5, 5, Direction::Up)]);
}

#[test]
fn crossing_bullets_leave_vertical_ones() {
    let mut w = world_with(
        vec![bullet(10, 10, Direction::Right), bullet(10, 10, Direction::Down), bullet(10, 10, Direction::Left)],
        vec![],
    );
    w.check_for_bullet_bullet_collisions();
    assert_eq!(w.bullets, vec![bullet(10, 10, Direction::Down)]);
}

#[test]
fn same_direction_bullets_stay() {
    let mut w = world_with(vec![bullet(10, 10, Direction::Left), bullet(10, 10, Direction::Left)], vec![]);
    w.check_for_bullet_bullet_collisions();
    assert_eq!(w.bullets.len(), 2);
    let mut w = world_with(vec![bullet(10, 10, Direction::Up), bullet(10, 10, Direction::Down)], vec![]);
    w.check_for_bullet_bullet_collisions();
    assert_eq!(w.bullets.len(), 2);
}

#[test]
fn unmatched_crossing_bullet_survives() {
    let mut w = world_with(
        vec![bullet(10, 10, Direction::Left), bullet(10, 10, Direction::Left), bullet(10, 10, Direction::Right)],
        vec![],
    );
    w.check_for_bullet_bullet_collisions();
    assert_eq!(w.bullets, vec![bullet(10, 10, Direction::Left)]);
}

#[test]
fn hit_scores_and_bursts() {
    let p = Position::new(10, 8);
    let mut w = world_with(
        vec![bullet(3, 3, Direction::Up), Bullet::new(p, Direction::Up, false)],
        vec![Target { pos: Position::new(20, 5) }, Target { pos: p }],
    );
    let hits = w.check_for_bullet_target_collisions();
    assert_eq!(hits.len(), 1);
    assert_eq!(w.game, Game { score: 1000, hi_score: 1000 });
    assert_eq!(w.targets, vec![Target { pos: Position::new(20, 5) }]);
    assert_eq!(
        w.bullets,
        vec![
            bullet(3, 3, Direction::Up),
            Bullet::new(Position::new(10, 7), Direction::Up, false),
            Bullet::new(Position::new(9, 8), Direction::Left, false),
            Bullet::new(Position::new(10, 9), Direction::Down, true),
            Bullet::new(Position::new(11, 8), Direction::Right, false),
        ]
    );
}

#[test]
fn hit_keeps_higher_best_score() {
    let p = Position::new(10, 8);
    let mut w = world_with(vec![Bullet::new(p, Direction::Up, false)], vec![Target { pos: p }]);
    w.game = Game { score: 2000, hi_score: 5000 };
    w.check_for_bullet_target_collisions();
    assert_eq!(w.game, Game { score: 3000, hi_score: 5000 });
    w.game = Game { score: 5000, hi_score: 5000 };
    w.targets = vec![Target { pos: Position::new(4, 4) }];
    w.bullets = vec![bullet(4, 4, Direction::Left)];
    w.check_for_bullet_target_collisions();
    assert_eq!(w.game, Game { score: 6000, hi_score: 6000 });
}

#[test]
fn second_bullet_on_taken_target_survives() {
    let p = Position::new(10, 8);
    let mut w = world_with(
        vec![Bullet::new(p, Direction::Up, false), Bullet::new(p, Direction::Left, false)],
        vec![Target { pos: p }],
    );
    let hits = w.check_for_bullet_target_collisions();
    assert_eq!(hits.len(), 1);
    assert_eq!(w.game.score, 1000);
    assert_eq!(w.bullets.len(), 5);
    assert_eq!(w.bullets[0], Bullet::new(p, Direction::Left, false));
}

#[test]
fn bullet_in_player_cells_ends_game() {
    let mut w = World::new();
    let start = w.player.unwrap().pos;
    w.bullets = vec![bullet(start.x + 2, Y_MAX, Direction::Left), bullet(start.x + 3, Y_MAX, Direction::Left)];
    let crash = w.check_for_player_bullet_collisions();
    assert_eq!(crash.map(|e| e.pos), Some(start));
    assert_eq!(w.player, None);
    assert_eq!(w.bullets, vec![bullet(start.x + 3, Y_MAX, Direction::Left)]);
    let dust = w.crash_event(crash);
    assert_eq!(w.state, GameState::GameOver);
    assert_eq!(dust, vec![start, Position::new(start.x + 1, Y_MAX), Position::new(start.x + 2, Y_MAX)]);
}

#[test]
fn only_first_bullet_in_player_cells_goes() {
    let mut w = World::new();
    let start = w.player.unwrap().pos;
    w.bullets = vec![
        bullet(start.x - 1, Y_MAX, Direction::Up),
        bullet(start.x, Y_MAX, Direction::Up),
        bullet(start.x + 1, Y_MAX, Direction::Up),
    ];
    let crash = w.check_for_player_bullet_collisions();
    assert_eq!(crash.map(|e| e.pos), Some(start));
    assert_eq!(w.player, None);
    assert_eq!(w.bullets, vec![bullet(start.x - 1, Y_MAX, Direction::Up), bullet(start.x + 1, Y_MAX, Direction::Up)]);
}

#[test]
fn bullet_beside_player_misses() {
    let mut w = World::new();
    let start = w.player.unwrap().pos;
    w.bullets = vec![bullet(start.x - 1, Y_MAX, Direction::Up), bullet(start.x + 1, Y_MAX - 1, Direction::Up)];
    assert_eq!(w.check_for_player_bullet_collisions(), None);
    assert_eq!(w.player, Some(Player { pos: start }));
    assert_eq!(w.bullets.len(), 2);
    assert!(w.crash_event(None).is_empty());
    assert_eq!(w.state, GameState::InGame);
}

#[test]
fn tick_reports_crash_and_stops() {
    let mut w = World::new();
    let start = w.player.unwrap().pos;
    // A bullet moving down into the player's middle cell.
    w.bullets = vec![bullet(start.x + 1, Y_MAX - 1, Direction::Down)];
    let free = Position::new(X_MIN + 1, Y_MIN);
    let ev = w.tick(NO_KEYS, free, 99);
    assert_eq!(ev.crash.map(|e| e.pos), Some(start));
    assert_eq!(ev.dust.len(), 3);
    assert_eq!(w.state, GameState::GameOver);
    assert!(w.bullets.is_empty());
    let ev = w.tick(Input { fire: true, ..NO_KEYS }, free, 0);
    assert!(ev.hits.is_empty() && ev.crash.is_none() && ev.dust.is_empty());
    assert!(w.bullets.is_empty() && w.targets.is_empty());
}

#[test]
fn tick_moves_fires_and_spawns() {
    let mut w = World::new();
    let ev = w.tick(Input { right: true, fire: true, left: false }, Position::new(10, 10), 0);
    assert!(ev.hits.is_empty() && ev.crash.is_none());
    assert_eq!(w.player, Some(Player { pos: Position::new(19, Y_MAX) }));
    // The new bullet moves on the tick it is fired.
    assert_eq!(w.bullets, vec![bullet(20, Y_MAX - 2, Direction::Up)]);
    assert_eq!(w.targets, vec![Target { pos: Position::new(10, 10) }]);
}

#[test]
fn tick_hits_spawned_target() {
    let mut w = World::new();
    w.targets = vec![Target { pos: Position::new(10, 9) }];
    w.bullets = vec![bullet(10, 10, Direction::Up)];
    let ev = w.tick(NO_KEYS, Position::new(10, 9), 0);
    assert_eq!(ev.hits.len(), 1);
    assert_eq!(w.game.score, 1000);
    assert!(w.targets.is_empty());
    assert_eq!(w.bullets.len(), 4);
    assert_eq!(w.bullets.iter().filter(|b| b.is_dust).count(), 1);
}

#[test]
fn restart_resets_board_and_keeps_best_score() {
    let mut w = World::new();
    w.game = Game { score: 3000, hi_score: 7000 };
    w.targets = vec![Target { pos: Position::new(10, 9) }];
    w.bullets = vec![bullet(20, Y_MAX, Direction::Left)];
    let crash = w.check_for_player_bullet_collisions();
    w.crash_event(crash);
    assert_eq!(w.state, GameState::GameOver);
    w.restart(false);
    assert_eq!(w.state, GameState::GameOver);
    assert_eq!(w.game.score, 3000);
    w.restart(true);
    assert_eq!(w.state, GameState::InGame);
    assert_eq!(w.game, Game { score: 0, hi_score: 7000 });
    assert!(w.bullets.is_empty() && w.targets.is_empty());
    assert_eq!(w.player, Some(Player { pos: Position::new(18, Y_MAX) }));
    assert_eq!(w.games_started, 2);
}

#[test]
fn restart_ignored_while_playing() {
    let mut w = World::new();
    w.game = Game { score: 3000, hi_score: 7000 };
    w.restart(true);
    assert_eq!(w.game.score, 3000);
    assert_eq!(w.games_started, 1);
}

#[test]
fn game_reset_keeps_best_score() {
    let mut g = Game { score: 4000, hi_score: 9000 };
    g.reset();
    assert_eq!(g, Game { score: 0, hi_score: 9000 });
    assert_eq!(Game::default(), Game::new());
}

#[test]
fn spawner_skips_occupied_cell() {
    let c = Position::new(10, 10);
    let mut w = world_with(vec![], vec![Target { pos: c }]);
    w.spawn_target_at(c, 0);
    assert_eq!(w.targets.len(), 1);
    w.spawn_target_at(Position::new(11, 10), 0);
    assert_eq!(w.targets.len(), 2);
}

#[test]
fn spawner_follows_the_draw() {
    let mut w = World::new();
    w.spawn_target_at(Position::new(10, 10), 7);
    assert!(w.targets.is_empty());
    w.spawn_target_at(Position::new(10, 10), 6);
    assert_eq!(w.targets, vec![Target { pos: Position::new(10, 10) }]);
}

#[test]
fn spawner_respects_cap() {
    let mut targets = Vec::new();
    for x in X_MIN + 1..=X_MIN + 20 {
        for y in Y_MIN..Y_MIN + 4 {
            targets.push(Target { pos: Position::new(x, y) });
        }
    }
    assert_eq!(targets.len(), 80);
    let mut w = world_with(vec![], targets);
    w.spawn_target_at(Position::new(X_MAX - 1, 15), 0);
    assert_eq!(w.targets.len(), 80);
}

#[test]
fn random_spawning_keeps_targets_distinct() {
    let mut w = World::new();
    for _ in 0..3000 {
        w.spawn_target();
        for (i, a) in w.targets.iter().enumerate() {
            for b in &w.targets[i + 1..] {
                assert_ne!(a.pos, b.pos);
            }
        }
    }
    assert!(w.targets.len() <= 80);
    assert!(!w.targets.is_empty());
}

#[test]
fn random_draws_cover_the_band() {
    let mut xs = std::collections::BTreeSet::new();
    let mut rolls = std::collections::BTreeSet::new();
    for _ in 0..2000 {
        let (c, roll) = World::spawn_draw();
        assert!(X_MIN + 1 <= c.x && c.x <= X_MAX - 1);
        assert!(Y_MIN <= c.y && c.y <= 15);
        assert!((0..100).contains(&roll));
        xs.insert(c.x);
        rolls.insert(roll);
    }
    assert!(xs.len() > 10);
    assert!(rolls.len() > 10);
}

#[test]
fn digits_of_numbers() {
    assert_eq!(decimal_digits(0), vec![0]);
    assert_eq!(decimal_digits(1234), vec![1, 2, 3, 4]);
    assert_eq!(decimal_digits(4000000000), vec![4, 0, 0, 0, 0, 0, 0, 0, 0, 0]);
}

#[test]
fn digit_slots_right_aligned() {
    assert_eq!(digit_slots(0), vec![None, None, None, None, None, None, None, Some(0)]);
    assert_eq!(digit_slots(1000), vec![None, None, None, None, Some(1), Some(0), Some(0), Some(0)]);
    assert_eq!(digit_slots(12345678), (1..=8u8).map(Some).collect::<Vec<_>>());
    assert_eq!(digit_slots(123456789), (1..=8u8).map(Some).collect::<Vec<_>>());
}

#[test]
fn spawn_number_skips_blanks() {
    let digits = spawn_number(205, ScoreLabel::Score);
    assert_eq!(
        digits,
        vec![
            NumberType { label: ScoreLabel::Score, slot: 5, glyph: 2 },
            NumberType { label: ScoreLabel::Score, slot: 6, glyph: 0 },
            NumberType { label: ScoreLabel::Score, slot: 7, glyph: 5 },
        ]
    );
}

#[test]
fn update_score_lists_best_score_first() {
    let digits = update_score(&Game { score: 0, hi_score: 10 });
    assert_eq!(
        digits,
        vec![
            NumberType { label: ScoreLabel::HiScore, slot: 6, glyph: 1 },
            NumberType { label: ScoreLabel::HiScore, slot: 7, glyph: 0 },
            NumberType { label: ScoreLabel::Score, slot: 7, glyph: 0 },
        ]
    );
}

#[test]
fn board_cells() {
    let walls = wall_cells();
    assert_eq!(walls.len(), (2 * Y_MAX + X_MAX) as usize);
    assert_eq!(walls[0], Position::new(1, 1));
    assert_eq!(walls[1], Position::new(X_MAX + 1, 1));
    assert_eq!(walls[2 * Y_MAX as usize - 1], Position::new(X_MAX + 1, Y_MAX));
    assert_eq!(*walls.last().unwrap(), Position::new(X_MAX, 1));
    let back = back_cells();
    assert_eq!(back.len(), 40);
    assert_eq!(back[0], Position::new(0, Y_MAX + 1));
    assert_eq!(back[39], Position::new(39, Y_MAX + 1));
    assert_eq!(title_cell(), Position::new(1, 0));
}

#[test]
fn cells_map_to_pixels() {
    assert_eq!(position_to_pixel(Position::new(1, 0)), (16, 400));
    assert_eq!(position_to_pixel(Position::new(18, Y_MAX)), (288, 48));
    assert_eq!(X_MAX, 37);
    assert_eq!(Y_MAX, 22);
}
