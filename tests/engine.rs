use rocket_engine::collisions::{make_explosion, CollisionsController, SCORE_PER_ENEMY};
use rocket_engine::controllers::{Actions, Clock, TimeController, ENEMY_SPAWN_RATE};
use rocket_engine::game_state::{GameState, PlayerHitPolicy};
use rocket_engine::geometry::{cos_scaled, isqrt, sin_scaled, wrap, Point, Size, Vector};
use rocket_engine::models::{
    Bullet, Enemy, Particle, Velocity, BULLET_LIFETIME, BULLET_RADIUS, ENEMY_RADIUS,
    MAX_PLAYER_SPEED,
};
use rocket_engine::GameData;

const PX: i64 = 1_000_000;

fn inside(size: Size, p: Point) -> bool {
    0 <= p.x && p.x < size.width && 0 <= p.y && p.y < size.height
}

fn all_inside(g: &GameData) -> bool {
    let w = g.world();
    let s = w.size;
    inside(s, w.player.vector.position)
        && w.particles.iter().all(|p| inside(s, p.vector.position))
        && w.bullets.iter().all(|b| inside(s, b.vector.position))
        && w.enemies.iter().all(|e| inside(s, e.position))
}

fn drive(g: &mut GameData, step: u64) {
    g.toggle_shoot((step % 3 == 0) as i32);
    g.toggle_boost((step % 5 < 2) as i32);
    g.toggle_turn_left((step % 7 < 3) as i32);
    g.toggle_turn_right((step % 11 < 4) as i32);
    g.update(16 + step % 9);
}

#[test]
fn new_game_is_empty_and_centered() {
    let g = GameData::new(800, 600);
    let w = g.world();
    assert_eq!(w.size, Size { width: 800 * PX, height: 600 * PX });
    assert_eq!(w.player.vector.position, Point { x: 400 * PX, y: 300 * PX });
    assert_eq!(w.player.vector.direction, 0);
    assert!(w.particles.is_empty() && w.bullets.is_empty() && w.enemies.is_empty());
    assert_eq!(g.score(), 0);
}

#[test]
fn one_shot_spawns_one_bullet_at_the_player() {
    let mut g = GameData::new(800, 600);
    g.toggle_shoot(1);
    g.update(17);
    let w = g.world();
    assert_eq!(w.bullets.len(), 1);
    assert_eq!(w.bullets[0].vector.position, Point { x: 400 * PX, y: 300 * PX });
    assert_eq!(w.bullets[0].vector.direction, 0);
    assert_eq!(w.bullets[0].ttl, BULLET_LIFETIME);
}

#[test]
fn first_bullet_moves_along_the_heading_at_bullet_speed() {
    let mut g = GameData::new(800, 600);
    g.toggle_shoot(1);
    g.update(16);
    g.toggle_shoot(0);
    // Without boost the player stays at rest where it started.
    assert_eq!(g.world().player.vector.position, Point { x: 400 * PX, y: 300 * PX });
    assert_eq!(g.world().player.velocity, Velocity { dx: 0, dy: 0 });
    assert_eq!(g.world().bullets.len(), 1);
    assert_eq!(g.world().bullets[0].vector, g.world().player.vector);
    g.update(10);
    // 500 px/s for 10 ms.
    let b = g.world().bullets[0];
    assert_eq!(b.vector.position, Point { x: 405 * PX, y: 300 * PX });
    assert_eq!(b.ttl, BULLET_LIFETIME - 10);
}

#[test]
fn boost_accelerates_along_the_heading_and_the_drift_is_kept() {
    let mut g = GameData::new(800, 600);
    g.toggle_boost(1);
    g.update(10);
    // 1000 px/s^2 for 10 ms: 10 px/s, that is 10_000 micro-pixels per millisecond.
    assert_eq!(g.world().player.velocity, Velocity { dx: 10_000, dy: 0 });
    assert_eq!(g.world().player.vector.position, Point { x: 400 * PX + 100_000, y: 300 * PX });
    g.toggle_boost(0);
    g.update(10);
    assert_eq!(g.world().player.velocity, Velocity { dx: 10_000, dy: 0 });
    assert_eq!(g.world().player.vector.position, Point { x: 400 * PX + 200_000, y: 300 * PX });
}

#[test]
fn speed_is_held_to_the_limit() {
    let mut g = GameData::new(800, 600);
    g.toggle_boost(1);
    g.update(2000);
    assert_eq!(g.world().player.velocity, Velocity { dx: MAX_PLAYER_SPEED, dy: 0 });
}

#[test]
fn empty_frame_changes_nothing() {
    let mut g = GameData::new(800, 600);
    g.toggle_shoot(1);
    g.update(0);
    assert!(g.world().bullets.is_empty());
    assert_eq!(g.time_controller.clock, Clock::new());
}

#[test]
fn bullet_meets_enemy_at_the_same_spot() {
    let mut g = GameData::new(800, 600);
    let spot = Point { x: 100 * PX, y: 100 * PX };
    g.state.world.bullets.push(Bullet::new(Vector { position: spot, direction: 0 }));
    g.state.world.enemies.push(Enemy { position: spot });
    g.update(1);
    let w = g.world();
    assert!(w.bullets.is_empty());
    assert!(w.enemies.is_empty());
    assert_eq!(g.score(), SCORE_PER_ENEMY);
    assert!(!w.particles.is_empty());
    // The bullet moved half a pixel and the enemy a tenth of one: the burst is at
    // their midpoint, within a pixel of the meeting spot.
    assert!(w.particles.iter().all(|p| {
        (p.vector.position.x - spot.x).abs() <= PX && (p.vector.position.y - spot.y).abs() <= PX
    }));
}

#[test]
fn resize_discards_everything() {
    let mut g = GameData::new(800, 600);
    for step in 0..200 {
        drive(&mut g, step);
    }
    assert!(!g.world().particles.is_empty());
    assert!(!g.world().enemies.is_empty());
    let r = g.resize(400, 300);
    let w = r.world();
    assert!(w.enemies.is_empty() && w.bullets.is_empty() && w.particles.is_empty());
    assert_eq!(r.score(), 0);
    assert_eq!(w.size, Size { width: 400 * PX, height: 300 * PX });
    assert_eq!(w.player.vector.position, Point { x: 200 * PX, y: 150 * PX });
}

#[test]
fn same_seed_same_inputs_same_world() {
    let mut a = GameData::new(800, 600);
    let mut b = GameData::new(800, 600);
    for step in 0..300 {
        drive(&mut a, step);
        drive(&mut b, step);
        assert_eq!(a.world().player, b.world().player);
        assert_eq!(a.world().particles, b.world().particles);
        assert_eq!(a.world().bullets, b.world().bullets);
        assert_eq!(a.world().enemies, b.world().enemies);
        assert_eq!(a.score(), b.score());
    }
}

#[test]
fn entities_stay_inside_the_arena() {
    let mut g = GameData::new(320, 240);
    for step in 0..400 {
        drive(&mut g, step);
        assert!(all_inside(&g));
    }
}

#[test]
fn score_never_decreases() {
    let mut g = GameData::with_policy(300, 200, PlayerHitPolicy::ResetPlayer);
    let mut last = 0;
    for step in 0..600 {
        let before_enemies = g.world().enemies.len();
        drive(&mut g, step);
        assert!(g.score() >= last);
        assert_eq!((g.score() - last) % SCORE_PER_ENEMY, 0);
        assert!(((g.score() - last) / SCORE_PER_ENEMY) as usize <= before_enemies + 1);
        last = g.score();
    }
}

#[test]
fn bullet_is_gone_after_its_lifetime() {
    let mut g = GameData::new(800, 600);
    g.toggle_shoot(1);
    g.update(1);
    g.toggle_shoot(0);
    assert_eq!(g.world().bullets.len(), 1);
    g.update(BULLET_LIFETIME - 1);
    assert_eq!(g.world().bullets.len(), 1);
    assert_eq!(g.world().bullets[0].ttl, 1);
    g.update(1);
    assert!(g.world().bullets.is_empty());
}

fn lone_pair(bullet_at: Point, enemy_at: Point) -> GameState {
    let mut st = GameState::with_policy(
        Size { width: 800 * PX, height: 600 * PX },
        PlayerHitPolicy::RemoveEnemy,
    );
    st.world.bullets.push(Bullet::new(Vector { position: bullet_at, direction: 0 }));
    st.world.enemies.push(Enemy { position: enemy_at });
    st
}

#[test]
fn contact_at_exactly_the_radius_sum_collides() {
    let reach = BULLET_RADIUS + ENEMY_RADIUS;
    let mut st = lone_pair(Point { x: 10 * PX, y: 10 * PX }, Point { x: 10 * PX + reach, y: 10 * PX });
    CollisionsController::handle_collisions(&mut st);
    assert!(st.world.bullets.is_empty() && st.world.enemies.is_empty());
    assert_eq!(st.score, SCORE_PER_ENEMY);
    // The burst sits at the midpoint.
    assert_eq!(st.world.particles[0].vector.position, Point { x: 10 * PX + reach / 2, y: 10 * PX });
}

#[test]
fn just_beyond_the_radius_sum_does_not_collide() {
    let reach = BULLET_RADIUS + ENEMY_RADIUS;
    let mut st =
        lone_pair(Point { x: 10 * PX, y: 10 * PX }, Point { x: 10 * PX + reach + 1, y: 10 * PX });
    CollisionsController::handle_collisions(&mut st);
    assert_eq!(st.world.bullets.len(), 1);
    assert_eq!(st.world.enemies.len(), 1);
    assert_eq!(st.score, 0);
    assert!(st.world.particles.is_empty());
}

#[test]
fn a_bullet_destroys_only_the_first_enemy() {
    let spot = Point { x: 50 * PX, y: 50 * PX };
    let mut st = lone_pair(spot, spot);
    st.world.enemies.push(Enemy { position: Point { x: 51 * PX, y: 50 * PX } });
    CollisionsController::handle_collisions(&mut st);
    assert!(st.world.bullets.is_empty());
    assert_eq!(st.world.enemies, vec![Enemy { position: Point { x: 51 * PX, y: 50 * PX } }]);
    assert_eq!(st.score, SCORE_PER_ENEMY);
}

#[test]
fn enemy_on_the_player_can_reset_the_player() {
    let mut st = GameState::with_policy(
        Size { width: 800 * PX, height: 600 * PX },
        PlayerHitPolicy::ResetPlayer,
    );
    st.score = 30;
    st.world.player.vector.position = Point { x: 20 * PX, y: 20 * PX };
    st.world.player.velocity = Velocity { dx: 5, dy: -5 };
    st.world.enemies.push(Enemy { position: Point { x: 30 * PX, y: 20 * PX } });
    st.world.enemies.push(Enemy { position: Point { x: 600 * PX, y: 100 * PX } });
    st.world.bullets.push(Bullet::new(Vector { position: Point { x: 700 * PX, y: 500 * PX }, direction: 0 }));
    CollisionsController::handle_collisions(&mut st);
    assert_eq!(st.score, 30);
    assert_eq!(st.world.enemies, vec![Enemy { position: Point { x: 600 * PX, y: 100 * PX } }]);
    assert_eq!(st.world.bullets.len(), 1);
    assert_eq!(st.world.player.vector.position, Point { x: 400 * PX, y: 300 * PX });
    assert_eq!(st.world.player.velocity, Velocity { dx: 0, dy: 0 });
    assert_eq!(st.world.particles.len(), 30 * 7);
}

#[test]
fn new_game_removes_only_touching_enemies_by_default() {
    let g = GameData::new(800, 600);
    assert_eq!(g.state.policy, PlayerHitPolicy::RemoveEnemy);
    let h = GameData::with_policy(800, 600, PlayerHitPolicy::ResetPlayer);
    assert_eq!(h.state.policy, PlayerHitPolicy::ResetPlayer);
}

#[test]
fn enemy_on_the_player_can_just_be_removed() {
    let mut st = GameState::with_policy(
        Size { width: 800 * PX, height: 600 * PX },
        PlayerHitPolicy::RemoveEnemy,
    );
    st.score = 30;
    st.world.enemies.push(Enemy { position: Point { x: 400 * PX, y: 310 * PX } });
    st.world.enemies.push(Enemy { position: Point { x: 100 * PX, y: 100 * PX } });
    CollisionsController::handle_collisions(&mut st);
    assert_eq!(st.score, 30);
    assert_eq!(st.world.enemies, vec![Enemy { position: Point { x: 100 * PX, y: 100 * PX } }]);
    assert_eq!(st.world.particles.len(), 30 * 7);
}

#[test]
fn explosion_layout() {
    let mut ps: Vec<Particle> = Vec::new();
    let at = Point { x: 5, y: 7 };
    make_explosion(&mut ps, at, 10);
    assert_eq!(ps.len(), 270);
    assert_eq!(ps[0], Particle { vector: Vector { position: at, direction: 0 }, ttl: 100 });
    assert_eq!(ps[8].ttl, 900);
    assert_eq!(ps[9].vector.direction, 12_413);
    assert_eq!(ps[269].vector.direction, 0);
}

#[test]
fn scaled_trigonometry() {
    assert_eq!(sin_scaled(0), 0);
    assert_eq!(sin_scaled(90_000), 1000);
    assert_eq!(sin_scaled(30_000), 500);
    assert_eq!(sin_scaled(270_000), -1000);
    assert_eq!(cos_scaled(0), 1000);
    assert_eq!(cos_scaled(180_000), -1000);
}

#[test]
fn integer_square_root() {
    assert_eq!(isqrt(0), 0);
    assert_eq!(isqrt(15), 3);
    assert_eq!(isqrt(16), 4);
    assert_eq!(isqrt(1_000_000_000_000_000_000_000_000), 1_000_000_000_000);
}

#[test]
fn wrapping_reenters_at_the_other_edge() {
    assert_eq!(wrap(-1, 10), 9);
    assert_eq!(wrap(10, 10), 0);
    assert_eq!(wrap(23, 10), 3);
}

#[test]
fn turning_right_for_a_quarter_second() {
    let mut g = GameData::new(800, 600);
    g.toggle_turn_right(7);
    g.update(250);
    assert_eq!(g.world().player.vector.direction, 90_000);
    g.toggle_turn_right(0);
    g.toggle_turn_left(-1);
    g.update(500);
    assert_eq!(g.world().player.vector.direction, 270_000);
}

#[test]
fn toggles_latch_nonzero_as_true() {
    let mut g = GameData::new(10, 10);
    g.toggle_boost(3);
    assert_eq!(g.actions, Actions { shoot: false, boost: true, rotate_left: false, rotate_right: false });
    g.toggle_boost(0);
    assert_eq!(g.actions, Actions::new());
}

#[test]
fn enemies_spawn_inside_and_outside_the_grace_area() {
    let mut g = GameData::new(800, 600);
    g.update(ENEMY_SPAWN_RATE);
    assert_eq!(g.world().enemies.len(), 1);
    assert!(all_inside(&g));
    let e = g.world().enemies[0].position;
    let p = g.world().player.vector.position;
    let dx = (e.x - p.x) as i128;
    let dy = (e.y - p.y) as i128;
    // The grace area is 200 px; the push-out rounds down by at most a few micro-pixels.
    assert!(dx * dx + dy * dy >= (199 * PX as i128) * (199 * PX as i128));
}

#[test]
fn frame_past_the_end_of_time_is_refused() {
    let mut g = GameData::new(800, 600);
    g.time_controller.clock = Clock { now: u64::MAX - 5, last_trail: 0, last_shot: None, last_spawn: 0 };
    g.toggle_shoot(1);
    g.update(10);
    assert!(g.world().bullets.is_empty());
    assert_eq!(g.time_controller.clock.now, u64::MAX - 5);
    let _ = TimeController::new(1, 2);
}
