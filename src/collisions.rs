use vstd::prelude::*;
use crate::game_state::{start_player, GameState, PlayerHitPolicy, WorldModel};
use crate::geometry::{dist2, intersect_circle, Point, Size, Vector, FULL_TURN};
use crate::models::{Bullet, Enemy, Particle, Player, BULLET_RADIUS, ENEMY_RADIUS, PLAYER_RADIUS};

verus! {

/// Points for each enemy shot down.
pub const SCORE_PER_ENEMY: u64 = 10;

/// Number of headings in an explosion, spread evenly over a full turn, both ends included.
pub const EXPLOSION_RAYS: u64 = 30;

/// Intensity of the burst when a bullet hits an enemy.
pub const BULLET_HIT_INTENSITY: u64 = 10;

/// Intensity of the burst when an enemy reaches the player.
pub const PLAYER_HIT_INTENSITY: u64 = 8;

/// The heading of ray `i` of an explosion.
pub open spec fn ray_direction(i: int) -> int {
    (FULL_TURN * i / (EXPLOSION_RAYS - 1) as int) % (FULL_TURN as int)
}

/// Particle `k` of a burst at `pos`: ray `k / (intensity - 1)`, and a life of
/// `100 * (k % (intensity - 1) + 1)` milliseconds.
pub open spec fn burst_particle(pos: Point, intensity: u64, k: int) -> Particle {
    let n = intensity - 1;
    Particle {
        vector: Vector { position: pos, direction: ray_direction(k / n) as i64 },
        ttl: (100 * (k % n + 1)) as u64,
    }
}

/// The particles of an explosion at `pos`: for each ray, one per step of intensity.
pub open spec fn explosion(pos: Point, intensity: u64) -> Seq<Particle> {
    Seq::new(
        (EXPLOSION_RAYS * (intensity - 1)) as nat,
        |k: int| burst_particle(pos, intensity, k),
    )
}

/// Appends the particles of an explosion at `pos` to `particles`.
pub fn make_explosion(particles: &mut Vec<Particle>, pos: Point, intensity: u64)
    requires
        2 <= intensity <= 10,
    ensures
        final(particles)@ == old(particles)@ + explosion(pos, intensity),
{
    let n = intensity - 1;
    let total = EXPLOSION_RAYS * n;
    let mut k: u64 = 0;
    while k < total
        invariant
            n == intensity - 1,
            2 <= intensity <= 10,
            total == EXPLOSION_RAYS * n,
            k <= total,
            particles@ == old(particles)@ + explosion(pos, intensity).take(k as int),
        decreases total - k,
    {
        let ray = k / n;
        assert(ray < EXPLOSION_RAYS) by (nonlinear_arith)
            requires
                ray == k / n,
                k < EXPLOSION_RAYS * n,
                n > 0,
        ;
        assert(360_000u64 * ray <= 360_000u64 * 30) by (nonlinear_arith)
            requires
                ray < 30,
        ;
        let direction = ((FULL_TURN as u64 * ray / (EXPLOSION_RAYS - 1)) % FULL_TURN as u64) as i64;
        assert(k % n < n) by (nonlinear_arith)
            requires
                n > 0,
        ;
        let ttl = 100 * (k % n + 1);
        let p = Particle::new(Vector { position: pos, direction }, ttl);
        assert(p == burst_particle(pos, intensity, k as int));
        particles.push(p);
        assert(explosion(pos, intensity).take(k + 1) =~= explosion(pos, intensity).take(
            k as int,
        ).push(p));
        k = k + 1;
    }
    assert(explosion(pos, intensity).take(total as int) =~= explosion(pos, intensity));
}

pub open spec fn bullet_hits(b: Bullet, e: Enemy) -> bool {
    dist2(b.vector.position, e.position) <= (BULLET_RADIUS + ENEMY_RADIUS) * (BULLET_RADIUS
        + ENEMY_RADIUS)
}

pub open spec fn player_hits(p: Player, e: Enemy) -> bool {
    dist2(p.vector.position, e.position) <= (PLAYER_RADIUS + ENEMY_RADIUS) * (PLAYER_RADIUS
        + ENEMY_RADIUS)
}

/// The index of the first enemy from `i` on that `b` hits, or -1.
pub open spec fn first_hit(b: Bullet, es: Seq<Enemy>, i: int) -> int
    decreases es.len() - i,
{
    if i < 0 || i >= es.len() {
        -1
    } else if bullet_hits(b, es[i]) {
        i
    } else {
        first_hit(b, es, i + 1)
    }
}

pub open spec fn midpoint(a: Point, b: Point) -> Point {
    Point { x: ((a.x + b.x) / 2) as i64, y: ((a.y + b.y) / 2) as i64 }
}

pub open spec fn add_score(score: u64, points: int) -> u64 {
    if score + points > u64::MAX {
        u64::MAX
    } else {
        (score + points) as u64
    }
}

/// What remains after the bullet collisions of a frame.
pub struct Resolution {
    pub bullets: Seq<Bullet>,
    pub enemies: Seq<Enemy>,
    pub particles: Seq<Particle>,
    pub kills: nat,
}

/// The state after the first `n` bullets of `bs` have been checked, in order, against
/// the enemies still alive: a bullet that hits destroys the first enemy it hits (and
/// only that one), both vanish and an explosion appears at their midpoint.
pub open spec fn resolve(bs: Seq<Bullet>, es: Seq<Enemy>, ps: Seq<Particle>, n: int) -> Resolution
    decreases n,
{
    if n <= 0 {
        Resolution { bullets: Seq::empty(), enemies: es, particles: ps, kills: 0 }
    } else {
        let r = resolve(bs, es, ps, n - 1);
        let b = bs[n - 1];
        let h = first_hit(b, r.enemies, 0);
        if h < 0 {
            Resolution { bullets: r.bullets.push(b), ..r }
        } else {
            Resolution {
                bullets: r.bullets,
                enemies: r.enemies.remove(h),
                particles: r.particles + explosion(
                    midpoint(b.vector.position, r.enemies[h].position),
                    BULLET_HIT_INTENSITY,
                ),
                kills: r.kills + 1,
            }
        }
    }
}

pub open spec fn resolve_all(w: WorldModel) -> Resolution {
    resolve(w.bullets, w.enemies, w.particles, w.bullets.len() as int)
}

proof fn lemma_explosion_within(pos: Point, intensity: u64, s: Size)
    requires
        2 <= intensity <= 10,
        s.contains(pos),
    ensures
        forall|k: int|
            0 <= k < explosion(pos, intensity).len() ==> #[trigger] explosion(
                pos,
                intensity,
            )[k].within(s),
{
    assert forall|k: int| 0 <= k < explosion(pos, intensity).len() implies #[trigger] explosion(
        pos,
        intensity,
    )[k].within(s) by {
        let n = intensity - 1;
        assert(0 <= k % (n as int) < n) by (nonlinear_arith)
            requires
                n > 0,
        ;
        assert(0 <= FULL_TURN * (k / (n as int)) / 29 % (FULL_TURN as int) < FULL_TURN) by (
        nonlinear_arith);
    }
}

/// Where an entity of the world may lie: inside the largest arena.
pub open spec fn in_bounds(p: Point) -> bool {
    0 <= p.x <= crate::geometry::MAX_SIDE_PIXELS * crate::geometry::UNITS_PER_PIXEL && 0 <= p.y
        <= crate::geometry::MAX_SIDE_PIXELS * crate::geometry::UNITS_PER_PIXEL
}

/// The index of the first enemy that `b` hits.
pub fn find_hit(b: &Bullet, es: &Vec<Enemy>) -> (r: Option<usize>)
    requires
        in_bounds(b.vector.position),
        forall|i: int| 0 <= i < es@.len() ==> in_bounds(#[trigger] es@[i].position),
    ensures
        r is None <==> first_hit(*b, es@, 0) == -1,
        r matches Some(i) ==> i == first_hit(*b, es@, 0),
{
    let mut i: usize = 0;
    while i < es.len()
        invariant
            0 <= i <= es@.len(),
            in_bounds(b.vector.position),
            forall|j: int| 0 <= j < es@.len() ==> in_bounds(#[trigger] es@[j].position),
            first_hit(*b, es@, 0) == first_hit(*b, es@, i as int),
        decreases es@.len() - i,
    {
        if intersect_circle(b.vector.position, es[i].position, BULLET_RADIUS + ENEMY_RADIUS) {
            return Some(i);
        }
        i = i + 1;
    }
    None
}

/// A bullet is matched with an enemy exactly when some enemy lies within the sum of
/// the two radii, and the enemy matched is the first such one.
pub proof fn lemma_first_hit_range(b: Bullet, es: Seq<Enemy>, i: int)
    requires
        0 <= i,
    ensures
        first_hit(b, es, i) == -1 || (i <= first_hit(b, es, i) < es.len() && bullet_hits(
            b,
            es[first_hit(b, es, i)],
        )),
        first_hit(b, es, i) == -1 ==> forall|j: int| i <= j < es.len() ==> !bullet_hits(b, #[trigger] es[j]),
        first_hit(b, es, i) != -1 ==> forall|j: int| i <= j < first_hit(b, es, i) ==> !bullet_hits(b, #[trigger] es[j]),
    decreases es.len() - i,
{
    if i < es.len() && !bullet_hits(b, es[i]) {
        lemma_first_hit_range(b, es, i + 1);
    }
}

/// Collisions are resolved completely: once the bullets of a frame have been checked, no
/// bullet left lies within the sum of the radii of any enemy left.
pub proof fn lemma_no_overlap_left(bs: Seq<Bullet>, es: Seq<Enemy>, ps: Seq<Particle>, n: int)
    requires
        0 <= n <= bs.len(),
    ensures
        ({
            let r = resolve(bs, es, ps, n);
            forall|i: int, j: int|
                0 <= i < r.bullets.len() && 0 <= j < r.enemies.len() ==> !bullet_hits(
                    #[trigger] r.bullets[i],
                    #[trigger] r.enemies[j],
                )
        }),
    decreases n,
{
    if n > 0 {
        lemma_no_overlap_left(bs, es, ps, n - 1);
        let r0 = resolve(bs, es, ps, n - 1);
        let r = resolve(bs, es, ps, n);
        let b = bs[n - 1];
        let h = first_hit(b, r0.enemies, 0);
        lemma_first_hit_range(b, r0.enemies, 0);
        if h < 0 {
            assert forall|i: int, j: int|
                0 <= i < r.bullets.len() && 0 <= j < r.enemies.len() implies !bullet_hits(
                #[trigger] r.bullets[i],
                #[trigger] r.enemies[j],
            ) by {
                if i < r0.bullets.len() {
                    assert(r.bullets[i] == r0.bullets[i]);
                }
            }
        } else {
            assert forall|i: int, j: int|
                0 <= i < r.bullets.len() && 0 <= j < r.enemies.len() implies !bullet_hits(
                #[trigger] r.bullets[i],
                #[trigger] r.enemies[j],
            ) by {
                if j < h {
                    assert(r.enemies[j] == r0.enemies[j]);
                } else {
                    assert(r.enemies[j] == r0.enemies[j + 1]);
                }
            }
        }
    }
}

/// The enemies that do not touch the player.
pub open spec fn spared(p: Player, es: Seq<Enemy>) -> Seq<Enemy> {
    es.filter(|e: Enemy| !player_hits(p, e))
}

/// Whether some enemy touches the player.
pub open spec fn player_hit(p: Player, es: Seq<Enemy>) -> bool {
    exists|i: int| 0 <= i < es.len() && player_hits(p, #[trigger] es[i])
}

/// The world and score after enemies touching the player are dealt with under `policy`.
pub open spec fn after_player_hits(w: WorldModel, score: u64, policy: PlayerHitPolicy) -> (
    WorldModel,
    u64,
) {
    if !player_hit(w.player, w.enemies) {
        (w, score)
    } else {
        let particles = w.particles + explosion(w.player.vector.position, PLAYER_HIT_INTENSITY);
        let enemies = spared(w.player, w.enemies);
        let player = match policy {
            PlayerHitPolicy::RemoveEnemy => w.player,
            PlayerHitPolicy::ResetPlayer => start_player(w.size),
        };
        (WorldModel { player, enemies, particles, ..w }, score)
    }
}

/// The state after one frame of collisions: bullets first, then the player.
pub open spec fn collided(w: WorldModel, score: u64, policy: PlayerHitPolicy) -> (WorldModel, u64) {
    let r = resolve_all(w);
    after_player_hits(
        WorldModel { bullets: r.bullets, enemies: r.enemies, particles: r.particles, ..w },
        add_score(score, SCORE_PER_ENEMY * r.kills),
        policy,
    )
}

/// After the collisions of a frame are resolved no touching pair is left: no bullet
/// lies within reach of an enemy, and no enemy touches the player where it was hit
/// (where it still stands unless the policy sends it back to the start).
pub proof fn lemma_no_contact_left(w: WorldModel, score: u64, policy: PlayerHitPolicy)
    ensures
        ({
            let after = collided(w, score, policy).0;
            let r = resolve_all(w);
            &&& forall|i: int, j: int|
                0 <= i < after.bullets.len() && 0 <= j < after.enemies.len() ==> !bullet_hits(
                    #[trigger] after.bullets[i],
                    #[trigger] after.enemies[j],
                )
            &&& forall|j: int|
                0 <= j < after.enemies.len() ==> !player_hits(w.player, #[trigger] after.enemies[j])
            &&& policy == PlayerHitPolicy::RemoveEnemy ==> after.player == w.player
        }),
{
    let r = resolve_all(w);
    lemma_no_overlap_left(w.bullets, w.enemies, w.particles, w.bullets.len() as int);
    let pred = |e: Enemy| !player_hits(w.player, e);
    let after = collided(w, score, policy).0;
    if player_hit(w.player, r.enemies) {
        let kept = spared(w.player, r.enemies);
        assert forall|j: int| 0 <= j < kept.len() implies !player_hits(
            w.player,
            #[trigger] kept[j],
        ) && exists|k: int| 0 <= k < r.enemies.len() && r.enemies[k] == kept[j] by {
            r.enemies.lemma_filter_pred(pred, j);
            assert(kept.contains(kept[j]));
            r.enemies.lemma_filter_contains_rev(pred, kept[j]);
        }
        assert forall|i: int, j: int|
            0 <= i < after.bullets.len() && 0 <= j < after.enemies.len() implies !bullet_hits(
            #[trigger] after.bullets[i],
            #[trigger] after.enemies[j],
        ) by {
            let k = choose|k: int| 0 <= k < r.enemies.len() && r.enemies[k] == kept[j];
            assert(!bullet_hits(r.bullets[i], r.enemies[k]));
        }
    } else {
        assert forall|j: int| 0 <= j < after.enemies.len() implies !player_hits(
            w.player,
            #[trigger] after.enemies[j],
        ) by {
            if player_hits(w.player, r.enemies[j]) {
                assert(player_hit(w.player, r.enemies));
            }
        }
    }
}

/// Finds and resolves the collisions of a frame.
pub struct CollisionsController;

impl CollisionsController {
    /// Resolves the collisions of one frame: bullets against enemies, then enemies
    /// against the player.
    pub fn handle_collisions(state: &mut GameState)
        requires
            old(state).wf(),
        ensures
            (final(state).world@, final(state).score) == collided(
                old(state).world@,
                old(state).score,
                old(state).policy,
            ),
            final(state).policy == old(state).policy,
            final(state).wf(),
    {
        state.handle_bullet_collisions();
        state.handle_player_collisions();
    }
}

impl GameState {
    /// Deals with enemies touching the player: see `after_player_hits`.
    pub fn handle_player_collisions(&mut self)
        requires
            old(self).wf(),
        ensures
            (final(self).world@, final(self).score) == after_player_hits(
                old(self).world@,
                old(self).score,
                old(self).policy,
            ),
            final(self).policy == old(self).policy,
            final(self).wf(),
            forall|i: int|
                0 <= i < final(self).world@.enemies.len() ==> !player_hits(
                    old(self).world.player,
                    #[trigger] final(self).world@.enemies[i],
                ),
    {
        let ghost w0 = self.world@;
        let ghost pred = |e: Enemy| !player_hits(w0.player, e);
        let player = self.world.player;
        let mut kept: Vec<Enemy> = Vec::new();
        let mut hit = false;
        let mut i: usize = 0;
        while i < self.world.enemies.len()
            invariant
                self.world@ == w0,
                w0.wf(),
                player == w0.player,
                0 <= i <= w0.enemies.len(),
                pred == (|e: Enemy| !player_hits(w0.player, e)),
                kept@ == w0.enemies.take(i as int).filter(pred),
                hit <==> exists|j: int| 0 <= j < i && player_hits(player, #[trigger] w0.enemies[j]),
            decreases w0.enemies.len() - i,
        {
            let e = self.world.enemies[i];
            assert(w0.size.contains(w0.enemies[i as int].position));
            let touches = intersect_circle(
                player.vector.position,
                e.position,
                PLAYER_RADIUS + ENEMY_RADIUS,
            );
            proof {
                let t = w0.enemies.take(i + 1);
                assert(t.drop_last() =~= w0.enemies.take(i as int));
                assert(t.last() == e);
                assert(player_hits(player, e) == touches);
                assert(pred(e) == !touches);
                assert(t.filter(pred) == if pred(e) {
                    t.drop_last().filter(pred).push(e)
                } else {
                    t.drop_last().filter(pred)
                }) by {
                    reveal(Seq::filter);
                }
            }
            if touches {
                hit = true;
            } else {
                kept.push(e);
            }
            i = i + 1;
        }
        assert(w0.enemies.take(w0.enemies.len() as int) =~= w0.enemies);
        if !hit {
            return;
        }
        let pos = player.vector.position;
        proof {
            lemma_explosion_within(pos, PLAYER_HIT_INTENSITY, w0.size);
            w0.enemies.lemma_filter_len(pred);
            assert forall|j: int| 0 <= j < kept@.len() implies w0.size.contains(#[trigger] kept@[j].position) by {
                assert(kept@.contains(kept@[j]));
                w0.enemies.lemma_filter_contains_rev(pred, kept@[j]);
                let k = choose|k: int| 0 <= k < w0.enemies.len() && w0.enemies[k] == kept@[j];
                assert(w0.size.contains(w0.enemies[k].position));
            }
        }
        make_explosion(&mut self.world.particles, pos, PLAYER_HIT_INTENSITY);
        proof {
            let wm = self.world@;
            let ex = explosion(pos, PLAYER_HIT_INTENSITY);
            assert forall|j: int| 0 <= j < wm.particles.len() implies #[trigger] wm.particles[j].within(wm.size) by {
                if j < w0.particles.len() {
                    assert(w0.particles[j] == wm.particles[j]);
                    assert(w0.particles[j].within(w0.size));
                } else {
                    assert(ex[j - w0.particles.len()] == wm.particles[j]);
                    assert(ex[j - w0.particles.len()].within(w0.size));
                }
            }
            assert(wm.bullets == w0.bullets);
            assert(wm.enemies == w0.enemies);
        }
        proof {
            assert forall|j: int| 0 <= j < kept@.len() implies !player_hits(
                player,
                #[trigger] kept@[j],
            ) by {
                w0.enemies.lemma_filter_pred(pred, j);
            }
        }
        let ghost w2 = self.world@;
        self.world.enemies = kept;
        match self.policy {
            PlayerHitPolicy::RemoveEnemy => {},
            PlayerHitPolicy::ResetPlayer => {
                self.world.player = crate::game_state::new_player(self.world.size);
            },
        }
        assert(self.world@.particles == w2.particles);
        assert(self.world@.bullets == w2.bullets);
    }

    /// Checks every bullet, in order, against the enemies still alive: see `resolve`.
    /// Each kill adds `SCORE_PER_ENEMY` points, saturating at the largest score.
    pub fn handle_bullet_collisions(&mut self)
        requires
            old(self).wf(),
        ensures
            ({
                let r = resolve_all(old(self).world@);
                &&& final(self).world@ == (WorldModel {
                    bullets: r.bullets,
                    enemies: r.enemies,
                    particles: r.particles,
                    ..old(self).world@
                })
                &&& final(self).score == add_score(old(self).score, SCORE_PER_ENEMY * r.kills)
            }),
            final(self).policy == old(self).policy,
            final(self).wf(),
    {
        let ghost w0 = self.world@;
        let n = self.world.bullets.len();
        let mut kept: Vec<Bullet> = Vec::new();
        let mut i: usize = 0;
        let ghost mut kills: nat = 0;
        while i < n
            invariant
                n == w0.bullets.len(),
                0 <= i <= n,
                self.world.bullets@ == w0.bullets,
                self.world.player == w0.player,
                self.world.size == w0.size,
                self.policy == old(self).policy,
                ({
                    let r = resolve(w0.bullets, w0.enemies, w0.particles, i as int);
                    &&& kept@ == r.bullets
                    &&& self.world.enemies@ == r.enemies
                    &&& self.world.particles@ == r.particles
                    &&& kills == r.kills
                }),
                self.score == add_score(old(self).score, SCORE_PER_ENEMY * kills),
                w0.wf(),
                self.world@.wf(),
                forall|j: int| 0 <= j < kept@.len() ==> #[trigger] kept@[j].within(w0.size),
            decreases n - i,
        {
            let b = self.world.bullets[i];
            let ghost wb = self.world@;
            assert(b.within(w0.size));
            proof {
                let wm = self.world@;
                let es = self.world.enemies@;
                assert forall|j: int| 0 <= j < es.len() implies in_bounds(#[trigger] es[j].position) by {
                    assert(wm.size.contains(wm.enemies[j].position));
                }
            }
            let hit = find_hit(&b, &self.world.enemies);
            proof {
                lemma_first_hit_range(b, self.world.enemies@, 0);
            }
            match hit {
                None => {
                    kept.push(b);
                },
                Some(h) => {
                    proof {
                        let wm = self.world@;
                        assert(wm.size.contains(wm.enemies[h as int].position));
                    }
                    let ghost es0 = self.world.enemies@;
                    let e = self.world.enemies.remove(h);
                    proof {
                        let wm = self.world@;
                        assert forall|j: int| 0 <= j < wm.enemies.len() implies wm.size.contains(#[trigger] wm.enemies[j].position) by {
                            if j < h {
                                assert(es0[j] == wm.enemies[j]);
                            } else {
                                assert(es0[j + 1] == wm.enemies[j]);
                            }
                        }
                    }
                    let mid = Point {
                        x: (b.vector.position.x + e.position.x) / 2,
                        y: (b.vector.position.y + e.position.y) / 2,
                    };
                    assert(mid == midpoint(b.vector.position, e.position));
                    proof {
                        lemma_explosion_within(mid, BULLET_HIT_INTENSITY, w0.size);
                    }
                    let ghost ps0 = self.world.particles@;
                    make_explosion(&mut self.world.particles, mid, BULLET_HIT_INTENSITY);
                    proof {
                        let wm = self.world@;
                        let ex = explosion(mid, BULLET_HIT_INTENSITY);
                        assert forall|j: int| 0 <= j < wm.particles.len() implies #[trigger] wm.particles[j].within(wm.size) by {
                            if j < ps0.len() {
                                assert(ps0[j] == wm.particles[j]);
                                assert(wb.particles[j].within(wb.size));
                            } else {
                                assert(ex[j - ps0.len()] == wm.particles[j]);
                                assert(ex[j - ps0.len()].within(w0.size));
                            }
                        }
                    }
                    self.score = if self.score > u64::MAX - SCORE_PER_ENEMY {
                        u64::MAX
                    } else {
                        self.score + SCORE_PER_ENEMY
                    };
                    proof {
                        kills = kills + 1;
                    }
                },
            }
            i = i + 1;
        }
        let ghost w1 = self.world@;
        self.world.bullets = kept;
        assert(self.world@.bullets == kept@);
        assert(self.world@.particles == w1.particles);
        assert(self.world@.enemies == w1.enemies);
        assert forall|j: int| 0 <= j < self.world@.bullets.len() implies #[trigger] self.world@.bullets[j].within(self.world@.size) by {
            assert(kept@[j].within(w0.size));
        }
    }
}

} // verus!
