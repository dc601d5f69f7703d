use vstd::prelude::*;
use crate::geometry::{center_of, Size, Vector};
use crate::models::{Bullet, Enemy, Particle, Player, Velocity};

verus! {

/// What happens when an enemy reaches the player.
#[derive(Clone, Copy, Debug, PartialEq, Eq, Structural)]
pub enum PlayerHitPolicy {
    /// Only the enemies touching the player are destroyed.
    RemoveEnemy,
    /// The enemies touching the player are destroyed and the player starts over from
    /// the centre, at rest; the score and everything else are kept.
    ResetPlayer,
}

/// The entities of one arena.
pub struct World {
    pub player: Player,
    pub particles: Vec<Particle>,
    pub bullets: Vec<Bullet>,
    pub enemies: Vec<Enemy>,
    pub size: Size,
}

/// The mathematical content of a `World`.
pub struct WorldModel {
    pub player: Player,
    pub particles: Seq<Particle>,
    pub bullets: Seq<Bullet>,
    pub enemies: Seq<Enemy>,
    pub size: Size,
}

impl View for World {
    type V = WorldModel;

    open spec fn view(&self) -> WorldModel {
        WorldModel {
            player: self.player,
            particles: self.particles@,
            bullets: self.bullets@,
            enemies: self.enemies@,
            size: self.size,
        }
    }
}

impl WorldModel {
    /// Every entity lies inside the arena, with a valid heading and lifetime.
    pub open spec fn wf(self) -> bool {
        &&& self.size.wf()
        &&& self.player.within(self.size)
        &&& forall|i: int|
            0 <= i < self.particles.len() ==> #[trigger] self.particles[i].within(self.size)
        &&& forall|i: int| 0 <= i < self.bullets.len() ==> #[trigger] self.bullets[i].within(self.size)
        &&& forall|i: int|
            0 <= i < self.enemies.len() ==> self.size.contains(#[trigger] self.enemies[i].position)
    }
}

/// The player as it starts: in the centre, at rest, heading along the x axis.
pub open spec fn start_player(s: Size) -> Player {
    Player {
        vector: Vector { position: center_of(s), direction: 0 },
        velocity: Velocity { dx: 0, dy: 0 },
    }
}

/// The player as it starts in an arena of size `s`.
pub fn new_player(s: Size) -> (r: Player)
    requires
        s.wf(),
    ensures
        r == start_player(s),
        r.within(s),
{
    Player {
        vector: Vector { position: s.center(), direction: 0 },
        velocity: Velocity { dx: 0, dy: 0 },
    }
}

pub open spec fn fresh_world(s: Size) -> WorldModel {
    WorldModel {
        player: start_player(s),
        particles: Seq::empty(),
        bullets: Seq::empty(),
        enemies: Seq::empty(),
        size: s,
    }
}

impl World {
    /// An arena of size `s` holding only the player, in its start position.
    pub fn new(s: Size) -> (r: World)
        requires
            s.wf(),
        ensures
            r@ == fresh_world(s),
            r@.wf(),
    {
        World {
            player: new_player(s),
            particles: Vec::new(),
            bullets: Vec::new(),
            enemies: Vec::new(),
            size: s,
        }
    }
}

/// The world together with the score.
pub struct GameState {
    pub world: World,
    pub score: u64,
    pub policy: PlayerHitPolicy,
}

impl GameState {
    pub open spec fn wf(&self) -> bool {
        self.world@.wf()
    }

    pub fn new(s: Size) -> (r: GameState)
        requires
            s.wf(),
        ensures
            r.world@ == fresh_world(s),
            r.score == 0,
            r.policy == PlayerHitPolicy::RemoveEnemy,
            r.wf(),
    {
        GameState { world: World::new(s), score: 0, policy: PlayerHitPolicy::RemoveEnemy }
    }

    /// A fresh game with the given policy for player hits.
    pub fn with_policy(s: Size, policy: PlayerHitPolicy) -> (r: GameState)
        requires
            s.wf(),
        ensures
            r.world@ == fresh_world(s),
            r.score == 0,
            r.policy == policy,
            r.wf(),
    {
        GameState { world: World::new(s), score: 0, policy }
    }
}

} // verus!
