//! The world of a play session and the two states of the game.

use vstd::prelude::*;
use crate::asteroid::AsteroidEntity;
use crate::bullet::BulletEntity;
use crate::compass::{Compass, valid_table};
use crate::fixed::{Vec2, LIMIT};
use crate::helpers::despawn_query;
use crate::player::ShipInvincibility;
use crate::transforming::{Physics, Transform};
use crate::lifetime::Particle;
use crate::player::Player;
use crate::spawner::Spawner;
use crate::ui::{PlayerLives, Score, STARTING_LIVES};

verus! {

/// The length of the ship: 16.
pub const PLAYER_SIZE: i64 = 16_000_000;

/// Whether the game shows the menu or is being played.
#[derive(Clone, Copy, Debug, PartialEq, Eq, Structural)]
pub enum GameStates {
    Menu,
    Playing,
}

impl Default for GameStates {
    fn default() -> (s: GameStates)
        ensures
            s == GameStates::Menu,
    {
        GameStates::Menu
    }
}

/// Everything the simulation keeps: the state of the game, the two counters,
/// the ship, the spawner, and the tables of asteroids, bullets and particles.
pub struct World {
    pub state: GameStates,
    pub score: Score,
    pub lives: PlayerLives,
    pub player: Option<Player>,
    pub spawner: Option<Spawner>,
    pub asteroids: Vec<AsteroidEntity>,
    pub bullets: Vec<BulletEntity>,
    pub particles: Vec<Particle>,
    /// The directions that angles are turned into.
    pub compass: Compass,
}

/// A world as a mathematical value: each table is the sequence of its entries.
pub struct WorldView {
    pub state: GameStates,
    pub score: Score,
    pub lives: PlayerLives,
    pub player: Option<Player>,
    pub spawner: Option<Spawner>,
    pub asteroids: Seq<AsteroidEntity>,
    pub bullets: Seq<BulletEntity>,
    pub particles: Seq<Particle>,
    pub compass: Seq<Vec2>,
}

impl View for World {
    type V = WorldView;

    open spec fn view(&self) -> WorldView {
        WorldView {
            state: self.state,
            score: self.score,
            lives: self.lives,
            player: self.player,
            spawner: self.spawner,
            asteroids: self.asteroids@,
            bullets: self.bullets@,
            particles: self.particles@,
            compass: self.compass@,
        }
    }
}

impl WorldView {
    /// Whether every quantity is in range, with positions within `reach` of
    /// the origin, and the ship, where there is one, has a life left.
    pub open spec fn within(self, reach: int) -> bool {
        &&& valid_table(self.compass)
        &&& self.player matches Some(p) ==> p.within(reach) && self.lives.0 > 0
        &&& self.spawner matches Some(s) ==> s.wf()
        &&& forall|i: int| 0 <= i < self.asteroids.len() ==> (#[trigger] self.asteroids[i]).within(reach)
        &&& forall|i: int| 0 <= i < self.bullets.len() ==> (#[trigger] self.bullets[i]).within(reach)
        &&& forall|i: int| 0 <= i < self.particles.len() ==> (#[trigger] self.particles[i]).within(reach)
    }

    pub open spec fn wf(self) -> bool {
        self.within(LIMIT as int)
    }
}

impl World {
    pub open spec fn wf(&self) -> bool {
        self@.wf()
    }

    /// An empty world that shows the menu.
    pub fn new(compass: Compass) -> (w: World)
        ensures
            w@ == (WorldView {
                state: GameStates::Menu,
                score: Score(0),
                lives: PlayerLives(0),
                player: None,
                spawner: None,
                asteroids: Seq::empty(),
                bullets: Seq::empty(),
                particles: Seq::empty(),
                compass: compass@,
            }),
            w.wf(),
    {
        compass.len();
        World {
            state: GameStates::Menu,
            score: Score(0),
            lives: PlayerLives(0),
            player: None,
            spawner: None,
            asteroids: Vec::new(),
            bullets: Vec::new(),
            particles: Vec::new(),
            compass,
        }
    }
}

impl World {
    /// Tells whether the world is well formed, which every system asks of it.
    pub fn is_wf(&self) -> (b: bool)
        ensures
            b == self.wf(),
    {
        self.compass.len();
        if let Some(p) = self.player {
            if !p.is_wf() || self.lives.0 == 0 {
                return false;
            }
        }
        if let Some(s) = self.spawner {
            if !s.is_wf() {
                return false;
            }
        }
        let mut i: usize = 0;
        while i < self.asteroids.len()
            invariant
                0 <= i <= self.asteroids@.len(),
                forall|k: int| 0 <= k < i ==> (#[trigger] self.asteroids@[k]).wf(),
            decreases self.asteroids@.len() - i,
        {
            if !self.asteroids[i].is_wf() {
                assert(!self@.asteroids[i as int].wf());
                return false;
            }
            i += 1;
        }
        let mut i: usize = 0;
        while i < self.bullets.len()
            invariant
                0 <= i <= self.bullets@.len(),
                forall|k: int| 0 <= k < i ==> (#[trigger] self.bullets@[k]).wf(),
            decreases self.bullets@.len() - i,
        {
            if !self.bullets[i].is_wf() {
                assert(!self@.bullets[i as int].wf());
                return false;
            }
            i += 1;
        }
        let mut i: usize = 0;
        while i < self.particles.len()
            invariant
                0 <= i <= self.particles@.len(),
                forall|k: int| 0 <= k < i ==> (#[trigger] self.particles@[k]).wf(),
            decreases self.particles@.len() - i,
        {
            if !self.particles[i].is_wf() {
                assert(!self@.particles[i as int].wf());
                return false;
            }
            i += 1;
        }
        true
    }
}

/// The ship as a play session starts with it: at rest at the origin, not
/// turned, invincible and shown.
pub open spec fn first_player() -> Player {
    Player {
        transform: Transform { translation: Vec2 { x: 0, y: 0 }, rotation: 0 },
        physics: Physics {
            acc: Vec2 { x: 0, y: 0 },
            vel: Vec2 { x: 0, y: 0 },
            max_vel: Vec2 { x: crate::transforming::USUAL_MAX_VEL, y: crate::transforming::USUAL_MAX_VEL },
            rot_vel: 0,
        },
        invincibility: ShipInvincibility::fresh(),
        visible: true,
    }
}

/// Sets up a play session: the ship and the spawner are as a session starts
/// with them, the player has three lives and no points. The state of the
/// game, the asteroids, the bullets and the particles stay.
pub fn setup_playing_state(world: &mut World)
    ensures
        final(world)@ == (WorldView {
            score: Score(0),
            lives: PlayerLives(STARTING_LIVES),
            player: Some(first_player()),
            spawner: Some(
                Spawner { next_spawn: 0, next_spawn_time: crate::spawner::FIRST_SPAWN_TIME, spawned_count: 0 },
            ),
            ..old(world)@
        }),
        old(world).wf() ==> final(world).wf(),
{
    world.player = Some(
        Player {
            transform: Transform::from_xy(0, 0),
            physics: Physics::new(),
            invincibility: ShipInvincibility::new(),
            visible: true,
        },
    );
    world.lives.reset();
    world.score.clear();
    world.spawner = Some(Spawner::new());
}

/// Ends a play session: the ship, the spawner, the bullets, the asteroids and
/// the particles go. The counters and the state of the game stay.
pub fn cleanup_playing(world: &mut World)
    ensures
        final(world)@ == (WorldView {
            player: None,
            spawner: None,
            asteroids: Seq::empty(),
            bullets: Seq::empty(),
            particles: Seq::empty(),
            ..old(world)@
        }),
        final(world).wf(),
{
    world.compass.len();
    world.player = None;
    world.spawner = None;
    despawn_query(&mut world.bullets);
    despawn_query(&mut world.asteroids);
    despawn_query(&mut world.particles);
}

} // verus!
