//! Asteroids, and how one enters the field.

use vstd::prelude::*;
use crate::fixed::{Vec2, LIMIT, ONE};
use crate::helpers::random_range;
use crate::states::{World, WorldView};
use crate::transforming::{Physics, Transform, moved_physics, moved_transform, wrapped_transform};

verus! {

/// The size that the speed of a fragment is measured against: 50.
pub const MAX_SIZE: i64 = 50_000_000;

/// The cap on an asteroid's velocity along each axis: 50.
pub const ASTEROID_MAX_VEL: i64 = 50_000_000;

/// What makes an entity an asteroid: its size, which is its radius in a hit.
#[derive(Clone, Copy, Debug, PartialEq, Eq, Structural)]
pub struct Asteroid {
    pub size: i64,
}

/// An asteroid of the field.
#[derive(Clone, Copy, Debug, PartialEq, Eq, Structural)]
pub struct AsteroidEntity {
    pub transform: Transform,
    pub physics: Physics,
    pub asteroid: Asteroid,
}

impl AsteroidEntity {
    /// Whether the body is well formed, with its position within `reach`, and
    /// the size positive.
    pub open spec fn within(self, reach: int) -> bool {
        &&& self.transform.within(reach)
        &&& self.physics.wf()
        &&& 0 < self.asteroid.size <= LIMIT
    }

    pub open spec fn wf(self) -> bool {
        self.within(LIMIT as int)
    }

    /// Tells whether the asteroid is well formed.
    pub fn is_wf(&self) -> (b: bool)
        ensures
            b == self.wf(),
    {
        self.transform.is_wf() && self.physics.is_wf() && 0 < self.asteroid.size
            && self.asteroid.size <= LIMIT
    }

    /// The entity after one step of `dt`.
    pub open spec fn moved(self, dt: int) -> AsteroidEntity {
        AsteroidEntity {
            transform: moved_transform(self.transform, self.physics, dt),
            physics: moved_physics(self.physics, dt),
            ..self
        }
    }

    /// The entity brought back once across a viewport of the size `dims`.
    pub open spec fn wrapped(self, dims: Vec2) -> AsteroidEntity {
        AsteroidEntity { transform: wrapped_transform(self.transform, dims), ..self }
    }

    /// The asteroid of the given size that starts at `position`, not turned,
    /// with velocity `vel` and angular velocity `rot_vel`.
    pub open spec fn made(size: i64, position: Vec2, vel: Vec2, rot_vel: i64) -> AsteroidEntity {
        AsteroidEntity {
            transform: Transform { translation: position, rotation: 0 },
            physics: Physics {
                acc: Vec2 { x: 0, y: 0 },
                vel,
                max_vel: Vec2 { x: ASTEROID_MAX_VEL, y: ASTEROID_MAX_VEL },
                rot_vel,
            },
            asteroid: Asteroid { size },
        }
    }

    /// Makes an asteroid of the given size at `position`.
    pub fn new(size: i64, position: Vec2, vel: Vec2, rot_vel: i64) -> (a: AsteroidEntity)
        ensures
            a == AsteroidEntity::made(size, position, vel, rot_vel),
    {
        AsteroidEntity {
            transform: Transform::from_translation(position),
            physics: Physics {
                acc: Vec2::zero(),
                vel,
                max_vel: Vec2::new(ASTEROID_MAX_VEL, ASTEROID_MAX_VEL),
                rot_vel,
            },
            asteroid: Asteroid { size },
        }
    }
}

/// Whether `a` is an asteroid that `create_asteroid` may add for the given
/// size, position and velocity: it spins at less than one radian a second,
/// either way.
pub open spec fn created(a: AsteroidEntity, size: i64, position: Vec2, vel: Vec2) -> bool {
    exists|rot_vel: i64|
        -ONE <= rot_vel < ONE && a == #[trigger] AsteroidEntity::made(size, position, vel, rot_vel)
}

/// Adds one asteroid of the given size to the field, at `position` and with
/// velocity `vel`, spinning at a rate drawn at random.
pub fn create_asteroid(world: &mut World, size: i64, position: Vec2, vel: Vec2)
    ensures
        final(world)@ == (WorldView {
            asteroids: old(world)@.asteroids.push(final(world)@.asteroids.last()),
            ..old(world)@
        }),
        created(final(world)@.asteroids.last(), size, position, vel),
        old(world).wf() && 0 < size <= LIMIT && position.in_range() && vel.in_range()
            ==> final(world).wf(),
{
    let rot_vel: i64 = random_range(-ONE, ONE);
    let a = AsteroidEntity::new(size, position, vel, rot_vel);
    world.asteroids.push(a);
}

} // verus!
