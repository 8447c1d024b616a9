//! Where a body is, how it moves, and the two systems that move every body
//! and keep it on the screen.

use vstd::prelude::*;
use crate::asteroid::AsteroidEntity;
use crate::bullet::BulletEntity;
use crate::lifetime::Particle;
use crate::player::Player;
use crate::states::{World, WorldView};
use crate::fixed::{Vec2, LIMIT, TAU, clamp, clamped, fixed_mul, fmul, in_range, turned, valid_step, wrap_angle};

verus! {

/// The farthest from the origin, along either axis, that a move can carry a
/// body whose position and velocity were in range.
pub const REACH: i64 = 2_000_000_000_000_000_000;

/// The cap along each axis of a body made without one of its own: 200.
pub const USUAL_MAX_VEL: i64 = 200_000_000;

/// The position of a body and the angle it is turned by, in `[0, TAU)`.
#[derive(Clone, Copy, Debug, PartialEq, Eq, Structural)]
pub struct Transform {
    pub translation: Vec2,
    pub rotation: i64,
}

impl Transform {
    /// Whether the angle is normalised and the position at most `reach` from
    /// the origin along either axis.
    pub open spec fn within(self, reach: int) -> bool {
        &&& -reach <= self.translation.x <= reach
        &&& -reach <= self.translation.y <= reach
        &&& 0 <= self.rotation < TAU
    }

    pub open spec fn wf(self) -> bool {
        self.within(LIMIT as int)
    }

    /// Tells whether the transform is well formed.
    pub fn is_wf(&self) -> (b: bool)
        ensures
            b == self.wf(),
    {
        -LIMIT <= self.translation.x && self.translation.x <= LIMIT && -LIMIT
            <= self.translation.y && self.translation.y <= LIMIT && 0 <= self.rotation
            && self.rotation < TAU
    }

    /// A body at `(x, y)` that is not turned.
    pub fn from_xy(x: i64, y: i64) -> (t: Transform)
        ensures
            t == (Transform { translation: Vec2 { x, y }, rotation: 0 }),
    {
        Transform { translation: Vec2 { x, y }, rotation: 0 }
    }

    /// A body at `translation` that is not turned.
    pub fn from_translation(translation: Vec2) -> (t: Transform)
        ensures
            t == (Transform { translation, rotation: 0 }),
    {
        Transform { translation, rotation: 0 }
    }
}

/// The kinematic state of a body: acceleration, velocity, the cap on the
/// velocity along each axis, and the angular velocity.
#[derive(Clone, Copy, Debug, PartialEq, Eq, Structural)]
pub struct Physics {
    pub acc: Vec2,
    pub vel: Vec2,
    pub max_vel: Vec2,
    pub rot_vel: i64,
}

impl Physics {
    /// Whether every quantity is in range and the cap is not negative.
    pub open spec fn wf(self) -> bool {
        &&& self.acc.in_range()
        &&& self.vel.in_range()
        &&& 0 <= self.max_vel.x <= LIMIT
        &&& 0 <= self.max_vel.y <= LIMIT
        &&& in_range(self.rot_vel as int)
    }

    /// Whether the velocity is within the cap along both axes.
    pub open spec fn capped(self) -> bool {
        &&& -self.max_vel.x <= self.vel.x <= self.max_vel.x
        &&& -self.max_vel.y <= self.vel.y <= self.max_vel.y
    }

    /// Tells whether the kinematic state is well formed.
    pub fn is_wf(&self) -> (b: bool)
        ensures
            b == self.wf(),
    {
        -LIMIT <= self.acc.x && self.acc.x <= LIMIT && -LIMIT <= self.acc.y && self.acc.y <= LIMIT
            && -LIMIT <= self.vel.x && self.vel.x <= LIMIT && -LIMIT <= self.vel.y && self.vel.y
            <= LIMIT && 0 <= self.max_vel.x && self.max_vel.x <= LIMIT && 0 <= self.max_vel.y
            && self.max_vel.y <= LIMIT && -LIMIT <= self.rot_vel && self.rot_vel <= LIMIT
    }

    /// A body at rest with the usual cap of 200 along each axis.
    pub fn new() -> (p: Physics)
        ensures
            p == (Physics {
                acc: Vec2 { x: 0, y: 0 },
                vel: Vec2 { x: 0, y: 0 },
                max_vel: Vec2 { x: USUAL_MAX_VEL, y: USUAL_MAX_VEL },
                rot_vel: 0,
            }),
            p.wf(),
    {
        Physics {
            acc: Vec2::zero(),
            vel: Vec2::zero(),
            max_vel: Vec2::new(USUAL_MAX_VEL, USUAL_MAX_VEL),
            rot_vel: 0,
        }
    }

    /// A body that moves at `vel`, with the usual cap of 200 along each axis.
    pub fn new_with_vel(vel: Vec2) -> (p: Physics)
        ensures
            p == (Physics {
                acc: Vec2 { x: 0, y: 0 },
                vel,
                max_vel: Vec2 { x: USUAL_MAX_VEL, y: USUAL_MAX_VEL },
                rot_vel: 0,
            }),
            vel.in_range() ==> p.wf(),
    {
        Physics {
            acc: Vec2::zero(),
            vel,
            max_vel: Vec2::new(USUAL_MAX_VEL, USUAL_MAX_VEL),
            rot_vel: 0,
        }
    }

    /// Brings the body to rest; the cap stays.
    pub fn reset(&mut self)
        ensures
            *final(self) == (Physics {
                acc: Vec2 { x: 0, y: 0 },
                vel: Vec2 { x: 0, y: 0 },
                max_vel: old(self).max_vel,
                rot_vel: 0,
            }),
    {
        self.acc = Vec2::zero();
        self.vel = Vec2::zero();
        self.rot_vel = 0;
    }
}

impl Default for Physics {
    /// A body at rest whose cap is zero.
    fn default() -> (p: Physics)
        ensures
            p == (Physics {
                acc: Vec2 { x: 0, y: 0 },
                vel: Vec2 { x: 0, y: 0 },
                max_vel: Vec2 { x: 0, y: 0 },
                rot_vel: 0,
            }),
    {
        Physics { acc: Vec2::zero(), vel: Vec2::zero(), max_vel: Vec2::zero(), rot_vel: 0 }
    }
}

/// Where one step of `dt` carries a body: the position advances by the
/// velocity the body had before the step, and the angle by the angular
/// velocity, whole turns set aside.
pub open spec fn moved_transform(t: Transform, p: Physics, dt: int) -> Transform {
    Transform {
        translation: Vec2 {
            x: (t.translation.x + fmul(p.vel.x as int, dt)) as i64,
            y: (t.translation.y + fmul(p.vel.y as int, dt)) as i64,
        },
        rotation: turned(t.rotation + fmul(p.rot_vel as int, dt)) as i64,
    }
}

/// How one step of `dt` changes the kinematic state: the acceleration is added
/// to the velocity, which is then held within the cap along each axis.
pub open spec fn moved_physics(p: Physics, dt: int) -> Physics {
    Physics {
        acc: p.acc,
        vel: Vec2 {
            x: clamped(
                p.vel.x + fmul(p.acc.x as int, dt),
                -(p.max_vel.x as int),
                p.max_vel.x as int,
            ) as i64,
            y: clamped(
                p.vel.y + fmul(p.acc.y as int, dt),
                -(p.max_vel.y as int),
                p.max_vel.y as int,
            ) as i64,
        },
        max_vel: p.max_vel,
        rot_vel: p.rot_vel,
    }
}

/// Moves one body by a step of `dt`.
pub fn integrate(t: Transform, p: Physics, dt: i64) -> (r: (Transform, Physics))
    requires
        t.wf(),
        p.wf(),
        valid_step(dt as int),
    ensures
        r.0 == moved_transform(t, p, dt as int),
        r.1 == moved_physics(p, dt as int),
        r.0.translation.x == t.translation.x + fmul(p.vel.x as int, dt as int),
        r.0.translation.y == t.translation.y + fmul(p.vel.y as int, dt as int),
        r.0.within(REACH as int),
        r.1.wf(),
        r.1.capped(),
{
    let x: i64 = t.translation.x + fixed_mul(p.vel.x, dt);
    let y: i64 = t.translation.y + fixed_mul(p.vel.y, dt);
    let vx: i64 = clamp(p.vel.x + fixed_mul(p.acc.x, dt), -p.max_vel.x, p.max_vel.x);
    let vy: i64 = clamp(p.vel.y + fixed_mul(p.acc.y, dt), -p.max_vel.y, p.max_vel.y);
    let rotation: i64 = wrap_angle(t.rotation + fixed_mul(p.rot_vel, dt));
    (
        Transform { translation: Vec2 { x, y }, rotation },
        Physics { acc: p.acc, vel: Vec2 { x: vx, y: vy }, max_vel: p.max_vel, rot_vel: p.rot_vel },
    )
}

/// A coordinate brought back once across a span centred on zero: a span
/// less when it lies beyond the upper half, then a span more when it lies
/// beyond the lower half.
pub open spec fn wrapped(c: int, span: int) -> int {
    let down: int = if c > span / 2 { c - span } else { c };
    if down < -(span / 2) { down + span } else { down }
}

/// A body brought back once across a viewport of the given width and height.
pub open spec fn wrapped_transform(t: Transform, dims: Vec2) -> Transform {
    Transform {
        translation: Vec2 {
            x: wrapped(t.translation.x as int, dims.x as int) as i64,
            y: wrapped(t.translation.y as int, dims.y as int) as i64,
        },
        rotation: t.rotation,
    }
}

/// The greatest width or height a viewport may have: 600000. A point one
/// and a half times as far from the origin is still in range.
pub const MAX_VIEWPORT: i64 = 600_000_000_000;

/// Whether `dims` can be the width and height of a viewport.
pub open spec fn valid_viewport(dims: Vec2) -> bool {
    0 <= dims.x <= MAX_VIEWPORT && 0 <= dims.y <= MAX_VIEWPORT
}

/// Brings one coordinate back once across a span centred on zero.
pub fn wrap_coordinate(c: i64, span: i64) -> (r: i64)
    requires
        -REACH <= c <= REACH,
        0 <= span <= MAX_VIEWPORT,
    ensures
        r == wrapped(c as int, span as int),
{
    let half: i64 = span / 2;
    let down: i64 = if c > half { c - span } else { c };
    if down < -half { down + span } else { down }
}

/// Brings one body back once across the viewport.
pub fn wrap(t: Transform, dims: Vec2) -> (r: Transform)
    requires
        t.within(REACH as int),
        valid_viewport(dims),
    ensures
        r == wrapped_transform(t, dims),
{
    Transform {
        translation: Vec2 {
            x: wrap_coordinate(t.translation.x, dims.x),
            y: wrap_coordinate(t.translation.y, dims.y),
        },
        rotation: t.rotation,
    }
}

fn move_asteroids(table: &mut Vec<AsteroidEntity>, dt: i64)
    requires
        forall|i: int| 0 <= i < old(table)@.len() ==> (#[trigger] old(table)@[i]).wf(),
        valid_step(dt as int),
    ensures
        final(table)@ == old(table)@.map_values(|e: AsteroidEntity| e.moved(dt as int)),
        forall|i: int| 0 <= i < final(table)@.len() ==> (#[trigger] final(table)@[i]).within(REACH as int),
{
    let mut i: usize = 0;
    while i < table.len()
        invariant
            0 <= i <= table@.len(),
            table@.len() == old(table)@.len(),
            valid_step(dt as int),
            forall|j: int| 0 <= j < i ==> #[trigger] table@[j] == old(table)@[j].moved(dt as int),
            forall|j: int| 0 <= j < i ==> (#[trigger] table@[j]).within(REACH as int),
            forall|j: int| i <= j < table@.len() ==> #[trigger] table@[j] == old(table)@[j],
            forall|j: int| 0 <= j < old(table)@.len() ==> (#[trigger] old(table)@[j]).wf(),
        decreases table@.len() - i,
    {
        let mut e: AsteroidEntity = table[i];
        let r = integrate(e.transform, e.physics, dt);
        e.transform = r.0;
        e.physics = r.1;
        table.set(i, e);
        i += 1;
    }
    assert(table@ =~= old(table)@.map_values(|e: AsteroidEntity| e.moved(dt as int)));
}

fn wrap_asteroids(table: &mut Vec<AsteroidEntity>, dims: Vec2)
    requires
        forall|i: int| 0 <= i < old(table)@.len() ==> (#[trigger] old(table)@[i]).transform.within(REACH as int),
        valid_viewport(dims),
    ensures
        final(table)@ == old(table)@.map_values(|e: AsteroidEntity| e.wrapped(dims)),
{
    let mut i: usize = 0;
    while i < table.len()
        invariant
            0 <= i <= table@.len(),
            table@.len() == old(table)@.len(),
            valid_viewport(dims),
            forall|j: int| 0 <= j < i ==> #[trigger] table@[j] == old(table)@[j].wrapped(dims),
            forall|j: int| i <= j < table@.len() ==> #[trigger] table@[j] == old(table)@[j],
            forall|j: int| 0 <= j < old(table)@.len() ==> (#[trigger] old(table)@[j]).transform.within(REACH as int),
        decreases table@.len() - i,
    {
        let mut e: AsteroidEntity = table[i];
        e.transform = wrap(e.transform, dims);
        table.set(i, e);
        i += 1;
    }
    assert(table@ =~= old(table)@.map_values(|e: AsteroidEntity| e.wrapped(dims)));
}

fn move_bullets(table: &mut Vec<BulletEntity>, dt: i64)
    requires
        forall|i: int| 0 <= i < old(table)@.len() ==> (#[trigger] old(table)@[i]).wf(),
        valid_step(dt as int),
    ensures
        final(table)@ == old(table)@.map_values(|e: BulletEntity| e.moved(dt as int)),
        forall|i: int| 0 <= i < final(table)@.len() ==> (#[trigger] final(table)@[i]).within(REACH as int),
{
    let mut i: usize = 0;
    while i < table.len()
        invariant
            0 <= i <= table@.len(),
            table@.len() == old(table)@.len(),
            valid_step(dt as int),
            forall|j: int| 0 <= j < i ==> #[trigger] table@[j] == old(table)@[j].moved(dt as int),
            forall|j: int| 0 <= j < i ==> (#[trigger] table@[j]).within(REACH as int),
            forall|j: int| i <= j < table@.len() ==> #[trigger] table@[j] == old(table)@[j],
            forall|j: int| 0 <= j < old(table)@.len() ==> (#[trigger] old(table)@[j]).wf(),
        decreases table@.len() - i,
    {
        let mut e: BulletEntity = table[i];
        let r = integrate(e.transform, e.physics, dt);
        e.transform = r.0;
        e.physics = r.1;
        table.set(i, e);
        i += 1;
    }
    assert(table@ =~= old(table)@.map_values(|e: BulletEntity| e.moved(dt as int)));
}

fn wrap_bullets(table: &mut Vec<BulletEntity>, dims: Vec2)
    requires
        forall|i: int| 0 <= i < old(table)@.len() ==> (#[trigger] old(table)@[i]).transform.within(REACH as int),
        valid_viewport(dims),
    ensures
        final(table)@ == old(table)@.map_values(|e: BulletEntity| e.wrapped(dims)),
{
    let mut i: usize = 0;
    while i < table.len()
        invariant
            0 <= i <= table@.len(),
            table@.len() == old(table)@.len(),
            valid_viewport(dims),
            forall|j: int| 0 <= j < i ==> #[trigger] table@[j] == old(table)@[j].wrapped(dims),
            forall|j: int| i <= j < table@.len() ==> #[trigger] table@[j] == old(table)@[j],
            forall|j: int| 0 <= j < old(table)@.len() ==> (#[trigger] old(table)@[j]).transform.within(REACH as int),
        decreases table@.len() - i,
    {
        let mut e: BulletEntity = table[i];
        e.transform = wrap(e.transform, dims);
        table.set(i, e);
        i += 1;
    }
    assert(table@ =~= old(table)@.map_values(|e: BulletEntity| e.wrapped(dims)));
}

fn move_particles(table: &mut Vec<Particle>, dt: i64)
    requires
        forall|i: int| 0 <= i < old(table)@.len() ==> (#[trigger] old(table)@[i]).wf(),
        valid_step(dt as int),
    ensures
        final(table)@ == old(table)@.map_values(|e: Particle| e.moved(dt as int)),
        forall|i: int| 0 <= i < final(table)@.len() ==> (#[trigger] final(table)@[i]).within(REACH as int),
{
    let mut i: usize = 0;
    while i < table.len()
        invariant
            0 <= i <= table@.len(),
            table@.len() == old(table)@.len(),
            valid_step(dt as int),
            forall|j: int| 0 <= j < i ==> #[trigger] table@[j] == old(table)@[j].moved(dt as int),
            forall|j: int| 0 <= j < i ==> (#[trigger] table@[j]).within(REACH as int),
            forall|j: int| i <= j < table@.len() ==> #[trigger] table@[j] == old(table)@[j],
            forall|j: int| 0 <= j < old(table)@.len() ==> (#[trigger] old(table)@[j]).wf(),
        decreases table@.len() - i,
    {
        let mut e: Particle = table[i];
        let r = integrate(e.transform, e.physics, dt);
        e.transform = r.0;
        e.physics = r.1;
        table.set(i, e);
        i += 1;
    }
    assert(table@ =~= old(table)@.map_values(|e: Particle| e.moved(dt as int)));
}

fn wrap_particles(table: &mut Vec<Particle>, dims: Vec2)
    requires
        forall|i: int| 0 <= i < old(table)@.len() ==> (#[trigger] old(table)@[i]).transform.within(REACH as int),
        valid_viewport(dims),
    ensures
        final(table)@ == old(table)@.map_values(|e: Particle| e.wrapped(dims)),
{
    let mut i: usize = 0;
    while i < table.len()
        invariant
            0 <= i <= table@.len(),
            table@.len() == old(table)@.len(),
            valid_viewport(dims),
            forall|j: int| 0 <= j < i ==> #[trigger] table@[j] == old(table)@[j].wrapped(dims),
            forall|j: int| i <= j < table@.len() ==> #[trigger] table@[j] == old(table)@[j],
            forall|j: int| 0 <= j < old(table)@.len() ==> (#[trigger] old(table)@[j]).transform.within(REACH as int),
        decreases table@.len() - i,
    {
        let mut e: Particle = table[i];
        e.transform = wrap(e.transform, dims);
        table.set(i, e);
        i += 1;
    }
    assert(table@ =~= old(table)@.map_values(|e: Particle| e.wrapped(dims)));
}

/// The ship, where there is one, after one step of `dt`.
pub open spec fn moved_player(player: Option<Player>, dt: int) -> Option<Player> {
    match player {
        Some(p) => Some(p.moved(dt)),
        None => None,
    }
}

/// The ship, where there is one, brought back once across the viewport.
pub open spec fn wrapped_player(player: Option<Player>, dims: Vec2) -> Option<Player> {
    match player {
        Some(p) => Some(p.wrapped(dims)),
        None => None,
    }
}

/// The world after every body in it has moved by one step of `dt`.
pub open spec fn moved_world(w: WorldView, dt: int) -> WorldView {
    WorldView {
        player: moved_player(w.player, dt),
        asteroids: w.asteroids.map_values(|e: AsteroidEntity| e.moved(dt)),
        bullets: w.bullets.map_values(|e: BulletEntity| e.moved(dt)),
        particles: w.particles.map_values(|e: Particle| e.moved(dt)),
        ..w
    }
}

/// The world after every body in it has been brought back once across the
/// viewport.
pub open spec fn wrapped_world(w: WorldView, dims: Vec2) -> WorldView {
    WorldView {
        player: wrapped_player(w.player, dims),
        asteroids: w.asteroids.map_values(|e: AsteroidEntity| e.wrapped(dims)),
        bullets: w.bullets.map_values(|e: BulletEntity| e.wrapped(dims)),
        particles: w.particles.map_values(|e: Particle| e.wrapped(dims)),
        ..w
    }
}

/// Moves every body by one step of `dt`: the ship, the asteroids, the bullets
/// and the particles. A move may carry a body out of range, though no
/// farther than `REACH`.
pub fn move_objects(world: &mut World, dt: i64)
    requires
        old(world).wf(),
        valid_step(dt as int),
    ensures
        final(world)@ == moved_world(old(world)@, dt as int),
        final(world)@.within(REACH as int),
{
    if let Some(p) = world.player {
        let r = integrate(p.transform, p.physics, dt);
        world.player = Some(Player { transform: r.0, physics: r.1, ..p });
    }
    move_asteroids(&mut world.asteroids, dt);
    move_bullets(&mut world.bullets, dt);
    move_particles(&mut world.particles, dt);
}

/// Brings every body back once across a viewport of the width and height
/// `dims`, centred on the origin.
pub fn wrap_objects(world: &mut World, dims: Vec2)
    requires
        old(world)@.within(REACH as int),
        valid_viewport(dims),
    ensures
        final(world)@ == wrapped_world(old(world)@, dims),
{
    if let Some(p) = world.player {
        world.player = Some(Player { transform: wrap(p.transform, dims), ..p });
    }
    wrap_asteroids(&mut world.asteroids, dims);
    wrap_bullets(&mut world.bullets, dims);
    wrap_particles(&mut world.particles, dims);
}

} // verus!
