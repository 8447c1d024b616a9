//! The ship: its controls and the time it cannot be hit.

use vstd::prelude::*;
use crate::bullet::{Bullet, BulletEntity};
use crate::compass::{Compass, heading};
use crate::fixed::{
    Vec2, LIMIT, ONE, TAU, fixed_mul, fmul, lemma_fmul_unit, turned, valid_step, wrap_angle,
};
use crate::helpers::{random_bool, random_range};
use crate::lifetime::{Lifetime, Particle};
use crate::states::{World, WorldView};
use crate::transforming::{
    Physics, Transform, REACH, USUAL_MAX_VEL, moved_physics, moved_transform, wrapped_transform,
};

verus! {

/// How long the ship cannot be hit after it appears: 2 seconds.
pub const INVINCIBLE_TIME: i64 = 2_000_000;

/// How long the ship stays shown or hidden while it blinks: 0.2 seconds.
pub const FLASHING_SPEED: i64 = 200_000;

/// The timers of the ship's invincibility.
#[derive(Clone, Copy, Debug, PartialEq, Eq, Structural)]
pub struct ShipInvincibility {
    /// The time for which the ship still cannot be hit.
    pub invincibility_time: i64,
    /// The time since the ship last changed between shown and hidden.
    pub flash_timer: i64,
}

impl ShipInvincibility {
    pub open spec fn wf(self) -> bool {
        &&& 0 <= self.invincibility_time <= LIMIT
        &&& 0 <= self.flash_timer <= LIMIT
    }

    /// Whether the ship cannot be hit.
    pub open spec fn invincible(self) -> bool {
        self.invincibility_time > 0
    }

    /// The timers of a ship that has just become invincible.
    pub open spec fn fresh() -> ShipInvincibility {
        ShipInvincibility { invincibility_time: INVINCIBLE_TIME, flash_timer: 0 }
    }

    /// The timers of a ship that has just appeared: it is invincible.
    pub fn new() -> (s: ShipInvincibility)
        ensures
            s == ShipInvincibility::fresh(),
    {
        let mut s = ShipInvincibility { invincibility_time: 0, flash_timer: 0 };
        s.set_invincible();
        s
    }

    pub fn is_invincible(&self) -> (b: bool)
        ensures
            b == self.invincible(),
    {
        self.invincibility_time > 0
    }

    /// Starts the time for which the ship cannot be hit anew.
    pub fn set_invincible(&mut self)
        ensures
            *final(self) == ShipInvincibility::fresh(),
    {
        self.invincibility_time = INVINCIBLE_TIME;
        self.flash_timer = 0;
    }
}

/// The ship.
#[derive(Clone, Copy, Debug, PartialEq, Eq, Structural)]
pub struct Player {
    pub transform: Transform,
    pub physics: Physics,
    pub invincibility: ShipInvincibility,
    /// Whether the ship is shown; it blinks while it is invincible.
    pub visible: bool,
}

impl Player {
    /// Whether the body is well formed, with its position within `reach`, and
    /// the timers in range.
    pub open spec fn within(self, reach: int) -> bool {
        &&& self.transform.within(reach)
        &&& self.physics.wf()
        &&& self.invincibility.wf()
    }

    pub open spec fn wf(self) -> bool {
        self.within(LIMIT as int)
    }

    /// Tells whether the ship is well formed.
    pub fn is_wf(&self) -> (b: bool)
        ensures
            b == self.wf(),
    {
        self.transform.is_wf() && self.physics.is_wf() && 0 <= self.invincibility.invincibility_time
            && self.invincibility.invincibility_time <= LIMIT && 0 <= self.invincibility.flash_timer
            && self.invincibility.flash_timer <= LIMIT
    }

    /// The entity after one step of `dt`.
    pub open spec fn moved(self, dt: int) -> Player {
        Player {
            transform: moved_transform(self.transform, self.physics, dt),
            physics: moved_physics(self.physics, dt),
            ..self
        }
    }

    /// The entity brought back once across a viewport of the size `dims`.
    pub open spec fn wrapped(self, dims: Vec2) -> Player {
        Player { transform: wrapped_transform(self.transform, dims), ..self }
    }
}

/// What the player asks of the ship in one tick.
#[derive(Clone, Copy, Debug, PartialEq, Eq, Structural)]
pub struct Intents {
    pub rotate_left: bool,
    pub rotate_right: bool,
    pub thrust: bool,
    /// Set in the tick in which the fire key goes down, not while it is held.
    pub fire: bool,
}

/// The speed a held thrust key adds along the ship's direction in a tick: 2.
pub const THRUST: i64 = 2_000_000;

/// The speed of a bullet as it leaves the ship: 250.
pub const BULLET_SPEED: i64 = 250_000_000;

/// How far ahead of the ship a bullet starts: 5.
pub const NOSE: i64 = 5_000_000;

/// A bullet flies for 2 seconds.
pub const BULLET_LIFETIME: i64 = 2_000_000;

/// How far behind the ship its exhaust starts: half the ship's length.
pub const TAIL: i64 = 8_000_000;

/// The exhaust starts less than this far to the side: a third of the ship's
/// length.
pub const EXHAUST_SPREAD: i64 = 5_333_333;

/// An exhaust particle lives for 0.2 seconds.
pub const EXHAUST_LIFETIME: i64 = 200_000;

/// The ship's angle after the rotation keys have had their effect: a full
/// turn a second to the left, and as much to the right, whole turns set aside.
pub open spec fn steered_rotation(rotation: int, intents: Intents, dt: int) -> int {
    let speed = fmul(TAU as int, dt);
    let left = if intents.rotate_left { turned(rotation + speed) } else { rotation };
    if intents.rotate_right { turned(left - speed) } else { left }
}

/// The ship after the rotation and thrust keys have had their effect: it is
/// turned first, and the thrust then adds 2 to its velocity along the
/// direction it is turned to.
pub open spec fn steered(table: Seq<Vec2>, p: Player, intents: Intents, dt: int) -> Player {
    let rotation = steered_rotation(p.transform.rotation as int, intents, dt);
    let dir = heading(table, rotation);
    Player {
        transform: Transform { translation: p.transform.translation, rotation: rotation as i64 },
        physics: Physics {
            vel: if intents.thrust {
                Vec2 { x: (p.physics.vel.x + 2 * dir.x) as i64, y: (p.physics.vel.y + 2 * dir.y) as i64 }
            } else {
                p.physics.vel
            },
            ..p.physics
        },
        ..p
    }
}

/// The bullet that a ship fires: it starts 5 ahead of the ship and flies
/// at 250 along the ship's direction, with the usual cap, for 2 seconds.
pub open spec fn fired(table: Seq<Vec2>, p: Player) -> BulletEntity {
    let dir = heading(table, p.transform.rotation as int);
    BulletEntity {
        transform: Transform {
            translation: Vec2 {
                x: (p.transform.translation.x + 5 * dir.x) as i64,
                y: (p.transform.translation.y + 5 * dir.y) as i64,
            },
            rotation: 0,
        },
        physics: Physics {
            acc: Vec2 { x: 0, y: 0 },
            vel: Vec2 { x: (250 * dir.x) as i64, y: (250 * dir.y) as i64 },
            max_vel: Vec2 { x: USUAL_MAX_VEL, y: USUAL_MAX_VEL },
            rot_vel: 0,
        },
        bullet: Bullet { time_left: BULLET_LIFETIME },
    }
}

/// The point that lies `dist` from `origin` at a right angle to `direction`:
/// to its left where `left` is set, else to its right.
pub open spec fn orthogonal_spec(origin: Vec2, direction: Vec2, left: bool, dist: int) -> Vec2 {
    let ortho = if left {
        Vec2 { x: (-direction.y) as i64, y: direction.x }
    } else {
        Vec2 { x: direction.y, y: (-direction.x) as i64 }
    };
    Vec2 {
        x: (origin.x + fmul(ortho.x as int, dist)) as i64,
        y: (origin.y + fmul(ortho.y as int, dist)) as i64,
    }
}

/// The point that lies `dist` from `origin` at a right angle to `direction`.
pub fn orthogonal_position(origin: Vec2, direction: Vec2, left: bool, dist: i64) -> (r: Vec2)
    requires
        -REACH <= origin.x <= REACH,
        -REACH <= origin.y <= REACH,
        direction.is_direction(),
        0 <= dist <= LIMIT,
    ensures
        r == orthogonal_spec(origin, direction, left, dist as int),
        origin.x - dist <= r.x <= origin.x + dist,
        origin.y - dist <= r.y <= origin.y + dist,
{
    let ortho: Vec2 = if left {
        Vec2::new(-direction.y, direction.x)
    } else {
        Vec2::new(direction.y, -direction.x)
    };
    proof {
        lemma_fmul_unit(dist as int, ortho.x as int);
        lemma_fmul_unit(dist as int, ortho.y as int);
    }
    Vec2::new(origin.x + fixed_mul(ortho.x, dist), origin.y + fixed_mul(ortho.y, dist))
}

/// A point to one side of `origin`, at a right angle to `direction`: the side
/// and the distance, which is less than `range`, are drawn at random.
pub fn random_orthogonal_position(origin: Vec2, direction: Vec2, range: i64) -> (r: Vec2)
    requires
        -REACH <= origin.x <= REACH,
        -REACH <= origin.y <= REACH,
        direction.is_direction(),
        0 < range <= LIMIT,
    ensures
        exists|left: bool, dist: int|
            0 <= dist < range && r == #[trigger] orthogonal_spec(origin, direction, left, dist),
        origin.x - range < r.x < origin.x + range,
        origin.y - range < r.y < origin.y + range,
{
    let left: bool = random_bool();
    let dist: i64 = random_range(0, range);
    let r = orthogonal_position(origin, direction, left, dist);
    assert(r == orthogonal_spec(origin, direction, left, dist as int));
    r
}

/// The place half the ship's length behind a ship at `pos` turned to `dir`.
pub open spec fn tail_of(pos: Vec2, dir: Vec2) -> Vec2 {
    Vec2 { x: (pos.x - 8 * dir.x) as i64, y: (pos.y - 8 * dir.y) as i64 }
}

/// The exhaust particle that starts at `at` behind a ship turned to `dir`:
/// it flies backwards at `speed`, is twice as long as its height `size`, and
/// lives for 0.2 seconds.
pub open spec fn exhaust(at: Vec2, dir: Vec2, speed: int, size: int) -> Particle {
    Particle {
        transform: Transform { translation: at, rotation: 0 },
        physics: Physics {
            acc: Vec2 { x: 0, y: 0 },
            vel: dir.negated().scaled(speed),
            max_vel: Vec2 { x: USUAL_MAX_VEL, y: USUAL_MAX_VEL },
            rot_vel: 0,
        },
        lifetime: Lifetime { time_left: EXHAUST_LIFETIME },
        size: Vec2 { x: (2 * size) as i64, y: size as i64 },
    }
}

/// Whether `x` is an exhaust particle that a thrusting ship at `pos` turned
/// to `dir` may leave: it starts half the ship's length behind the ship and
/// less than a third of the ship's length to one side, has a speed from 80
/// up to 160 and a height from 0.4 up to 1.
pub open spec fn is_exhaust(x: Particle, pos: Vec2, dir: Vec2) -> bool {
    exists|left: bool, dist: int, speed: int, size: int|
        {
            &&& 0 <= dist < EXHAUST_SPREAD
            &&& 80 * ONE <= speed < 160 * ONE
            &&& 400_000 <= size < ONE
            &&& x == #[trigger] exhaust(
                orthogonal_spec(tail_of(pos, dir), dir, left, dist),
                dir,
                speed,
                size,
            )
        }
}

/// Makes the exhaust particle that starts at `at` behind a ship turned to
/// `dir`.
pub fn exhaust_particle(at: Vec2, dir: Vec2, speed: i64, size: i64) -> (x: Particle)
    requires
        dir.is_direction(),
        -LIMIT <= speed <= LIMIT,
        -LIMIT <= size <= LIMIT,
    ensures
        x == exhaust(at, dir, speed as int, size as int),
        x.physics.wf(),
{
    let back: Vec2 = dir.reversed();
    proof {
        lemma_fmul_unit(speed as int, back.x as int);
        lemma_fmul_unit(speed as int, back.y as int);
    }
    Particle {
        transform: Transform::from_translation(at),
        physics: Physics::new_with_vel(back.scale(speed)),
        lifetime: Lifetime::new(EXHAUST_LIFETIME),
        size: Vec2::new(2 * size, size),
    }
}

/// Turns the ship and adds the thrust to its velocity, as the keys ask.
pub fn steer(compass: &Compass, p: Player, intents: Intents, dt: i64) -> (q: Player)
    requires
        p.wf(),
        valid_step(dt as int),
    ensures
        q == steered(compass@, p, intents, dt as int),
        0 <= q.transform.rotation < TAU,
        q.transform.translation == p.transform.translation,
        -LIMIT - THRUST <= q.physics.vel.x <= LIMIT + THRUST,
        -LIMIT - THRUST <= q.physics.vel.y <= LIMIT + THRUST,
{
    let speed: i64 = fixed_mul(TAU, dt);
    let mut rotation: i64 = p.transform.rotation;
    if intents.rotate_left {
        rotation = wrap_angle(rotation + speed);
    }
    if intents.rotate_right {
        rotation = wrap_angle(rotation - speed);
    }
    proof {
        assert(turned(rotation as int) == rotation);
    }
    let dir: Vec2 = compass.direction(rotation);
    let mut physics: Physics = p.physics;
    if intents.thrust {
        physics.vel = Vec2::new(physics.vel.x + 2 * dir.x, physics.vel.y + 2 * dir.y);
    }
    Player { transform: Transform { translation: p.transform.translation, rotation }, physics, ..p }
}

/// Makes the bullet that the ship fires.
pub fn fire_bullet(compass: &Compass, p: &Player) -> (b: BulletEntity)
    requires
        p.transform.wf(),
    ensures
        b == fired(compass@, *p),
        p.transform.translation.x - NOSE <= b.transform.translation.x <= p.transform.translation.x
            + NOSE,
        p.transform.translation.y - NOSE <= b.transform.translation.y <= p.transform.translation.y
            + NOSE,
        b.physics.wf(),
{
    let dir: Vec2 = compass.direction(p.transform.rotation);
    proof {
        assert(turned(p.transform.rotation as int) == p.transform.rotation);
    }
    BulletEntity {
        transform: Transform::from_xy(
            p.transform.translation.x + 5 * dir.x,
            p.transform.translation.y + 5 * dir.y,
        ),
        physics: Physics {
            acc: Vec2::zero(),
            vel: Vec2::new(250 * dir.x, 250 * dir.y),
            max_vel: Vec2::new(USUAL_MAX_VEL, USUAL_MAX_VEL),
            rot_vel: 0,
        },
        bullet: Bullet { time_left: BULLET_LIFETIME },
    }
}

/// Whether `after` are the particles that a tick of the controls may leave of
/// `before`: the same, or, where the ship thrusts, maybe one exhaust particle
/// more.
pub open spec fn exhausted(before: Seq<Particle>, after: Seq<Particle>, thrust: bool, pos: Vec2, dir: Vec2) -> bool {
    ||| after == before
    ||| thrust && after.len() == before.len() + 1 && after.drop_last() == before && is_exhaust(
        after.last(),
        pos,
        dir,
    )
}

/// Whether `after` is what a tick of the controls may leave of `before`.
/// Without a ship it is the same. Else the ship is steered, a bullet is
/// added if the ship fires, and the particles are the same or, where the ship
/// thrusts, maybe one exhaust particle more.
pub open spec fn controlled(before: WorldView, after: WorldView, intents: Intents, dt: int) -> bool {
    match before.player {
        None => after == before,
        Some(p) => {
            let q = steered(before.compass, p, intents, dt);
            &&& after == (WorldView {
                player: Some(q),
                bullets: if intents.fire {
                    before.bullets.push(fired(before.compass, q))
                } else {
                    before.bullets
                },
                particles: after.particles,
                ..before
            })
            &&& exhausted(
                before.particles,
                after.particles,
                intents.thrust,
                q.transform.translation,
                heading(before.compass, q.transform.rotation as int),
            )
        },
    }
}

/// Whether the ship, once steered, is far enough within range, so that what
/// it fires or leaves behind is in range too.
pub open spec fn room_to_act(w: WorldView, intents: Intents, dt: int) -> bool {
    w.player matches Some(p) ==> steered(w.compass, p, intents, dt).within(LIMIT - 2 * TAIL)
}

/// Lets the player's keys act on the ship: it turns, thrusts, leaving exhaust
/// now and then, and fires a bullet. Without a ship nothing happens.
pub fn control_player(world: &mut World, intents: Intents, dt: i64)
    requires
        old(world).wf(),
        valid_step(dt as int),
    ensures
        controlled(old(world)@, final(world)@, intents, dt as int),
        room_to_act(old(world)@, intents, dt as int) ==> final(world).wf(),
        final(world)@.bullets.len() <= old(world)@.bullets.len() + 1,
{
    let p: Player = match world.player {
        None => {
            return ;
        },
        Some(p) => p,
    };
    let q: Player = steer(&world.compass, p, intents, dt);
    proof {
        assert(turned(q.transform.rotation as int) == q.transform.rotation);
    }
    let dir: Vec2 = world.compass.direction(q.transform.rotation);
    world.player = Some(q);
    let ghost roomy = q.within(LIMIT - 2 * TAIL);
    assert(world@ == (WorldView { player: Some(q), ..old(world)@ }));
    assert(roomy ==> q.wf());
    assert(roomy ==> world.wf());
    if intents.thrust {
        if random_bool() {
            let pos: Vec2 = q.transform.translation;
            let bottom: Vec2 = Vec2::new(pos.x - 8 * dir.x, pos.y - 8 * dir.y);
            let at: Vec2 = random_orthogonal_position(bottom, dir, EXHAUST_SPREAD);
            let speed: i64 = random_range(80_000_000, 160_000_000);
            let size: i64 = random_range(400_000, ONE);
            let x: Particle = exhaust_particle(at, dir, speed, size);
            proof {
                let (left, dist) = choose|left: bool, dist: int|
                    0 <= dist < EXHAUST_SPREAD && at == #[trigger] orthogonal_spec(
                        bottom,
                        dir,
                        left,
                        dist,
                    );
                assert(bottom == tail_of(pos, dir));
                assert(x == exhaust(
                    orthogonal_spec(tail_of(pos, dir), dir, left, dist),
                    dir,
                    speed as int,
                    size as int,
                ));
            }
            world.particles.push(x);
            assert(world@.particles.drop_last() =~= old(world)@.particles);
            assert(roomy ==> x.wf());
            assert(roomy ==> world.wf());
        }
    }
    if intents.fire {
        let b: BulletEntity = fire_bullet(&world.compass, &q);
        world.bullets.push(b);
        assert(roomy ==> b.wf());
        assert(roomy ==> world.wf());
    }
}

/// The ship after `dt` of its invincibility has passed. A ship that can be
/// hit stays as it is. When the time runs out the ship can be hit again and
/// is shown. Until then it changes between shown and hidden each time more
/// than 0.2 seconds have passed since the last change.
pub open spec fn invincibility_ticked(p: Player, dt: int) -> Player {
    if !p.invincibility.invincible() {
        p
    } else {
        let time = p.invincibility.invincibility_time - dt;
        let flash = p.invincibility.flash_timer + dt;
        if time <= 0 {
            Player {
                invincibility: ShipInvincibility { invincibility_time: 0, flash_timer: 0 },
                visible: true,
                ..p
            }
        } else if flash > FLASHING_SPEED {
            Player {
                invincibility: ShipInvincibility { invincibility_time: time as i64, flash_timer: 0 },
                visible: !p.visible,
                ..p
            }
        } else {
            Player {
                invincibility: ShipInvincibility {
                    invincibility_time: time as i64,
                    flash_timer: flash as i64,
                },
                ..p
            }
        }
    }
}

/// Lets `dt` of the ship's invincibility pass.
pub fn tick_invincibility(p: Player, dt: i64) -> (q: Player)
    requires
        p.invincibility.wf(),
        valid_step(dt as int),
    ensures
        q == invincibility_ticked(p, dt as int),
        q.invincibility.wf(),
{
    let mut q: Player = p;
    if !q.invincibility.is_invincible() {
        return q;
    }
    q.invincibility.invincibility_time = q.invincibility.invincibility_time - dt;
    if q.invincibility.invincibility_time <= 0 {
        q.invincibility.invincibility_time = 0;
        q.invincibility.flash_timer = 0;
        q.visible = true;
        return q;
    }
    q.invincibility.flash_timer = q.invincibility.flash_timer + dt;
    if q.invincibility.flash_timer > FLASHING_SPEED {
        q.invincibility.flash_timer = 0;
        q.visible = !q.visible;
    }
    q
}

/// The ship, where there is one, after `dt` of its invincibility has passed.
pub open spec fn invincibility_updated(player: Option<Player>, dt: int) -> Option<Player> {
    match player {
        Some(p) => Some(invincibility_ticked(p, dt)),
        None => None,
    }
}

/// Lets `dt` of the ship's invincibility pass, where there is a ship.
pub fn update_invincibility(world: &mut World, dt: i64)
    requires
        old(world).wf(),
        valid_step(dt as int),
    ensures
        final(world)@ == (WorldView {
            player: invincibility_updated(old(world)@.player, dt as int),
            ..old(world)@
        }),
        final(world).wf(),
{
    if let Some(p) = world.player {
        let q: Player = tick_invincibility(p, dt);
        world.player = Some(q);
        assert(world@ == (WorldView { player: Some(q), ..old(world)@ }));
    }
}

} // verus!
