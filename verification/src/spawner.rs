//! The spawner, which sends new asteroids in from the edge of the screen.

use vstd::prelude::*;
use crate::asteroid::{AsteroidEntity, create_asteroid, created};
use crate::compass::heading;
use crate::fixed::{
    Vec2, LIMIT, ONE, TAU, div_trunc, fixed_mul, fmul, in_range, lemma_fmul_unit, valid_step,
};
use crate::helpers::{get_random_vel, random_range, random_vel};
use crate::states::{World, WorldView};
use crate::transforming::valid_viewport;

verus! {

/// The time between two spawns when a play session starts: 6 seconds.
pub const FIRST_SPAWN_TIME: i64 = 6_000_000;

/// What the time between two spawns is multiplied by at every tenth spawn: 0.9.
pub const SPAWN_TIME_DECAY: i64 = 900_000;

/// How many places the spawner tries for one asteroid before it gives up.
pub const SPAWN_ATTEMPTS: u32 = 1000;

/// The timers and the count of the spawner.
#[derive(Clone, Copy, Debug, PartialEq, Eq, Structural)]
pub struct Spawner {
    /// The time until the next spawn.
    pub next_spawn: i64,
    /// The time between two spawns.
    pub next_spawn_time: i64,
    /// How many times the spawner has come due.
    pub spawned_count: u64,
}

impl Spawner {
    pub open spec fn wf(self) -> bool {
        &&& in_range(self.next_spawn as int)
        &&& in_range(self.next_spawn_time as int)
    }

    /// Tells whether the spawner is well formed.
    pub fn is_wf(&self) -> (b: bool)
        ensures
            b == self.wf(),
    {
        -LIMIT <= self.next_spawn && self.next_spawn <= LIMIT && -LIMIT <= self.next_spawn_time
            && self.next_spawn_time <= LIMIT
    }

    /// A spawner that is due at once, has the first interval, and has not
    /// spawned yet.
    pub fn new() -> (s: Spawner)
        ensures
            s == (Spawner { next_spawn: 0, next_spawn_time: FIRST_SPAWN_TIME, spawned_count: 0 }),
    {
        let mut s = Spawner { next_spawn: 0, next_spawn_time: 0, spawned_count: 0 };
        s.reset();
        s
    }

    /// Makes the spawner due at once and gives it the first interval again;
    /// the count stays.
    pub fn reset(&mut self)
        ensures
            *final(self) == (Spawner {
                next_spawn: 0,
                next_spawn_time: FIRST_SPAWN_TIME,
                spawned_count: old(self).spawned_count,
            }),
    {
        self.next_spawn_time = FIRST_SPAWN_TIME;
        self.next_spawn = 0;
    }
}

/// Whether a spawner comes due within `dt`.
pub open spec fn spawn_due(s: Spawner, dt: int) -> bool {
    s.next_spawn - dt <= 0
}

/// The spawner after `dt`. Until it comes due, only the time until the next
/// spawn runs down. When it comes due it counts one spawn more, the time
/// between two spawns is multiplied by 0.9 if the count has reached a
/// multiple of ten, and the time until the next spawn starts anew.
pub open spec fn spawner_ticked(s: Spawner, dt: int) -> Spawner {
    if !spawn_due(s, dt) {
        Spawner { next_spawn: (s.next_spawn - dt) as i64, ..s }
    } else {
        let count = s.spawned_count + 1;
        let interval = if count % 10 == 0 {
            fmul(s.next_spawn_time as int, SPAWN_TIME_DECAY as int)
        } else {
            s.next_spawn_time as int
        };
        Spawner {
            next_spawn: interval as i64,
            next_spawn_time: interval as i64,
            spawned_count: count as u64,
        }
    }
}

impl Spawner {
    /// Lets `dt` pass and tells whether the spawner has come due.
    pub fn tick(&mut self, dt: i64) -> (due: bool)
        requires
            old(self).wf(),
            valid_step(dt as int),
            old(self).spawned_count < u64::MAX,
        ensures
            due == spawn_due(*old(self), dt as int),
            *final(self) == spawner_ticked(*old(self), dt as int),
            final(self).wf(),
    {
        self.next_spawn = self.next_spawn - dt;
        if self.next_spawn > 0 {
            return false;
        }
        self.spawned_count = self.spawned_count + 1;
        if self.spawned_count % 10 == 0 {
            proof {
                lemma_fmul_unit(self.next_spawn_time as int, SPAWN_TIME_DECAY as int);
            }
            self.next_spawn_time = fixed_mul(self.next_spawn_time, SPAWN_TIME_DECAY);
        }
        self.next_spawn = self.next_spawn_time;
        true
    }
}

/// The place on the edge that the direction `dir` stands for: the direction
/// stretched by the width and height of the viewport, less half of each.
pub open spec fn edge_spec(dir: Vec2, dims: Vec2) -> Vec2 {
    Vec2 {
        x: (fmul(dir.x as int, dims.x as int) - dims.x / 2) as i64,
        y: (fmul(dir.y as int, dims.y as int) - dims.y / 2) as i64,
    }
}

/// The place on the edge of the viewport that the direction `dir` stands for.
pub fn edge_position(dir: Vec2, dims: Vec2) -> (pos: Vec2)
    requires
        dir.is_direction(),
        valid_viewport(dims),
    ensures
        pos == edge_spec(dir, dims),
        pos.in_range(),
{
    proof {
        lemma_fmul_unit(dims.x as int, dir.x as int);
        lemma_fmul_unit(dims.y as int, dir.y as int);
    }
    Vec2::new(fixed_mul(dir.x, dims.x) - dims.x / 2, fixed_mul(dir.y, dims.y) - dims.y / 2)
}

/// Whether an asteroid of the given size may appear at `pos`: the ship is
/// more than one and a half times the size away.
pub open spec fn clear_of(player: Vec2, pos: Vec2, size: int) -> bool {
    player.farther_than(pos, fmul(size, 1_500_000))
}

/// Tells whether an asteroid of the given size may appear at `pos`.
pub fn is_clear_of(player: Vec2, pos: Vec2, size: i64) -> (ok: bool)
    requires
        player.in_range(),
        pos.in_range(),
        in_range(size as int),
    ensures
        ok == clear_of(player, pos, size as int),
{
    proof {
        assert(-2 * LIMIT <= fmul(size as int, 1_500_000) <= 2 * LIMIT) by (nonlinear_arith)
            requires
                -LIMIT <= size <= LIMIT,
                fmul(size as int, 1_500_000) == div_trunc(size * 1_500_000, ONE as int),
        ;
    }
    player.is_farther_than(pos, fixed_mul(size, 1_500_000))
}

/// The least size of an asteroid that the spawner sends in: 40.
pub const MIN_ARRIVAL_SIZE: i64 = 40_000_000;

/// The size that an asteroid that the spawner sends in stays below: 120.
pub const MAX_ARRIVAL_SIZE: i64 = 120_000_000;

/// A place that is clear for an asteroid is clear for every smaller one.
pub proof fn lemma_clear_for_smaller(player: Vec2, pos: Vec2, size: int, smaller: int)
    requires
        0 <= smaller <= size,
        clear_of(player, pos, size),
    ensures
        clear_of(player, pos, smaller),
{
    let r: int = fmul(size, 1_500_000);
    let q: int = fmul(smaller, 1_500_000);
    assert(0 <= q <= r) by (nonlinear_arith)
        requires
            0 <= smaller <= size,
            q == (smaller * 1_500_000) / (ONE as int),
            r == (size * 1_500_000) / (ONE as int),
    ;
    assert(q * q <= r * r) by (nonlinear_arith)
        requires
            0 <= q <= r,
    ;
}

/// Adds an asteroid of the given size and velocity at the place on the edge
/// that `dir` stands for, if that place is clear of a ship at `player`.
/// Tells whether it did.
pub fn place_asteroid(world: &mut World, player: Vec2, dir: Vec2, size: i64, vel: Vec2, dims: Vec2) -> (placed:
    bool)
    requires
        player.in_range(),
        dir.is_direction(),
        in_range(size as int),
        valid_viewport(dims),
    ensures
        placed == clear_of(player, edge_spec(dir, dims), size as int),
        !placed ==> final(world)@ == old(world)@,
        placed ==> final(world)@ == (WorldView {
            asteroids: old(world)@.asteroids.push(final(world)@.asteroids.last()),
            ..old(world)@
        }) && created(final(world)@.asteroids.last(), size, edge_spec(dir, dims), vel),
        old(world).wf() && size > 0 && vel.in_range() ==> final(world).wf(),
{
    let pos: Vec2 = edge_position(dir, dims);
    if is_clear_of(player, pos, size) {
        create_asteroid(world, size, pos, vel);
        true
    } else {
        false
    }
}

/// Whether `a` is an asteroid that the spawner may send in while the ship is
/// at `player`: it has a size from 40 up to 120, appears on the edge of the
/// viewport in a direction of the table, clear of the ship, and flies in a
/// direction of the table at a speed from 10 up to 20.
pub open spec fn is_arrival(table: Seq<Vec2>, a: AsteroidEntity, player: Vec2, dims: Vec2) -> bool {
    exists|angle: int, vel: Vec2, size: i64|
        {
            &&& 0 <= angle < TAU
            &&& MIN_ARRIVAL_SIZE <= size < MAX_ARRIVAL_SIZE
            &&& random_vel(table, 10 * ONE, 20 * ONE, vel)
            &&& clear_of(player, edge_spec(heading(table, angle), dims), size as int)
            &&& #[trigger] created(a, size, edge_spec(heading(table, angle), dims), vel)
        }
}

/// Whether every place that the table can give is clear of a ship at
/// `player` for every asteroid that the spawner may send in.
pub open spec fn always_clear(table: Seq<Vec2>, player: Vec2, dims: Vec2) -> bool {
    forall|angle: int|
        0 <= angle < TAU ==> clear_of(
            player,
            edge_spec(#[trigger] heading(table, angle), dims),
            MAX_ARRIVAL_SIZE as int,
        )
}

/// Whether `after` is what a tick of the spawner may leave of `before`.
/// Without a ship or a spawner it is the same. Else the spawner has ticked,
/// and where it came due there may be one arrival more; there is one where
/// every place is clear of the ship.
pub open spec fn spawned(before: WorldView, after: WorldView, dt: int, dims: Vec2) -> bool {
    if before.player is None || before.spawner is None {
        after == before
    } else {
        let s = before.spawner->0;
        let player = before.player->0.transform.translation;
        let one_more = {
            &&& after.asteroids.len() == before.asteroids.len() + 1
            &&& after.asteroids.drop_last() == before.asteroids
            &&& is_arrival(before.compass, after.asteroids.last(), player, dims)
        };
        &&& after == (WorldView {
            spawner: Some(spawner_ticked(s, dt)),
            asteroids: after.asteroids,
            ..before
        })
        &&& after.asteroids == before.asteroids || one_more
        &&& !spawn_due(s, dt) ==> after.asteroids == before.asteroids
        &&& spawn_due(s, dt) && always_clear(before.compass, player, dims) ==> one_more
    }
}

/// Lets `dt` pass for the spawner and, when it comes due, sends one asteroid
/// in from the edge of the viewport, clear of the ship. Places are drawn at
/// random until one is clear; after `SPAWN_ATTEMPTS` places that were not, no
/// asteroid is sent. Without a ship or a spawner nothing happens.
pub fn spawn_objects(world: &mut World, dt: i64, dims: Vec2)
    requires
        old(world).wf(),
        valid_step(dt as int),
        valid_viewport(dims),
        old(world)@.spawner matches Some(s) ==> s.spawned_count < u64::MAX,
    ensures
        spawned(old(world)@, final(world)@, dt as int, dims),
        final(world).wf(),
{
    let pt: Vec2 = match world.player {
        Some(p) => p.transform.translation,
        None => {
            return ;
        },
    };
    let mut spawner: Spawner = match world.spawner {
        Some(s) => s,
        None => {
            return ;
        },
    };
    let due: bool = spawner.tick(dt);
    world.spawner = Some(spawner);
    assert(world@ == (WorldView { spawner: Some(spawner), ..old(world)@ }));
    if !due {
        return ;
    }
    let mut attempts: u32 = 0;
    while attempts < SPAWN_ATTEMPTS
        invariant
            world@ == (WorldView { spawner: Some(spawner), ..old(world)@ }),
            world.wf(),
            old(world)@.player is Some,
            old(world)@.spawner is Some,
            spawner == spawner_ticked(old(world)@.spawner->0, dt as int),
            spawn_due(old(world)@.spawner->0, dt as int),
            pt == old(world)@.player->0.transform.translation,
            pt.in_range(),
            valid_viewport(dims),
            attempts > 0 ==> !always_clear(old(world)@.compass, pt, dims),
        decreases SPAWN_ATTEMPTS - attempts,
    {
        let angle: i64 = random_range(0, TAU);
        let dir: Vec2 = world.compass.direction(angle);
        let vel: Vec2 = get_random_vel(&world.compass, 10_000_000, 20_000_000);
        let size: i64 = random_range(MIN_ARRIVAL_SIZE, MAX_ARRIVAL_SIZE);
        if place_asteroid(world, pt, dir, size, vel, dims) {
            proof {
                assert(world@.asteroids.drop_last() =~= old(world)@.asteroids);
                assert(created(
                    world@.asteroids.last(),
                    size,
                    edge_spec(heading(old(world)@.compass, angle as int), dims),
                    vel,
                ));
            }
            return ;
        }
        proof {
            if always_clear(old(world)@.compass, pt, dims) {
                assert(dir == heading(old(world)@.compass, angle as int));
                lemma_clear_for_smaller(pt, edge_spec(dir, dims), MAX_ARRIVAL_SIZE as int, size as int);
            }
        }
        attempts += 1;
    }
}

} // verus!
