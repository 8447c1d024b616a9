//! Properties of the simulation that hold for every input.

use vstd::prelude::*;
use crate::asteroid::{AsteroidEntity, created};
use crate::bullet::{BulletEntity, surviving_bullets};
use crate::collision::{
    MIN_SPLIT_SIZE, bullet_hits, crash, first_target, fragments_of, is_fragment, player_pass, volley,
};
use crate::lifetime::{Particle, surviving_particles};
use crate::fixed::{Vec2, ONE, clamped, fmul, in_range, lemma_fmul_identities, valid_step};
use crate::spawner::{SPAWN_TIME_DECAY, Spawner, spawn_due, spawner_ticked};
use crate::states::WorldView;
use crate::transforming::{Physics, Transform, moved_physics, moved_transform, wrapped};

verus! {

/// A body that does not accelerate moves by exactly its velocity times the
/// step along each axis, and keeps its velocity if that was within the cap.
pub proof fn lemma_coasting(t: Transform, p: Physics, dt: int)
    requires
        t.wf(),
        p.wf(),
        valid_step(dt),
        p.acc == (Vec2 { x: 0, y: 0 }),
    ensures
        moved_transform(t, p, dt).translation.x == t.translation.x + fmul(p.vel.x as int, dt),
        moved_transform(t, p, dt).translation.y == t.translation.y + fmul(p.vel.y as int, dt),
        p.capped() ==> moved_physics(p, dt).vel == p.vel,
{
    crate::fixed::lemma_product_bound(p.vel.x as int, dt, crate::fixed::LIMIT as int);
    crate::fixed::lemma_product_bound(p.vel.y as int, dt, crate::fixed::LIMIT as int);
    lemma_fmul_range(p.vel.x as int, dt);
    lemma_fmul_range(p.vel.y as int, dt);
    lemma_fmul_identities(dt);
}

/// The product of two quantities in range has a magnitude of at most
/// `LIMIT * ONE`.
pub proof fn lemma_fmul_range(a: int, b: int)
    requires
        in_range(a),
        in_range(b),
    ensures
        -crate::fixed::LIMIT * ONE <= fmul(a, b) <= crate::fixed::LIMIT * ONE,
{
    let m: int = crate::fixed::LIMIT as int;
    let p: int = a * b;
    crate::fixed::lemma_product_bound(a, b, m);
    if p >= 0 {
        assert(0 <= p / (ONE as int) <= m * ONE) by (nonlinear_arith)
            requires
                0 <= p <= m * m,
                m == 1_000_000_000_000,
        ;
    } else {
        assert(0 <= (-p) / (ONE as int) <= m * ONE) by (nonlinear_arith)
            requires
                0 <= -p <= m * m,
                m == 1_000_000_000_000,
        ;
    }
}

/// After a step the velocity is within the cap along both axes, whatever it
/// was before, and the kinematic state is well formed again.
pub proof fn lemma_step_caps_velocity(p: Physics, dt: int)
    requires
        p.wf(),
    ensures
        moved_physics(p, dt).capped(),
        moved_physics(p, dt).wf(),
{
}

/// The kinematic state after `n` steps of `dt`.
pub open spec fn moved_times(p: Physics, dt: int, n: nat) -> Physics
    decreases n,
{
    if n == 0 {
        p
    } else {
        moved_physics(moved_times(p, dt, (n - 1) as nat), dt)
    }
}

/// Repeated steps never take the velocity beyond the cap.
pub proof fn lemma_velocity_stays_capped(p: Physics, dt: int, n: nat)
    requires
        p.wf(),
        n >= 1,
    ensures
        moved_times(p, dt, n).capped(),
        moved_times(p, dt, n).wf(),
    decreases n,
{
    if n > 1 {
        lemma_velocity_stays_capped(p, dt, (n - 1) as nat);
    }
    lemma_step_caps_velocity(moved_times(p, dt, (n - 1) as nat), dt);
}

/// Under an acceleration that adds to the velocity along an axis in every
/// step, the velocity along that axis is exactly the cap once the steps
/// taken would have carried it there or beyond.
pub proof fn lemma_velocity_reaches_cap(p: Physics, dt: int, n: nat)
    requires
        p.wf(),
        n >= 1,
    ensures
        fmul(p.acc.x as int, dt) > 0 && p.vel.x + n * fmul(p.acc.x as int, dt) >= p.max_vel.x
            ==> moved_times(p, dt, n).vel.x == p.max_vel.x,
        fmul(p.acc.y as int, dt) > 0 && p.vel.y + n * fmul(p.acc.y as int, dt) >= p.max_vel.y
            ==> moved_times(p, dt, n).vel.y == p.max_vel.y,
{
    lemma_velocity_lower_bound(p, dt, n);
    lemma_velocity_stays_capped(p, dt, n);
}

/// After `n` steps the velocity along an axis on which the acceleration adds
/// to it is at least what the acceleration alone would have made it, or the
/// cap if that is less.
proof fn lemma_velocity_lower_bound(p: Physics, dt: int, n: nat)
    requires
        p.wf(),
    ensures
        moved_times(p, dt, n).acc == p.acc,
        moved_times(p, dt, n).max_vel == p.max_vel,
        n >= 1 ==> moved_times(p, dt, n).wf(),
        fmul(p.acc.x as int, dt) > 0 ==> moved_times(p, dt, n).vel.x >= p.vel.x + n * fmul(
            p.acc.x as int,
            dt,
        ) || moved_times(p, dt, n).vel.x >= p.max_vel.x,
        fmul(p.acc.y as int, dt) > 0 ==> moved_times(p, dt, n).vel.y >= p.vel.y + n * fmul(
            p.acc.y as int,
            dt,
        ) || moved_times(p, dt, n).vel.y >= p.max_vel.y,
    decreases n,
{
    if n > 0 {
        let ix: int = fmul(p.acc.x as int, dt);
        let iy: int = fmul(p.acc.y as int, dt);
        let before = moved_times(p, dt, (n - 1) as nat);
        lemma_velocity_lower_bound(p, dt, (n - 1) as nat);
        lemma_step_caps_velocity(before, dt);
        assert(n * ix == (n - 1) * ix + ix) by (nonlinear_arith);
        assert(n * iy == (n - 1) * iy + iy) by (nonlinear_arith);
        let nx: int = clamped(before.vel.x + ix, -(p.max_vel.x as int), p.max_vel.x as int);
        let ny: int = clamped(before.vel.y + iy, -(p.max_vel.y as int), p.max_vel.y as int);
        assert(moved_times(p, dt, n).vel.x == nx);
        assert(moved_times(p, dt, n).vel.y == ny);
    }
}

/// A coordinate within half a span of zero is left where it is.
pub proof fn lemma_wrap_inside(c: int, span: int)
    requires
        span >= 0,
        -(span / 2) <= c <= span / 2,
    ensures
        wrapped(c, span) == c,
{
}

/// A coordinate beyond the upper half of the span comes back a span lower,
/// and one beyond the lower half a span higher.
pub proof fn lemma_wrap_outside(c: int, span: int)
    requires
        span >= 0,
    ensures
        span / 2 < c <= span / 2 + span ==> wrapped(c, span) == c - span,
        -(span / 2) - span <= c < -(span / 2) ==> wrapped(c, span) == c + span,
{
}

/// A coordinate that has strayed by no more than a span beyond either half
/// is within half a span of zero again after the wrap.
pub proof fn lemma_wrap_returns(c: int, span: int)
    requires
        span >= 0,
        -(span / 2) - span <= c <= span / 2 + span,
    ensures
        -(span / 2) <= wrapped(c, span) <= span / 2,
{
}

/// A destroyed asteroid of at least the size 20 leaves exactly two
/// fragments, one smaller than that none. Every fragment has half the
/// parent's size, which is more than zero, and starts at the parent's place.
pub proof fn lemma_fragments(table: Seq<Vec2>, parent: AsteroidEntity, children: Seq<AsteroidEntity>)
    requires
        parent.asteroid.size > 0,
        fragments_of(table, parent, children),
    ensures
        parent.asteroid.size < MIN_SPLIT_SIZE ==> children.len() == 0,
        parent.asteroid.size >= MIN_SPLIT_SIZE ==> children.len() == 2,
        forall|k: int|
            0 <= k < children.len() ==> {
                &&& (#[trigger] children[k]).asteroid.size == parent.asteroid.size / 2
                &&& children[k].asteroid.size > 0
                &&& children[k].transform.translation == parent.transform.translation
            },
{
    assert forall|k: int| 0 <= k < children.len() implies {
        &&& (#[trigger] children[k]).asteroid.size == parent.asteroid.size / 2
        &&& children[k].asteroid.size > 0
        &&& children[k].transform.translation == parent.transform.translation
    } by {
        let size: i64 = (parent.asteroid.size / 2) as i64;
        assert(is_fragment(table, children[k], size, parent.transform.translation));
        let vel = choose|vel: Vec2| #[trigger]
            created(children[k], size, parent.transform.translation, vel);
        assert(created(children[k], size, parent.transform.translation, vel));
    }
}

/// A bullet is left after a tick exactly if it had more time left than the
/// tick took, and then has that much less.
pub proof fn lemma_bullet_lifetime(b: BulletEntity, dt: int)
    requires
        in_range(b.bullet.time_left as int),
        valid_step(dt),
    ensures
        b.bullet.time_left > dt ==> surviving_bullets(seq![b], dt) == seq![b.aged(dt)],
        b.bullet.time_left <= dt ==> surviving_bullets(seq![b], dt) == Seq::<BulletEntity>::empty(),
        b.aged(dt).bullet.time_left == b.bullet.time_left - dt,
{
    let aged = seq![b].map_values(|x: BulletEntity| x.aged(dt));
    let alive = |x: BulletEntity| x.alive();
    assert(aged =~= seq![b.aged(dt)]);
    assert(aged.drop_last() =~= Seq::<BulletEntity>::empty());
    reveal_with_fuel(Seq::filter, 2);
    assert(aged.drop_last().filter(alive) =~= Seq::<BulletEntity>::empty());
    assert(aged.last() == b.aged(dt));
    if b.bullet.time_left > dt {
        assert(aged.filter(alive) =~= seq![b.aged(dt)]);
    } else {
        assert(aged.filter(alive) =~= Seq::<BulletEntity>::empty());
    }
}

/// A bullet less than 4 away from an asteroid hits it whatever its size, and
/// so does one less than the asteroid's size away; one that is at least 4
/// and at least the size away does not.
pub proof fn lemma_bullet_hits(at: Vec2, a: AsteroidEntity)
    ensures
        at.closer_than(a.transform.translation, 4 * ONE) ==> bullet_hits(at, a),
        at.closer_than(a.transform.translation, a.asteroid.size as int) ==> bullet_hits(at, a),
        !at.closer_than(a.transform.translation, 4 * ONE) && !at.closer_than(
            a.transform.translation,
            a.asteroid.size as int,
        ) ==> !bullet_hits(at, a),
{
}

/// While the ship is invincible the asteroids' pass over it changes nothing:
/// no life is lost and no asteroid is destroyed. The same holds without a
/// ship.
pub proof fn lemma_invincible_is_safe(w: WorldView)
    requires
        w.player matches Some(p) ==> p.invincibility.invincible(),
    ensures
        player_pass(w).player == w.player,
        player_pass(w).lives == w.lives,
        player_pass(w).spawner == w.spawner,
        player_pass(w).state == w.state,
        player_pass(w).asteroids == w.asteroids,
        player_pass(w).destroyed.len() == 0,
{
}

/// Every asteroid that hits the ship costs exactly one life, and the ship is
/// there afterwards exactly if a life is left.
pub proof fn lemma_each_hit_costs_a_life(w: WorldView)
    requires
        w.player is Some ==> w.lives.0 > 0,
    ensures
        player_pass(w).lives.0 + player_pass(w).destroyed.len() == w.lives.0,
        player_pass(w).asteroids.len() + player_pass(w).destroyed.len() == w.asteroids.len(),
        w.player is Some ==> (player_pass(w).player is Some <==> player_pass(w).lives.0 > 0),
{
    lemma_crash_counts(w, w.asteroids);
}

/// What `lemma_each_hit_costs_a_life` states, for the pass of any asteroids.
proof fn lemma_crash_counts(w: WorldView, asteroids: Seq<AsteroidEntity>)
    requires
        w.player is Some ==> w.lives.0 > 0,
    ensures
        crash(w, asteroids).lives.0 + crash(w, asteroids).destroyed.len() == w.lives.0,
        crash(w, asteroids).asteroids.len() + crash(w, asteroids).destroyed.len()
            == asteroids.len(),
        w.player is Some ==> (crash(w, asteroids).player is Some <==> crash(w, asteroids).lives.0
            > 0),
        w.player is None ==> crash(w, asteroids).player is None,
    decreases asteroids.len(),
{
    if asteroids.len() > 0 {
        lemma_crash_counts(w, asteroids.drop_last());
    }
}

/// Every hit of a bullet removes exactly one bullet and one asteroid: a
/// bullet hits at most once, and an asteroid is hit at most once.
pub proof fn lemma_one_hit_each(bullets: Seq<BulletEntity>, asteroids: Seq<AsteroidEntity>)
    ensures
        volley(bullets, asteroids).bullets.len() + volley(bullets, asteroids).destroyed.len()
            == bullets.len(),
        volley(bullets, asteroids).asteroids.len() + volley(bullets, asteroids).destroyed.len()
            == asteroids.len(),
    decreases bullets.len(),
{
    if bullets.len() > 0 {
        lemma_one_hit_each(bullets.drop_last(), asteroids);
        let before = volley(bullets.drop_last(), asteroids);
        lemma_target_in_reach(bullets.last().transform.translation, before.asteroids);
    }
}

/// The first target lies within the asteroids or is their length.
proof fn lemma_target_in_reach(at: Vec2, asteroids: Seq<AsteroidEntity>)
    ensures
        0 <= first_target(at, asteroids) <= asteroids.len(),
    decreases asteroids.len(),
{
    if asteroids.len() > 0 && !bullet_hits(at, asteroids[0]) {
        lemma_target_in_reach(at, asteroids.drop_first());
    }
}

/// A particle is left after a tick exactly if it had more time left than the
/// tick took, and then has that much less.
pub proof fn lemma_particle_lifetime(p: Particle, dt: int)
    requires
        in_range(p.lifetime.time_left as int),
        valid_step(dt),
    ensures
        p.lifetime.time_left > dt ==> surviving_particles(seq![p], dt) == seq![p.aged(dt)],
        p.lifetime.time_left <= dt ==> surviving_particles(seq![p], dt) == Seq::<Particle>::empty(),
        p.aged(dt).lifetime.time_left == p.lifetime.time_left - dt,
{
    let aged = seq![p].map_values(|x: Particle| x.aged(dt));
    let alive = |x: Particle| x.alive();
    assert(aged =~= seq![p.aged(dt)]);
    assert(aged.drop_last() =~= Seq::<Particle>::empty());
    reveal_with_fuel(Seq::filter, 2);
    assert(aged.drop_last().filter(alive) =~= Seq::<Particle>::empty());
    assert(aged.last() == p.aged(dt));
    if p.lifetime.time_left > dt {
        assert(aged.filter(alive) =~= seq![p.aged(dt)]);
    } else {
        assert(aged.filter(alive) =~= Seq::<Particle>::empty());
    }
}

/// The spawner after it has come due `n` times in a row, each tick taking
/// exactly the time that was left until the next spawn.
pub open spec fn after_spawns(s: Spawner, n: nat) -> Spawner
    decreases n,
{
    if n == 0 {
        s
    } else {
        let before = after_spawns(s, (n - 1) as nat);
        spawner_ticked(before, before.next_spawn as int)
    }
}

/// From a count that is a multiple of ten, the next nine spawns leave the
/// time between two spawns as it is, and the tenth multiplies it by 0.9.
pub proof fn lemma_ten_spawns(s: Spawner, n: nat)
    requires
        s.wf(),
        s.spawned_count % 10 == 0,
        s.spawned_count + 10 <= u64::MAX,
        n <= 10,
    ensures
        after_spawns(s, n).spawned_count == s.spawned_count + n,
        n < 10 ==> after_spawns(s, n).next_spawn_time == s.next_spawn_time,
        n == 10 ==> after_spawns(s, n).next_spawn_time == fmul(
            s.next_spawn_time as int,
            SPAWN_TIME_DECAY as int,
        ),
    decreases n,
{
    if n > 0 {
        lemma_ten_spawns(s, (n - 1) as nat);
        let before = after_spawns(s, (n - 1) as nat);
        assert(spawn_due(before, before.next_spawn as int));
        crate::fixed::lemma_fmul_unit(s.next_spawn_time as int, SPAWN_TIME_DECAY as int);
    }
}

} // verus!
