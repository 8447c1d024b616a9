//! One tick of the game: every system in its turn.

use vstd::prelude::*;
use crate::bullet::{check_bullet_lifetime, surviving_bullets};
use crate::collision::{
    check_bullet_collision, check_player_collision, crashed, lemma_pass_keeps_count, shot,
};
use crate::fixed::{Vec2, valid_step};
use crate::lifetime::{check_lifetime, surviving_particles};
use crate::player::{Intents, control_player, controlled, invincibility_updated, update_invincibility};
use crate::spawner::{spawn_objects, spawned};
use crate::states::{GameStates, World, WorldView};
use crate::transforming::{move_objects, moved_world, valid_viewport, wrap_objects, wrapped_world};

verus! {

/// The world after every body has moved by a step of `dt` and has been
/// brought back once across the viewport.
pub open spec fn drifted(w: WorldView, dt: int, dims: Vec2) -> WorldView {
    wrapped_world(moved_world(w, dt), dims)
}

/// The world after `dt` of the ship's invincibility has passed.
pub open spec fn with_invincibility(w: WorldView, dt: int) -> WorldView {
    WorldView { player: invincibility_updated(w.player, dt), ..w }
}

/// The world after `dt` of the life of its bullets and particles has passed.
pub open spec fn pruned(w: WorldView, dt: int) -> WorldView {
    WorldView {
        bullets: surviving_bullets(w.bullets, dt),
        particles: surviving_particles(w.particles, dt),
        ..w
    }
}

/// Whether `after` is what the hits, the end of lifetimes and the spawner,
/// in this order, may leave of `before`.
pub open spec fn resolved(before: WorldView, after: WorldView, dt: int, dims: Vec2) -> bool {
    exists|c: WorldView, d: WorldView|
        #![trigger shot(before, c), crashed(c, d)]
        shot(before, c) && crashed(c, d) && spawned(pruned(d, dt), after, dt, dims)
}

/// Whether `after` is what a tick may leave of a world that is being played,
/// once the controls have made `a` of it. `done` tells whether the tick ran
/// to its end; it stops where the world has left the range of quantities:
/// after the controls, or after the move and the wrap.
pub open spec fn played(a: WorldView, after: WorldView, dt: int, dims: Vec2, done: bool) -> bool {
    let b = drifted(with_invincibility(a, dt), dt, dims);
    if !a.wf() {
        !done && after == a
    } else if !b.wf() {
        !done && after == b
    } else {
        done && resolved(b, after, dt, dims)
    }
}

/// Whether `after` is what a tick may leave of `before`. While the menu is
/// shown the bodies only drift. While the game is played the controls act,
/// the ship's invincibility runs down, the bodies drift, bullets and
/// asteroids hit, lifetimes end and the spawner has its turn.
pub open spec fn ticked(
    before: WorldView,
    after: WorldView,
    intents: Intents,
    dt: int,
    dims: Vec2,
    done: bool,
) -> bool {
    match before.state {
        GameStates::Menu => after == drifted(before, dt, dims) && done == after.wf(),
        GameStates::Playing => exists|a: WorldView| #[trigger]
            controlled(before, a, intents, dt) && played(a, after, dt, dims, done),
    }
}

/// Runs one tick of `dt` with the player's keys as `intents` and a viewport
/// of the width and height `dims`. Tells whether the tick ran to its end and
/// left the world well formed; where it tells otherwise the world has left
/// the range of quantities and no further tick can be run on it.
pub fn tick(world: &mut World, intents: Intents, dt: i64, dims: Vec2) -> (done: bool)
    requires
        old(world).wf(),
        valid_step(dt as int),
        valid_viewport(dims),
        old(world).score.0 + old(world)@.bullets.len() < usize::MAX,
        old(world)@.spawner matches Some(s) ==> s.spawned_count < u64::MAX,
    ensures
        ticked(old(world)@, final(world)@, intents, dt as int, dims, done),
        done == final(world).wf(),
{
    let playing: bool = world.state == GameStates::Playing;
    if playing {
        control_player(world, intents, dt);
        let ghost a = world@;
        if !world.is_wf() {
            return false;
        }
        update_invincibility(world, dt);
        move_objects(world, dt);
        wrap_objects(world, dims);
        let ghost b = world@;
        if !world.is_wf() {
            return false;
        }
        check_bullet_collision(world);
        let ghost c = world@;
        check_player_collision(world);
        let ghost d = world@;
        proof {
            lemma_pass_keeps_count(c);
        }
        check_bullet_lifetime(world, dt);
        check_lifetime(world, dt);
        assert(world@ == pruned(d, dt as int));
        spawn_objects(world, dt, dims);
        assert(shot(b, c) && crashed(c, d));
        assert(resolved(b, world@, dt as int, dims));
        assert(played(a, world@, dt as int, dims, true));
        true
    } else {
        move_objects(world, dt);
        wrap_objects(world, dims);
        world.is_wf()
    }
}

} // verus!
