//! Short-lived particles, and the system that ends them when their time is up.

use vstd::prelude::*;
use crate::fixed::{Vec2, LIMIT, in_range, valid_step};
use crate::states::{World, WorldView};
use crate::transforming::{Physics, Transform, moved_physics, moved_transform, wrapped_transform};

verus! {

/// The time an entity has left before it is removed.
#[derive(Clone, Copy, Debug, PartialEq, Eq, Structural)]
pub struct Lifetime {
    pub time_left: i64,
}

impl Lifetime {
    pub fn new(time_left: i64) -> (l: Lifetime)
        ensures
            l.time_left == time_left,
    {
        Lifetime { time_left }
    }
}

/// A piece of debris: it moves and expires, and touches nothing.
#[derive(Clone, Copy, Debug, PartialEq, Eq, Structural)]
pub struct Particle {
    pub transform: Transform,
    pub physics: Physics,
    pub lifetime: Lifetime,
    /// The width and height it is drawn with.
    pub size: Vec2,
}

impl Particle {
    /// Whether the body is well formed, with its position within `reach`, and
    /// the time left in range.
    pub open spec fn within(self, reach: int) -> bool {
        &&& self.transform.within(reach)
        &&& self.physics.wf()
        &&& in_range(self.lifetime.time_left as int)
    }

    pub open spec fn wf(self) -> bool {
        self.within(LIMIT as int)
    }

    /// Tells whether the particle is well formed.
    pub fn is_wf(&self) -> (b: bool)
        ensures
            b == self.wf(),
    {
        self.transform.is_wf() && self.physics.is_wf() && -LIMIT <= self.lifetime.time_left
            && self.lifetime.time_left <= LIMIT
    }

    /// The entity after one step of `dt`.
    pub open spec fn moved(self, dt: int) -> Particle {
        Particle {
            transform: moved_transform(self.transform, self.physics, dt),
            physics: moved_physics(self.physics, dt),
            ..self
        }
    }

    /// The entity brought back once across a viewport of the size `dims`.
    pub open spec fn wrapped(self, dims: Vec2) -> Particle {
        Particle { transform: wrapped_transform(self.transform, dims), ..self }
    }

    /// The particle after `dt` more of its life.
    pub open spec fn aged(self, dt: int) -> Particle {
        Particle { lifetime: Lifetime { time_left: (self.lifetime.time_left - dt) as i64 }, ..self }
    }

    /// Whether the particle still has time left.
    pub open spec fn alive(self) -> bool {
        self.lifetime.time_left > 0
    }
}

/// The particles that are left of `particles` after `dt`: each has `dt` less
/// to live, and those with no time left are gone. The order stays.
pub open spec fn surviving_particles(particles: Seq<Particle>, dt: int) -> Seq<Particle> {
    particles.map_values(|p: Particle| p.aged(dt)).filter(|p: Particle| p.alive())
}

/// Takes `dt` off the time every particle has left and removes the particles
/// whose time is up.
pub fn check_lifetime(world: &mut World, dt: i64)
    requires
        valid_step(dt as int),
        forall|i: int|
            0 <= i < old(world)@.particles.len() ==> in_range(
                (#[trigger] old(world)@.particles[i]).lifetime.time_left as int,
            ),
    ensures
        final(world)@ == (WorldView {
            particles: surviving_particles(old(world)@.particles, dt as int),
            ..old(world)@
        }),
        old(world).wf() ==> final(world).wf(),
{
    let ghost before = world.particles@;
    let ghost age = |p: Particle| p.aged(dt as int);
    let ghost alive = |p: Particle| p.alive();
    let mut kept: Vec<Particle> = Vec::new();
    let mut i: usize = 0;
    proof {
        assert(before.take(0).map_values(age) =~= Seq::<Particle>::empty());
        reveal(Seq::filter);
    }
    while i < world.particles.len()
        invariant
            0 <= i <= before.len(),
            world@ == old(world)@,
            before == old(world)@.particles,
            valid_step(dt as int),
            forall|j: int| 0 <= j < before.len() ==> in_range((#[trigger] before[j]).lifetime.time_left as int),
            age == |p: Particle| p.aged(dt as int),
            alive == |p: Particle| p.alive(),
            kept@ == before.take(i as int).map_values(age).filter(alive),
            old(world).wf() ==> forall|k: int| 0 <= k < kept@.len() ==> (#[trigger] kept@[k]).wf(),
        decreases before.len() - i,
    {
        let mut p: Particle = world.particles[i];
        p.lifetime.time_left = p.lifetime.time_left - dt;
        proof {
            let prefix = before.take(i as int);
            assert(before.take(i + 1) =~= prefix.push(before[i as int]));
            prefix.lemma_push_map_commute(age, before[i as int]);
            prefix.map_values(age).lemma_filter_push(p, alive);
            assert(p == age(before[i as int]));
        }
        if p.lifetime.time_left > 0 {
            kept.push(p);
        }
        i += 1;
    }
    proof {
        assert(before.take(i as int) =~= before);
    }
    world.particles = kept;
}

} // verus!
