//! Bullets, and the system that ends them when their time is up.

use vstd::prelude::*;
use crate::fixed::{Vec2, LIMIT, in_range, valid_step};
use crate::states::{World, WorldView};
use crate::transforming::{Physics, Transform, moved_physics, moved_transform, wrapped_transform};

verus! {

/// What makes an entity a bullet: the time it has left to fly.
#[derive(Clone, Copy, Debug, PartialEq, Eq, Structural)]
pub struct Bullet {
    pub time_left: i64,
}

/// A bullet in flight.
#[derive(Clone, Copy, Debug, PartialEq, Eq, Structural)]
pub struct BulletEntity {
    pub transform: Transform,
    pub physics: Physics,
    pub bullet: Bullet,
}

impl BulletEntity {
    /// Whether the body is well formed, with its position within `reach`, and
    /// the time left in range.
    pub open spec fn within(self, reach: int) -> bool {
        &&& self.transform.within(reach)
        &&& self.physics.wf()
        &&& in_range(self.bullet.time_left as int)
    }

    pub open spec fn wf(self) -> bool {
        self.within(LIMIT as int)
    }

    /// Tells whether the bullet is well formed.
    pub fn is_wf(&self) -> (b: bool)
        ensures
            b == self.wf(),
    {
        self.transform.is_wf() && self.physics.is_wf() && -LIMIT <= self.bullet.time_left
            && self.bullet.time_left <= LIMIT
    }

    /// The entity after one step of `dt`.
    pub open spec fn moved(self, dt: int) -> BulletEntity {
        BulletEntity {
            transform: moved_transform(self.transform, self.physics, dt),
            physics: moved_physics(self.physics, dt),
            ..self
        }
    }

    /// The entity brought back once across a viewport of the size `dims`.
    pub open spec fn wrapped(self, dims: Vec2) -> BulletEntity {
        BulletEntity { transform: wrapped_transform(self.transform, dims), ..self }
    }

    /// The bullet after `dt` more of its flight.
    pub open spec fn aged(self, dt: int) -> BulletEntity {
        BulletEntity { bullet: Bullet { time_left: (self.bullet.time_left - dt) as i64 }, ..self }
    }

    /// Whether the bullet still has time left.
    pub open spec fn alive(self) -> bool {
        self.bullet.time_left > 0
    }
}

/// The bullets that are left of `bullets` after `dt`: each has `dt` less to
/// fly, and those with no time left are gone. The order stays.
pub open spec fn surviving_bullets(bullets: Seq<BulletEntity>, dt: int) -> Seq<BulletEntity> {
    bullets.map_values(|b: BulletEntity| b.aged(dt)).filter(|b: BulletEntity| b.alive())
}

/// Takes `dt` off the time every bullet has left and removes the bullets
/// whose time is up.
pub fn check_bullet_lifetime(world: &mut World, dt: i64)
    requires
        valid_step(dt as int),
        forall|i: int|
            0 <= i < old(world)@.bullets.len() ==> in_range(
                (#[trigger] old(world)@.bullets[i]).bullet.time_left as int,
            ),
    ensures
        final(world)@ == (WorldView {
            bullets: surviving_bullets(old(world)@.bullets, dt as int),
            ..old(world)@
        }),
        old(world).wf() ==> final(world).wf(),
{
    let ghost before = world.bullets@;
    let ghost age = |b: BulletEntity| b.aged(dt as int);
    let ghost alive = |b: BulletEntity| b.alive();
    let mut kept: Vec<BulletEntity> = Vec::new();
    let mut i: usize = 0;
    proof {
        assert(before.take(0).map_values(age) =~= Seq::<BulletEntity>::empty());
        reveal(Seq::filter);
    }
    while i < world.bullets.len()
        invariant
            0 <= i <= before.len(),
            world@ == old(world)@,
            before == old(world)@.bullets,
            valid_step(dt as int),
            forall|j: int| 0 <= j < before.len() ==> in_range((#[trigger] before[j]).bullet.time_left as int),
            age == |b: BulletEntity| b.aged(dt as int),
            alive == |b: BulletEntity| b.alive(),
            kept@ == before.take(i as int).map_values(age).filter(alive),
            old(world).wf() ==> forall|k: int| 0 <= k < kept@.len() ==> (#[trigger] kept@[k]).wf(),
        decreases before.len() - i,
    {
        let mut b: BulletEntity = world.bullets[i];
        b.bullet.time_left = b.bullet.time_left - dt;
        proof {
            let prefix = before.take(i as int);
            assert(before.take(i + 1) =~= prefix.push(before[i as int]));
            prefix.lemma_push_map_commute(age, before[i as int]);
            prefix.map_values(age).lemma_filter_push(b, alive);
            assert(b == age(before[i as int]));
        }
        if b.bullet.time_left > 0 {
            kept.push(b);
        }
        i += 1;
    }
    proof {
        assert(before.take(i as int) =~= before);
    }
    world.bullets = kept;
}

} // verus!
