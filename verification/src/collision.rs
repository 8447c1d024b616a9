//! Hits between bullets, asteroids and the ship, and what follows from them.

use vstd::prelude::*;
use crate::asteroid::{AsteroidEntity, MAX_SIZE, create_asteroid, created};
use crate::bullet::BulletEntity;
use crate::fixed::{Vec2, LIMIT, ONE};
use crate::helpers::{get_random_vel, random_i32, random_range, random_vel};
use crate::lifetime::{Lifetime, Particle};
use crate::player::{Player, ShipInvincibility};
use crate::spawner::{Spawner, FIRST_SPAWN_TIME};
use crate::states::{GameStates, World, WorldView};
use crate::transforming::{Physics, Transform, USUAL_MAX_VEL};
use crate::ui::{PlayerLives, Score};

verus! {

/// A bullet hits whatever is less than this far from it: 4.
pub const BULLET_REACH: i64 = 4_000_000;

/// The ship is hit by whatever is less than this far from it: half its length.
pub const PLAYER_REACH: i64 = 8_000_000;

/// An asteroid smaller than this leaves no fragments: 20.
pub const MIN_SPLIT_SIZE: i64 = 20_000_000;

/// Whether a bullet at `at` hits the asteroid: it is less than 4 away, or
/// less than the asteroid's size.
pub open spec fn bullet_hits(at: Vec2, a: AsteroidEntity) -> bool {
    ||| at.closer_than(a.transform.translation, BULLET_REACH as int)
    ||| at.closer_than(a.transform.translation, a.asteroid.size as int)
}

/// Whether the asteroid hits a ship at `at`: it is less than its size away,
/// or less than half the ship's length.
pub open spec fn player_hit_by(at: Vec2, a: AsteroidEntity) -> bool {
    ||| at.closer_than(a.transform.translation, a.asteroid.size as int)
    ||| at.closer_than(a.transform.translation, PLAYER_REACH as int)
}

/// Tells whether a bullet at `at` hits the asteroid.
pub fn bullet_hits_asteroid(at: Vec2, a: &AsteroidEntity) -> (hit: bool)
    requires
        at.in_range(),
        a.wf(),
    ensures
        hit == bullet_hits(at, *a),
{
    at.is_closer_than(a.transform.translation, BULLET_REACH) || at.is_closer_than(
        a.transform.translation,
        a.asteroid.size,
    )
}

/// Tells whether the asteroid hits a ship at `at`.
pub fn asteroid_hits_player(at: Vec2, a: &AsteroidEntity) -> (hit: bool)
    requires
        at.in_range(),
        a.wf(),
    ensures
        hit == player_hit_by(at, *a),
{
    at.is_closer_than(a.transform.translation, a.asteroid.size) || at.is_closer_than(
        a.transform.translation,
        PLAYER_REACH,
    )
}

/// The place in `asteroids` of the first asteroid that a bullet at `at` hits,
/// or the length of `asteroids` where it hits none.
pub open spec fn first_target(at: Vec2, asteroids: Seq<AsteroidEntity>) -> int
    decreases asteroids.len(),
{
    if asteroids.len() == 0 {
        0
    } else if bullet_hits(at, asteroids[0]) {
        0
    } else {
        1 + first_target(at, asteroids.drop_first())
    }
}

/// `first_target` is the one place before which the bullet hits nothing and
/// at which, unless it is the end, it hits.
pub proof fn lemma_first_target(at: Vec2, asteroids: Seq<AsteroidEntity>, j: int)
    requires
        0 <= j <= asteroids.len(),
        forall|k: int| 0 <= k < j ==> !bullet_hits(at, #[trigger] asteroids[k]),
        j < asteroids.len() ==> bullet_hits(at, asteroids[j]),
    ensures
        first_target(at, asteroids) == j,
    decreases j,
{
    if j > 0 {
        let rest = asteroids.drop_first();
        assert(!bullet_hits(at, asteroids[0]));
        assert forall|k: int| 0 <= k < j - 1 implies !bullet_hits(at, #[trigger] rest[k]) by {
            assert(rest[k] == asteroids[k + 1]);
        }
        lemma_first_target(at, rest, j - 1);
    }
}

/// What a pass of the bullets over the asteroids leaves.
pub struct Volley {
    /// The bullets that hit nothing, in their order.
    pub bullets: Seq<BulletEntity>,
    /// The asteroids that were not hit, in their order.
    pub asteroids: Seq<AsteroidEntity>,
    /// The asteroids that were hit, in the order in which they were hit.
    pub destroyed: Seq<AsteroidEntity>,
}

/// The outcome of the bullets' pass over the asteroids. The bullets take
/// their turn in order. Each hits the first asteroid in order that it reaches
/// and that no earlier bullet has hit; the two are then gone.
pub open spec fn volley(bullets: Seq<BulletEntity>, asteroids: Seq<AsteroidEntity>) -> Volley
    decreases bullets.len(),
{
    if bullets.len() == 0 {
        Volley { bullets: Seq::empty(), asteroids, destroyed: Seq::empty() }
    } else {
        let before = volley(bullets.drop_last(), asteroids);
        let b = bullets.last();
        let j = first_target(b.transform.translation, before.asteroids);
        if j < before.asteroids.len() {
            Volley {
                bullets: before.bullets,
                asteroids: before.asteroids.remove(j),
                destroyed: before.destroyed.push(before.asteroids[j]),
            }
        } else {
            Volley { bullets: before.bullets.push(b), ..before }
        }
    }
}

/// Finds the first of `asteroids` that a bullet at `at` hits.
pub fn find_target(at: Vec2, asteroids: &Vec<AsteroidEntity>) -> (j: usize)
    requires
        at.in_range(),
        forall|k: int| 0 <= k < asteroids@.len() ==> (#[trigger] asteroids@[k]).wf(),
    ensures
        j == first_target(at, asteroids@),
        j <= asteroids@.len(),
{
    let mut j: usize = 0;
    while j < asteroids.len()
        invariant
            0 <= j <= asteroids@.len(),
            at.in_range(),
            forall|k: int| 0 <= k < asteroids@.len() ==> (#[trigger] asteroids@[k]).wf(),
            forall|k: int| 0 <= k < j ==> !bullet_hits(at, #[trigger] asteroids@[k]),
        decreases asteroids@.len() - j,
    {
        if bullet_hits_asteroid(at, &asteroids[j]) {
            proof {
                lemma_first_target(at, asteroids@, j as int);
            }
            return j;
        }
        j += 1;
    }
    proof {
        lemma_first_target(at, asteroids@, j as int);
    }
    j
}

/// Lets the bullets pass over the asteroids. The bullets that hit nothing
/// and the asteroids that were not hit stay in their tables; the asteroids
/// that were hit are returned.
pub fn resolve_volley(bullets: &mut Vec<BulletEntity>, asteroids: &mut Vec<AsteroidEntity>) -> (destroyed:
    Vec<AsteroidEntity>)
    requires
        forall|k: int| 0 <= k < old(bullets)@.len() ==> (#[trigger] old(bullets)@[k]).wf(),
        forall|k: int| 0 <= k < old(asteroids)@.len() ==> (#[trigger] old(asteroids)@[k]).wf(),
    ensures
        final(bullets)@ == volley(old(bullets)@, old(asteroids)@).bullets,
        final(asteroids)@ == volley(old(bullets)@, old(asteroids)@).asteroids,
        destroyed@ == volley(old(bullets)@, old(asteroids)@).destroyed,
        destroyed@.len() <= old(bullets)@.len(),
        forall|k: int| 0 <= k < final(bullets)@.len() ==> (#[trigger] final(bullets)@[k]).wf(),
        forall|k: int| 0 <= k < final(asteroids)@.len() ==> (#[trigger] final(asteroids)@[k]).wf(),
        forall|k: int| 0 <= k < destroyed@.len() ==> (#[trigger] destroyed@[k]).wf(),
{
    let ghost start = asteroids@;
    let mut missed: Vec<BulletEntity> = Vec::new();
    let mut destroyed: Vec<AsteroidEntity> = Vec::new();
    let mut i: usize = 0;
    proof {
        assert(bullets@.take(0) =~= Seq::<BulletEntity>::empty());
    }
    while i < bullets.len()
        invariant
            0 <= i <= bullets@.len(),
            bullets@ == old(bullets)@,
            start == old(asteroids)@,
            forall|k: int| 0 <= k < bullets@.len() ==> (#[trigger] bullets@[k]).wf(),
            forall|k: int| 0 <= k < missed@.len() ==> (#[trigger] missed@[k]).wf(),
            forall|k: int| 0 <= k < asteroids@.len() ==> (#[trigger] asteroids@[k]).wf(),
            forall|k: int| 0 <= k < destroyed@.len() ==> (#[trigger] destroyed@[k]).wf(),
            destroyed@.len() <= i,
            missed@ == volley(bullets@.take(i as int), start).bullets,
            asteroids@ == volley(bullets@.take(i as int), start).asteroids,
            destroyed@ == volley(bullets@.take(i as int), start).destroyed,
        decreases bullets@.len() - i,
    {
        let b: BulletEntity = bullets[i];
        proof {
            assert(bullets@.take(i + 1).drop_last() =~= bullets@.take(i as int));
            assert(bullets@.take(i + 1).last() == b);
        }
        let j: usize = find_target(b.transform.translation, asteroids);
        if j < asteroids.len() {
            let a: AsteroidEntity = asteroids.remove(j);
            destroyed.push(a);
        } else {
            missed.push(b);
        }
        i += 1;
    }
    proof {
        assert(bullets@.take(i as int) =~= bullets@);
    }
    *bullets = missed;
    destroyed
}

/// How much faster than an asteroid of the size `MAX_SIZE` a fragment of the
/// given size flies: as many times as it is smaller.
pub open spec fn speed_modifier(size: int) -> int {
    (MAX_SIZE * ONE) / size
}

/// Whether fragments of the given size can be given a speed: the size is
/// positive and the greatest speed they may get is in range.
pub open spec fn fragment_speeds_fit(size: int) -> bool {
    size > 0 && 100 * speed_modifier(size) <= LIMIT
}

/// Whether `child` is an asteroid that `spawn_asteroids` may add for the
/// given size and position: it flies in a direction of the table at a speed
/// from 20 up to 100, times the speed modifier of its size.
pub open spec fn is_fragment(table: Seq<Vec2>, child: AsteroidEntity, size: i64, position: Vec2) -> bool {
    exists|vel: Vec2|
        random_vel(table, 20 * speed_modifier(size as int), 100 * speed_modifier(size as int), vel)
            && #[trigger] created(child, size, position, vel)
}

/// The speed modifier of a fragment of the given size.
pub fn fragment_speed_modifier(size: i64) -> (m: i64)
    requires
        size > 0,
    ensures
        m == speed_modifier(size as int),
        0 <= m <= MAX_SIZE * ONE,
{
    let whole: i64 = 50_000_000_000_000;
    assert(0 <= whole / size <= whole) by (nonlinear_arith)
        requires
            size > 0,
            whole >= 0,
    ;
    whole / size
}

/// Adds `count` asteroids of the given size at `pos`, each with a velocity
/// drawn at random, the faster the smaller they are.
pub fn spawn_asteroids(world: &mut World, count: i32, pos: Vec2, size: i64)
    requires
        fragment_speeds_fit(size as int),
    ensures
        final(world)@ == (WorldView { asteroids: final(world)@.asteroids, ..old(world)@ }),
        final(world)@.asteroids.len() == old(world)@.asteroids.len() + (if count > 0 {
            count as int
        } else {
            0
        }),
        final(world)@.asteroids.take(old(world)@.asteroids.len() as int) == old(world)@.asteroids,
        forall|k: int|
            old(world)@.asteroids.len() <= k < final(world)@.asteroids.len() ==> is_fragment(
                old(world)@.compass,
                #[trigger] final(world)@.asteroids[k],
                size,
                pos,
            ),
        old(world).wf() && size <= LIMIT && pos.in_range() ==> final(world).wf(),
{
    let modifier: i64 = fragment_speed_modifier(size);
    let ghost before = world@.asteroids;
    let mut n: i32 = 0;
    proof {
        assert(world@.asteroids.take(before.len() as int) =~= before);
    }
    while n < count
        invariant
            0 <= n,
            count > 0 ==> n <= count,
            count <= 0 ==> n == 0,
            before == old(world)@.asteroids,
            fragment_speeds_fit(size as int),
            modifier == speed_modifier(size as int),
            world@ == (WorldView { asteroids: world@.asteroids, ..old(world)@ }),
            world@.asteroids.len() == before.len() + n,
            world@.asteroids.take(before.len() as int) == before,
            forall|k: int|
                before.len() <= k < world@.asteroids.len() ==> is_fragment(
                    old(world)@.compass,
                    #[trigger] world@.asteroids[k],
                    size,
                    pos,
                ),
            old(world).wf() && size <= LIMIT && pos.in_range() ==> world.wf(),
        decreases count - n,
    {
        let ghost so_far = world@.asteroids;
        let vel: Vec2 = get_random_vel(&world.compass, 20 * modifier, 100 * modifier);
        create_asteroid(world, size, pos, vel);
        proof {
            assert(world@.asteroids.take(before.len() as int) =~= so_far.take(before.len() as int));
            assert forall|k: int| before.len() <= k < world@.asteroids.len() implies is_fragment(
                old(world)@.compass,
                #[trigger] world@.asteroids[k],
                size,
                pos,
            ) by {
                if k < so_far.len() {
                    assert(world@.asteroids[k] == so_far[k]);
                } else {
                    assert(created(world@.asteroids[k], size, pos, vel));
                }
            }
        }
        n += 1;
    }
}

/// The least number of sparks of an explosion.
pub const MIN_SPARKS: i32 = 4;

/// The greatest number of sparks of an explosion.
pub const MAX_SPARKS: i32 = 9;

/// A spark lives for 0.8 seconds.
pub const SPARK_LIFETIME: i64 = 800_000;

/// Whether `p` is a spark that `spawn_explosion` may add at `position`: it
/// starts there, flies in a direction of the table at a speed from 30 up to
/// 100, lives for 0.8 seconds and is a square with a side from 2 up to 3.
pub open spec fn is_spark(table: Seq<Vec2>, p: Particle, position: Vec2) -> bool {
    &&& p.transform == (Transform { translation: position, rotation: 0 })
    &&& p.physics.acc == (Vec2 { x: 0, y: 0 })
    &&& p.physics.max_vel == (Vec2 { x: USUAL_MAX_VEL, y: USUAL_MAX_VEL })
    &&& p.physics.rot_vel == 0
    &&& random_vel(table, 30 * ONE, 100 * ONE, p.physics.vel)
    &&& p.physics.vel.in_range()
    &&& p.lifetime.time_left == SPARK_LIFETIME
    &&& p.size.x == p.size.y
    &&& 2 * ONE <= p.size.x < 3 * ONE
}

/// Adds the sparks of an explosion at `position`: from four to nine of them.
pub fn spawn_explosion(world: &mut World, position: Vec2)
    ensures
        final(world)@ == (WorldView { particles: final(world)@.particles, ..old(world)@ }),
        old(world)@.particles.len() + MIN_SPARKS <= final(world)@.particles.len()
            <= old(world)@.particles.len() + MAX_SPARKS,
        final(world)@.particles.take(old(world)@.particles.len() as int) == old(world)@.particles,
        forall|k: int|
            old(world)@.particles.len() <= k < final(world)@.particles.len() ==> is_spark(
                old(world)@.compass,
                #[trigger] final(world)@.particles[k],
                position,
            ),
        old(world).wf() && position.in_range() ==> final(world).wf(),
{
    let particles: i32 = random_i32(MIN_SPARKS, MAX_SPARKS + 1);
    let ghost before = world@.particles;
    let mut n: i32 = 0;
    proof {
        assert(world@.particles.take(before.len() as int) =~= before);
    }
    while n < particles
        invariant
            0 <= n <= particles,
            MIN_SPARKS <= particles <= MAX_SPARKS,
            before == old(world)@.particles,
            world@ == (WorldView { particles: world@.particles, ..old(world)@ }),
            world@.particles.len() == before.len() + n,
            world@.particles.take(before.len() as int) == before,
            forall|k: int|
                before.len() <= k < world@.particles.len() ==> is_spark(
                    old(world)@.compass,
                    #[trigger] world@.particles[k],
                    position,
                ),
            old(world).wf() && position.in_range() ==> world.wf(),
        decreases particles - n,
    {
        let ghost so_far = world@.particles;
        let rand_dir: Vec2 = get_random_vel(&world.compass, 30_000_000, 100_000_000);
        let size: i64 = random_range(2_000_000, 3_000_000);
        let p = Particle {
            transform: Transform::from_translation(position),
            physics: Physics::new_with_vel(rand_dir),
            lifetime: Lifetime::new(SPARK_LIFETIME),
            size: Vec2::new(size, size),
        };
        world.particles.push(p);
        proof {
            assert(world@.particles.take(before.len() as int) =~= so_far.take(before.len() as int));
        }
        n += 1;
    }
}

/// How many fragments an asteroid of the given size leaves when it is
/// destroyed: none below the size 20, else two.
pub open spec fn fragments_due(size: int) -> int {
    if size < MIN_SPLIT_SIZE {
        0
    } else {
        2
    }
}

/// Whether `children` are fragments that the destroyed asteroid `parent` may
/// leave: as many as are due, each of half the parent's size and at the
/// parent's place.
pub open spec fn fragments_of(table: Seq<Vec2>, parent: AsteroidEntity, children: Seq<AsteroidEntity>) -> bool {
    &&& children.len() == fragments_due(parent.asteroid.size as int)
    &&& forall|k: int|
        0 <= k < children.len() ==> is_fragment(
            table,
            #[trigger] children[k],
            (parent.asteroid.size / 2) as i64,
            parent.transform.translation,
        )
}

/// Whether `children` are the fragments that the asteroids of `destroyed`
/// may leave, those of the first asteroid first.
pub open spec fn shattered(table: Seq<Vec2>, destroyed: Seq<AsteroidEntity>, children: Seq<AsteroidEntity>) -> bool
    decreases destroyed.len(),
{
    if destroyed.len() == 0 {
        children.len() == 0
    } else {
        let cut = children.len() - fragments_due(destroyed.last().asteroid.size as int);
        &&& cut >= 0
        &&& shattered(table, destroyed.drop_last(), children.take(cut))
        &&& fragments_of(table, destroyed.last(), children.skip(cut))
    }
}

/// Whether `sparks` are the sparks that the explosions of the asteroids of
/// `destroyed` may leave, those of the first asteroid first: from four to
/// nine for each, at the asteroid's place.
pub open spec fn debris(table: Seq<Vec2>, destroyed: Seq<AsteroidEntity>, sparks: Seq<Particle>) -> bool
    decreases destroyed.len(),
{
    if destroyed.len() == 0 {
        sparks.len() == 0
    } else {
        exists|cut: int|
            {
                &&& 0 <= cut
                &&& cut + MIN_SPARKS <= sparks.len() <= cut + MAX_SPARKS
                &&& debris(table, destroyed.drop_last(), #[trigger] sparks.take(cut))
                &&& forall|k: int|
                    cut <= k < sparks.len() ==> is_spark(
                        table,
                        #[trigger] sparks[k],
                        destroyed.last().transform.translation,
                    )
            }
    }
}

/// An asteroid of at least the size 20 leaves fragments large enough to be
/// given a speed.
pub proof fn lemma_fragments_fit(size: int)
    requires
        MIN_SPLIT_SIZE <= size,
    ensures
        fragment_speeds_fit(size / 2),
{
    let half: int = size / 2;
    let whole: int = MAX_SIZE * ONE;
    assert(whole / half <= 5_000_000) by (nonlinear_arith)
        requires
            half >= 10_000_000,
            whole == 50_000_000_000_000,
    ;
}

/// Replaces a destroyed asteroid by its fragments: none where it was smaller
/// than 20, else two of half its size at its place, each with a velocity
/// drawn at random.
pub fn split_asteroid(world: &mut World, parent: &AsteroidEntity)
    requires
        parent.asteroid.size > 0,
    ensures
        final(world)@ == (WorldView { asteroids: final(world)@.asteroids, ..old(world)@ }),
        final(world)@.asteroids.len() >= old(world)@.asteroids.len(),
        final(world)@.asteroids.take(old(world)@.asteroids.len() as int) == old(world)@.asteroids,
        fragments_of(
            old(world)@.compass,
            *parent,
            final(world)@.asteroids.skip(old(world)@.asteroids.len() as int),
        ),
        old(world).wf() && parent.wf() ==> final(world).wf(),
{
    if parent.asteroid.size < MIN_SPLIT_SIZE {
        proof {
            assert(world@.asteroids.take(world@.asteroids.len() as int) =~= world@.asteroids);
        }
        return ;
    }
    proof {
        lemma_fragments_fit(parent.asteroid.size as int);
    }
    spawn_asteroids(world, 2, parent.transform.translation, parent.asteroid.size / 2);
}

/// Whether `after` is what the bullets' pass over the asteroids may leave of
/// `before`: the bullets that hit nothing and the asteroids that were not hit
/// are left, every hit has scored a point, and the fragments and the sparks
/// of the asteroids that were hit have been added.
pub open spec fn shot(before: WorldView, after: WorldView) -> bool {
    let v = volley(before.bullets, before.asteroids);
    &&& after == (WorldView {
        score: after.score,
        bullets: v.bullets,
        asteroids: after.asteroids,
        particles: after.particles,
        ..before
    })
    &&& after.score.0 == before.score.0 + v.destroyed.len()
    &&& after.asteroids.len() >= v.asteroids.len()
    &&& after.asteroids.take(v.asteroids.len() as int) == v.asteroids
    &&& shattered(before.compass, v.destroyed, after.asteroids.skip(v.asteroids.len() as int))
    &&& after.particles.len() >= before.particles.len()
    &&& after.particles.take(before.particles.len() as int) == before.particles
    &&& debris(before.compass, v.destroyed, after.particles.skip(before.particles.len() as int))
}

/// Lets every bullet hit the first asteroid it reaches. A hit scores one
/// point and removes the bullet and the asteroid; the asteroid leaves an
/// explosion and its fragments. Fragments are not hit in the pass that made
/// them.
pub fn check_bullet_collision(world: &mut World)
    requires
        old(world).wf(),
        old(world).score.0 + old(world)@.bullets.len() <= usize::MAX,
    ensures
        shot(old(world)@, final(world)@),
        final(world).wf(),
{
    let ghost before = world@;
    let ghost v = volley(before.bullets, before.asteroids);
    let destroyed: Vec<AsteroidEntity> = resolve_volley(&mut world.bullets, &mut world.asteroids);
    let ghost table = before.compass;
    let ghost left = v.asteroids.len() as int;
    let ghost dust = before.particles.len() as int;
    let mut i: usize = 0;
    proof {
        assert(world@.asteroids.take(left) =~= v.asteroids);
        assert(world@.particles.take(dust) =~= before.particles);
        assert(destroyed@.take(0) =~= Seq::<AsteroidEntity>::empty());
    }
    while i < destroyed.len()
        invariant
            0 <= i <= destroyed@.len(),
            before == old(world)@,
            v == volley(before.bullets, before.asteroids),
            table == before.compass,
            left == v.asteroids.len(),
            dust == before.particles.len(),
            destroyed@ == v.destroyed,
            destroyed@.len() <= before.bullets.len(),
            before.score.0 + before.bullets.len() <= usize::MAX,
            forall|k: int| 0 <= k < destroyed@.len() ==> (#[trigger] destroyed@[k]).wf(),
            world.wf(),
            world@ == (WorldView {
                score: world@.score,
                bullets: v.bullets,
                asteroids: world@.asteroids,
                particles: world@.particles,
                ..before
            }),
            world@.score.0 == before.score.0 + i,
            world@.asteroids.len() >= left,
            world@.asteroids.take(left) == v.asteroids,
            shattered(table, destroyed@.take(i as int), world@.asteroids.skip(left)),
            world@.particles.len() >= dust,
            world@.particles.take(dust) == before.particles,
            debris(table, destroyed@.take(i as int), world@.particles.skip(dust)),
        decreases destroyed@.len() - i,
    {
        let a: AsteroidEntity = destroyed[i];
        let ghost rocks = world@.asteroids;
        let ghost sparks = world@.particles;
        let ghost scored = WorldView { score: Score((world@.score.0 + 1) as usize), ..world@ };
        world.score.0 = world.score.0 + 1;
        assert(world@ == scored);
        assert(world.wf());
        spawn_explosion(world, a.transform.translation);
        split_asteroid(world, &a);
        proof {
            let hit = destroyed@.take(i + 1);
            assert(hit.drop_last() =~= destroyed@.take(i as int));
            assert(hit.last() == a);
            let rocks2 = world@.asteroids;
            let sparks2 = world@.particles;
            assert(rocks2.take(left) =~= rocks.take(rocks.len() as int).take(left));
            assert(rocks.take(rocks.len() as int) =~= rocks);
            assert(sparks2.take(dust) =~= sparks.take(sparks.len() as int).take(dust));
            assert(sparks.take(sparks.len() as int) =~= sparks);
            let cut = rocks.len() - left;
            assert(rocks2.skip(left).take(cut) =~= rocks.skip(left));
            assert(rocks2.skip(left).skip(cut) =~= rocks2.skip(rocks.len() as int));
            let cut2 = sparks.len() - dust;
            assert(sparks2.skip(dust).take(cut2) =~= sparks.skip(dust));
            assert forall|k: int| cut2 <= k < sparks2.skip(dust).len() implies is_spark(
                table,
                #[trigger] sparks2.skip(dust)[k],
                a.transform.translation,
            ) by {
                assert(sparks2.skip(dust)[k] == sparks2[k + dust]);
            }
        }
        i += 1;
    }
    proof {
        assert(destroyed@.take(i as int) =~= destroyed@);
    }
}

/// The ship after an asteroid has hit it: at rest at the origin, not turned,
/// and invincible anew.
pub open spec fn struck(p: Player) -> Player {
    Player {
        transform: Transform { translation: Vec2 { x: 0, y: 0 }, rotation: 0 },
        physics: Physics {
            acc: Vec2 { x: 0, y: 0 },
            vel: Vec2 { x: 0, y: 0 },
            max_vel: p.physics.max_vel,
            rot_vel: 0,
        },
        invincibility: ShipInvincibility::fresh(),
        visible: p.visible,
    }
}

/// The spawner, where there is one, made due at once with the first interval.
pub open spec fn spawner_reset(spawner: Option<Spawner>) -> Option<Spawner> {
    match spawner {
        Some(s) => Some(
            Spawner { next_spawn: 0, next_spawn_time: FIRST_SPAWN_TIME, spawned_count: s.spawned_count },
        ),
        None => None,
    }
}

/// What a pass of the asteroids over the ship leaves.
pub struct Crash {
    pub player: Option<Player>,
    pub lives: PlayerLives,
    pub spawner: Option<Spawner>,
    pub state: GameStates,
    /// The asteroids that did not hit the ship, in their order.
    pub asteroids: Seq<AsteroidEntity>,
    /// The asteroids that hit the ship, in their order.
    pub destroyed: Seq<AsteroidEntity>,
}

/// The outcome of the pass of `asteroids` over the ship of the world `w`.
/// The asteroids take their turn in order, each against the ship as the
/// asteroids before it have left it. A hit removes the asteroid, costs a life,
/// resets the spawner and puts the ship back at the origin, invincible. With
/// the last life the ship goes and the game returns to the menu; nothing hits
/// after that.
pub open spec fn crash(w: WorldView, asteroids: Seq<AsteroidEntity>) -> Crash
    decreases asteroids.len(),
{
    if asteroids.len() == 0 {
        Crash {
            player: w.player,
            lives: w.lives,
            spawner: w.spawner,
            state: w.state,
            asteroids: Seq::empty(),
            destroyed: Seq::empty(),
        }
    } else {
        let before = crash(w, asteroids.drop_last());
        let a = asteroids.last();
        if before.player is Some && player_hit_by(before.player->0.transform.translation, a) {
            let lives = before.lives.0 - 1;
            Crash {
                player: if lives == 0 {
                    None
                } else {
                    Some(struck(before.player->0))
                },
                lives: PlayerLives(lives as usize),
                spawner: spawner_reset(before.spawner),
                state: if lives == 0 {
                    GameStates::Menu
                } else {
                    before.state
                },
                asteroids: before.asteroids,
                destroyed: before.destroyed.push(a),
            }
        } else {
            Crash { asteroids: before.asteroids.push(a), ..before }
        }
    }
}

/// The outcome of the asteroids' pass over the ship, which takes place only
/// where there is a ship and it is not invincible.
pub open spec fn player_pass(w: WorldView) -> Crash {
    if w.player is Some && !w.player->0.invincibility.invincible() {
        crash(w, w.asteroids)
    } else {
        Crash {
            player: w.player,
            lives: w.lives,
            spawner: w.spawner,
            state: w.state,
            asteroids: w.asteroids,
            destroyed: Seq::empty(),
        }
    }
}

/// Hits on the ship reset the spawner but never change how many times it
/// has come due, nor bring a spawner about or take one away.
pub proof fn lemma_crash_keeps_count(w: WorldView, asteroids: Seq<AsteroidEntity>)
    ensures
        crash(w, asteroids).spawner is Some == w.spawner is Some,
        w.spawner is Some ==> crash(w, asteroids).spawner->0.spawned_count
            == w.spawner->0.spawned_count,
    decreases asteroids.len(),
{
    if asteroids.len() > 0 {
        lemma_crash_keeps_count(w, asteroids.drop_last());
    }
}

/// The asteroids' pass over the ship never changes how many times the
/// spawner has come due, nor brings a spawner about or takes one away.
pub proof fn lemma_pass_keeps_count(w: WorldView)
    ensures
        player_pass(w).spawner is Some == w.spawner is Some,
        w.spawner is Some ==> player_pass(w).spawner->0.spawned_count
            == w.spawner->0.spawned_count,
{
    lemma_crash_keeps_count(w, w.asteroids);
}

/// Lets the asteroids pass over the ship and returns those that hit it;
/// their fragments are not added.
pub fn resolve_crash(world: &mut World) -> (destroyed: Vec<AsteroidEntity>)
    requires
        old(world).wf(),
    ensures
        ({
            let c = player_pass(old(world)@);
            &&& final(world)@ == (WorldView {
                player: c.player,
                lives: c.lives,
                spawner: c.spawner,
                state: c.state,
                asteroids: c.asteroids,
                ..old(world)@
            })
            &&& destroyed@ == c.destroyed
        }),
        final(world).wf(),
        forall|k: int| 0 <= k < destroyed@.len() ==> (#[trigger] destroyed@[k]).wf(),
{
    let mut destroyed: Vec<AsteroidEntity> = Vec::new();
    match world.player {
        None => {
            return destroyed;
        },
        Some(p) => {
            if p.invincibility.is_invincible() {
                return destroyed;
            }
        },
    }
    let ghost before = world@;
    let mut left: Vec<AsteroidEntity> = Vec::new();
    let mut i: usize = 0;
    proof {
        assert(before.asteroids.take(0) =~= Seq::<AsteroidEntity>::empty());
    }
    while i < world.asteroids.len()
        invariant
            0 <= i <= before.asteroids.len(),
            before == old(world)@,
            before.wf(),
            world.wf(),
            forall|k: int| 0 <= k < left@.len() ==> (#[trigger] left@[k]).wf(),
            forall|k: int| 0 <= k < destroyed@.len() ==> (#[trigger] destroyed@[k]).wf(),
            ({
                let c = crash(before, before.asteroids.take(i as int));
                &&& world@ == (WorldView {
                    player: c.player,
                    lives: c.lives,
                    spawner: c.spawner,
                    state: c.state,
                    ..before
                })
                &&& left@ == c.asteroids
                &&& destroyed@ == c.destroyed
            }),
        decreases before.asteroids.len() - i,
    {
        let a: AsteroidEntity = world.asteroids[i];
        proof {
            assert(before.asteroids.take(i + 1).drop_last() =~= before.asteroids.take(i as int));
            assert(before.asteroids.take(i + 1).last() == a);
        }
        let hit: bool = match world.player {
            Some(p) => asteroid_hits_player(p.transform.translation, &a),
            None => false,
        };
        if hit {
            let p: Player = world.player.unwrap();
            destroyed.push(a);
            if let Some(s) = world.spawner {
                let mut s: Spawner = s;
                s.reset();
                world.spawner = Some(s);
            }
            world.lives.0 = world.lives.0 - 1;
            let mut si: ShipInvincibility = p.invincibility;
            si.set_invincible();
            let mut pp: Physics = p.physics;
            pp.reset();
            if world.lives.0 == 0 {
                world.player = None;
                world.state = GameStates::Menu;
            } else {
                world.player = Some(
                    Player {
                        transform: Transform::from_translation(Vec2::zero()),
                        physics: pp,
                        invincibility: si,
                        visible: p.visible,
                    },
                );
            }
        } else {
            left.push(a);
        }
        i += 1;
    }
    proof {
        assert(before.asteroids.take(i as int) =~= before.asteroids);
    }
    world.asteroids = left;
    destroyed
}

/// Whether `after` is what the asteroids' pass over the ship may leave of
/// `before`: the ship, the lives, the spawner and the state of the game are
/// as the pass leaves them, the asteroids that did not hit are left, and the
/// fragments of those that hit have been added.
pub open spec fn crashed(before: WorldView, after: WorldView) -> bool {
    let c = player_pass(before);
    &&& after == (WorldView {
        player: c.player,
        lives: c.lives,
        spawner: c.spawner,
        state: c.state,
        asteroids: after.asteroids,
        ..before
    })
    &&& after.asteroids.len() >= c.asteroids.len()
    &&& after.asteroids.take(c.asteroids.len() as int) == c.asteroids
    &&& shattered(before.compass, c.destroyed, after.asteroids.skip(c.asteroids.len() as int))
}

/// Lets every asteroid hit the ship, unless there is no ship or it is
/// invincible. A hit removes the asteroid, which leaves its fragments, costs
/// a life, resets the spawner and puts the ship back at the origin,
/// invincible. With the last life the ship goes and the game returns to the
/// menu.
pub fn check_player_collision(world: &mut World)
    requires
        old(world).wf(),
    ensures
        crashed(old(world)@, final(world)@),
        final(world).wf(),
{
    let ghost before = world@;
    let ghost c = player_pass(before);
    let destroyed: Vec<AsteroidEntity> = resolve_crash(world);
    let ghost table = before.compass;
    let ghost left = c.asteroids.len() as int;
    let mut i: usize = 0;
    proof {
        assert(world@.asteroids.take(left) =~= c.asteroids);
        assert(destroyed@.take(0) =~= Seq::<AsteroidEntity>::empty());
    }
    while i < destroyed.len()
        invariant
            0 <= i <= destroyed@.len(),
            before == old(world)@,
            c == player_pass(before),
            table == before.compass,
            left == c.asteroids.len(),
            destroyed@ == c.destroyed,
            forall|k: int| 0 <= k < destroyed@.len() ==> (#[trigger] destroyed@[k]).wf(),
            world.wf(),
            world@ == (WorldView {
                player: c.player,
                lives: c.lives,
                spawner: c.spawner,
                state: c.state,
                asteroids: world@.asteroids,
                ..before
            }),
            world@.asteroids.len() >= left,
            world@.asteroids.take(left) == c.asteroids,
            shattered(table, destroyed@.take(i as int), world@.asteroids.skip(left)),
        decreases destroyed@.len() - i,
    {
        let a: AsteroidEntity = destroyed[i];
        let ghost rocks = world@.asteroids;
        split_asteroid(world, &a);
        proof {
            let hit = destroyed@.take(i + 1);
            assert(hit.drop_last() =~= destroyed@.take(i as int));
            assert(hit.last() == a);
            let rocks2 = world@.asteroids;
            assert(rocks2.take(left) =~= rocks.take(rocks.len() as int).take(left));
            assert(rocks.take(rocks.len() as int) =~= rocks);
            let cut = rocks.len() - left;
            assert(rocks2.skip(left).take(cut) =~= rocks.skip(left));
            assert(rocks2.skip(left).skip(cut) =~= rocks2.skip(rocks.len() as int));
        }
        i += 1;
    }
    proof {
        assert(destroyed@.take(i as int) =~= destroyed@);
    }
}

} // verus!
