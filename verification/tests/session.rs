use asteroids::asteroid::AsteroidEntity;
use asteroids::bullet::{Bullet, BulletEntity};
use asteroids::compass::Compass;
use asteroids::fixed::{Vec2, LIMIT, ONE, PI, TAU};
use asteroids::helpers::{get_random_vel, random_range};
use asteroids::lifetime::{Lifetime, Particle};
use asteroids::player::{
    control_player, exhaust_particle, fire_bullet, orthogonal_position,
    random_orthogonal_position, steer, tick_invincibility, update_invincibility, Intents, Player,
    ShipInvincibility,
};
use asteroids::spawner::{edge_position, is_clear_of, spawn_objects, Spawner};
use asteroids::states::{cleanup_playing, setup_playing_state, GameStates, World};
use asteroids::transforming::{Physics, Transform};
use asteroids::ui::{main_menu, Interaction, PlayerLives, Score};

fn cardinal() -> Compass {
    Compass::new(vec![
        Vec2::new(ONE, 0),
        Vec2::new(0, ONE),
        Vec2::new(-ONE, 0),
        Vec2::new(0, -ONE),
    ])
    .unwrap()
}

fn table(steps: usize) -> Compass {
    let mut dirs = Vec::new();
    for i in 0..steps {
        let a = (i as f64) * std::f64::consts::TAU / (steps as f64);
        dirs.push(Vec2::new((a.cos() * 1e6).round() as i64, (a.sin() * 1e6).round() as i64));
    }
    Compass::new(dirs).unwrap()
}

fn idle() -> Intents {
    Intents { rotate_left: false, rotate_right: false, thrust: false, fire: false }
}

fn ship() -> Player {
    Player {
        transform: Transform::from_xy(0, 0),
        physics: Physics::new(),
        invincibility: ShipInvincibility::new(),
        visible: true,
    }
}

#[test]
fn score_clears_to_zero() {
    let mut s = Score(41);
    s.clear();
    assert_eq!(s, Score(0));
    assert_eq!(Score::default(), Score(0));
}

#[test]
fn lives_reset_to_three() {
    let mut l = PlayerLives(0);
    l.reset();
    assert_eq!(l, PlayerLives(3));
    assert_eq!(PlayerLives::default(), PlayerLives(0));
}

#[test]
fn a_new_world_shows_the_menu_and_is_empty() {
    let world = World::new(cardinal());
    assert_eq!(world.state, GameStates::Menu);
    assert_eq!(GameStates::default(), GameStates::Menu);
    assert!(world.player.is_none() && world.spawner.is_none());
    assert!(world.asteroids.is_empty() && world.bullets.is_empty() && world.particles.is_empty());
    assert!(world.is_wf());
}

#[test]
fn setup_gives_ship_spawner_lives_and_score() {
    let mut world = World::new(cardinal());
    world.score = Score(9);
    setup_playing_state(&mut world);
    assert_eq!(world.player, Some(ship()));
    assert_eq!(world.spawner, Some(Spawner { next_spawn: 0, next_spawn_time: 6 * ONE, spawned_count: 0 }));
    assert_eq!(world.lives, PlayerLives(3));
    assert_eq!(world.score, Score(0));
    assert_eq!(world.state, GameStates::Menu);
    assert!(world.player.unwrap().invincibility.is_invincible());
    assert!(world.is_wf());
}

#[test]
fn setup_twice_is_setup_once() {
    let mut once = World::new(cardinal());
    setup_playing_state(&mut once);
    let mut twice = World::new(cardinal());
    setup_playing_state(&mut twice);
    setup_playing_state(&mut twice);
    assert_eq!(once.player, twice.player);
    assert_eq!(once.spawner, twice.spawner);
    assert_eq!(once.lives, twice.lives);
    assert_eq!(once.score, twice.score);
}

#[test]
fn cleanup_removes_every_entity() {
    let mut world = World::new(cardinal());
    setup_playing_state(&mut world);
    world.score = Score(5);
    world.state = GameStates::Playing;
    world.asteroids.push(AsteroidEntity::new(ONE, Vec2::zero(), Vec2::zero(), 0));
    world.bullets.push(BulletEntity {
        transform: Transform::from_xy(0, 0),
        physics: Physics::new(),
        bullet: Bullet { time_left: ONE },
    });
    world.particles.push(Particle {
        transform: Transform::from_xy(0, 0),
        physics: Physics::new(),
        lifetime: Lifetime::new(ONE),
        size: Vec2::new(1, 1),
    });
    cleanup_playing(&mut world);
    assert!(world.player.is_none() && world.spawner.is_none());
    assert!(world.asteroids.is_empty() && world.bullets.is_empty() && world.particles.is_empty());
    assert_eq!(world.score, Score(5));
    assert_eq!(world.lives, PlayerLives(3));
    assert_eq!(world.state, GameStates::Playing);
    cleanup_playing(&mut world);
    assert!(world.player.is_none());
    assert!(world.is_wf());
}

#[test]
fn a_press_starts_the_game() {
    let mut world = World::new(cardinal());
    assert_eq!(main_menu(&mut world, Interaction::Hovered), 22 * ONE);
    assert_eq!(world.state, GameStates::Menu);
    assert_eq!(main_menu(&mut world, Interaction::Idle), 18 * ONE);
    assert_eq!(world.state, GameStates::Menu);
    assert_eq!(main_menu(&mut world, Interaction::Pressed), 18 * ONE);
    assert_eq!(world.state, GameStates::Playing);
}

#[test]
fn a_world_out_of_range_is_not_well_formed() {
    let mut world = World::new(cardinal());
    setup_playing_state(&mut world);
    assert!(world.is_wf());
    let mut far = world.player.unwrap();
    far.transform.translation.x = LIMIT + 1;
    world.player = Some(far);
    assert!(!world.is_wf());
    world.player = Some(ship());
    world.lives = PlayerLives(0);
    assert!(!world.is_wf());
    world.lives = PlayerLives(1);
    world.asteroids.push(AsteroidEntity::new(0, Vec2::zero(), Vec2::zero(), 0));
    assert!(!world.is_wf());
    world.asteroids.clear();
    world.bullets.push(BulletEntity {
        transform: Transform { translation: Vec2::zero(), rotation: TAU },
        physics: Physics::new(),
        bullet: Bullet { time_left: ONE },
    });
    assert!(!world.is_wf());
    world.bullets.clear();
    let mut p = Physics::new();
    p.max_vel.y = -1;
    world.particles.push(Particle {
        transform: Transform::from_xy(0, 0),
        physics: p,
        lifetime: Lifetime::new(ONE),
        size: Vec2::new(1, 1),
    });
    assert!(!world.is_wf());
    world.particles.clear();
    assert!(world.is_wf());
}

#[test]
fn invincibility_starts_at_two_seconds() {
    let s = ShipInvincibility::new();
    assert_eq!(s, ShipInvincibility { invincibility_time: 2 * ONE, flash_timer: 0 });
    assert!(s.is_invincible());
    let mut t = ShipInvincibility { invincibility_time: 0, flash_timer: 77 };
    assert!(!t.is_invincible());
    t.set_invincible();
    assert_eq!(t, s);
}

#[test]
fn invincibility_runs_out_and_shows_the_ship() {
    let mut p = ship();
    p.visible = false;
    p.invincibility = ShipInvincibility { invincibility_time: 100_000, flash_timer: 150_000 };
    let q = tick_invincibility(p, 100_000);
    assert_eq!(q.invincibility, ShipInvincibility { invincibility_time: 0, flash_timer: 0 });
    assert!(q.visible);
    assert!(!q.invincibility.is_invincible());
    let r = tick_invincibility(p, 5 * ONE);
    assert_eq!(r.invincibility, ShipInvincibility { invincibility_time: 0, flash_timer: 0 });
    assert!(r.visible);
}

#[test]
fn a_ship_that_can_be_hit_does_not_blink() {
    let mut p = ship();
    p.visible = false;
    p.invincibility = ShipInvincibility { invincibility_time: 0, flash_timer: 5 };
    assert_eq!(tick_invincibility(p, ONE), p);
}

#[test]
fn the_ship_blinks_every_fifth_of_a_second() {
    let mut p = ship();
    let mut shown = Vec::new();
    for _ in 0..9 {
        p = tick_invincibility(p, 70_000);
        shown.push(p.visible);
    }
    assert_eq!(shown, vec![true, true, false, false, false, true, true, true, false]);
    assert_eq!(p.invincibility.invincibility_time, 2 * ONE - 630_000);
    assert_eq!(p.invincibility.flash_timer, 0);
}

#[test]
fn the_blink_needs_more_than_a_fifth_of_a_second() {
    let mut p = ship();
    p = tick_invincibility(p, 200_000);
    assert!(p.visible);
    assert_eq!(p.invincibility.flash_timer, 200_000);
    p = tick_invincibility(p, 1);
    assert!(!p.visible);
    assert_eq!(p.invincibility.flash_timer, 0);
}

#[test]
fn update_invincibility_acts_on_the_ship_of_the_world() {
    let mut world = World::new(cardinal());
    update_invincibility(&mut world, ONE);
    assert!(world.player.is_none());
    setup_playing_state(&mut world);
    update_invincibility(&mut world, 1_900_000);
    assert!(world.player.unwrap().invincibility.is_invincible());
    update_invincibility(&mut world, 100_000);
    assert!(!world.player.unwrap().invincibility.is_invincible());
    assert!(world.player.unwrap().visible);
}

#[test]
fn the_ship_turns_a_full_turn_a_second() {
    let c = cardinal();
    let left = Intents { rotate_left: true, ..idle() };
    let right = Intents { rotate_right: true, ..idle() };
    let q = steer(&c, ship(), left, 250_000);
    assert_eq!(q.transform.rotation, 1_570_796);
    let r = steer(&c, ship(), right, 250_000);
    assert_eq!(r.transform.rotation, TAU - 1_570_796);
    let both = Intents { rotate_left: true, rotate_right: true, ..idle() };
    assert_eq!(steer(&c, ship(), both, 250_000).transform.rotation, 0);
    assert_eq!(steer(&c, ship(), left, ONE).transform.rotation, 0);
    assert_eq!(steer(&c, ship(), idle(), ONE), ship());
}

#[test]
fn thrust_adds_two_along_the_direction() {
    let c = cardinal();
    let thrust = Intents { thrust: true, ..idle() };
    let mut p = ship();
    p.physics.vel = Vec2::new(ONE, ONE);
    let q = steer(&c, p, thrust, 16_667);
    assert_eq!(q.physics.vel, Vec2::new(3 * ONE, ONE));
    p.transform.rotation = PI;
    let r = steer(&c, p, thrust, 16_667);
    assert_eq!(r.physics.vel, Vec2::new(-ONE, ONE));
    let turn_and_thrust = Intents { rotate_left: true, thrust: true, ..idle() };
    p.transform.rotation = 0;
    let s = steer(&c, p, turn_and_thrust, 300_000);
    assert_eq!(s.physics.vel, Vec2::new(ONE, 3 * ONE));
}

#[test]
fn a_bullet_starts_ahead_of_the_ship() {
    let c = cardinal();
    let mut p = ship();
    p.transform = Transform { translation: Vec2::new(10 * ONE, 20 * ONE), rotation: TAU / 4 + 1 };
    let b = fire_bullet(&c, &p);
    assert_eq!(b.transform, Transform::from_xy(10 * ONE, 25 * ONE));
    assert_eq!(b.physics.vel, Vec2::new(0, 250 * ONE));
    assert_eq!(b.physics.max_vel, Vec2::new(200 * ONE, 200 * ONE));
    assert_eq!(b.physics.acc, Vec2::zero());
    assert_eq!(b.physics.rot_vel, 0);
    assert_eq!(b.bullet, Bullet { time_left: 2 * ONE });
}

#[test]
fn control_player_without_a_ship_does_nothing() {
    let mut world = World::new(cardinal());
    let all = Intents { rotate_left: true, rotate_right: false, thrust: true, fire: true };
    control_player(&mut world, all, 16_667);
    assert!(world.player.is_none());
    assert!(world.bullets.is_empty() && world.particles.is_empty());
}

#[test]
fn control_player_fires_one_bullet() {
    let mut world = World::new(cardinal());
    setup_playing_state(&mut world);
    control_player(&mut world, Intents { fire: true, ..idle() }, 16_667);
    assert_eq!(world.bullets.len(), 1);
    assert_eq!(world.bullets[0], fire_bullet(&cardinal(), &ship()));
    assert_eq!(world.bullets[0].transform.translation, Vec2::new(5 * ONE, 0));
    assert!(world.particles.is_empty());
    assert_eq!(world.player, Some(ship()));
    control_player(&mut world, idle(), 16_667);
    assert_eq!(world.bullets.len(), 1);
    assert!(world.is_wf());
}

#[test]
fn control_player_thrusts_and_leaves_exhaust_now_and_then() {
    let mut world = World::new(cardinal());
    setup_playing_state(&mut world);
    let thrust = Intents { thrust: true, ..idle() };
    let mut with = 0;
    let mut without = 0;
    for i in 0..200 {
        let before = world.particles.len();
        control_player(&mut world, thrust, 16_667);
        let added = world.particles.len() - before;
        assert!(added <= 1);
        if added == 1 {
            with += 1;
        } else {
            without += 1;
        }
        assert_eq!(world.player.unwrap().physics.vel, Vec2::new(2 * ONE * (i + 1), 0));
    }
    assert!(with > 0 && without > 0);
    assert!(world.bullets.is_empty());
    for x in &world.particles {
        let at = x.transform.translation;
        assert_eq!(at.x, -8 * ONE);
        assert!(-5_333_333 < at.y && at.y < 5_333_333);
        assert_eq!(x.physics.vel.y, 0);
        assert!(-160 * ONE < x.physics.vel.x && x.physics.vel.x <= -80 * ONE);
        assert_eq!(x.lifetime.time_left, 200_000);
        assert_eq!(x.size.x, 2 * x.size.y);
        assert!(400_000 <= x.size.y && x.size.y < ONE);
    }
}

#[test]
fn exhaust_flies_backwards() {
    let dir = Vec2::new(0, ONE);
    let x = exhaust_particle(Vec2::new(7 * ONE, 2 * ONE), dir, 100 * ONE, 500_000);
    assert_eq!(x.transform, Transform::from_xy(7 * ONE, 2 * ONE));
    assert_eq!(x.physics, Physics::new_with_vel(Vec2::new(0, -100 * ONE)));
    assert_eq!(x.lifetime, Lifetime::new(200_000));
    assert_eq!(x.size, Vec2::new(ONE, 500_000));
}

#[test]
fn orthogonal_position_lies_to_the_side() {
    let origin = Vec2::new(ONE, ONE);
    let dir = Vec2::new(ONE, 0);
    assert_eq!(orthogonal_position(origin, dir, true, 2 * ONE), Vec2::new(ONE, 3 * ONE));
    assert_eq!(orthogonal_position(origin, dir, false, 2 * ONE), Vec2::new(ONE, -ONE));
    assert_eq!(orthogonal_position(origin, dir, true, 0), origin);
    let diagonal = Vec2::new(600_000, 800_000);
    assert_eq!(orthogonal_position(Vec2::zero(), diagonal, true, 10 * ONE), Vec2::new(-8 * ONE, 6 * ONE));
}

#[test]
fn random_orthogonal_position_takes_both_sides() {
    let dir = Vec2::new(ONE, 0);
    let mut above = false;
    let mut below = false;
    for _ in 0..200 {
        let r = random_orthogonal_position(Vec2::zero(), dir, 4 * ONE);
        assert_eq!(r.x, 0);
        assert!(-4 * ONE < r.y && r.y < 4 * ONE);
        above = above || r.y > 0;
        below = below || r.y < 0;
    }
    assert!(above && below);
}

#[test]
fn random_range_stays_in_its_range_and_varies() {
    let mut least = i64::MAX;
    let mut most = i64::MIN;
    for _ in 0..1000 {
        let r = random_range(40 * ONE, 120 * ONE);
        assert!(40 * ONE <= r && r < 120 * ONE);
        least = least.min(r);
        most = most.max(r);
    }
    assert!(least < 60 * ONE && most > 100 * ONE);
    assert_eq!(random_range(5, 5), 5);
    for _ in 0..100 {
        let r = random_range(10, -10);
        assert!(-10 < r && r <= 10);
    }
}

#[test]
fn random_velocity_has_a_speed_of_the_range() {
    let c = table(3600);
    let mut quadrants = [false; 4];
    for _ in 0..400 {
        let v = get_random_vel(&c, 10 * ONE, 20 * ONE);
        let s = (v.x as i128) * (v.x as i128) + (v.y as i128) * (v.y as i128);
        let lo = 9_990_000i128;
        let hi = 20_010_000i128;
        assert!(lo * lo <= s && s <= hi * hi);
        let q = match (v.x >= 0, v.y >= 0) {
            (true, true) => 0,
            (false, true) => 1,
            (false, false) => 2,
            (true, false) => 3,
        };
        quadrants[q] = true;
    }
    assert_eq!(quadrants, [true; 4]);
}

#[test]
fn spawner_starts_due_with_six_seconds() {
    let s = Spawner::new();
    assert_eq!(s, Spawner { next_spawn: 0, next_spawn_time: 6 * ONE, spawned_count: 0 });
    let mut t = Spawner { next_spawn: 77, next_spawn_time: 3 * ONE, spawned_count: 23 };
    t.reset();
    assert_eq!(t, Spawner { next_spawn: 0, next_spawn_time: 6 * ONE, spawned_count: 23 });
}

#[test]
fn the_interval_shrinks_at_the_tenth_spawn() {
    let mut s = Spawner::new();
    for n in 1..=9 {
        let dt = s.next_spawn;
        assert!(s.tick(dt));
        assert_eq!(s.spawned_count, n);
        assert_eq!(s.next_spawn_time, 6 * ONE);
        assert_eq!(s.next_spawn, 6 * ONE);
    }
    assert!(s.tick(6 * ONE));
    assert_eq!(s.spawned_count, 10);
    assert_eq!(s.next_spawn_time, 5_400_000);
    assert_eq!(s.next_spawn, 5_400_000);
    for _ in 11..=19 {
        assert!(s.tick(5_400_000));
        assert_eq!(s.next_spawn_time, 5_400_000);
    }
    assert!(s.tick(5_400_000));
    assert_eq!(s.next_spawn_time, 4_860_000);
}

#[test]
fn the_spawner_counts_down_until_it_is_due() {
    let mut s = Spawner { next_spawn: ONE, next_spawn_time: 6 * ONE, spawned_count: 4 };
    assert!(!s.tick(400_000));
    assert_eq!(s, Spawner { next_spawn: 600_000, next_spawn_time: 6 * ONE, spawned_count: 4 });
    assert!(!s.tick(599_999));
    assert_eq!(s.next_spawn, 1);
    assert!(s.tick(1));
    assert_eq!(s, Spawner { next_spawn: 6 * ONE, next_spawn_time: 6 * ONE, spawned_count: 5 });
}

#[test]
fn the_edge_position_follows_the_direction() {
    let dims = Vec2::new(640 * ONE, 480 * ONE);
    assert_eq!(edge_position(Vec2::new(ONE, 0), dims), Vec2::new(320 * ONE, -240 * ONE));
    assert_eq!(edge_position(Vec2::new(0, ONE), dims), Vec2::new(-320 * ONE, 240 * ONE));
    assert_eq!(edge_position(Vec2::new(-ONE, 0), dims), Vec2::new(-960 * ONE, -240 * ONE));
    assert_eq!(edge_position(Vec2::new(500_000, -500_000), dims), Vec2::new(0, -480 * ONE));
}

#[test]
fn a_place_must_be_clear_of_the_ship() {
    let ship_at = Vec2::zero();
    assert!(is_clear_of(ship_at, Vec2::new(60 * ONE + 1, 0), 40 * ONE));
    assert!(!is_clear_of(ship_at, Vec2::new(60 * ONE, 0), 40 * ONE));
    assert!(!is_clear_of(ship_at, Vec2::new(0, 0), 40 * ONE));
    assert!(is_clear_of(ship_at, Vec2::new(0, -181 * ONE), 120 * ONE));
}

#[test]
fn spawn_objects_sends_asteroids_clear_of_the_ship() {
    let dims = Vec2::new(640 * ONE, 480 * ONE);
    let mut world = World::new(table(3600));
    setup_playing_state(&mut world);
    for n in 1..=10usize {
        let dt = world.spawner.unwrap().next_spawn;
        spawn_objects(&mut world, dt, dims);
        assert_eq!(world.asteroids.len(), n);
        assert_eq!(world.spawner.unwrap().spawned_count, n as u64);
        if n < 10 {
            assert_eq!(world.spawner.unwrap().next_spawn_time, 6 * ONE);
        }
    }
    assert_eq!(world.spawner.unwrap().next_spawn_time, 5_400_000);
    for a in &world.asteroids {
        assert!(40 * ONE <= a.asteroid.size && a.asteroid.size < 120 * ONE);
        let at = a.transform.translation;
        assert!(is_clear_of(Vec2::zero(), at, a.asteroid.size));
        assert!(-960 * ONE <= at.x && at.x <= 320 * ONE);
        assert!(-720 * ONE <= at.y && at.y <= 240 * ONE);
        let v = a.physics.vel;
        let s = (v.x as i128) * (v.x as i128) + (v.y as i128) * (v.y as i128);
        let lo = 9_990_000i128;
        let hi = 20_010_000i128;
        assert!(lo * lo <= s && s <= hi * hi);
        assert_eq!(a.physics.max_vel, Vec2::new(50 * ONE, 50 * ONE));
    }
    assert!(world.is_wf());
}

#[test]
fn spawn_objects_waits_until_the_spawner_is_due() {
    let dims = Vec2::new(640 * ONE, 480 * ONE);
    let mut world = World::new(table(360));
    setup_playing_state(&mut world);
    world.spawner = Some(Spawner { next_spawn: ONE, next_spawn_time: 6 * ONE, spawned_count: 3 });
    spawn_objects(&mut world, 999_999, dims);
    assert!(world.asteroids.is_empty());
    assert_eq!(world.spawner, Some(Spawner { next_spawn: 1, next_spawn_time: 6 * ONE, spawned_count: 3 }));
    spawn_objects(&mut world, 1, dims);
    assert_eq!(world.asteroids.len(), 1);
    assert_eq!(world.spawner, Some(Spawner { next_spawn: 6 * ONE, next_spawn_time: 6 * ONE, spawned_count: 4 }));
}

#[test]
fn spawn_objects_needs_ship_and_spawner() {
    let dims = Vec2::new(640 * ONE, 480 * ONE);
    let mut world = World::new(table(360));
    spawn_objects(&mut world, ONE, dims);
    assert!(world.asteroids.is_empty() && world.spawner.is_none());
    world.spawner = Some(Spawner::new());
    spawn_objects(&mut world, ONE, dims);
    assert!(world.asteroids.is_empty());
    assert_eq!(world.spawner, Some(Spawner::new()));
    setup_playing_state(&mut world);
    world.spawner = None;
    spawn_objects(&mut world, ONE, dims);
    assert!(world.asteroids.is_empty() && world.spawner.is_none());
}

#[test]
fn spawn_objects_gives_up_where_no_place_is_clear() {
    let mut world = World::new(table(360));
    setup_playing_state(&mut world);
    spawn_objects(&mut world, 0, Vec2::zero());
    assert!(world.asteroids.is_empty());
    assert_eq!(world.spawner, Some(Spawner { next_spawn: 6 * ONE, next_spawn_time: 6 * ONE, spawned_count: 1 }));
}
