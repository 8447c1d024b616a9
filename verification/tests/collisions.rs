use asteroids::asteroid::{create_asteroid, AsteroidEntity};
use asteroids::bullet::{Bullet, BulletEntity};
use asteroids::collision::{
    asteroid_hits_player, bullet_hits_asteroid, check_bullet_collision, check_player_collision,
    find_target, fragment_speed_modifier, resolve_crash, resolve_volley, spawn_asteroids,
    spawn_explosion, split_asteroid,
};
use asteroids::compass::Compass;
use asteroids::fixed::{Vec2, ONE};
use asteroids::player::{tick_invincibility, Player, ShipInvincibility};
use asteroids::spawner::Spawner;
use asteroids::states::{setup_playing_state, GameStates, World};
use asteroids::transforming::{Physics, Transform};
use asteroids::ui::{PlayerLives, Score};

fn table(steps: usize) -> Compass {
    let mut dirs = Vec::new();
    for i in 0..steps {
        let a = (i as f64) * std::f64::consts::TAU / (steps as f64);
        dirs.push(Vec2::new((a.cos() * 1e6).round() as i64, (a.sin() * 1e6).round() as i64));
    }
    Compass::new(dirs).unwrap()
}

fn rock(size: i64, x: i64, y: i64) -> AsteroidEntity {
    AsteroidEntity::new(size, Vec2::new(x, y), Vec2::zero(), 0)
}

fn shot(x: i64, y: i64) -> BulletEntity {
    BulletEntity {
        transform: Transform::from_xy(x, y),
        physics: Physics::new(),
        bullet: Bullet { time_left: 2 * ONE },
    }
}

fn vulnerable(world: &mut World, x: i64, y: i64) {
    let mut ship = world.player.unwrap();
    ship.invincibility.invincibility_time = 0;
    ship.transform.translation = Vec2::new(x, y);
    world.player = Some(ship);
}

fn speed_squared(v: Vec2) -> i128 {
    (v.x as i128) * (v.x as i128) + (v.y as i128) * (v.y as i128)
}

#[test]
fn bullet_within_four_hits_whatever_the_size() {
    let a = rock(10 * ONE, 0, 0);
    assert!(bullet_hits_asteroid(Vec2::new(3_500_000, 0), &a));
    let small = rock(ONE, 0, 0);
    assert!(bullet_hits_asteroid(Vec2::new(0, 3_500_000), &small));
    assert!(!bullet_hits_asteroid(Vec2::new(0, 4 * ONE), &small));
}

#[test]
fn bullet_within_the_size_hits() {
    let a = rock(10 * ONE, 0, 0);
    assert!(bullet_hits_asteroid(Vec2::new(9 * ONE, 0), &a));
    assert!(bullet_hits_asteroid(Vec2::new(-6 * ONE, -7 * ONE), &a));
}

#[test]
fn bullet_beyond_both_thresholds_misses() {
    let a = rock(10 * ONE, 0, 0);
    assert!(!bullet_hits_asteroid(Vec2::new(11 * ONE, 0), &a));
    assert!(!bullet_hits_asteroid(Vec2::new(10 * ONE, 0), &a));
    assert!(!bullet_hits_asteroid(Vec2::new(8 * ONE, 8 * ONE), &a));
}

#[test]
fn ship_is_hit_within_the_size_or_half_its_length() {
    let a = rock(30 * ONE, 100 * ONE, 0);
    assert!(asteroid_hits_player(Vec2::new(71 * ONE, 0), &a));
    assert!(!asteroid_hits_player(Vec2::new(70 * ONE, 0), &a));
    let pebble = rock(ONE, 0, 0);
    assert!(asteroid_hits_player(Vec2::new(7_999_999, 0), &pebble));
    assert!(!asteroid_hits_player(Vec2::new(8 * ONE, 0), &pebble));
}

#[test]
fn the_first_asteroid_in_order_is_the_target() {
    let rocks = vec![rock(10 * ONE, 100 * ONE, 0), rock(10 * ONE, ONE, 0), rock(10 * ONE, 0, ONE)];
    assert_eq!(find_target(Vec2::zero(), &rocks), 1);
    assert_eq!(find_target(Vec2::new(100 * ONE, 0), &rocks), 0);
    assert_eq!(find_target(Vec2::new(-100 * ONE, 0), &rocks), 3);
    assert_eq!(find_target(Vec2::zero(), &Vec::new()), 0);
}

#[test]
fn a_bullet_hits_only_one_asteroid() {
    let mut bullets = vec![shot(0, 0)];
    let mut rocks = vec![rock(10 * ONE, ONE, 0), rock(10 * ONE, 0, ONE)];
    let destroyed = resolve_volley(&mut bullets, &mut rocks);
    assert!(bullets.is_empty());
    assert_eq!(destroyed, vec![rock(10 * ONE, ONE, 0)]);
    assert_eq!(rocks, vec![rock(10 * ONE, 0, ONE)]);
}

#[test]
fn an_asteroid_is_destroyed_only_once() {
    let mut bullets = vec![shot(0, 0), shot(ONE, ONE), shot(500 * ONE, 0)];
    let mut rocks = vec![rock(10 * ONE, 0, 0)];
    let destroyed = resolve_volley(&mut bullets, &mut rocks);
    assert_eq!(destroyed.len(), 1);
    assert!(rocks.is_empty());
    assert_eq!(bullets, vec![shot(ONE, ONE), shot(500 * ONE, 0)]);
}

#[test]
fn later_bullets_take_the_next_asteroid() {
    let mut bullets = vec![shot(0, 0), shot(0, 0), shot(0, 0)];
    let mut rocks = vec![rock(10 * ONE, ONE, 0), rock(50 * ONE, 900 * ONE, 0), rock(10 * ONE, 0, 2 * ONE)];
    let destroyed = resolve_volley(&mut bullets, &mut rocks);
    assert_eq!(destroyed, vec![rock(10 * ONE, ONE, 0), rock(10 * ONE, 0, 2 * ONE)]);
    assert_eq!(rocks, vec![rock(50 * ONE, 900 * ONE, 0)]);
    assert_eq!(bullets, vec![shot(0, 0)]);
}

#[test]
fn speed_modifier_grows_as_the_size_shrinks() {
    assert_eq!(fragment_speed_modifier(50 * ONE), ONE);
    assert_eq!(fragment_speed_modifier(25 * ONE), 2 * ONE);
    assert_eq!(fragment_speed_modifier(10 * ONE), 5 * ONE);
    assert_eq!(fragment_speed_modifier(100 * ONE), 500_000);
    assert_eq!(fragment_speed_modifier(30 * ONE), 1_666_666);
}

#[test]
fn an_asteroid_of_fifty_leaves_two_of_twenty_five() {
    let mut world = World::new(table(360));
    let parent = rock(50 * ONE, 12 * ONE, -7 * ONE);
    split_asteroid(&mut world, &parent);
    assert_eq!(world.asteroids.len(), 2);
    for child in &world.asteroids {
        assert_eq!(child.asteroid.size, 25 * ONE);
        assert!(child.asteroid.size > 0);
        assert_eq!(child.transform, Transform::from_xy(12 * ONE, -7 * ONE));
        assert_eq!(child.physics.acc, Vec2::zero());
        assert_eq!(child.physics.max_vel, Vec2::new(50 * ONE, 50 * ONE));
        assert!(-ONE <= child.physics.rot_vel && child.physics.rot_vel < ONE);
        let s = speed_squared(child.physics.vel);
        let lo = 39 * (ONE as i128);
        let hi = 201 * (ONE as i128);
        assert!(lo * lo <= s && s <= hi * hi);
    }
    assert!(world.is_wf());
}

#[test]
fn an_asteroid_of_fifteen_leaves_nothing() {
    let mut world = World::new(table(360));
    split_asteroid(&mut world, &rock(15 * ONE, 0, 0));
    assert!(world.asteroids.is_empty());
}

#[test]
fn the_split_threshold_is_twenty() {
    let mut world = World::new(table(360));
    split_asteroid(&mut world, &rock(20 * ONE - 1, 0, 0));
    assert!(world.asteroids.is_empty());
    split_asteroid(&mut world, &rock(20 * ONE, 0, 0));
    assert_eq!(world.asteroids.len(), 2);
    assert_eq!(world.asteroids[0].asteroid.size, 10 * ONE);
    assert_eq!(world.asteroids[1].asteroid.size, 10 * ONE);
}

#[test]
fn spawn_asteroids_adds_the_count() {
    let mut world = World::new(table(16));
    world.asteroids.push(rock(5 * ONE, ONE, ONE));
    spawn_asteroids(&mut world, 3, Vec2::new(2 * ONE, 3 * ONE), 50 * ONE);
    assert_eq!(world.asteroids.len(), 4);
    assert_eq!(world.asteroids[0], rock(5 * ONE, ONE, ONE));
    for a in &world.asteroids[1..] {
        assert_eq!(a.asteroid.size, 50 * ONE);
        assert_eq!(a.transform.translation, Vec2::new(2 * ONE, 3 * ONE));
    }
    spawn_asteroids(&mut world, 0, Vec2::zero(), 50 * ONE);
    spawn_asteroids(&mut world, -2, Vec2::zero(), 50 * ONE);
    assert_eq!(world.asteroids.len(), 4);
}

#[test]
fn fragments_fly_in_a_direction_of_the_table() {
    let cardinal = Compass::new(vec![
        Vec2::new(ONE, 0),
        Vec2::new(0, ONE),
        Vec2::new(-ONE, 0),
        Vec2::new(0, -ONE),
    ])
    .unwrap();
    let mut world = World::new(cardinal);
    spawn_asteroids(&mut world, 40, Vec2::zero(), 50 * ONE);
    for a in &world.asteroids {
        let v = a.physics.vel;
        assert!(v.x == 0 || v.y == 0);
        let speed = v.x.abs() + v.y.abs();
        assert!(20 * ONE <= speed && speed < 100 * ONE);
    }
}

#[test]
fn create_asteroid_adds_one_asteroid() {
    let mut world = World::new(table(16));
    create_asteroid(&mut world, 40 * ONE, Vec2::new(ONE, -ONE), Vec2::new(3, 4));
    assert_eq!(world.asteroids.len(), 1);
    let a = world.asteroids[0];
    assert_eq!(a.asteroid.size, 40 * ONE);
    assert_eq!(a.transform, Transform::from_xy(ONE, -ONE));
    assert_eq!(a.physics.vel, Vec2::new(3, 4));
    assert_eq!(a.physics.acc, Vec2::zero());
    assert_eq!(a.physics.max_vel, Vec2::new(50 * ONE, 50 * ONE));
    assert!(-ONE <= a.physics.rot_vel && a.physics.rot_vel < ONE);
}

#[test]
fn an_explosion_has_four_to_nine_sparks() {
    let mut world = World::new(table(360));
    let mut seen = [false; 10];
    for _ in 0..200 {
        let before = world.particles.len();
        spawn_explosion(&mut world, Vec2::new(7 * ONE, 8 * ONE));
        let added = world.particles.len() - before;
        assert!((4..=9).contains(&added));
        seen[added] = true;
    }
    assert!(seen[4..=9].iter().filter(|s| **s).count() >= 2);
    for p in &world.particles {
        assert_eq!(p.transform, Transform::from_xy(7 * ONE, 8 * ONE));
        assert_eq!(p.lifetime.time_left, 800_000);
        assert_eq!(p.size.x, p.size.y);
        assert!(2 * ONE <= p.size.x && p.size.x < 3 * ONE);
        assert_eq!(p.physics.max_vel, Vec2::new(200 * ONE, 200 * ONE));
        let s = speed_squared(p.physics.vel);
        let lo = 29 * (ONE as i128);
        let hi = 101 * (ONE as i128);
        assert!(lo * lo <= s && s <= hi * hi);
    }
}

#[test]
fn a_hit_scores_and_removes_bullet_and_asteroid() {
    let mut world = World::new(table(360));
    world.score = Score(7);
    world.bullets.push(shot(0, 0));
    world.bullets.push(shot(500 * ONE, 500 * ONE));
    world.asteroids.push(rock(15 * ONE, 3 * ONE, 0));
    world.asteroids.push(rock(15 * ONE, 300 * ONE, 0));
    check_bullet_collision(&mut world);
    assert_eq!(world.score, Score(8));
    assert_eq!(world.bullets, vec![shot(500 * ONE, 500 * ONE)]);
    assert_eq!(world.asteroids, vec![rock(15 * ONE, 300 * ONE, 0)]);
    assert!((4..=9).contains(&world.particles.len()));
    for p in &world.particles {
        assert_eq!(p.transform.translation, Vec2::new(3 * ONE, 0));
    }
    assert!(world.is_wf());
}

#[test]
fn a_hit_on_a_large_asteroid_leaves_fragments() {
    let mut world = World::new(table(360));
    world.bullets.push(shot(0, 0));
    world.asteroids.push(rock(50 * ONE, 40 * ONE, 0));
    world.asteroids.push(rock(30 * ONE, 400 * ONE, 0));
    check_bullet_collision(&mut world);
    assert_eq!(world.score, Score(1));
    assert!(world.bullets.is_empty());
    assert_eq!(world.asteroids.len(), 3);
    assert_eq!(world.asteroids[0], rock(30 * ONE, 400 * ONE, 0));
    for child in &world.asteroids[1..] {
        assert_eq!(child.asteroid.size, 25 * ONE);
        assert_eq!(child.transform.translation, Vec2::new(40 * ONE, 0));
    }
}

#[test]
fn fragments_are_not_hit_in_the_pass_that_made_them() {
    let mut world = World::new(table(360));
    world.bullets.push(shot(0, 0));
    world.bullets.push(shot(0, 0));
    world.asteroids.push(rock(50 * ONE, 0, 0));
    check_bullet_collision(&mut world);
    assert_eq!(world.score, Score(1));
    assert_eq!(world.bullets.len(), 1);
    assert_eq!(world.asteroids.len(), 2);
    check_bullet_collision(&mut world);
    assert_eq!(world.score, Score(2));
    assert!(world.bullets.is_empty());
    assert_eq!(world.asteroids.len(), 3);
    assert_eq!(world.asteroids[0].asteroid.size, 25 * ONE);
    assert_eq!(world.asteroids[1].asteroid.size, 12_500_000);
    assert_eq!(world.asteroids[2].asteroid.size, 12_500_000);
}

#[test]
fn a_pass_without_hits_changes_nothing() {
    let mut world = World::new(table(360));
    world.bullets.push(shot(0, 0));
    world.asteroids.push(rock(10 * ONE, 11 * ONE, 0));
    check_bullet_collision(&mut world);
    assert_eq!(world.score, Score(0));
    assert_eq!(world.bullets, vec![shot(0, 0)]);
    assert_eq!(world.asteroids, vec![rock(10 * ONE, 11 * ONE, 0)]);
    assert!(world.particles.is_empty());
}

#[test]
fn player_damage_and_invincibility() {
    let mut world = World::new(table(360));
    world.state = GameStates::Playing;
    setup_playing_state(&mut world);
    assert_eq!(world.lives, PlayerLives(3));
    vulnerable(&mut world, 100 * ONE, 100 * ONE);
    let mut ship = world.player.unwrap();
    ship.physics.vel = Vec2::new(5 * ONE, 6 * ONE);
    ship.physics.rot_vel = 3;
    ship.transform.rotation = ONE;
    world.player = Some(ship);
    world.spawner = Some(Spawner { next_spawn: 3 * ONE, next_spawn_time: 4 * ONE, spawned_count: 17 });
    world.asteroids.push(rock(10 * ONE, 105 * ONE, 100 * ONE));
    check_player_collision(&mut world);
    assert_eq!(world.lives, PlayerLives(2));
    let ship = world.player.unwrap();
    assert_eq!(ship.invincibility, ShipInvincibility { invincibility_time: 2 * ONE, flash_timer: 0 });
    assert!(ship.invincibility.is_invincible());
    assert_eq!(ship.transform, Transform::from_xy(0, 0));
    assert_eq!(ship.physics, Physics::new());
    assert!(world.asteroids.is_empty());
    assert_eq!(world.spawner, Some(Spawner { next_spawn: 0, next_spawn_time: 6 * ONE, spawned_count: 17 }));
    assert_eq!(world.state, GameStates::Playing);

    world.asteroids.push(rock(10 * ONE, ONE, 0));
    check_player_collision(&mut world);
    assert_eq!(world.lives, PlayerLives(2));
    assert_eq!(world.asteroids.len(), 1);

    world.player = Some(tick_invincibility(world.player.unwrap(), 2 * ONE));
    assert!(!world.player.unwrap().invincibility.is_invincible());
    check_player_collision(&mut world);
    assert_eq!(world.lives, PlayerLives(1));
    assert!(world.asteroids.is_empty());
    assert!(world.player.is_some());

    world.asteroids.push(rock(10 * ONE, 0, ONE));
    world.player = Some(tick_invincibility(world.player.unwrap(), 3 * ONE));
    check_player_collision(&mut world);
    assert_eq!(world.lives, PlayerLives(0));
    assert!(world.player.is_none());
    assert_eq!(world.state, GameStates::Menu);
    assert!(world.is_wf());
}

#[test]
fn overlapping_asteroids_at_the_origin_cost_a_life_each() {
    let mut world = World::new(table(360));
    setup_playing_state(&mut world);
    vulnerable(&mut world, 0, 0);
    world.asteroids.push(rock(10 * ONE, ONE, 0));
    world.asteroids.push(rock(10 * ONE, 500 * ONE, 0));
    world.asteroids.push(rock(10 * ONE, 0, -ONE));
    let destroyed = resolve_crash(&mut world);
    assert_eq!(destroyed, vec![rock(10 * ONE, ONE, 0), rock(10 * ONE, 0, -ONE)]);
    assert_eq!(world.lives, PlayerLives(1));
    assert_eq!(world.asteroids, vec![rock(10 * ONE, 500 * ONE, 0)]);
    assert!(world.player.unwrap().invincibility.is_invincible());
}

#[test]
fn after_a_hit_the_ship_is_tested_at_the_origin() {
    let mut world = World::new(table(360));
    setup_playing_state(&mut world);
    vulnerable(&mut world, 100 * ONE, 0);
    world.asteroids.push(rock(10 * ONE, 101 * ONE, 0));
    world.asteroids.push(rock(10 * ONE, 102 * ONE, 0));
    world.asteroids.push(rock(10 * ONE, 2 * ONE, 0));
    let destroyed = resolve_crash(&mut world);
    assert_eq!(destroyed, vec![rock(10 * ONE, 101 * ONE, 0), rock(10 * ONE, 2 * ONE, 0)]);
    assert_eq!(world.asteroids, vec![rock(10 * ONE, 102 * ONE, 0)]);
    assert_eq!(world.lives, PlayerLives(1));
}

#[test]
fn nothing_hits_once_the_ship_is_gone() {
    let mut world = World::new(table(360));
    setup_playing_state(&mut world);
    world.lives = PlayerLives(1);
    vulnerable(&mut world, 0, 0);
    world.asteroids.push(rock(10 * ONE, 0, 0));
    world.asteroids.push(rock(10 * ONE, 0, 0));
    check_player_collision(&mut world);
    assert_eq!(world.lives, PlayerLives(0));
    assert!(world.player.is_none());
    assert_eq!(world.state, GameStates::Menu);
    assert_eq!(world.asteroids, vec![rock(10 * ONE, 0, 0)]);
    check_player_collision(&mut world);
    assert_eq!(world.asteroids.len(), 1);
    assert_eq!(world.lives, PlayerLives(0));
}

#[test]
fn an_asteroid_that_hits_the_ship_leaves_fragments() {
    let mut world = World::new(table(360));
    setup_playing_state(&mut world);
    vulnerable(&mut world, 0, 0);
    world.asteroids.push(rock(60 * ONE, 30 * ONE, 0));
    check_player_collision(&mut world);
    assert_eq!(world.lives, PlayerLives(2));
    assert_eq!(world.asteroids.len(), 2);
    for child in &world.asteroids {
        assert_eq!(child.asteroid.size, 30 * ONE);
        assert_eq!(child.transform.translation, Vec2::new(30 * ONE, 0));
    }
    assert!(world.particles.is_empty());
    assert_eq!(world.score, Score(0));
}

#[test]
fn a_miss_leaves_the_ship_alone() {
    let mut world = World::new(table(360));
    setup_playing_state(&mut world);
    vulnerable(&mut world, 0, 0);
    let ship: Player = world.player.unwrap();
    world.asteroids.push(rock(10 * ONE, 10 * ONE, 0));
    check_player_collision(&mut world);
    assert_eq!(world.player, Some(ship));
    assert_eq!(world.lives, PlayerLives(3));
    assert_eq!(world.asteroids.len(), 1);
}
