use asteroids::audio::Cue;
use asteroids::components::{
    Bounded, Bullet, Collider, ConstrainedObject, Physical, Ship, Transform, Vector2,
};
use asteroids::fixed::{HALF_PI, ONE, PI, TAU};
use asteroids::resources::{Bullets, RandomGen};
use asteroids::ship_input::{ShipInput, ShipInputSystem};
use asteroids::systems::{wrap, KillBulletsSystem, LimitObjectsSystem, PhysicsSystem};
use asteroids::world::{Command, Components, Entity, World};
use asteroids::{ARENA_HEIGHT, ARENA_WIDTH};

fn at(x: i64, y: i64) -> Transform {
    let mut local = Transform::default();
    local.set_xyz(x, y);
    local
}

fn moving(x: i64, y: i64, vx: i64, vy: i64, spin: i64) -> Components {
    let mut c = Components::new();
    c.transform = Some(at(x, y));
    let mut p = Physical::new();
    p.velocity = Vector2::new(vx, vy);
    p.rotation = spin;
    c.physical = Some(p);
    c.constrained = Some(ConstrainedObject);
    c
}

fn ship_at(x: i64, y: i64, rotation: i64) -> Components {
    let mut c = moving(x, y, 0, 0, 0);
    c.transform.as_mut().unwrap().rotation = rotation;
    c.ship = Some(Ship::default());
    c.collider = Some(Collider::Ship);
    c.bounded = Some(Bounded::from_local(6 * ONE));
    c
}

fn idle() -> ShipInput {
    ShipInput { rotate: None, accelerate: None, shoot: None }
}

fn place(world: &World, e: Entity) -> Vector2 {
    world.get(e).unwrap().transform.unwrap().translation
}

#[test]
fn the_arena_is_three_hundred_units_square() {
    assert_eq!(ARENA_WIDTH, 300 * ONE);
    assert_eq!(ARENA_HEIGHT, 300 * ONE);
}

#[test]
fn transforms_move_and_turn() {
    let mut t = Transform::default();
    assert_eq!(t.translation, Vector2 { x: 0, y: 0 });
    assert_eq!((t.rotation, t.scale), (0, ONE));
    t.move_global(3, -4);
    t.move_global(i64::MAX, i64::MIN);
    assert_eq!(t.translation, Vector2 { x: i64::MAX, y: i64::MIN });
    t.roll_local(HALF_PI);
    assert_eq!(t.rotation, HALF_PI);
    t.roll_local(TAU);
    assert_eq!(t.rotation, HALF_PI);
    t.roll_local(-PI);
    assert_eq!(t.rotation, TAU - HALF_PI);
    t.roll_local(i64::MAX);
    assert!(0 <= t.rotation && t.rotation < TAU);
    t.rotation = 0;
    assert_eq!(t.forward(), Vector2 { x: 0, y: ONE });
    assert_eq!(t.right(), Vector2 { x: ONE, y: 0 });
    t.rotation = HALF_PI;
    assert_eq!(t.forward(), Vector2 { x: -ONE, y: 0 });
    assert_eq!(t.right(), Vector2 { x: 0, y: ONE });
}

#[test]
fn bodies_move_by_velocity_times_time() {
    let mut world = World::new();
    let a = world.create(moving(10 * ONE, 20 * ONE, 4 * ONE, -2 * ONE, ONE));
    let mut still = Components::new();
    still.transform = Some(at(ONE, ONE));
    let b = world.create(still);
    PhysicsSystem.run(&mut world, ONE / 2);
    assert_eq!(place(&world, a), Vector2 { x: 12 * ONE, y: 19 * ONE });
    assert_eq!(world.get(a).unwrap().transform.unwrap().rotation, ONE / 2);
    assert_eq!(place(&world, b), Vector2 { x: ONE, y: ONE });
    assert!(world.queue.is_empty());
}

#[test]
fn no_time_or_time_gone_backwards_moves_nothing() {
    let mut world = World::new();
    let a = world.create(moving(10 * ONE, 20 * ONE, 4 * ONE, -2 * ONE, ONE));
    PhysicsSystem.run(&mut world, 0);
    PhysicsSystem.run(&mut world, -ONE);
    PhysicsSystem.run(&mut world, i64::MIN);
    assert_eq!(place(&world, a), Vector2 { x: 10 * ONE, y: 20 * ONE });
    assert_eq!(world.get(a).unwrap().transform.unwrap().rotation, 0);
}

#[test]
fn the_dead_do_not_move() {
    let mut world = World::new();
    let a = world.create(moving(0, 0, ONE, ONE, 0));
    world.delete(a).unwrap();
    world.rows[0].components = moving(0, 0, ONE, ONE, 0);
    PhysicsSystem.run(&mut world, ONE);
    LimitObjectsSystem.run(&mut world);
    KillBulletsSystem.run(&mut world, ONE);
    assert_eq!(world.rows[0].components.transform.unwrap().translation, Vector2 { x: 0, y: 0 });
}

#[test]
fn a_coordinate_wraps_once() {
    assert_eq!(wrap(-1, 300), 299);
    assert_eq!(wrap(301, 300), 1);
    assert_eq!(wrap(0, 300), 0);
    assert_eq!(wrap(300, 300), 300);
    assert_eq!(wrap(150, 300), 150);
    assert_eq!(wrap(-299, 300), 1);
    assert_eq!(wrap(599, 300), 299);
    assert_eq!(wrap(-700, 300), -400);
    assert_eq!(wrap(i64::MIN, -1), i64::MIN);
}

#[test]
fn wrapping_is_motion_on_a_torus() {
    let extent: i64 = 300;
    for p in 0..=extent {
        for d in [-299i64, -150, -1, 0, 1, 77, 299] {
            if p + d == extent {
                assert_eq!(wrap(p + d, extent), extent);
                continue;
            }
            let w = wrap(p + d, extent);
            assert!(0 <= w && w < extent);
            assert_eq!(w, (p + d).rem_euclid(extent));
            assert_eq!(wrap(w, extent), w);
        }
    }
}

#[test]
fn constrained_entities_come_back_on_the_other_side() {
    let mut world = World::new();
    let a = world.create(moving(-ONE, ARENA_HEIGHT + 2 * ONE, 0, 0, 0));
    let b = world.create(moving(ARENA_WIDTH + 5, -7, 0, 0, 0));
    let mut free = moving(-ONE, -ONE, 0, 0, 0);
    free.constrained = None;
    let c = world.create(free);
    LimitObjectsSystem.run(&mut world);
    assert_eq!(place(&world, a), Vector2 { x: ARENA_WIDTH - ONE, y: 2 * ONE });
    assert_eq!(place(&world, b), Vector2 { x: 5, y: ARENA_HEIGHT - 7 });
    assert_eq!(place(&world, c), Vector2 { x: -ONE, y: -ONE });
}

#[test]
fn a_ship_at_rest_without_input_stays_where_it_is() {
    let mut world = World::new();
    let ship = world.create(ship_at(ARENA_WIDTH / 2, ARENA_HEIGHT / 2, 0));
    let mut cues = Vec::new();
    for _ in 0..10 {
        ShipInputSystem.run(&mut world, &mut cues, &Bullets, &RandomGen, &idle(), ONE);
        world.maintain();
        PhysicsSystem.run(&mut world, ONE);
        LimitObjectsSystem.run(&mut world);
    }
    let c = world.get(ship).unwrap();
    assert_eq!(c.transform.unwrap(), at(ARENA_WIDTH / 2, ARENA_HEIGHT / 2));
    assert_eq!(c.physical.unwrap(), Physical::new());
    assert_eq!(c.ship.unwrap(), Ship::default());
    assert!(cues.is_empty());
    assert_eq!(world.rows.len(), 1);
}

#[test]
fn a_bullet_lives_two_seconds() {
    let mut world = World::new();
    let mut c = moving(0, 0, 0, 0, 0);
    c.bullet = Some(Bullet::new());
    let bullet = world.create(c);
    assert_eq!(Bullet::new().time_to_live, 2 * ONE);
    for tick in 1..=4 {
        assert!(world.is_alive(bullet));
        KillBulletsSystem.run(&mut world, ONE / 2);
        if tick < 4 {
            assert!(world.queue.is_empty());
            assert_eq!(
                world.get(bullet).unwrap().bullet.unwrap().time_to_live,
                2 * ONE - tick * (ONE / 2)
            );
        }
        world.maintain();
    }
    assert!(!world.is_alive(bullet));
}

#[test]
fn bullets_whose_time_is_up_are_deleted_in_slot_order() {
    let mut world = World::new();
    let mut old = moving(0, 0, 0, 0, 0);
    old.bullet = Some(Bullet { time_to_live: 3 });
    let mut young = moving(0, 0, 0, 0, 0);
    young.bullet = Some(Bullet { time_to_live: 10 });
    let a = world.create(old);
    let b = world.create(young);
    let c = world.create(old);
    let d = world.create(moving(0, 0, 0, 0, 0));
    KillBulletsSystem.run(&mut world, 3);
    assert_eq!(world.queue.len(), 2);
    assert!(matches!(world.queue[0], Command::Delete(e) if e == a));
    assert!(matches!(world.queue[1], Command::Delete(e) if e == c));
    assert_eq!(world.get(b).unwrap().bullet.unwrap().time_to_live, 7);
    assert_eq!(world.get(a).unwrap().bullet.unwrap().time_to_live, 0);
    world.maintain();
    assert!(world.is_alive(b) && world.is_alive(d));
    assert!(!world.is_alive(a) && !world.is_alive(c));
}

#[test]
fn thrust_adds_velocity_the_way_the_ship_faces() {
    let mut world = World::new();
    let up = world.create(ship_at(0, 0, 0));
    let left = world.create(ship_at(0, 0, HALF_PI));
    let input = ShipInput { rotate: None, accelerate: Some(ONE), shoot: None };
    let mut cues = Vec::new();
    ShipInputSystem.run_with(&mut world, &mut cues, &Bullets, &input, ONE / 4, &Vec::new());
    // Eighty units a second squared for a quarter of a second.
    assert_eq!(world.get(up).unwrap().physical.unwrap().velocity, Vector2 { x: 0, y: 20 * ONE });
    assert_eq!(
        world.get(left).unwrap().physical.unwrap().velocity,
        Vector2 { x: -20 * ONE, y: 0 }
    );
    let back = ShipInput { rotate: None, accelerate: Some(-ONE / 2), shoot: None };
    ShipInputSystem.run_with(&mut world, &mut cues, &Bullets, &back, ONE / 4, &Vec::new());
    assert_eq!(world.get(up).unwrap().physical.unwrap().velocity, Vector2 { x: 0, y: 10 * ONE });
}

#[test]
fn thrust_never_takes_the_ship_beyond_its_greatest_speed() {
    let mut world = World::new();
    let ship = world.create(ship_at(0, 0, 0));
    let mut skew = ship_at(0, 0, 700_000);
    skew.physical.as_mut().unwrap().velocity = Vector2::new(60 * ONE, -30 * ONE);
    let other = world.create(skew);
    let input = ShipInput { rotate: None, accelerate: Some(ONE), shoot: None };
    let mut cues = Vec::new();
    for _ in 0..20 {
        ShipInputSystem.run_with(&mut world, &mut cues, &Bullets, &input, ONE / 3, &Vec::new());
        for e in [ship, other] {
            let p = world.get(e).unwrap().physical.unwrap();
            let speed = (p.velocity.x as i128).pow(2) + (p.velocity.y as i128).pow(2);
            assert!(speed <= (p.max_velocity as i128).pow(2));
        }
    }
    assert_eq!(world.get(ship).unwrap().physical.unwrap().velocity, Vector2 { x: 0, y: 100 * ONE });
}

#[test]
fn turning_lasts_for_the_tick_only() {
    let mut world = World::new();
    let ship = world.create(ship_at(0, 0, 0));
    let mut cues = Vec::new();
    let input = ShipInput { rotate: Some(-ONE), accelerate: None, shoot: None };
    ShipInputSystem.run_with(&mut world, &mut cues, &Bullets, &input, ONE / 100, &Vec::new());
    assert_eq!(world.get(ship).unwrap().physical.unwrap().rotation, -1_800_000);
    ShipInputSystem.run_with(&mut world, &mut cues, &Bullets, &idle(), ONE / 100, &Vec::new());
    assert_eq!(world.get(ship).unwrap().physical.unwrap().rotation, 0);
}

#[test]
fn a_loaded_ship_fires_and_reloads() {
    let mut world = World::new();
    let ship = world.create(ship_at(100 * ONE, 50 * ONE, 0));
    let input = ShipInput { rotate: None, accelerate: None, shoot: Some(true) };
    let mut cues = Vec::new();
    // A draw of one half means no jitter.
    ShipInputSystem.run_with(&mut world, &mut cues, &Bullets, &input, ONE / 100, &vec![ONE / 2]);
    assert_eq!(cues, vec![Cue::Pew]);
    assert_eq!(world.get(ship).unwrap().ship.unwrap().reload_timer, ONE / 10);
    assert_eq!(world.queue.len(), 1);
    match world.queue[0] {
        Command::Create(c) => {
            assert_eq!(c.transform.unwrap(), at(100 * ONE, 50 * ONE));
            assert_eq!(c.physical.unwrap().velocity, Vector2 { x: 0, y: 150 * ONE });
            assert_eq!(c.physical.unwrap().max_velocity, 100 * ONE);
            assert_eq!(c.bullet, Some(Bullet { time_to_live: 2 * ONE }));
            assert_eq!(c.bounded.unwrap().shape.radius, 2 * ONE);
            assert_eq!(c.collider, Some(Collider::Bullet));
            assert_eq!(c.constrained, Some(ConstrainedObject));
            assert_eq!(c.sprite, Some(0));
            assert!(c.ship.is_none());
        },
        _ => panic!("a bullet is created"),
    }
    world.maintain();
    assert_eq!(world.rows.len(), 2);
}

#[test]
fn bullets_are_set_off_sideways_by_the_draw() {
    let input = ShipInput { rotate: None, accelerate: None, shoot: Some(true) };
    let cases: [(i64, i64, Vector2, Vector2); 4] = [
        (0, 0, Vector2 { x: -ONE, y: 0 }, Vector2 { x: 0, y: 150 * ONE }),
        (0, ONE, Vector2 { x: ONE, y: 0 }, Vector2 { x: 0, y: 150 * ONE }),
        (HALF_PI, ONE, Vector2 { x: 0, y: ONE }, Vector2 { x: -150 * ONE, y: 0 }),
        (PI, ONE / 4, Vector2 { x: ONE / 2, y: 0 }, Vector2 { x: 0, y: -150 * ONE }),
    ];
    for (rotation, draw, offset, velocity) in cases {
        let mut world = World::new();
        world.create(ship_at(0, 0, rotation));
        let mut cues = Vec::new();
        ShipInputSystem.run_with(&mut world, &mut cues, &Bullets, &input, 1, &vec![draw]);
        match world.queue[0] {
            Command::Create(c) => {
                assert_eq!(c.transform.unwrap().translation, offset);
                assert_eq!(c.transform.unwrap().rotation, rotation);
                assert_eq!(c.physical.unwrap().velocity, velocity);
            },
            _ => panic!("a bullet is created"),
        }
    }
}

#[test]
fn the_reload_timer_counts_down_to_zero_and_no_further() {
    let mut world = World::new();
    let ship = world.create(ship_at(0, 0, 0));
    let hold = ShipInput { rotate: None, accelerate: None, shoot: Some(true) };
    let mut cues = Vec::new();
    let mut fired = 0;
    let mut timers = Vec::new();
    for _ in 0..9 {
        let before = world.get(ship).unwrap().ship.unwrap().reload_timer;
        ShipInputSystem.run_with(&mut world, &mut cues, &Bullets, &hold, 40_000, &Vec::new());
        let shots = world.queue.len();
        world.queue.clear();
        // Fires exactly when the timer stood at zero.
        assert_eq!(shots == 1, before == 0);
        fired += shots;
        let timer = world.get(ship).unwrap().ship.unwrap().reload_timer;
        assert!(timer >= 0);
        timers.push(timer);
    }
    assert_eq!(timers, vec![100_000, 60_000, 20_000, 0, 100_000, 60_000, 20_000, 0, 100_000]);
    assert_eq!(fired, 3);
    assert_eq!(cues, vec![Cue::Pew; 3]);
}

#[test]
fn a_ship_that_reloads_does_not_fire() {
    let mut world = World::new();
    let mut c = ship_at(0, 0, 0);
    c.ship.as_mut().unwrap().reload_timer = 1;
    let ship = world.create(c);
    let hold = ShipInput { rotate: None, accelerate: None, shoot: Some(true) };
    let mut cues = Vec::new();
    ShipInputSystem.run_with(&mut world, &mut cues, &Bullets, &hold, ONE, &Vec::new());
    assert!(world.queue.is_empty());
    assert!(cues.is_empty());
    assert_eq!(world.get(ship).unwrap().ship.unwrap().reload_timer, 0);
}

#[test]
fn a_released_trigger_fires_nothing() {
    let mut world = World::new();
    let ship = world.create(ship_at(0, 0, 0));
    let mut cues = Vec::new();
    for shoot in [None, Some(false)] {
        let input = ShipInput { rotate: None, accelerate: None, shoot };
        ShipInputSystem.run_with(&mut world, &mut cues, &Bullets, &input, ONE, &Vec::new());
    }
    assert!(world.queue.is_empty());
    assert!(cues.is_empty());
    assert_eq!(world.get(ship).unwrap().ship.unwrap().reload_timer, 0);
}

#[test]
fn every_ship_that_fires_gets_its_own_bullet_and_draw() {
    let mut world = World::new();
    for i in 0..6 {
        let mut c = ship_at(i * 10 * ONE, 0, 0);
        if i == 2 {
            c.ship.as_mut().unwrap().reload_timer = ONE;
        }
        world.create(c);
    }
    let hold = ShipInput { rotate: None, accelerate: None, shoot: Some(true) };
    let mut cues = Vec::new();
    let draws = vec![ONE / 2, ONE, ONE / 2, 0, ONE / 2];
    ShipInputSystem.run_with(&mut world, &mut cues, &Bullets, &hold, 1, &draws);
    assert_eq!(cues, vec![Cue::Pew]);
    let xs: Vec<i64> = world
        .queue
        .iter()
        .map(|c| match c {
            Command::Create(c) => c.transform.unwrap().translation.x,
            _ => panic!("bullets only"),
        })
        .collect();
    assert_eq!(xs, vec![0, 11 * ONE, 29 * ONE, 40 * ONE, 50 * ONE]);
}

#[test]
fn a_tick_at_the_controls_with_draws_of_its_own() {
    let mut world = World::new();
    world.create(ship_at(100 * ONE, 100 * ONE, 0));
    let hold = ShipInput { rotate: None, accelerate: None, shoot: Some(true) };
    let mut cues = Vec::new();
    for _ in 0..50 {
        world.rows[0].components.ship.as_mut().unwrap().reload_timer = 0;
        ShipInputSystem.run(&mut world, &mut cues, &Bullets, &RandomGen, &hold, 1);
    }
    assert_eq!(world.queue.len(), 50);
    let mut seen = Vec::new();
    for c in &world.queue {
        match c {
            Command::Create(c) => {
                let t = c.transform.unwrap().translation;
                assert!(99 * ONE <= t.x && t.x < 101 * ONE);
                assert_eq!(t.y, 100 * ONE);
                seen.push(t.x);
            },
            _ => panic!("bullets only"),
        }
    }
    seen.dedup();
    assert!(seen.len() > 1);
}
