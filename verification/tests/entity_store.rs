use asteroids::components::{Collider, Transform};
use asteroids::world::{Command, Components, Entity, World, WrongGeneration};

fn tagged(collider: Collider) -> Components {
    let mut c = Components::new();
    c.collider = Some(collider);
    c.transform = Some(Transform::default());
    c
}

#[test]
fn a_new_world_is_empty() {
    let world = World::new();
    assert!(world.rows.is_empty());
    assert!(world.queue.is_empty());
    assert!(!world.is_alive(Entity { index: 0, generation: 0 }));
    assert!(world.entity_at(0).is_none());
}

#[test]
fn creation_takes_the_first_free_slot() {
    let mut world = World::new();
    let a = world.create(tagged(Collider::Ship));
    let b = world.create(tagged(Collider::Bullet));
    assert_eq!(a, Entity { index: 0, generation: 0 });
    assert_eq!(b, Entity { index: 1, generation: 0 });
    assert!(world.is_alive(a) && world.is_alive(b));
    assert_eq!(world.get(a).unwrap().collider, Some(Collider::Ship));
    assert_eq!(world.get(b).unwrap().collider, Some(Collider::Bullet));
    assert_eq!(world.entity_at(1), Some(b));
}

#[test]
fn a_slot_is_used_again_under_a_new_generation() {
    let mut world = World::new();
    let a = world.create(tagged(Collider::Ship));
    let b = world.create(tagged(Collider::Bullet));
    assert_eq!(world.delete(a), Ok(()));
    assert!(!world.is_alive(a));
    assert!(world.get(a).is_none());
    assert!(world.rows[0].components.collider.is_none());
    let c = world.create(tagged(Collider::Asteroid));
    assert_eq!(c, Entity { index: 0, generation: 1 });
    assert!(world.is_alive(c));
    assert!(!world.is_alive(a));
    assert!(world.is_alive(b));
    assert_eq!(world.rows.len(), 2);
}

#[test]
fn a_slot_whose_generations_are_used_up_is_left_alone() {
    let mut world = World::new();
    let a = world.create(tagged(Collider::Ship));
    world.rows[0].generation = u64::MAX;
    let a = Entity { index: a.index, generation: u64::MAX };
    assert_eq!(world.delete(a), Ok(()));
    let b = world.create(tagged(Collider::Bullet));
    assert_eq!(b, Entity { index: 1, generation: 0 });
}

#[test]
fn deleting_twice_fails_the_second_time_and_changes_nothing() {
    let mut world = World::new();
    let a = world.create(tagged(Collider::Ship));
    assert_eq!(world.delete(a), Ok(()));
    assert_eq!(world.delete(a), Err(WrongGeneration { entity: a }));
    assert_eq!(world.delete(Entity { index: 7, generation: 0 }), Err(WrongGeneration {
        entity: Entity { index: 7, generation: 0 },
    }));
    assert_eq!(world.rows.len(), 1);
}

#[test]
fn a_stale_identifier_does_not_reach_the_new_tenant() {
    let mut world = World::new();
    let a = world.create(tagged(Collider::Ship));
    world.delete(a).unwrap();
    let b = world.create(tagged(Collider::Asteroid));
    assert_eq!(world.delete(a), Err(WrongGeneration { entity: a }));
    assert!(world.is_alive(b));
    assert!(world.set_collider(a, Collider::Bullet).is_err());
    assert_eq!(world.get(b).unwrap().collider, Some(Collider::Asteroid));
}

#[test]
fn set_collider_changes_only_the_kind() {
    let mut world = World::new();
    let a = world.create(tagged(Collider::DeferredAsteroid));
    assert_eq!(world.set_collider(a, Collider::Asteroid), Ok(()));
    let c = world.get(a).unwrap();
    assert_eq!(c.collider, Some(Collider::Asteroid));
    assert_eq!(c.transform, Some(Transform::default()));
}

#[test]
fn queued_changes_wait_for_maintain() {
    let mut world = World::new();
    let a = world.create(tagged(Collider::Ship));
    world.lazy_create(tagged(Collider::Bullet));
    world.lazy_delete(a);
    world.lazy_set_collider(a, Collider::Asteroid);
    assert_eq!(world.rows.len(), 1);
    assert!(world.is_alive(a));
    assert_eq!(world.queue.len(), 3);
    assert!(matches!(world.queue[1], Command::Delete(e) if e == a));

    let skipped = world.maintain();
    assert_eq!(skipped, 1);
    assert!(world.queue.is_empty());
    assert!(!world.is_alive(a));
    assert_eq!(world.rows.len(), 2);
    assert_eq!(world.rows[1].components.collider, Some(Collider::Bullet));
    assert!(world.rows[1].alive);
}

#[test]
fn maintain_tolerates_a_second_deletion() {
    let mut world = World::new();
    let a = world.create(tagged(Collider::Asteroid));
    world.lazy_delete(a);
    world.lazy_delete(a);
    world.lazy_create(tagged(Collider::Bullet));
    world.lazy_delete(a);
    assert_eq!(world.maintain(), 2);
    assert_eq!(world.rows.len(), 1);
    assert_eq!(world.entity_at(0), Some(Entity { index: 0, generation: 1 }));
    assert_eq!(world.maintain(), 0);
}

#[test]
fn delete_all_clears_rows_and_queue() {
    let mut world = World::new();
    let a = world.create(tagged(Collider::Ship));
    let b = world.create(tagged(Collider::Asteroid));
    world.lazy_create(tagged(Collider::Bullet));
    world.delete_all();
    assert!(!world.is_alive(a) && !world.is_alive(b));
    assert!(world.queue.is_empty());
    assert_eq!(world.rows.len(), 2);
    assert!(world.rows.iter().all(|r| !r.alive && r.components.transform.is_none()));
    assert_eq!(world.rows[0].generation, 0);
}
