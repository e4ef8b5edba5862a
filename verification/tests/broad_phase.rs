use asteroids::broad_phase::{aabb, touching, BroadPhase, Proxy};
use asteroids::components::{Bounded, Collider, Transform, Vector2};
use asteroids::fixed::ONE;
use asteroids::world::Entity;

fn circle(x: i64, y: i64, radius: i64, index: usize) -> Proxy {
    Proxy {
        center: Vector2 { x, y },
        radius,
        collider: Collider::Asteroid,
        entity: Entity { index, generation: 0 },
    }
}

fn index_of(circles: &[Proxy]) -> BroadPhase {
    let mut b = BroadPhase::new();
    for c in circles {
        b.create_proxy(c.center, c.radius, (c.collider, c.entity));
    }
    b
}

#[test]
fn circles_that_touch_count_as_overlapping() {
    assert!(touching(&circle(0, 0, 3, 0), &circle(5, 0, 2, 1)));
    assert!(!touching(&circle(0, 0, 3, 0), &circle(6, 0, 2, 1)));
    assert!(touching(&circle(0, 0, 3, 0), &circle(3, 4, 2, 1)));
    assert!(!touching(&circle(0, 0, 2, 0), &circle(3, 4, 2, 1)));
    assert!(touching(&circle(7, 7, 0, 0), &circle(7, 7, 0, 1)));
}

#[test]
fn boxes_may_meet_where_circles_do_not() {
    // The corners of the boxes overlap, the circles do not.
    assert!(!touching(&circle(0, 0, 10, 0), &circle(15, 15, 10, 1)));
    assert!(touching(&circle(0, 0, 10, 0), &circle(14, 14, 10, 1)));
}

#[test]
fn a_negative_reach_never_overlaps() {
    assert!(!touching(&circle(0, 0, -1, 0), &circle(0, 0, 0, 1)));
    assert!(touching(&circle(0, 0, -1, 0), &circle(0, 0, 1, 1)));
}

#[test]
fn far_corners_of_the_plane_are_measured_exactly() {
    let a = circle(i64::MIN, i64::MIN, i64::MAX, 0);
    let b = circle(i64::MAX, i64::MAX, i64::MAX, 1);
    assert!(!touching(&a, &b));
    let c = circle(i64::MIN, 0, i64::MAX, 0);
    let d = circle(i64::MAX, 0, i64::MAX, 1);
    assert!(!touching(&c, &d));
    let e = circle(-i64::MAX, 0, i64::MAX, 0);
    let f = circle(i64::MAX, 0, i64::MAX, 1);
    assert!(touching(&e, &f));
}

#[test]
fn an_empty_index_reports_nothing() {
    assert!(BroadPhase::new().intersecting_pairs().is_empty());
    assert!(index_of(&[circle(0, 0, 5, 0)]).intersecting_pairs().is_empty());
}

#[test]
fn pairs_come_once_in_ascending_order() {
    let b = index_of(&[
        circle(0, 0, 5, 0),
        circle(100, 0, 5, 1),
        circle(8, 0, 5, 2),
        circle(4, 3, 1, 3),
        circle(104, 0, 1, 4),
    ]);
    assert_eq!(b.intersecting_pairs(), vec![(0, 2), (0, 3), (1, 4), (2, 3)]);
}

#[test]
fn no_pair_is_reported_twice_or_with_itself() {
    let mut circles = Vec::new();
    for i in 0..12 {
        circles.push(circle((i as i64 % 4) * 3 * ONE, (i as i64 / 4) * 3 * ONE, 2 * ONE, i));
    }
    let pairs = index_of(&circles).intersecting_pairs();
    assert!(!pairs.is_empty());
    for (k, p) in pairs.iter().enumerate() {
        assert!(p.0 < p.1);
        for q in &pairs[k + 1..] {
            assert_ne!(p, q);
            assert!(!(p.0 == q.1 && p.1 == q.0));
        }
    }
    for i in 0..circles.len() {
        for j in i + 1..circles.len() {
            assert_eq!(pairs.contains(&(i, j)), touching(&circles[i], &circles[j]));
        }
    }
}

#[test]
fn create_proxy_hands_out_handles_in_order() {
    let mut b = BroadPhase::new();
    let e = Entity { index: 9, generation: 4 };
    assert_eq!(b.create_proxy(Vector2 { x: 1, y: 2 }, 3, (Collider::Ship, e)), 0);
    assert_eq!(b.create_proxy(Vector2 { x: 4, y: 5 }, 6, (Collider::Bullet, e)), 1);
    assert_eq!(b.proxies[1].center, Vector2 { x: 4, y: 5 });
    assert_eq!(b.proxies[1].radius, 6);
    assert_eq!(b.proxies[0].collider, Collider::Ship);
    assert_eq!(b.proxies[0].entity, e);
}

#[test]
fn a_bounding_volume_enters_the_index_where_its_entity_is() {
    let mut b = BroadPhase::new();
    let mut local = Transform::default();
    local.set_xyz(10 * ONE, 20 * ONE);
    let e = Entity { index: 2, generation: 1 };
    let vol = Bounded::from_local(4 * ONE).apply_to_broad_phase(Collider::Asteroid, e, &local, &mut b);
    assert_eq!(vol.mins, Vector2 { x: 6 * ONE, y: 16 * ONE });
    assert_eq!(vol.maxs, Vector2 { x: 14 * ONE, y: 24 * ONE });
    assert_eq!(b.proxies.len(), 1);
    assert_eq!(b.proxies[0].center, Vector2 { x: 10 * ONE, y: 20 * ONE });
    assert_eq!(b.proxies[0].radius, 4 * ONE);
    assert_eq!(b.proxies[0].entity, e);
}

#[test]
fn boxes_stop_at_the_end_of_the_plane() {
    let vol = aabb(Vector2 { x: i64::MAX, y: i64::MIN }, 5);
    assert_eq!(vol.maxs.x, i64::MAX);
    assert_eq!(vol.mins.x, i64::MAX - 5);
    assert_eq!(vol.mins.y, i64::MIN);
    assert_eq!(vol.maxs.y, i64::MIN + 5);
}
