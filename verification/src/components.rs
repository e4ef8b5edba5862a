//! The components that an entity can carry.

use vstd::prelude::*;
use crate::fixed::{cos, sin, spec_cos, spec_sin, TAU};
use crate::fixed::{add_sat, spec_add_sat};
use crate::broad_phase::{aabb, bounding_box, Aabb, BroadPhase, Proxy};
use crate::world::Entity;

verus! {

/// A point or a displacement on the arena plane.
#[derive(Debug, Clone, Copy, PartialEq, Eq, Structural)]
pub struct Vector2 {
    pub x: i64,
    pub y: i64,
}

impl Vector2 {
    pub fn new(x: i64, y: i64) -> (v: Vector2)
        ensures
            v == (Vector2 { x, y }),
    {
        Vector2 { x, y }
    }
}

/// Where an entity is, which way it faces and how large it is drawn.
#[derive(Debug, Clone, Copy, PartialEq, Eq, Structural)]
pub struct Transform {
    /// Position on the arena.
    pub translation: Vector2,
    /// Heading in radians, kept within one turn from zero.
    pub rotation: i64,
    /// Uniform scale; `ONE` is the natural size.
    pub scale: i64,
}

impl Transform {
    /// The transform at the origin, unrotated, at natural size.
    pub open spec fn identity() -> Transform {
        Transform { translation: Vector2 { x: 0, y: 0 }, rotation: 0, scale: 1_000_000 }
    }

    /// This transform moved by `(dx, dy)` along the arena's axes.
    pub open spec fn moved(self, dx: i64, dy: i64) -> Transform {
        Transform {
            translation: Vector2 {
                x: spec_add_sat(self.translation.x, dx),
                y: spec_add_sat(self.translation.y, dy),
            },
            ..self
        }
    }

    /// This transform turned by `angle` about its own axis.
    pub open spec fn rolled(self, angle: i64) -> Transform {
        Transform { rotation: ((self.rotation + angle) % (TAU as int)) as i64, ..self }
    }

    /// The unit vector that points ahead of the entity.
    pub open spec fn spec_forward(self) -> Vector2 {
        Vector2 {
            x: (-spec_sin(self.rotation as int)) as i64,
            y: spec_cos(self.rotation as int) as i64,
        }
    }

    /// The unit vector that points to the entity's right.
    pub open spec fn spec_right(self) -> Vector2 {
        Vector2 {
            x: spec_cos(self.rotation as int) as i64,
            y: spec_sin(self.rotation as int) as i64,
        }
    }

    pub fn set_xyz(&mut self, x: i64, y: i64)
        ensures
            *final(self) == (Transform { translation: Vector2 { x, y }, ..*old(self) }),
    {
        self.translation = Vector2 { x, y };
    }

    pub fn move_global(&mut self, dx: i64, dy: i64)
        ensures
            *final(self) == old(self).moved(dx, dy),
    {
        self.translation = Vector2 {
            x: add_sat(self.translation.x, dx),
            y: add_sat(self.translation.y, dy),
        };
    }

    pub fn roll_local(&mut self, angle: i64)
        ensures
            *final(self) == old(self).rolled(angle),
            0 <= final(self).rotation < TAU,
    {
        let turned: i128 = (self.rotation as i128 + angle as i128) % (TAU as i128);
        self.rotation = if turned < 0 {
            (turned + TAU as i128) as i64
        } else {
            turned as i64
        };
    }

    pub fn forward(&self) -> (v: Vector2)
        ensures
            v == self.spec_forward(),
    {
        Vector2 { x: -sin(self.rotation), y: cos(self.rotation) }
    }

    pub fn right(&self) -> (v: Vector2)
        ensures
            v == self.spec_right(),
    {
        Vector2 { x: cos(self.rotation), y: sin(self.rotation) }
    }
}

impl Default for Transform {
    fn default() -> (t: Transform)
        ensures
            t == Transform::identity(),
    {
        Transform { translation: Vector2 { x: 0, y: 0 }, rotation: 0, scale: 1_000_000 }
    }
}

/// A body that the integrator moves.
#[derive(Debug, Clone, Copy, PartialEq, Eq, Structural)]
pub struct Physical {
    /// Current velocity (units / s).
    pub velocity: Vector2,
    /// Greatest speed that acceleration may give the body (units / s).
    pub max_velocity: i64,
    /// Current spin (radians / s).
    pub rotation: i64,
}

impl Physical {
    /// A body at rest that may reach a hundred units a second.
    pub open spec fn at_rest() -> Physical {
        Physical { velocity: Vector2 { x: 0, y: 0 }, max_velocity: 100_000_000, rotation: 0 }
    }

    pub fn new() -> (p: Physical)
        ensures
            p == Physical::at_rest(),
    {
        Physical { velocity: Vector2 { x: 0, y: 0 }, max_velocity: 100_000_000, rotation: 0 }
    }
}

/// A circle about its entity's position.
#[derive(Debug, Clone, Copy, PartialEq, Eq, Structural)]
pub struct Ball {
    pub radius: i64,
}

impl Ball {
    pub fn new(radius: i64) -> (b: Ball)
        ensures
            b.radius == radius,
    {
        Ball { radius }
    }

    pub fn radius(&self) -> (r: i64)
        ensures
            r == self.radius,
    {
        self.radius
    }
}

/// The bounding volume of an entity.
#[derive(Debug, Clone, Copy, PartialEq, Eq, Structural)]
pub struct Bounded {
    pub shape: Ball,
}

impl Bounded {
    pub fn new(shape: Ball) -> (b: Bounded)
        ensures
            b.shape == shape,
    {
        Bounded { shape }
    }

    pub fn from_local(size: i64) -> (b: Bounded)
        ensures
            b.shape.radius == size,
    {
        Bounded::new(Ball::new(size))
    }

    /// Apply this bounding volume to a broad phase: the circle is placed
    /// where `local` is and entered for `e`. The result is the box about it.
    pub fn apply_to_broad_phase(
        &self,
        collider: Collider,
        e: Entity,
        local: &Transform,
        broad_phase: &mut BroadPhase,
    ) -> (vol: Aabb)
        ensures
            vol == bounding_box(local.translation, self.shape.radius),
            final(broad_phase).proxies@ == old(broad_phase).proxies@.push(
                Proxy {
                    center: local.translation,
                    radius: self.shape.radius,
                    collider,
                    entity: e,
                },
            ),
    {
        let vol = aabb(local.translation, self.shape.radius());
        let _ = broad_phase.create_proxy(local.translation, self.shape.radius(), (collider, e));
        vol
    }
}

/// What a ship does on input.
#[derive(Debug, Clone, Copy, PartialEq, Eq, Structural)]
pub struct Ship {
    /// Acceleration on input (units / s**2).
    pub acceleration: i64,
    /// Turning rate on input.
    pub rotation: i64,
    /// How long until reloaded; never below zero once a tick has passed.
    pub reload_timer: i64,
    /// How long it takes to reload.
    pub time_to_reload: i64,
    /// Speed of a bullet as it leaves.
    pub bullet_velocity: i64,
    /// Greatest sideways offset of a bullet from the firing position.
    pub bullet_jitter: i64,
}

impl Ship {
    /// The stock ship, loaded and ready.
    pub open spec fn stock() -> Ship {
        Ship {
            acceleration: 80_000_000,
            rotation: 180_000_000,
            reload_timer: 0,
            time_to_reload: 100_000,
            bullet_velocity: 150_000_000,
            bullet_jitter: 2_000_000,
        }
    }
}

impl Default for Ship {
    fn default() -> (s: Ship)
        ensures
            s == Ship::stock(),
    {
        Ship {
            acceleration: 80_000_000,
            rotation: 180_000_000,
            reload_timer: 0,
            time_to_reload: 100_000,
            bullet_velocity: 150_000_000,
            bullet_jitter: 2_000_000,
        }
    }
}

/// A projectile with a limited life.
#[derive(Debug, Clone, Copy, PartialEq, Eq, Structural)]
pub struct Bullet {
    /// How many seconds this bullet still lives.
    pub time_to_live: i64,
}

impl Bullet {
    pub fn new() -> (b: Bullet)
        ensures
            b.time_to_live == 2_000_000,
    {
        Bullet { time_to_live: 2_000_000 }
    }
}

/// Marks an entity that is kept inside the arena.
#[derive(Debug, Default, Clone, Copy, PartialEq, Eq, Structural)]
pub struct ConstrainedObject;

/// What an entity counts as when it touches another.
#[derive(Debug, Clone, Copy, PartialEq, Eq, Structural)]
pub enum Collider {
    Bullet,
    Ship,
    Asteroid,
    /// An asteroid fresh from a split: it destroys nothing and nothing
    /// destroys it until it has spent a tick clear of its siblings.
    DeferredAsteroid,
}

} // verus!
