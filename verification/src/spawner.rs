//! Asteroids out of nowhere: what a new asteroid is made of, and the timer
//! that sends one in from the edge of the arena.

use vstd::prelude::*;
use crate::components::{Collider, ConstrainedObject, Physical, Transform, Vector2};
use crate::fixed::{
    add_sat, lemma_limit_magnitude_within, limit_magnitude, mul_fixed, spec_add_sat,
    spec_limit_magnitude, spec_mul_fixed, spec_sub_sat, sub_sat, within_magnitude, ONE,
};
use crate::resources::{Asteroids, RandomGen};
use crate::world::{Command, Components, World};
use crate::{ARENA_HEIGHT, ARENA_WIDTH};

verus! {

/// The components of a new asteroid: placed and scaled as told, moving at
/// `velocity`, spinning at the drawn fraction of `max_rotation`, bounded by
/// the circle that belongs to its scale, kept inside the arena.
pub open spec fn asteroid(
    local: Transform,
    scale: i64,
    velocity: Vector2,
    max_rotation: i64,
    defer_adding_bounds: bool,
    spin: i64,
    sprite: usize,
) -> Components {
    Components {
        transform: Some(Transform { scale, ..local }),
        physical: Some(
            Physical { velocity, rotation: spec_mul_fixed(max_rotation, spin), ..Physical::at_rest() },
        ),
        bounded: Some(
            crate::components::Bounded {
                shape: crate::components::Ball { radius: Asteroids::radius_for(scale) },
            },
        ),
        collider: Some(
            if defer_adding_bounds {
                Collider::DeferredAsteroid
            } else {
                Collider::Asteroid
            },
        ),
        ship: None,
        bullet: None,
        constrained: Some(ConstrainedObject),
        sprite: Some(Asteroids::sprite_for(sprite)),
    }
}

/// Asks for a new asteroid. `spin` is the drawn fraction of `max_rotation`
/// at which it turns, and `sprite` the draw that picks how it looks.
pub fn spawn_asteroid(
    world: &mut World,
    asteroid_resource: &Asteroids,
    local: Transform,
    scale: i64,
    velocity: Vector2,
    max_rotation: i64,
    defer_adding_bounds: bool,
    spin: i64,
    sprite: usize,
)
    ensures
        final(world).rows@ == old(world).rows@,
        final(world).queue@ == old(world).queue@.push(
            Command::Create(
                asteroid(local, scale, velocity, max_rotation, defer_adding_bounds, spin, sprite),
            ),
        ),
{
    let mut local = local;
    local.scale = scale;

    let mut physical = Physical::new();
    physical.velocity = velocity;
    physical.rotation = mul_fixed(max_rotation, spin);

    let collider = if defer_adding_bounds {
        Collider::DeferredAsteroid
    } else {
        Collider::Asteroid
    };

    world.lazy_create(
        Components {
            transform: Some(local),
            physical: Some(physical),
            bounded: Some(asteroid_resource.new_bounded(scale)),
            collider: Some(collider),
            ship: None,
            bullet: None,
            constrained: Some(ConstrainedObject),
            sprite: Some(asteroid_resource.sprite(sprite)),
        },
    );
}

/// The random draws that one asteroid from the edge takes. All but `sprite`
/// are fractions of one unit.
#[derive(Debug, Clone, Copy)]
pub struct SpawnDraw {
    /// Where along the edge it enters.
    pub x: i64,
    /// How much larger than the smallest it is.
    pub scale: i64,
    pub velocity_x: i64,
    pub velocity_y: i64,
    pub spin: i64,
    pub sprite: usize,
    /// How long until the next one, as a fraction of the average.
    pub interval: i64,
}

impl SpawnDraw {
    /// Whether every fraction lies from zero up to, but not at, one.
    pub open spec fn in_range(self) -> bool {
        &&& 0 <= self.x < ONE
        &&& 0 <= self.scale < ONE
        &&& 0 <= self.velocity_x < ONE
        &&& 0 <= self.velocity_y < ONE
        &&& 0 <= self.spin < ONE
        &&& 0 <= self.interval < ONE
    }
}

/// System to spawn random asteroids.
///
/// Asteroids always enter by the upper edge, with random velocity vectors
/// capped by the parameters of this system.
#[derive(Debug, Clone, Copy)]
pub struct RandomAsteroidSystem {
    pub time_to_spawn: i64,
    pub max_velocity: i64,
    pub max_rotation: i64,
    pub average_spawn_time: i64,
}

/// A draw from the unit interval spread over `-max ..= max`.
pub open spec fn spread(draw: i64, max: i64) -> i64 {
    let centered = spec_sub_sat(draw, 500_000);
    spec_mul_fixed(spec_add_sat(centered, centered), max)
}

fn spread_over(draw: i64, max: i64) -> (r: i64)
    ensures
        r == spread(draw, max),
{
    let centered = sub_sat(draw, 500_000);
    mul_fixed(add_sat(centered, centered), max)
}

impl RandomAsteroidSystem {
    pub fn new() -> (s: RandomAsteroidSystem)
        ensures
            s.time_to_spawn == 2 * ONE,
            s.max_velocity == 100 * ONE,
            s.max_rotation == 15 * ONE,
            s.average_spawn_time == ONE / 2,
    {
        RandomAsteroidSystem {
            time_to_spawn: 2_000_000,
            max_velocity: 100_000_000,
            max_rotation: 15_000_000,
            average_spawn_time: 500_000,
        }
    }

    /// Whether the countdown runs out within `dt`.
    pub open spec fn is_due(self, dt: i64) -> bool {
        spec_sub_sat(self.time_to_spawn, dt) <= 0
    }

    /// The velocity of the asteroid that enters: each coordinate is drawn
    /// from the whole span of the greatest speed, and the vector is then
    /// held to that speed.
    pub open spec fn entry_velocity(self, draw: SpawnDraw) -> Vector2 {
        let limited = spec_limit_magnitude(
            spread(draw.velocity_x, self.max_velocity),
            spread(draw.velocity_y, self.max_velocity),
            self.max_velocity,
        );
        Vector2 { x: limited.0, y: limited.1 }
    }

    /// The asteroid that enters when the countdown has run out.
    pub open spec fn newcomer(self, draw: SpawnDraw) -> Components {
        asteroid(
            Transform {
                translation: Vector2 { x: spec_mul_fixed(draw.x, ARENA_WIDTH), y: ARENA_HEIGHT },
                ..Transform::identity()
            },
            spec_add_sat(ONE, draw.scale),
            self.entry_velocity(draw),
            self.max_rotation,
            false,
            draw.spin,
            draw.sprite,
        )
    }

    /// The system after a tick of `dt`.
    pub open spec fn ticked(self, dt: i64, draw: SpawnDraw) -> RandomAsteroidSystem {
        RandomAsteroidSystem {
            time_to_spawn: if self.is_due(dt) {
                spec_mul_fixed(draw.interval, self.average_spawn_time)
            } else {
                spec_sub_sat(self.time_to_spawn, dt)
            },
            ..self
        }
    }

    /// The queue after a tick of `dt`.
    pub open spec fn queued(self, queue: Seq<Command>, dt: i64, draw: SpawnDraw) -> Seq<Command> {
        if self.is_due(dt) {
            queue.push(Command::Create(self.newcomer(draw)))
        } else {
            queue
        }
    }

    /// One tick with the draws given: counts down by `dt` and, once the
    /// countdown is at or below zero, asks for one asteroid at the upper
    /// edge and starts a new countdown.
    pub fn run_with(
        &mut self,
        world: &mut World,
        asteroid_resource: &Asteroids,
        dt: i64,
        draw: SpawnDraw,
    )
        ensures
            *final(self) == old(self).ticked(dt, draw),
            final(world).rows@ == old(world).rows@,
            final(world).queue@ == old(self).queued(old(world).queue@, dt, draw),
    {
        self.time_to_spawn = sub_sat(self.time_to_spawn, dt);

        if self.time_to_spawn <= 0 {
            let mut local = Transform::default();
            local.translation.x = mul_fixed(draw.x, ARENA_WIDTH);
            local.translation.y = ARENA_HEIGHT;

            let scale = add_sat(ONE, draw.scale);

            let limited = limit_magnitude(
                spread_over(draw.velocity_x, self.max_velocity),
                spread_over(draw.velocity_y, self.max_velocity),
                self.max_velocity,
            );
            let velocity = Vector2::new(limited.0, limited.1);

            spawn_asteroid(
                world,
                asteroid_resource,
                local,
                scale,
                velocity,
                self.max_rotation,
                false,
                draw.spin,
                draw.sprite,
            );

            self.time_to_spawn = mul_fixed(draw.interval, self.average_spawn_time);
        }
    }

    /// One tick with draws of its own: `run_with` on some draws in range.
    pub fn run(
        &mut self,
        world: &mut World,
        asteroid_resource: &Asteroids,
        rand: &RandomGen,
        dt: i64,
    )
        ensures
            final(world).rows@ == old(world).rows@,
            exists|draw: SpawnDraw|
                draw.in_range() && *final(self) == old(self).ticked(dt, draw)
                    && final(world).queue@ == #[trigger] old(self).queued(
                    old(world).queue@,
                    dt,
                    draw,
                ),
    {
        // Nothing is drawn for a tick in which nothing enters.
        let draw = if sub_sat(self.time_to_spawn, dt) <= 0 {
            SpawnDraw {
                x: rand.next_f32(),
                scale: rand.next_f32(),
                velocity_x: rand.next_f32(),
                velocity_y: rand.next_f32(),
                spin: rand.next_f32(),
                sprite: rand.next_usize(),
                interval: rand.next_f32(),
            }
        } else {
            SpawnDraw {
                x: 0,
                scale: 0,
                velocity_x: 0,
                velocity_y: 0,
                spin: 0,
                sprite: 0,
                interval: 0,
            }
        };
        self.run_with(world, asteroid_resource, dt, draw);
    }
}

/// An asteroid that enters is never faster than the greatest speed of the
/// system that sends it, whatever was drawn.
pub proof fn lemma_newcomer_is_limited(s: RandomAsteroidSystem, draw: SpawnDraw)
    requires
        0 <= s.max_velocity,
    ensures
        s.newcomer(draw).physical is Some,
        s.newcomer(draw).physical->0.velocity == s.entry_velocity(draw),
        within_magnitude(
            s.entry_velocity(draw).x as int,
            s.entry_velocity(draw).y as int,
            s.max_velocity as int,
        ),
{
    lemma_limit_magnitude_within(
        spread(draw.velocity_x, s.max_velocity),
        spread(draw.velocity_y, s.max_velocity),
        s.max_velocity,
    );
}

} // verus!
