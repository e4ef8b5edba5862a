//! The ship at the controls: thrust, turning and fire.

use vstd::prelude::*;
use crate::audio::Cue;
use crate::buffer::SlotBuffer;
use crate::components::{Bullet, Collider, ConstrainedObject, Physical, Ship, Transform, Vector2};
use crate::components::{Ball, Bounded};
use crate::fixed::{
    add_sat, lemma_limit_magnitude_within, limit_magnitude, mul_fixed, spec_add_sat,
    spec_limit_magnitude, spec_mul_fixed, spec_sub_sat, sub_sat, within_magnitude, ONE,
};
use crate::resources::{Bullets, RandomGen};
use crate::world::{Command, Components, Row, World};

verus! {

/// What the controls say in one tick.
#[derive(Debug, Clone, Copy)]
pub struct ShipInput {
    /// The turning axis, from minus one to one; `None` if it is not bound.
    pub rotate: Option<i64>,
    /// The thrust axis, from minus one to one; `None` if it is not bound.
    pub accelerate: Option<i64>,
    /// Whether the trigger is held; `None` if it is not bound.
    pub shoot: Option<bool>,
}

impl ShipInput {
    /// Whether the trigger is held.
    pub open spec fn shooting(self) -> bool {
        self.shoot == Some(true)
    }
}

/// The body after thrust along the way the ship faces: the velocity gains
/// acceleration times time times the axis, and is then held to the body's
/// greatest speed.
pub open spec fn accelerated(physical: Physical, ship: Ship, local: Transform, dt: i64, axis: i64) -> Physical {
    let impulse = spec_mul_fixed(spec_mul_fixed(ship.acceleration, dt), axis);
    let forward = local.spec_forward();
    let limited = spec_limit_magnitude(
        spec_add_sat(physical.velocity.x, spec_mul_fixed(forward.x, impulse)),
        spec_add_sat(physical.velocity.y, spec_mul_fixed(forward.y, impulse)),
        physical.max_velocity,
    );
    Physical { velocity: Vector2 { x: limited.0, y: limited.1 }, ..physical }
}

/// The body of a ship after the controls were read: thrust if the axis is
/// bound, and a spin for this tick alone of turning rate times time times
/// the axis, none if that axis is not bound.
pub open spec fn steered(physical: Physical, ship: Ship, local: Transform, input: ShipInput, dt: i64) -> Physical {
    let thrust = match input.accelerate {
        Some(axis) => accelerated(physical, ship, local, dt, axis),
        None => physical,
    };
    Physical {
        rotation: match input.rotate {
            Some(axis) => spec_mul_fixed(spec_mul_fixed(ship.rotation, dt), axis),
            None => 0,
        },
        ..thrust
    }
}

/// Whether the ship is loaded.
pub open spec fn is_loaded(ship: Ship) -> bool {
    ship.reload_timer <= 0
}

/// The ship after a tick: a loaded ship that fires starts to reload, one
/// that does not stays loaded, and one that reloads counts down, to zero
/// and no further.
pub open spec fn reloaded(ship: Ship, input: ShipInput, dt: i64) -> Ship {
    if is_loaded(ship) {
        if input.shooting() {
            Ship { reload_timer: ship.time_to_reload, ..ship }
        } else {
            ship
        }
    } else {
        let left = spec_sub_sat(ship.reload_timer, dt);
        Ship {
            reload_timer: if left < 0 {
                0
            } else {
                left
            },
            ..ship
        }
    }
}

/// Whether the row holds a ship that can be flown: alive, with a body and
/// a place.
pub open spec fn is_flown(row: Row) -> bool {
    row.alive && row.components.ship is Some && row.components.physical is Some
        && row.components.transform is Some
}

/// Whether the ship in the row fires in this tick.
pub open spec fn fires(row: Row, input: ShipInput) -> bool {
    is_flown(row) && is_loaded(row.components.ship->0) && input.shooting()
}

/// The row after the controls were read.
pub open spec fn flown(row: Row, input: ShipInput, dt: i64) -> Row {
    if is_flown(row) {
        let c = row.components;
        Row {
            components: Components {
                physical: Some(steered(c.physical->0, c.ship->0, c.transform->0, input, dt)),
                ship: Some(reloaded(c.ship->0, input, dt)),
                ..c
            },
            ..row
        }
    } else {
        row
    }
}

/// The jitter that the draw at the slot's position gives; none where there
/// is no draw.
pub open spec fn jitter_at(draws: Seq<i64>, slot: int) -> i64 {
    if 0 <= slot < draws.len() {
        draws[slot]
    } else {
        500_000
    }
}

/// The bullet that a ship at `local` fires: set off sideways by the drawn
/// fraction of the jitter, it leaves the way the ship faces.
pub open spec fn bullet(local: Transform, ship: Ship, draw: i64) -> Components {
    let jitter = spec_mul_fixed(spec_sub_sat(draw, 500_000), ship.bullet_jitter);
    let right = local.spec_right();
    let forward = local.spec_forward();
    Components {
        transform: Some(
            local.moved(spec_mul_fixed(right.x, jitter), spec_mul_fixed(right.y, jitter)),
        ),
        physical: Some(
            Physical {
                velocity: Vector2 {
                    x: spec_mul_fixed(forward.x, ship.bullet_velocity),
                    y: spec_mul_fixed(forward.y, ship.bullet_velocity),
                },
                ..Physical::at_rest()
            },
        ),
        bounded: Some(Bounded { shape: Ball { radius: 2_000_000 } }),
        collider: Some(Collider::Bullet),
        ship: None,
        bullet: Some(Bullet { time_to_live: 2_000_000 }),
        constrained: Some(ConstrainedObject),
        sprite: Some(0),
    }
}

/// The slots of the ships that fire, in ascending order.
pub open spec fn firing_slots(rows: Seq<Row>, input: ShipInput) -> Seq<usize>
    decreases rows.len(),
{
    if rows.len() == 0 {
        Seq::empty()
    } else {
        let before = firing_slots(rows.drop_last(), input);
        if fires(rows.last(), input) {
            before.push((rows.len() - 1) as usize)
        } else {
            before
        }
    }
}

/// The bullets of the ships in `slots`, in that order. The ship in slot
/// `s` takes the draw at position `s`.
pub open spec fn shots(rows: Seq<Row>, slots: Seq<usize>, draws: Seq<i64>) -> Seq<Command> {
    Seq::new(
        slots.len(),
        |k: int|
            Command::Create(
                bullet(
                    rows[slots[k] as int].components.transform->0,
                    rows[slots[k] as int].components.ship->0,
                    jitter_at(draws, slots[k] as int),
                ),
            ),
    )
}

/// Handle inputs and mutate world accordingly.
///
/// * Applies rotation (axes `rotate`) and acceleration (axes `accelerate`) to your ship.
/// * Spawns bullets on `shoot` action.
pub struct ShipInputSystem;

fn steer(physical: Physical, ship: &Ship, local: &Transform, input: &ShipInput, dt: i64) -> (r:
    Physical)
    ensures
        r == steered(physical, *ship, *local, *input, dt),
{
    let mut physical = physical;
    // handle acceleration.
    if let Some(acceleration) = input.accelerate {
        let impulse = mul_fixed(mul_fixed(ship.acceleration, dt), acceleration);
        let forward = local.forward();
        let limited = limit_magnitude(
            add_sat(physical.velocity.x, mul_fixed(forward.x, impulse)),
            add_sat(physical.velocity.y, mul_fixed(forward.y, impulse)),
            physical.max_velocity,
        );
        physical.velocity = Vector2 { x: limited.0, y: limited.1 };
    }
    // handle rotation
    if let Some(rotation) = input.rotate {
        physical.rotation = mul_fixed(mul_fixed(ship.rotation, dt), rotation);
    } else {
        physical.rotation = 0;
    }
    physical
}

fn new_bullet(local: &Transform, ship: &Ship, bullet_resource: &Bullets, draw: i64) -> (c:
    Components)
    ensures
        c == bullet(*local, *ship, draw),
{
    let mut local = *local;

    // apply a bit of jitter on the bullet positions.
    let jitter = mul_fixed(sub_sat(draw, 500_000), ship.bullet_jitter);
    let right = local.right();
    let forward = local.forward();
    local.move_global(mul_fixed(right.x, jitter), mul_fixed(right.y, jitter));

    let mut physical = Physical::new();
    physical.velocity = Vector2::new(
        mul_fixed(forward.x, ship.bullet_velocity),
        mul_fixed(forward.y, ship.bullet_velocity),
    );

    Components {
        transform: Some(local),
        physical: Some(physical),
        bounded: Some(bullet_resource.new_bounded()),
        collider: Some(Collider::Bullet),
        ship: None,
        bullet: Some(Bullet::new()),
        constrained: Some(ConstrainedObject),
        sprite: Some(bullet_resource.new_sprite_render()),
    }
}

impl ShipInputSystem {
    /// One tick with the draws given: every ship that can be flown is
    /// steered and reloads, and for each one that fires a bullet is asked
    /// for; if any fired, so is the sound of it.
    pub fn run_with(
        &self,
        world: &mut World,
        cues: &mut Vec<Cue>,
        bullet_resource: &Bullets,
        input: &ShipInput,
        dt: i64,
        draws: &Vec<i64>,
    )
        ensures
            final(world).rows@.len() == old(world).rows@.len(),
            forall|i: int|
                0 <= i < old(world).rows@.len() ==> #[trigger] final(world).rows@[i] == flown(
                    old(world).rows@[i],
                    *input,
                    dt,
                ),
            final(world).queue@ == old(world).queue@ + shots(
                old(world).rows@,
                firing_slots(old(world).rows@, *input),
                draws@,
            ),
            final(cues)@ == if firing_slots(old(world).rows@, *input).len() > 0 {
                old(cues)@.push(Cue::Pew)
            } else {
                old(cues)@
            },
    {
        let shoot = match input.shoot {
            Some(down) => down,
            None => false,
        };

        let mut new_bullets = SlotBuffer::new();

        let mut i: usize = 0;
        while i < world.rows.len()
            invariant
                i <= world.rows@.len(),
                world.rows@.len() == old(world).rows@.len(),
                world.queue@ == old(world).queue@,
                shoot == input.shooting(),
                forall|j: int|
                    0 <= j < i ==> #[trigger] world.rows@[j] == flown(
                        old(world).rows@[j],
                        *input,
                        dt,
                    ),
                forall|j: int|
                    i <= j < world.rows@.len() ==> #[trigger] world.rows@[j] == old(world).rows@[j],
                new_bullets@ == firing_slots(old(world).rows@.take(i as int), *input),
                forall|k: int|
                    0 <= k < new_bullets@.len() ==> (#[trigger] new_bullets@[k]) < i && fires(
                        old(world).rows@[new_bullets@[k] as int],
                        *input,
                    ),
            decreases world.rows@.len() - i,
        {
            proof {
                assert(old(world).rows@.take(i + 1).drop_last() == old(world).rows@.take(i as int));
            }
            let row = world.rows[i];
            if row.alive {
                match (row.components.ship, row.components.physical, row.components.transform) {
                    (Some(ship), Some(physical), Some(local)) => {
                        let mut ship = ship;
                        let physical = steer(physical, &ship, &local, input, dt);

                        // handle shooting with a reload.
                        if ship.reload_timer <= 0 {
                            if shoot {
                                ship.reload_timer = ship.time_to_reload;
                                new_bullets.push(i);
                            }
                        } else {
                            ship.reload_timer = sub_sat(ship.reload_timer, dt);

                            if ship.reload_timer < 0 {
                                ship.reload_timer = 0;
                            }
                        }
                        let components = Components {
                            physical: Some(physical),
                            ship: Some(ship),
                            ..row.components
                        };
                        world.rows.set(i, Row { components, ..row });
                    },
                    _ => {},
                }
            }
            i = i + 1;
        }
        proof {
            assert(old(world).rows@.take(i as int) == old(world).rows@);
        }

        if !new_bullets.is_empty() {
            cues.push(Cue::Pew);
        }

        let mut k: usize = 0;
        while k < new_bullets.len()
            invariant
                k <= new_bullets@.len(),
                world.rows@.len() == old(world).rows@.len(),
                forall|j: int|
                    0 <= j < world.rows@.len() ==> #[trigger] world.rows@[j] == flown(
                        old(world).rows@[j],
                        *input,
                        dt,
                    ),
                forall|k: int|
                    0 <= k < new_bullets@.len() ==> (#[trigger] new_bullets@[k])
                        < world.rows@.len() && fires(
                        old(world).rows@[new_bullets@[k] as int],
                        *input,
                    ),
                world.queue@ == old(world).queue@ + shots(
                    old(world).rows@,
                    new_bullets@.take(k as int),
                    draws@,
                ),
            decreases new_bullets@.len() - k,
        {
            let slot = new_bullets.get(k);
            let row = world.rows[slot];
            let draw = if slot < draws.len() {
                draws[slot]
            } else {
                500_000
            };
            match (row.components.transform, row.components.ship) {
                (Some(local), Some(ship)) => {
                    let ghost before = world.queue@;
                    world.lazy_create(new_bullet(&local, &ship, bullet_resource, draw));
                    proof {
                        let fired = old(world).rows@[slot as int];
                        assert(fires(fired, *input));
                        assert(world.rows@[slot as int] == flown(fired, *input, dt));
                        assert(bullet(local, ship, draw) == bullet(
                            fired.components.transform->0,
                            fired.components.ship->0,
                            draw,
                        ));
                        assert(world.queue@ =~= old(world).queue@ + shots(
                            old(world).rows@,
                            new_bullets@.take(k + 1),
                            draws@,
                        ));
                    }
                },
                _ => {
                    proof {
                        assert(fires(old(world).rows@[slot as int], *input));
                        assert(false);
                    }
                },
            }
            k = k + 1;
        }
        proof {
            assert(new_bullets@.take(k as int) == new_bullets@);
        }
    }

    /// One tick with draws of its own: `run_with` on one draw in range for
    /// every slot.
    pub fn run(
        &self,
        world: &mut World,
        cues: &mut Vec<Cue>,
        bullet_resource: &Bullets,
        rand: &RandomGen,
        input: &ShipInput,
        dt: i64,
    )
        ensures
            final(world).rows@.len() == old(world).rows@.len(),
            forall|i: int|
                0 <= i < old(world).rows@.len() ==> #[trigger] final(world).rows@[i] == flown(
                    old(world).rows@[i],
                    *input,
                    dt,
                ),
            final(cues)@ == if firing_slots(old(world).rows@, *input).len() > 0 {
                old(cues)@.push(Cue::Pew)
            } else {
                old(cues)@
            },
            exists|draws: Seq<i64>|
                {
                    &&& draws.len() == old(world).rows@.len()
                    &&& forall|i: int| 0 <= i < draws.len() ==> 0 <= #[trigger] draws[i] < ONE
                    &&& final(world).queue@ == old(world).queue@ + #[trigger] shots(
                        old(world).rows@,
                        firing_slots(old(world).rows@, *input),
                        draws,
                    )
                },
    {
        // Only a ship that fires takes a draw.
        let shoot = match input.shoot {
            Some(down) => down,
            None => false,
        };
        let mut draws: Vec<i64> = Vec::new();
        while draws.len() < world.rows.len()
            invariant
                draws@.len() <= world.rows@.len(),
                forall|i: int| 0 <= i < draws@.len() ==> 0 <= #[trigger] draws@[i] < ONE,
            decreases world.rows@.len() - draws@.len(),
        {
            let row = world.rows[draws.len()];
            let loaded = match (row.components.ship, row.components.physical, row.components.transform) {
                (Some(ship), Some(_), Some(_)) => row.alive && ship.reload_timer <= 0,
                _ => false,
            };
            if shoot && loaded {
                draws.push(rand.next_f32());
            } else {
                draws.push(0);
            }
        }
        self.run_with(world, cues, bullet_resource, input, dt, &draws);
    }
}

/// After thrust, the ship is never faster than its body may be.
pub proof fn lemma_thrust_is_limited(physical: Physical, ship: Ship, local: Transform, dt: i64, axis: i64)
    requires
        0 <= physical.max_velocity,
    ensures
        within_magnitude(
            accelerated(physical, ship, local, dt, axis).velocity.x as int,
            accelerated(physical, ship, local, dt, axis).velocity.y as int,
            physical.max_velocity as int,
        ),
        accelerated(physical, ship, local, dt, axis).max_velocity == physical.max_velocity,
{
    let impulse = spec_mul_fixed(spec_mul_fixed(ship.acceleration, dt), axis);
    let forward = local.spec_forward();
    lemma_limit_magnitude_within(
        spec_add_sat(physical.velocity.x, spec_mul_fixed(forward.x, impulse)),
        spec_add_sat(physical.velocity.y, spec_mul_fixed(forward.y, impulse)),
        physical.max_velocity,
    );
}

/// The reload timer of a ship that was set up with times from zero on
/// never goes below zero, and such a ship fires exactly when the trigger is
/// held while its timer is at zero.
pub proof fn lemma_reload_clamp(row: Row, input: ShipInput, dt: i64)
    requires
        is_flown(row),
        0 <= row.components.ship->0.reload_timer,
        0 <= row.components.ship->0.time_to_reload,
    ensures
        0 <= flown(row, input, dt).components.ship->0.reload_timer,
        0 <= flown(row, input, dt).components.ship->0.time_to_reload,
        fires(row, input) <==> input.shooting() && row.components.ship->0.reload_timer == 0,
{
}

} // verus!
