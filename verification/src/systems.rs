//! The systems of a tick that need no randomness: global actions, physics,
//! the arena's wrap-around, the life of bullets and the display.

use vstd::prelude::*;
use crate::components::{Bullet, Physical, Transform, Vector2};
use crate::fixed::{add_sat, mul_fixed, spec_add_sat, spec_mul_fixed, spec_sub_sat, sub_sat};
use crate::resources::{Game, GameModifiers, Score};
use crate::text::{decimal, to_decimal};
use crate::world::{Command, Components, Entity, Row, World};
use crate::{ARENA_HEIGHT, ARENA_WIDTH};

verus! {

/// Whether a named action is held.
#[derive(Debug, Clone, Copy, PartialEq, Eq, Structural)]
pub enum Action {
    Active,
    Inactive,
}

impl Default for Action {
    fn default() -> (a: Action)
        ensures
            a == Action::Inactive,
    {
        Action::Inactive
    }
}

/// The transition of an action.
#[derive(Debug, Clone, Copy, PartialEq, Eq, Structural)]
pub enum ActionTransition {
    Activated,
    Deactivated,
    /// The action stays as it was.
    Unchanged,
}

impl Action {
    /// Whether the key of the action is down; a key that is not bound is up.
    pub open spec fn is_down(down: Option<bool>) -> bool {
        down == Some(true)
    }

    /// The action that follows this one when its key is as `down` says.
    pub open spec fn after(self, down: Option<bool>) -> Action {
        if Self::is_down(down) {
            Action::Active
        } else {
            Action::Inactive
        }
    }

    /// The transition that the key as `down` says makes of this action.
    pub open spec fn transition(self, down: Option<bool>) -> ActionTransition {
        match self {
            Action::Inactive => if Self::is_down(down) {
                ActionTransition::Activated
            } else {
                ActionTransition::Unchanged
            },
            Action::Active => if Self::is_down(down) {
                ActionTransition::Unchanged
            } else {
                ActionTransition::Deactivated
            },
        }
    }

    /// Test an action, and transition it into a different state if applicable.
    pub fn test(&mut self, down: Option<bool>) -> (t: ActionTransition)
        ensures
            *final(self) == old(self).after(down),
            t == old(self).transition(down),
    {
        let down = match down {
            Some(down) => down,
            None => false,
        };

        match *self {
            Action::Inactive => {
                if down {
                    *self = Action::Active;
                    return ActionTransition::Activated;
                }
            },
            Action::Active => {
                if !down {
                    *self = Action::Inactive;
                    return ActionTransition::Deactivated;
                }
            },
        }

        ActionTransition::Unchanged
    }
}

impl ActionTransition {
    /// Call the given callback if action is activated, and hand on what it
    /// returns.
    pub fn activated<T, F: FnOnce() -> T>(self, c: F) -> (r: Option<T>)
        requires
            self is Activated ==> call_requires(c, ()),
        ensures
            self is Activated ==> r is Some && call_ensures(c, (), r->0),
            !(self is Activated) ==> r is None,
    {
        if let ActionTransition::Activated = self {
            Some(c())
        } else {
            None
        }
    }

    /// Call the given callback if action is deactivated, and hand on what
    /// it returns.
    pub fn deactivated<T, F: FnOnce() -> T>(self, c: F) -> (r: Option<T>)
        requires
            self is Deactivated ==> call_requires(c, ()),
        ensures
            self is Deactivated ==> r is Some && call_ensures(c, (), r->0),
            !(self is Deactivated) ==> r is None,
    {
        if let ActionTransition::Deactivated = self {
            Some(c())
        } else {
            None
        }
    }
}

/// The keys of the global actions in one tick; `None` for a key that is not
/// bound.
#[derive(Debug, Clone, Copy)]
pub struct GlobalInput {
    pub immortal: Option<bool>,
    pub restart: Option<bool>,
    pub pause: Option<bool>,
}

/// Turns key presses into changes of the game: each action takes effect in
/// the tick in which its key goes down.
#[derive(Debug, Clone, Copy)]
pub struct GlobalInputSystem {
    pub immortal: Action,
    pub restart: Action,
    pub pause: Action,
}

impl Default for GlobalInputSystem {
    fn default() -> (s: GlobalInputSystem)
        ensures
            s.immortal == Action::Inactive,
            s.restart == Action::Inactive,
            s.pause == Action::Inactive,
    {
        GlobalInputSystem {
            immortal: Action::Inactive,
            restart: Action::Inactive,
            pause: Action::Inactive,
        }
    }
}

impl GlobalInputSystem {
    /// The game after the keys were read: immortality is toggled, and
    /// restart and pause are asked for, by the key that went down.
    pub open spec fn commanded(self, input: GlobalInput, game: Game) -> Game {
        Game {
            restart: game.restart || self.restart.transition(input.restart) is Activated,
            pause: game.pause || self.pause.transition(input.pause) is Activated,
            modifiers: GameModifiers {
                player_is_immortal: if self.immortal.transition(input.immortal) is Activated {
                    !game.modifiers.player_is_immortal
                } else {
                    game.modifiers.player_is_immortal
                },
                ..game.modifiers
            },
        }
    }

    pub fn run(&mut self, input: &GlobalInput, game: &mut Game)
        ensures
            final(self).immortal == old(self).immortal.after(input.immortal),
            final(self).restart == old(self).restart.after(input.restart),
            final(self).pause == old(self).pause.after(input.pause),
            *final(game) == old(self).commanded(*input, *old(game)),
    {
        if let ActionTransition::Activated = self.immortal.test(input.immortal) {
            game.modifiers.player_is_immortal = !game.modifiers.player_is_immortal;
        }

        if let ActionTransition::Activated = self.restart.test(input.restart) {
            game.restart = true;
        }

        if let ActionTransition::Activated = self.pause.test(input.pause) {
            game.pause = true;
        }
    }
}

/// A coordinate brought back into an arena of the given extent: one below
/// zero enters from the far side, and so does one beyond the extent.
pub open spec fn wrapped(v: i64, extent: i64) -> i64 {
    if v < 0 {
        spec_add_sat(v, extent)
    } else if v > extent {
        spec_sub_sat(v, extent)
    } else {
        v
    }
}

pub fn wrap(v: i64, extent: i64) -> (r: i64)
    ensures
        r == wrapped(v, extent),
{
    if v < 0 {
        add_sat(v, extent)
    } else if v > extent {
        sub_sat(v, extent)
    } else {
        v
    }
}

/// Whether the row holds an entity that is kept inside the arena.
pub open spec fn is_limited(row: Row) -> bool {
    row.alive && row.components.transform is Some && row.components.constrained is Some
}

/// The row with its entity brought back into the arena.
pub open spec fn limited(row: Row) -> Row {
    if is_limited(row) {
        let local = row.components.transform->0;
        Row {
            components: Components {
                transform: Some(
                    Transform {
                        translation: Vector2 {
                            x: wrapped(local.translation.x, ARENA_WIDTH),
                            y: wrapped(local.translation.y, ARENA_HEIGHT),
                        },
                        ..local
                    },
                ),
                ..row.components
            },
            ..row
        }
    } else {
        row
    }
}

/// Limit objects within arena.
///
/// If an object goes out of bounds, moves it to the other side of the arena.
pub struct LimitObjectsSystem;

impl LimitObjectsSystem {
    pub fn run(&self, world: &mut World)
        ensures
            final(world).queue@ == old(world).queue@,
            final(world).rows@.len() == old(world).rows@.len(),
            forall|i: int|
                0 <= i < old(world).rows@.len() ==> #[trigger] final(world).rows@[i] == limited(
                    old(world).rows@[i],
                ),
    {
        let mut i: usize = 0;
        while i < world.rows.len()
            invariant
                i <= world.rows@.len(),
                world.queue@ == old(world).queue@,
                world.rows@.len() == old(world).rows@.len(),
                forall|j: int|
                    0 <= j < i ==> #[trigger] world.rows@[j] == limited(old(world).rows@[j]),
                forall|j: int|
                    i <= j < world.rows@.len() ==> #[trigger] world.rows@[j] == old(world).rows@[j],
            decreases world.rows@.len() - i,
        {
            let row = world.rows[i];
            if row.alive {
                match (row.components.transform, row.components.constrained) {
                    (Some(local), Some(_)) => {
                        let mut local = local;
                        local.translation = Vector2 {
                            x: wrap(local.translation.x, ARENA_WIDTH),
                            y: wrap(local.translation.y, ARENA_HEIGHT),
                        };
                        let components = Components { transform: Some(local), ..row.components };
                        world.rows.set(i, Row { components, ..row });
                    },
                    _ => {},
                }
            }
            i = i + 1;
        }
    }
}

/// Whether the row holds a bullet.
pub open spec fn is_bullet(row: Row) -> bool {
    row.alive && row.components.bullet is Some
}

/// The row with its bullet, if it holds one, `dt` older.
pub open spec fn aged(row: Row, dt: i64) -> Row {
    if is_bullet(row) {
        Row {
            components: Components {
                bullet: Some(
                    Bullet {
                        time_to_live: spec_sub_sat(row.components.bullet->0.time_to_live, dt),
                    },
                ),
                ..row.components
            },
            ..row
        }
    } else {
        row
    }
}

/// Whether the row holds a bullet whose time runs out within `dt`.
pub open spec fn expires(row: Row, dt: i64) -> bool {
    is_bullet(row) && spec_sub_sat(row.components.bullet->0.time_to_live, dt) <= 0
}

/// The deletions of the bullets whose time runs out within `dt`, by slot.
pub open spec fn expirations(rows: Seq<Row>, dt: i64) -> Seq<Command>
    decreases rows.len(),
{
    if rows.len() == 0 {
        Seq::empty()
    } else {
        let before = expirations(rows.drop_last(), dt);
        if expires(rows.last(), dt) {
            before.push(
                Command::Delete(
                    Entity { index: (rows.len() - 1) as usize, generation: rows.last().generation },
                ),
            )
        } else {
            before
        }
    }
}

/// Counts down the life of every bullet and asks for those to be deleted
/// whose time is up.
pub struct KillBulletsSystem;

impl KillBulletsSystem {
    pub fn run(&self, world: &mut World, dt: i64)
        ensures
            final(world).rows@.len() == old(world).rows@.len(),
            forall|i: int|
                0 <= i < old(world).rows@.len() ==> #[trigger] final(world).rows@[i] == aged(
                    old(world).rows@[i],
                    dt,
                ),
            final(world).queue@ == old(world).queue@ + expirations(old(world).rows@, dt),
    {
        let mut i: usize = 0;
        assert(world.queue@ =~= old(world).queue@ + expirations(old(world).rows@.take(0), dt));
        while i < world.rows.len()
            invariant
                i <= world.rows@.len(),
                world.rows@.len() == old(world).rows@.len(),
                forall|j: int|
                    0 <= j < i ==> #[trigger] world.rows@[j] == aged(old(world).rows@[j], dt),
                forall|j: int|
                    i <= j < world.rows@.len() ==> #[trigger] world.rows@[j] == old(world).rows@[j],
                world.queue@ == old(world).queue@ + expirations(
                    old(world).rows@.take(i as int),
                    dt,
                ),
            decreases world.rows@.len() - i,
        {
            proof {
                assert(old(world).rows@.take(i + 1).drop_last() == old(world).rows@.take(i as int));
            }
            let row = world.rows[i];
            if row.alive {
                if let Some(bullet) = row.components.bullet {
                    let time_to_live = sub_sat(bullet.time_to_live, dt);
                    let components = Components {
                        bullet: Some(Bullet { time_to_live }),
                        ..row.components
                    };
                    world.rows.set(i, Row { components, ..row });

                    if time_to_live <= 0 {
                        let ghost before = expirations(old(world).rows@.take(i as int), dt);
                        let e = Entity { index: i, generation: row.generation };
                        world.lazy_delete(e);
                        assert((old(world).queue@ + before).push(Command::Delete(e)) =~= old(
                            world,
                        ).queue@ + before.push(Command::Delete(e)));
                    }
                }
            }
            i = i + 1;
        }
        proof {
            assert(old(world).rows@.take(i as int) == old(world).rows@);
        }
    }
}

/// Whether the row holds a body with a place.
pub open spec fn is_moved(row: Row) -> bool {
    row.alive && row.components.physical is Some && row.components.transform is Some
}

/// The place of a body after `dt`: moved by velocity times time along the
/// arena's axes and turned by spin times time about its own.
pub open spec fn integrated(local: Transform, physical: Physical, dt: i64) -> Transform {
    local.moved(
        spec_mul_fixed(physical.velocity.x, dt),
        spec_mul_fixed(physical.velocity.y, dt),
    ).rolled(spec_mul_fixed(physical.rotation, dt))
}

/// The row after `dt`: a body moves if time has passed; nothing else does.
pub open spec fn advanced(row: Row, dt: i64) -> Row {
    if is_moved(row) && dt > 0 {
        Row {
            components: Components {
                transform: Some(
                    integrated(row.components.transform->0, row.components.physical->0, dt),
                ),
                ..row.components
            },
            ..row
        }
    } else {
        row
    }
}

/// Applies physics to `Physical` entities.
///
/// The system applies velocity and rotation to the objects in the system.
pub struct PhysicsSystem;

impl PhysicsSystem {
    pub fn run(&self, world: &mut World, dt: i64)
        ensures
            final(world).queue@ == old(world).queue@,
            final(world).rows@.len() == old(world).rows@.len(),
            forall|i: int|
                0 <= i < old(world).rows@.len() ==> #[trigger] final(world).rows@[i] == advanced(
                    old(world).rows@[i],
                    dt,
                ),
    {
        if dt <= 0 {
            return ;
        }
        let mut i: usize = 0;
        while i < world.rows.len()
            invariant
                dt > 0,
                i <= world.rows@.len(),
                world.queue@ == old(world).queue@,
                world.rows@.len() == old(world).rows@.len(),
                forall|j: int|
                    0 <= j < i ==> #[trigger] world.rows@[j] == advanced(old(world).rows@[j], dt),
                forall|j: int|
                    i <= j < world.rows@.len() ==> #[trigger] world.rows@[j] == old(world).rows@[j],
            decreases world.rows@.len() - i,
        {
            let row = world.rows[i];
            if row.alive {
                match (row.components.physical, row.components.transform) {
                    (Some(physical), Some(local)) => {
                        // Apply existing velocity and rotational velocity.
                        let mut local = local;
                        local.move_global(
                            mul_fixed(physical.velocity.x, dt),
                            mul_fixed(physical.velocity.y, dt),
                        );
                        local.roll_local(mul_fixed(physical.rotation, dt));
                        let components = Components { transform: Some(local), ..row.components };
                        world.rows.set(i, Row { components, ..row });
                    },
                    _ => {},
                }
            }
            i = i + 1;
        }
    }
}

/// The texts that the display is to show from now on; `None` for a text
/// that stays as it is.
#[derive(Debug)]
pub struct UiUpdate {
    pub score_text: Option<String>,
    pub modifiers_text: Option<String>,
}

/// Handle the user interface.
///
/// Modifies text on screen and such when their underlying state has been modified.
pub struct HandleUiSystem;

impl HandleUiSystem {
    /// Compares the game with what the display shows, and hands out a new
    /// text for each of the two that has changed since.
    pub fn run(&self, game: &Game, score: &mut Score) -> (update: UiUpdate)
        ensures
            *final(score) == (Score {
                current_modifiers: game.modifiers,
                current_asteroids: old(score).asteroids,
                ..*old(score)
            }),
            update.modifiers_text is Some <==> game.modifiers != old(score).current_modifiers,
            update.modifiers_text is Some ==> update.modifiers_text->0@ == game.modifiers.text(),
            update.score_text is Some <==> old(score).asteroids != old(score).current_asteroids,
            update.score_text is Some ==> update.score_text->0@ == decimal(
                old(score).asteroids as nat,
            ),
    {
        let mut update = UiUpdate { score_text: None, modifiers_text: None };

        if score.asteroids != score.current_asteroids {
            score.current_asteroids = score.asteroids;
            update.score_text = Some(to_decimal(score.asteroids));
        }

        if game.modifiers != score.current_modifiers {
            score.current_modifiers = game.modifiers;
            update.modifiers_text = Some(game.modifiers.as_text());
        }

        update
    }
}

/// Within one arena's extent of where it was, a wrapped coordinate lies
/// inside the arena, at the place on the torus where the move leads; and
/// wrapping it once more changes nothing. The one exception is a move that
/// ends exactly on the far edge, which stays there.
pub proof fn lemma_wrap_is_toroidal(p: i64, d: i64, extent: i64)
    requires
        0 < extent,
        2 * extent <= i64::MAX,
        0 <= p <= extent,
        -extent < d < extent,
        p + d != extent,
    ensures
        0 <= wrapped((p + d) as i64, extent) < extent,
        wrapped((p + d) as i64, extent) as int % (extent as int) == (p + d) % (extent as int),
        wrapped(wrapped((p + d) as i64, extent), extent) == wrapped((p + d) as i64, extent),
{
    let x = p + d;
    let w = wrapped(x as i64, extent) as int;
    let e = extent as int;
    if x < 0 {
        assert(w == x + e);
        assert((x + e) % e == x % e) by (nonlinear_arith)
            requires
                e > 0,
        ;
    } else if x > extent {
        assert(w == x - e);
        assert((x - e) % e == x % e) by (nonlinear_arith)
            requires
                e > 0,
        ;
    }
}

} // verus!
