//! The states of the game and how a session starts, restarts and pauses.

use vstd::prelude::*;
use crate::components::{Collider, ConstrainedObject, Physical, Ship, Transform, Vector2};
use crate::components::{Ball, Bounded};
use crate::resources::{Game, GameModifiers, Score, Ships, TextHandle};
use crate::world::{created, is_alive, next_entity, Command, Components, Entity, Row, World};
use crate::{ARENA_HEIGHT, ARENA_WIDTH};

verus! {

/// Which state the game is in.
#[derive(Debug, Clone, Copy, PartialEq, Eq, Hash, Structural)]
pub enum State {
    Main,
    Paused,
}

impl Default for State {
    fn default() -> (s: State)
        ensures
            s == State::Main,
    {
        State::Main
    }
}

/// What a state asks of the host after a tick.
#[derive(Debug, Clone, Copy, PartialEq, Eq, Structural)]
pub enum Trans {
    /// Go on as before.
    Stay,
    /// Leave the current state and start the given one.
    Switch(State),
    /// Suspend the current state and start the given one on top of it.
    Push(State),
    /// Leave the current state and resume the one below.
    Pop,
}

/// The ship of a new session: the stock ship, at rest in the middle of the
/// arena.
pub open spec fn ship_at_center() -> Components {
    Components {
        transform: Some(
            Transform {
                translation: Vector2 { x: 150_000_000, y: 150_000_000 },
                ..Transform::identity()
            },
        ),
        physical: Some(Physical::at_rest()),
        bounded: Some(Bounded { shape: Ball { radius: 6_000_000 } }),
        collider: Some(Collider::Ship),
        ship: Some(Ship::stock()),
        bullet: None,
        constrained: Some(ConstrainedObject),
        sprite: Some(0),
    }
}

/// Initialises one ship in the middle-ish of the arena.
pub fn initialise_ship(world: &mut World, ship_resource: &Ships) -> (e: Entity)
    ensures
        e == next_entity(old(world).rows@),
        final(world).rows@ == created(old(world).rows@, ship_at_center()),
        final(world).queue@ == old(world).queue@,
        is_alive(final(world).rows@, e),
{
    let mut local = Transform::default();
    local.set_xyz(ARENA_WIDTH / 2, ARENA_HEIGHT / 2);

    world.create(
        Components {
            transform: Some(local),
            physical: Some(Physical::new()),
            bounded: Some(ship_resource.new_bounded()),
            collider: Some(Collider::Ship),
            ship: Some(Ship::default()),
            bullet: None,
            constrained: Some(ConstrainedObject),
            sprite: Some(ship_resource.new_sprite_render()),
        },
    )
}

/// The state in which the game is played.
#[derive(Debug, Clone, Copy)]
pub struct MainState {
    /// Whether the player starts the next session immortal.
    pub player_is_immortal: bool,
}

impl MainState {
    /// The game of a new session.
    pub open spec fn new_game(self) -> Game {
        Game {
            restart: false,
            pause: false,
            modifiers: GameModifiers {
                player_is_immortal: self.player_is_immortal,
                player_is_dead: false,
            },
        }
    }

    /// The score of a new session, with the display up to date.
    pub open spec fn new_score(self, score_text: TextHandle, modifiers_text: TextHandle) -> Score {
        Score {
            score_text,
            asteroids: 0,
            modifiers_text,
            current_modifiers: self.new_game().modifiers,
            current_asteroids: 0,
        }
    }

    /// Starts a session: a new game, immortal if this state says so, a
    /// score of zero, and one ship in the middle of the arena.
    pub fn on_start(
        &mut self,
        world: &mut World,
        ship_resource: &Ships,
        score_text: TextHandle,
        modifiers_text: TextHandle,
    ) -> (session: (Game, Score))
        ensures
            *final(self) == *old(self),
            session.0 == old(self).new_game(),
            session.1 == old(self).new_score(score_text, modifiers_text),
            final(world).rows@ == created(old(world).rows@, ship_at_center()),
            final(world).queue@ == old(world).queue@,
    {
        let mut game = Game::default();
        game.modifiers.player_is_immortal = self.player_is_immortal;

        let score = Score {
            score_text,
            asteroids: 0,
            modifiers_text,
            current_modifiers: game.modifiers,
            current_asteroids: 0,
        };

        // Setup our game.
        initialise_ship(world, ship_resource);

        (game, score)
    }

    /// What the game asks for after a tick. A restart clears the world,
    /// keeps immortality for the next session if the player had it, and
    /// switches to a new main state. Else a pause is taken note of, taken
    /// back so that it is acted on once, and the paused state pushed.
    pub fn update(&mut self, world: &mut World, game: &mut Game) -> (t: Trans)
        ensures
            old(game).restart ==> {
                &&& t == Trans::Switch(State::Main)
                &&& final(self).player_is_immortal == (old(self).player_is_immortal || old(
                    game,
                ).modifiers.player_is_immortal)
                &&& *final(game) == *old(game)
                &&& final(world).queue@ == Seq::<Command>::empty()
                &&& final(world).rows@.len() == old(world).rows@.len()
                &&& forall|i: int|
                    0 <= i < old(world).rows@.len() ==> #[trigger] final(world).rows@[i] == (Row {
                        generation: old(world).rows@[i].generation,
                        alive: false,
                        components: Components::empty(),
                    })
            },
            !old(game).restart ==> {
                &&& *final(self) == *old(self)
                &&& final(world).rows@ == old(world).rows@
                &&& final(world).queue@ == old(world).queue@
                &&& *final(game) == (Game { pause: false, ..*old(game) })
                &&& t == (if old(game).pause {
                    Trans::Push(State::Paused)
                } else {
                    Trans::Stay
                })
            },
    {
        if game.restart {
            world.delete_all();
            self.player_is_immortal = self.player_is_immortal || game.modifiers.player_is_immortal;
            return Trans::Switch(State::Main);
        }

        if game.pause {
            // NB: prevent a pause cycle by resetting the pause when acted on.
            game.pause = false;
            return Trans::Push(State::Paused);
        }

        Trans::Stay
    }
}

/// The state in which the game stands still.
#[derive(Debug, Clone, Copy)]
pub struct PausedState;

impl PausedState {
    /// What to tell the player when the game pauses.
    pub fn on_start(&mut self) -> (notice: String)
        ensures
            notice@ == "Game Paused"@,
    {
        "Game Paused".to_owned()
    }

    /// What the game asks for after a tick: on a pause, taken back so that
    /// it is acted on once, the game resumes.
    pub fn update(&mut self, game: &mut Game) -> (t: Trans)
        ensures
            *final(game) == (Game { pause: false, ..*old(game) }),
            t == (if old(game).pause {
                Trans::Pop
            } else {
                Trans::Stay
            }),
    {
        if game.pause {
            game.pause = false;
            return Trans::Pop;
        }

        Trans::Stay
    }
}

} // verus!
