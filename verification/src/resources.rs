//! Shared resources of a game session.

use vstd::prelude::*;
use rand::Rng;
use crate::components::Bounded;
use crate::fixed::{mul_fixed, spec_mul_fixed, ONE};

verus! {

/// Radius of the smallest asteroid, and of every asteroid at scale one.
pub const MIN_RADIUS: i64 = 4_000_000;

/// How many asteroid sprites there are to choose from.
pub const NUM_SPRITES: usize = 3;

/// What ships are made of.
pub struct Ships;

impl Ships {
    /// The sprite of a ship.
    pub fn new_sprite_render(&self) -> (sprite: usize)
        ensures
            sprite == 0,
    {
        0
    }

    /// The bounding volume of a ship: a circle of radius six.
    pub fn new_bounded(&self) -> (b: Bounded)
        ensures
            b.shape.radius == 6 * ONE,
    {
        Bounded::from_local(6_000_000)
    }
}

/// What bullets are made of.
pub struct Bullets;

impl Bullets {
    /// The sprite of a bullet.
    pub fn new_sprite_render(&self) -> (sprite: usize)
        ensures
            sprite == 0,
    {
        0
    }

    /// The bounding volume of a bullet: a circle of radius two.
    pub fn new_bounded(&self) -> (b: Bounded)
        ensures
            b.shape.radius == 2 * ONE,
    {
        Bounded::from_local(2_000_000)
    }
}

/// What asteroids are made of.
pub struct Asteroids;

impl Asteroids {
    /// The sprite that a random draw selects.
    pub open spec fn sprite_for(draw: usize) -> usize {
        draw % NUM_SPRITES
    }

    /// The radius of an asteroid of the given scale.
    pub open spec fn radius_for(scale: i64) -> i64 {
        spec_mul_fixed(MIN_RADIUS, scale)
    }

    /// One of the asteroid sprites, chosen by `draw`.
    pub fn sprite(&self, draw: usize) -> (sprite: usize)
        ensures
            sprite == Self::sprite_for(draw),
            sprite < NUM_SPRITES,
    {
        draw % NUM_SPRITES
    }

    /// One of the asteroid sprites, chosen at random.
    pub fn new_sprite_render(&self, random_gen: &RandomGen) -> (sprite: usize)
        ensures
            sprite < NUM_SPRITES,
    {
        self.sprite(random_gen.next_usize())
    }

    /// The bounding volume of an asteroid of the given scale.
    pub fn new_bounded(&self, scale: i64) -> (b: Bounded)
        ensures
            b.shape.radius == Self::radius_for(scale),
    {
        Bounded::from_local(mul_fixed(MIN_RADIUS, scale))
    }
}

/// The source of randomness of a session.
pub struct RandomGen;

impl RandomGen {
    /// `Rng::gen` on the thread's generator: any `usize` may come back.
    #[verifier::external_body]
    pub fn next_usize(&self) -> usize {
        rand::thread_rng().gen::<usize>()
    }

    /// A random fraction of one unit as a fixed-point number: zero may come
    /// back, `ONE` may not.
    pub fn next_f32(&self) -> (r: i64)
        ensures
            0 <= r < ONE,
    {
        gen_below(ONE)
    }
}

/// `Rng::gen_range` on the thread's generator, over the half-open range from
/// zero to `high`: some number from zero on that is less than `high`. The
/// range must not be empty.
#[verifier::external_body]
fn gen_below(high: i64) -> (r: i64)
    requires
        0 < high,
    ensures
        0 <= r < high,
{
    rand::thread_rng().gen_range(0..high)
}

/// Modifiers of the game in place.
#[derive(Debug, Default, Clone, Copy, PartialEq, Eq, Structural)]
pub struct GameModifiers {
    /// Player is immortal.
    pub player_is_immortal: bool,
    /// Player is dead.
    pub player_is_dead: bool,
}

impl GameModifiers {
    /// The modifiers in words: those in place, separated by a comma.
    pub open spec fn text(self) -> Seq<char> {
        if self.player_is_immortal && self.player_is_dead {
            "immortal (F2), dead (R to Restart)"@
        } else if self.player_is_immortal {
            "immortal (F2)"@
        } else if self.player_is_dead {
            "dead (R to Restart)"@
        } else {
            ""@
        }
    }

    /// Get a text describing modifiers in place.
    pub fn as_text(&self) -> (s: String)
        ensures
            s@ == self.text(),
    {
        if self.player_is_immortal && self.player_is_dead {
            "immortal (F2), dead (R to Restart)".to_owned()
        } else if self.player_is_immortal {
            "immortal (F2)".to_owned()
        } else if self.player_is_dead {
            "dead (R to Restart)".to_owned()
        } else {
            "".to_owned()
        }
    }
}

/// The state of the game that input and collisions change and the host reads.
#[derive(Debug, Clone, Copy, PartialEq, Eq, Structural)]
pub struct Game {
    /// Restart the game.
    pub restart: bool,
    /// Pause the game.
    pub pause: bool,
    /// Game modifiers in place.
    pub modifiers: GameModifiers,
}

impl Game {
    /// A game that neither restarts nor pauses, with no modifier in place.
    pub open spec fn fresh() -> Game {
        Game {
            restart: false,
            pause: false,
            modifiers: GameModifiers { player_is_immortal: false, player_is_dead: false },
        }
    }
}

impl Default for Game {
    fn default() -> (g: Game)
        ensures
            g == Game::fresh(),
    {
        Game {
            restart: false,
            pause: false,
            modifiers: GameModifiers { player_is_immortal: false, player_is_dead: false },
        }
    }
}

/// A text of the display, which the host owns; the number means nothing
/// to the simulation.
#[derive(Debug, Clone, Copy, PartialEq, Eq, Structural)]
pub struct TextHandle {
    pub id: u64,
}

/// The score, and what of the game the display last showed.
#[derive(Debug, Clone, Copy)]
pub struct Score {
    /// Handle of the text that shows the score.
    pub score_text: TextHandle,
    /// How many asteroids bullets have destroyed.
    pub asteroids: u32,
    /// Handle of the text that shows the modifiers.
    pub modifiers_text: TextHandle,
    /// The modifiers that the display shows.
    pub current_modifiers: GameModifiers,
    /// The score that the display shows.
    pub current_asteroids: u32,
}

} // verus!
