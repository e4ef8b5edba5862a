//! Collisions: which kinds of entity harm which, how an asteroid splits, and
//! the system that finds the contacts of a tick and resolves them.

use vstd::prelude::*;
use crate::audio::Cue;
use crate::broad_phase::{is_pair_list, lemma_square_monotone, BroadPhase, Proxy};
use crate::buffer::SlotBuffer;
use crate::components::{Ball, Bounded, Collider, Transform, Vector2};
use crate::fixed::{
    add_sat, cos, is_floor_sqrt, isqrt, lemma_isqrt_is_root, midpoint, mul_fixed, sin,
    spec_add_sat, spec_cos, spec_isqrt,
    spec_midpoint, spec_mul_fixed, spec_sin, ONE, PI,
};
use crate::resources::{Asteroids, Game, GameModifiers, RandomGen, Score, MIN_RADIUS};
use crate::spawner::{asteroid, spawn_asteroid};
use crate::world::{is_alive, Command, Entity, Row, World};

verus! {

/// What a contact between two entities leads to.
#[derive(Debug, Clone, Copy, PartialEq, Eq, Structural)]
pub enum Contact {
    /// Nothing happens.
    Ignored,
    /// Two asteroids fresh from a split touch: both stay as they are.
    Siblings,
    /// The ship is hit.
    Death,
    /// A bullet destroys an asteroid.
    Hit,
    /// Two asteroids destroy each other.
    Merge,
}

/// The rule for a contact between kinds `a` and `b`, by precedence:
/// two deferred asteroids are siblings; any other contact of a deferred
/// asteroid is ignored; so is that of a bullet and the ship; anything else
/// that touches the ship kills it unless the player is immortal; a bullet
/// that touches an asteroid hits it; two asteroids merge; and nothing comes
/// of the rest.
///
/// Only a hit and a merge destroy anything. An asteroid that the ship runs
/// into kills the player and stays, as a deferred asteroid does whatever it
/// touches, and two bullets pass through each other: the rules name what a
/// contact destroys, and name nothing for these.
pub open spec fn spec_contact(a: Collider, b: Collider, immortal: bool) -> Contact {
    if a is DeferredAsteroid && b is DeferredAsteroid {
        Contact::Siblings
    } else if a is DeferredAsteroid || b is DeferredAsteroid {
        Contact::Ignored
    } else if (a is Bullet && b is Ship) || (a is Ship && b is Bullet) {
        Contact::Ignored
    } else if a is Ship || b is Ship {
        if immortal {
            Contact::Ignored
        } else {
            Contact::Death
        }
    } else if (a is Bullet && b is Asteroid) || (a is Asteroid && b is Bullet) {
        Contact::Hit
    } else if a is Asteroid && b is Asteroid {
        Contact::Merge
    } else {
        Contact::Ignored
    }
}

pub fn contact(a: Collider, b: Collider, immortal: bool) -> (c: Contact)
    ensures
        c == spec_contact(a, b, immortal),
{
    match (a, b) {
        (Collider::DeferredAsteroid, Collider::DeferredAsteroid) => Contact::Siblings,
        (Collider::DeferredAsteroid, _) | (_, Collider::DeferredAsteroid) => Contact::Ignored,
        (Collider::Bullet, Collider::Ship) | (Collider::Ship, Collider::Bullet) => Contact::Ignored,
        (Collider::Ship, _) | (_, Collider::Ship) => {
            if immortal {
                Contact::Ignored
            } else {
                Contact::Death
            }
        },
        (Collider::Bullet, Collider::Asteroid) | (Collider::Asteroid, Collider::Bullet) => {
            Contact::Hit
        },
        (Collider::Asteroid, Collider::Asteroid) => Contact::Merge,
        _ => Contact::Ignored,
    }
}

/// The area of a circle of the given radius, over pi.
pub open spec fn area_of(radius: i64) -> int {
    if radius > 0 {
        radius * radius
    } else {
        0
    }
}

/// The area of the smallest asteroid, over pi.
pub open spec fn min_area() -> int {
    MIN_RADIUS * MIN_RADIUS
}

/// Whether an asteroid of this area leaves children when it is destroyed.
pub open spec fn splits(area: int) -> bool {
    area >= 3 * min_area()
}

/// The radius of a circle of half the given area, rounded down, and no
/// more than a radius can be.
pub open spec fn half_radius(area: int) -> int {
    let r = spec_isqrt(area / 2);
    if r > i64::MAX {
        i64::MAX as int
    } else {
        r
    }
}

/// The scale of each of the two children of an asteroid of the given area.
pub open spec fn child_scale(area: int) -> i64 {
    ((half_radius(area) * ONE) / (MIN_RADIUS as int)) as i64
}

/// The random draws that one child of a split takes. All but `sprite` are
/// fractions of one unit.
#[derive(Debug, Clone, Copy)]
pub struct ChildDraw {
    /// How far its course turns from the course of the child before it, as
    /// a fraction of half a turn.
    pub turn: i64,
    /// Its speed, as a fraction of the greatest.
    pub speed: i64,
    /// Its spin, as a fraction of the greatest.
    pub spin: i64,
    pub sprite: usize,
}

impl ChildDraw {
    /// The draw of a child that neither moves nor spins.
    pub open spec fn still() -> ChildDraw {
        ChildDraw { turn: 0, speed: 0, spin: 0, sprite: 0 }
    }

    /// Whether every fraction lies from zero up to, but not at, one.
    pub open spec fn in_range(self) -> bool {
        &&& 0 <= self.turn < ONE
        &&& 0 <= self.speed < ONE
        &&& 0 <= self.spin < ONE
    }
}

/// The greatest speed of a child of a split.
pub const CHILD_SPEED: i64 = 100_000_000;

/// The greatest spin of a child of a split.
pub const CHILD_SPIN: i64 = 100_000;

/// One child of an asteroid of area `area` destroyed at `center`: a deferred
/// asteroid at that place that leaves on the course `angle`.
pub open spec fn child(center: Vector2, area: int, angle: i64, draw: ChildDraw) -> Command {
    let speed = spec_mul_fixed(CHILD_SPEED, draw.speed);
    Command::Create(
        asteroid(
            Transform { translation: center, ..Transform::identity() },
            child_scale(area),
            Vector2 {
                x: spec_mul_fixed(spec_cos(angle as int) as i64, speed),
                y: spec_mul_fixed(spec_sin(angle as int) as i64, speed),
            },
            CHILD_SPIN,
            true,
            draw.spin,
            draw.sprite,
        ),
    )
}

/// What an asteroid of area `area` destroyed at `center` leaves behind: two
/// children of half its area each if it is large enough, nothing otherwise.
pub open spec fn cluster(center: Vector2, area: int, first: ChildDraw, second: ChildDraw) -> Seq<
    Command,
> {
    if splits(area) {
        let first_course = spec_mul_fixed(first.turn, PI);
        let second_course = spec_add_sat(first_course, spec_mul_fixed(second.turn, PI));
        seq![child(center, area, first_course, first), child(center, area, second_course, second)]
    } else {
        Seq::empty()
    }
}

proof fn lemma_area_bound(r: int)
    by (nonlinear_arith)
    requires
        0 <= r <= 0x7fff_ffff_ffff_ffff,
    ensures
        0 <= r * r <= 0x3fff_ffff_ffff_ffff_0000_0000_0000_0001,
{
    assert(r * r <= 0x7fff_ffff_ffff_ffff * 0x7fff_ffff_ffff_ffff);
}

/// The area of a circle of the given radius, over pi.
pub fn area(radius: i64) -> (a: u128)
    ensures
        a == area_of(radius),
        a <= 0x3fff_ffff_ffff_ffff_0000_0000_0000_0001,
{
    if radius > 0 {
        proof {
            lemma_area_bound(radius as int);
        }
        (radius as u128) * (radius as u128)
    } else {
        0
    }
}

/// Asks for the children of an asteroid of area `area` destroyed at
/// `center`, and says how many there are.
pub fn spawn_asteroid_cluster(
    world: &mut World,
    asteroid_resource: &Asteroids,
    center: Vector2,
    area: u128,
    first: ChildDraw,
    second: ChildDraw,
) -> (count: usize)
    ensures
        final(world).rows@ == old(world).rows@,
        final(world).queue@ == old(world).queue@ + cluster(center, area as int, first, second),
        count == cluster(center, area as int, first, second).len(),
        count == if splits(area as int) { 2usize } else { 0usize },
{
    if area < 48_000_000_000_000 {
        assert(old(world).queue@ + Seq::<Command>::empty() == old(world).queue@);
        return 0;
    }
    let root = isqrt(area / 2);
    let radius: u64 = if root > 0x7fff_ffff_ffff_ffff {
        0x7fff_ffff_ffff_ffff
    } else {
        root
    };
    let scale: i64 = (((radius as i128) * (ONE as i128)) / (MIN_RADIUS as i128)) as i64;
    let mut local = Transform::default();
    local.translation = center;

    let first_course = mul_fixed(first.turn, PI);
    let first_speed = mul_fixed(CHILD_SPEED, first.speed);
    let first_velocity = Vector2::new(
        mul_fixed(cos(first_course), first_speed),
        mul_fixed(sin(first_course), first_speed),
    );
    spawn_asteroid(
        world,
        asteroid_resource,
        local,
        scale,
        first_velocity,
        CHILD_SPIN,
        true,
        first.spin,
        first.sprite,
    );

    let second_course = add_sat(first_course, mul_fixed(second.turn, PI));
    let second_speed = mul_fixed(CHILD_SPEED, second.speed);
    let second_velocity = Vector2::new(
        mul_fixed(cos(second_course), second_speed),
        mul_fixed(sin(second_course), second_speed),
    );
    spawn_asteroid(
        world,
        asteroid_resource,
        local,
        scale,
        second_velocity,
        CHILD_SPIN,
        true,
        second.spin,
        second.sprite,
    );
    proof {
        let made = cluster(center, area as int, first, second);
        assert(made.len() == 2);
        assert(old(world).queue@.push(made[0]).push(made[1]) =~= old(world).queue@ + made);
    }
    2
}

/// What resolving contacts has come to so far.
pub struct Outcome {
    /// Whether the player is dead.
    pub dead: bool,
    /// How many asteroids bullets have destroyed.
    pub score: u32,
    /// The sounds asked for, in order.
    pub cues: Seq<Cue>,
    /// The structural changes asked for, in order.
    pub queue: Seq<Command>,
    /// By handle of the broad phase: whether the circle was in a contact of
    /// siblings.
    pub siblings: Seq<bool>,
}

/// The score after one more asteroid, which stops at the top.
pub open spec fn bumped(score: u32) -> u32 {
    if score < u32::MAX {
        (score + 1) as u32
    } else {
        score
    }
}

/// The outcome after the contact of the circles `pair.0` and `pair.1`.
///
/// A contact that involves an asteroid is heard. Siblings are noted.
/// A death is recorded. A hit scores, is heard again, and destroys both the
/// bullet and the asteroid, which leaves its cluster where it was. A merge
/// destroys both asteroids, which leave one cluster of their joint area at
/// the point midway between them. A pair that names no circle changes
/// nothing.
pub open spec fn resolved_pair(
    proxies: Seq<Proxy>,
    pair: (usize, usize),
    first: ChildDraw,
    second: ChildDraw,
    immortal: bool,
    o: Outcome,
) -> Outcome {
    if pair.0 >= proxies.len() || pair.1 >= proxies.len() {
        o
    } else {
        let a = proxies[pair.0 as int];
        let b = proxies[pair.1 as int];
        let cues = if a.collider is Asteroid || b.collider is Asteroid {
            o.cues.push(Cue::Collision)
        } else {
            o.cues
        };
        match spec_contact(a.collider, b.collider, immortal) {
            Contact::Ignored => Outcome { cues, ..o },
            Contact::Siblings => Outcome {
                cues,
                siblings: o.siblings.update(pair.0 as int, true).update(pair.1 as int, true),
                ..o
            },
            Contact::Death => Outcome { cues, dead: true, ..o },
            Contact::Hit => {
                let rock = if a.collider is Asteroid {
                    a
                } else {
                    b
                };
                Outcome {
                    cues: cues.push(Cue::Explosion),
                    score: bumped(o.score),
                    queue: (o.queue + cluster(
                        rock.center,
                        area_of(rock.radius),
                        first,
                        second,
                    )).push(Command::Delete(a.entity)).push(Command::Delete(b.entity)),
                    ..o
                }
            },
            Contact::Merge => Outcome {
                cues,
                queue: (o.queue + cluster(
                    Vector2 {
                        x: spec_midpoint(a.center.x, b.center.x),
                        y: spec_midpoint(a.center.y, b.center.y),
                    },
                    area_of(a.radius) + area_of(b.radius),
                    first,
                    second,
                )).push(Command::Delete(a.entity)).push(Command::Delete(b.entity)),
                ..o
            },
        }
    }
}

/// The draw at position `i`, or the still draw where there is none.
pub open spec fn draw_at(draws: Seq<ChildDraw>, i: int) -> ChildDraw {
    if 0 <= i < draws.len() {
        draws[i]
    } else {
        ChildDraw::still()
    }
}

/// The outcome after all of `pairs`, first to last. The pair at position
/// `k` takes the draws at `2 * k` and `2 * k + 1`.
pub open spec fn resolved_all(
    proxies: Seq<Proxy>,
    pairs: Seq<(usize, usize)>,
    draws: Seq<ChildDraw>,
    immortal: bool,
    o: Outcome,
) -> Outcome
    decreases pairs.len(),
{
    if pairs.len() == 0 {
        o
    } else {
        let k = pairs.len() - 1;
        resolved_pair(
            proxies,
            pairs.last(),
            draw_at(draws, 2 * k),
            draw_at(draws, 2 * k + 1),
            immortal,
            resolved_all(proxies, pairs.drop_last(), draws, immortal, o),
        )
    }
}

/// Whether the circle with handle `i` graduates: it is a deferred asteroid
/// and was in no contact of siblings.
pub open spec fn graduates(proxies: Seq<Proxy>, siblings: Seq<bool>, i: int) -> bool {
    &&& 0 <= i < proxies.len()
    &&& proxies[i].collider is DeferredAsteroid
    &&& !(i < siblings.len() && siblings[i])
}

/// The changes that turn every graduating asteroid among `proxies` into a
/// plain one, in the order of the handles.
pub open spec fn graduations(proxies: Seq<Proxy>, siblings: Seq<bool>) -> Seq<Command>
    decreases proxies.len(),
{
    if proxies.len() == 0 {
        Seq::empty()
    } else {
        let before = graduations(proxies.drop_last(), siblings);
        if graduates(proxies, siblings, proxies.len() - 1) {
            before.push(Command::SetCollider(proxies.last().entity, Collider::Asteroid))
        } else {
            before
        }
    }
}

/// The circle that stands for the entity in slot `i`, if one lives there
/// that has a place, a kind and a bounding volume.
pub open spec fn proxy_of(rows: Seq<Row>, i: int) -> Option<Proxy> {
    let row = rows[i];
    if row.alive && row.components.transform is Some && row.components.collider is Some
        && row.components.bounded is Some {
        Some(
            Proxy {
                center: row.components.transform->0.translation,
                radius: row.components.bounded->0.shape.radius,
                collider: row.components.collider->0,
                entity: Entity { index: i as usize, generation: row.generation },
            },
        )
    } else {
        None
    }
}

/// The circles of the broad phase for the entities of `rows`, by slot.
pub open spec fn proxies_of(rows: Seq<Row>) -> Seq<Proxy>
    decreases rows.len(),
{
    if rows.len() == 0 {
        Seq::empty()
    } else {
        let before = proxies_of(rows.drop_last());
        match proxy_of(rows, rows.len() - 1) {
            Some(p) => before.push(p),
            None => before,
        }
    }
}

/// Whether the state after resolving is what the contacts `pairs` among
/// `proxies` lead to from the state before: the player's death, the score
/// and the sounds as the outcome says, nothing else of game and score
/// changed, and the changes of the outcome queued, followed by the
/// graduations.
pub open spec fn resolves(
    proxies: Seq<Proxy>,
    pairs: Seq<(usize, usize)>,
    draws: Seq<ChildDraw>,
    before: (Game, Score, Seq<Cue>, Seq<Command>),
    after: (Game, Score, Seq<Cue>, Seq<Command>),
) -> bool {
    let o = resolved_all(
        proxies,
        pairs,
        draws,
        before.0.modifiers.player_is_immortal,
        Outcome {
            dead: before.0.modifiers.player_is_dead,
            score: before.1.asteroids,
            cues: before.2,
            queue: before.3,
            siblings: Seq::new(proxies.len(), |i: int| false),
        },
    );
    &&& after.0 == Game {
        modifiers: GameModifiers { player_is_dead: o.dead, ..before.0.modifiers },
        ..before.0
    }
    &&& after.1 == Score { asteroids: o.score, ..before.1 }
    &&& after.2 == o.cues
    &&& after.3 == o.queue + graduations(proxies, o.siblings)
}

/// Whether the contact of the circles `pair.0` and `pair.1` leaves
/// children: it is a hit or a merge, and what is destroyed is large enough.
pub open spec fn spec_breeds(proxies: Seq<Proxy>, pair: (usize, usize), immortal: bool) -> bool {
    &&& pair.0 < proxies.len()
    &&& pair.1 < proxies.len()
    &&& match spec_contact(
        proxies[pair.0 as int].collider,
        proxies[pair.1 as int].collider,
        immortal,
    ) {
        Contact::Hit => splits(
            area_of(
                if proxies[pair.0 as int].collider is Asteroid {
                    proxies[pair.0 as int].radius
                } else {
                    proxies[pair.1 as int].radius
                },
            ),
        ),
        Contact::Merge => splits(
            area_of(proxies[pair.0 as int].radius) + area_of(proxies[pair.1 as int].radius),
        ),
        _ => false,
    }
}

fn breeds(proxies: &Vec<Proxy>, pair: (usize, usize), immortal: bool) -> (r: bool)
    ensures
        r == spec_breeds(proxies@, pair, immortal),
{
    if pair.0 >= proxies.len() || pair.1 >= proxies.len() {
        return false;
    }
    let a = proxies[pair.0];
    let b = proxies[pair.1];
    match contact(a.collider, b.collider, immortal) {
        Contact::Hit => match a.collider {
            Collider::Asteroid => area(a.radius) >= 48_000_000_000_000,
            _ => area(b.radius) >= 48_000_000_000_000,
        },
        Contact::Merge => area(a.radius) + area(b.radius) >= 48_000_000_000_000,
        _ => false,
    }
}

/// Handle very simple collisions: every tick the broad phase is built anew
/// from the bounding circles, and each contact that it reports is resolved.
pub struct CollisionSystem;

fn draw_for(draws: &Vec<ChildDraw>, pair: usize, which: u8) -> (draw: ChildDraw)
    requires
        which <= 1,
    ensures
        draw == draw_at(draws@, 2 * pair + which),
{
    let at: u128 = 2 * (pair as u128) + which as u128;
    if at < draws.len() as u128 {
        draws[at as usize]
    } else {
        ChildDraw { turn: 0, speed: 0, spin: 0, sprite: 0 }
    }
}

fn resolve_pair(
    proxies: &Vec<Proxy>,
    pair: (usize, usize),
    first: ChildDraw,
    second: ChildDraw,
    asteroid_resource: &Asteroids,
    world: &mut World,
    game: &mut Game,
    score: &mut Score,
    cues: &mut Vec<Cue>,
    siblings: &mut Vec<bool>,
)
    requires
        old(siblings)@.len() == proxies@.len(),
    ensures
        final(siblings)@.len() == proxies@.len(),
        final(world).rows@ == old(world).rows@,
        ({
            let o = resolved_pair(
                proxies@,
                pair,
                first,
                second,
                old(game).modifiers.player_is_immortal,
                Outcome {
                    dead: old(game).modifiers.player_is_dead,
                    score: old(score).asteroids,
                    cues: old(cues)@,
                    queue: old(world).queue@,
                    siblings: old(siblings)@,
                },
            );
            &&& *final(game) == Game {
                modifiers: GameModifiers { player_is_dead: o.dead, ..old(game).modifiers },
                ..*old(game)
            }
            &&& *final(score) == Score { asteroids: o.score, ..*old(score) }
            &&& final(cues)@ == o.cues
            &&& final(world).queue@ == o.queue
            &&& final(siblings)@ == o.siblings
        }),
{
    if pair.0 >= proxies.len() || pair.1 >= proxies.len() {
        return ;
    }
    let a = proxies[pair.0];
    let b = proxies[pair.1];

    // play the appropriate sound.
    match (a.collider, b.collider) {
        (Collider::Asteroid, _) | (_, Collider::Asteroid) => {
            cues.push(Cue::Collision);
        },
        _ => {},
    }

    // the asteroids that this contact destroys.
    let mut parents = SlotBuffer::new();

    match contact(a.collider, b.collider, game.modifiers.player_is_immortal) {
        Contact::Ignored => {},
        // deferred things are still intersecting.
        Contact::Siblings => {
            siblings.set(pair.0, true);
            siblings.set(pair.1, true);
        },
        // we died!
        Contact::Death => {
            game.modifiers.player_is_dead = true;
        },
        // we get a point!
        Contact::Hit => {
            cues.push(Cue::Explosion);
            if score.asteroids < u32::MAX {
                score.asteroids = score.asteroids + 1;
            }
            match a.collider {
                Collider::Asteroid => parents.push(pair.0),
                _ => parents.push(pair.1),
            }
        },
        Contact::Merge => {
            parents.push(pair.0);
            parents.push(pair.1);
        },
    }

    // an asteroid was destroyed: there is a chance that it splinters!
    if !parents.is_empty() {
        let lead = proxies[parents.get(0)];
        let (center, total) = if parents.len() > 1 {
            let other = proxies[parents.get(1)];
            (
                Vector2::new(
                    midpoint(lead.center.x, other.center.x),
                    midpoint(lead.center.y, other.center.y),
                ),
                area(lead.radius) + area(other.radius),
            )
        } else {
            (lead.center, area(lead.radius))
        };
        spawn_asteroid_cluster(world, asteroid_resource, center, total, first, second);
        world.lazy_delete(a.entity);
        world.lazy_delete(b.entity);
    }
}

impl CollisionSystem {
    /// Resolves the contacts `pairs` among the circles `proxies`, first to
    /// last, with the draws given, and then lets every deferred asteroid
    /// graduate that was in no contact of siblings. Structural changes are
    /// queued, not made.
    pub fn resolve(
        &self,
        proxies: &Vec<Proxy>,
        pairs: &Vec<(usize, usize)>,
        draws: &Vec<ChildDraw>,
        asteroid_resource: &Asteroids,
        world: &mut World,
        game: &mut Game,
        score: &mut Score,
        cues: &mut Vec<Cue>,
    )
        ensures
            final(world).rows@ == old(world).rows@,
            resolves(
                proxies@,
                pairs@,
                draws@,
                (*old(game), *old(score), old(cues)@, old(world).queue@),
                (*final(game), *final(score), final(cues)@, final(world).queue@),
            ),
    {
        let mut siblings: Vec<bool> = Vec::new();
        while siblings.len() < proxies.len()
            invariant
                siblings@.len() <= proxies@.len(),
                forall|i: int| 0 <= i < siblings@.len() ==> !siblings@[i],
            decreases proxies@.len() - siblings@.len(),
        {
            siblings.push(false);
        }
        let ghost immortal = game.modifiers.player_is_immortal;
        let ghost start = Outcome {
            dead: game.modifiers.player_is_dead,
            score: score.asteroids,
            cues: cues@,
            queue: world.queue@,
            siblings: Seq::new(proxies@.len(), |i: int| false),
        };
        assert(siblings@ =~= start.siblings);

        let mut k: usize = 0;
        while k < pairs.len()
            invariant
                k <= pairs@.len(),
                siblings@.len() == proxies@.len(),
                world.rows@ == old(world).rows@,
                ({
                    let o = resolved_all(proxies@, pairs@.take(k as int), draws@, immortal, start);
                    &&& *game == Game {
                        modifiers: GameModifiers { player_is_dead: o.dead, ..old(game).modifiers },
                        ..*old(game)
                    }
                    &&& *score == Score { asteroids: o.score, ..*old(score) }
                    &&& cues@ == o.cues
                    &&& world.queue@ == o.queue
                    &&& siblings@ == o.siblings
                }),
                immortal == old(game).modifiers.player_is_immortal,
            decreases pairs@.len() - k,
        {
            let first = draw_for(draws, k, 0);
            let second = draw_for(draws, k, 1);
            proof {
                assert(pairs@.take(k + 1).drop_last() == pairs@.take(k as int));
                assert(pairs@.take(k + 1).last() == pairs@[k as int]);
            }
            resolve_pair(
                proxies,
                pairs[k],
                first,
                second,
                asteroid_resource,
                world,
                game,
                score,
                cues,
                &mut siblings,
            );
            k = k + 1;
        }
        proof {
            assert(pairs@.take(k as int) == pairs@);
        }
        let ghost o = resolved_all(proxies@, pairs@, draws@, immortal, start);

        // undefer deferred
        let mut i: usize = 0;
        while i < proxies.len()
            invariant
                i <= proxies@.len(),
                siblings@.len() == proxies@.len(),
                siblings@ == o.siblings,
                world.rows@ == old(world).rows@,
                world.queue@ == o.queue + graduations(proxies@.take(i as int), siblings@),
            decreases proxies@.len() - i,
        {
            proof {
                assert(proxies@.take(i + 1).drop_last() == proxies@.take(i as int));
                assert(proxies@.take(i + 1).last() == proxies@[i as int]);
            }
            let ghost before = graduations(proxies@.take(i as int), siblings@);
            match proxies[i].collider {
                Collider::DeferredAsteroid => {
                    if !siblings[i] {
                        world.lazy_set_collider(proxies[i].entity, Collider::Asteroid);
                        assert((o.queue + before).push(
                            Command::SetCollider(proxies@[i as int].entity, Collider::Asteroid),
                        ) =~= o.queue + before.push(
                            Command::SetCollider(proxies@[i as int].entity, Collider::Asteroid),
                        ));
                    }
                },
                _ => {},
            }
            i = i + 1;
        }
        proof {
            assert(proxies@.take(i as int) == proxies@);
        }
    }

    /// The broad phase for the entities of `world`: one circle for each
    /// living entity that has a place, a kind and a bounding volume.
    pub fn broad_phase(&self, world: &World) -> (broad_phase: BroadPhase)
        ensures
            broad_phase.proxies@ == proxies_of(world.rows@),
    {
        let mut broad_phase = BroadPhase::new();
        let mut i: usize = 0;
        while i < world.rows.len()
            invariant
                i <= world.rows@.len(),
                broad_phase.proxies@ == proxies_of(world.rows@.take(i as int)),
            decreases world.rows@.len() - i,
        {
            proof {
                assert(world.rows@.take(i + 1).drop_last() == world.rows@.take(i as int));
            }
            let row = world.rows[i];
            if row.alive {
                match (row.components.transform, row.components.collider, row.components.bounded) {
                    (Some(local), Some(collider), Some(bounding_volume)) => {
                        let e = Entity { index: i, generation: row.generation };
                        let _ = bounding_volume.apply_to_broad_phase(
                            collider,
                            e,
                            &local,
                            &mut broad_phase,
                        );
                    },
                    _ => {},
                }
            }
            i = i + 1;
        }
        proof {
            assert(world.rows@.take(i as int) == world.rows@);
        }
        broad_phase
    }

    /// One tick: finds the contacts among the entities as they are and
    /// resolves them, with draws of its own for the children of splits.
    pub fn run(
        &self,
        world: &mut World,
        game: &mut Game,
        score: &mut Score,
        cues: &mut Vec<Cue>,
        asteroid_resource: &Asteroids,
        rand: &RandomGen,
    )
        ensures
            final(world).rows@ == old(world).rows@,
            exists|pairs: Seq<(usize, usize)>, draws: Seq<ChildDraw>|
                {
                    &&& is_pair_list(proxies_of(old(world).rows@), pairs)
                    &&& draws.len() == 2 * pairs.len()
                    &&& forall|i: int| 0 <= i < draws.len() ==> (#[trigger] draws[i]).in_range()
                    &&& #[trigger] resolves(
                        proxies_of(old(world).rows@),
                        pairs,
                        draws,
                        (*old(game), *old(score), old(cues)@, old(world).queue@),
                        (*final(game), *final(score), final(cues)@, final(world).queue@),
                    )
                },
    {
        let broad_phase = self.broad_phase(world);
        let pairs = broad_phase.intersecting_pairs();

        let mut draws: Vec<ChildDraw> = Vec::new();
        let mut k: usize = 0;
        while k < pairs.len()
            invariant
                k <= pairs@.len(),
                draws@.len() == 2 * k,
                forall|i: int| 0 <= i < draws@.len() ==> (#[trigger] draws@[i]).in_range(),
            decreases pairs@.len() - k,
        {
            // Only a contact that leaves children takes draws.
            if breeds(&broad_phase.proxies, pairs[k], game.modifiers.player_is_immortal) {
                draws.push(
                    ChildDraw {
                        turn: rand.next_f32(),
                        speed: rand.next_f32(),
                        spin: rand.next_f32(),
                        sprite: rand.next_usize(),
                    },
                );
                draws.push(
                    ChildDraw {
                        turn: rand.next_f32(),
                        speed: rand.next_f32(),
                        spin: rand.next_f32(),
                        sprite: rand.next_usize(),
                    },
                );
            } else {
                draws.push(ChildDraw { turn: 0, speed: 0, spin: 0, sprite: 0 });
                draws.push(ChildDraw { turn: 0, speed: 0, spin: 0, sprite: 0 });
            }
            k = k + 1;
        }

        self.resolve(&broad_phase.proxies, &pairs, &draws, asteroid_resource, world, game, score, cues);
    }
}

/// The radius of each of the two children of an asteroid of the given area.
pub open spec fn child_radius(area: int) -> i64 {
    Asteroids::radius_for(child_scale(area))
}

proof fn lemma_root_of_large(n: int, r: int)
    by (nonlinear_arith)
    requires
        is_floor_sqrt(n, r),
        n >= 24_000_000_000_000,
    ensures
        r >= 4_000_000,
{
    if r < 4_000_000 {
        assert((r + 1) * (r + 1) <= 4_000_000 * 4_000_000);
    }
}

/// A destroyed asteroid of at least three times the smallest area leaves
/// exactly two children, both deferred, each no smaller than the smallest
/// asteroid, and together of no more area than it had. A smaller one leaves
/// nothing.
pub proof fn lemma_split_conserves_area(
    center: Vector2,
    area: int,
    first: ChildDraw,
    second: ChildDraw,
)
    requires
        0 <= area,
    ensures
        !splits(area) ==> cluster(center, area, first, second).len() == 0,
        splits(area) ==> {
            let made = cluster(center, area, first, second);
            &&& made.len() == 2
            &&& forall|i: int|
                0 <= i < 2 ==> {
                    &&& #[trigger] made[i] is Create
                    &&& made[i]->Create_0.collider == Some(Collider::DeferredAsteroid)
                    &&& made[i]->Create_0.bounded == Some(
                        Bounded { shape: Ball { radius: child_radius(area) } },
                    )
                }
            &&& MIN_RADIUS <= child_radius(area)
            &&& 2 * area_of(child_radius(area)) <= area
        },
{
    if splits(area) {
        let root = spec_isqrt(area / 2);
        lemma_isqrt_is_root(area / 2);
        let half = half_radius(area);
        lemma_root_of_large(area / 2, root);
        let scale = child_scale(area);
        let radius = child_radius(area);
        assert(scale == half / 4);
        assert(radius == 4 * scale);
        lemma_square_monotone(radius as int, half);
        lemma_square_monotone(half, root);
    }
}

/// A contact that a deferred asteroid is part of destroys nothing, kills
/// nobody and scores nothing.
pub proof fn lemma_deferred_is_spared(
    proxies: Seq<Proxy>,
    pair: (usize, usize),
    first: ChildDraw,
    second: ChildDraw,
    immortal: bool,
    o: Outcome,
)
    requires
        pair.0 < proxies.len(),
        pair.1 < proxies.len(),
        proxies[pair.0 as int].collider is DeferredAsteroid
            || proxies[pair.1 as int].collider is DeferredAsteroid,
    ensures
        resolved_pair(proxies, pair, first, second, immortal, o).queue == o.queue,
        resolved_pair(proxies, pair, first, second, immortal, o).dead == o.dead,
        resolved_pair(proxies, pair, first, second, immortal, o).score == o.score,
{
}

/// Whether the pair is a contact of two deferred asteroids of which the
/// circle `handle` is one.
pub open spec fn is_sibling_contact(proxies: Seq<Proxy>, pair: (usize, usize), handle: int) -> bool {
    &&& pair.0 < proxies.len()
    &&& pair.1 < proxies.len()
    &&& proxies[pair.0 as int].collider is DeferredAsteroid
    &&& proxies[pair.1 as int].collider is DeferredAsteroid
    &&& (pair.0 == handle || pair.1 == handle)
}

/// A circle is noted as a sibling exactly if it was noted before or one of
/// the contacts is a contact of siblings that it is part of.
pub proof fn lemma_siblings_noted(
    proxies: Seq<Proxy>,
    pairs: Seq<(usize, usize)>,
    draws: Seq<ChildDraw>,
    immortal: bool,
    o: Outcome,
    handle: int,
)
    requires
        o.siblings.len() == proxies.len(),
        0 <= handle < proxies.len(),
    ensures
        resolved_all(proxies, pairs, draws, immortal, o).siblings.len() == proxies.len(),
        resolved_all(proxies, pairs, draws, immortal, o).siblings[handle] <==> (o.siblings[handle]
            || exists|k: int|
            0 <= k < pairs.len() && is_sibling_contact(proxies, #[trigger] pairs[k], handle)),
    decreases pairs.len(),
{
    if pairs.len() > 0 {
        let rest = pairs.drop_last();
        lemma_siblings_noted(proxies, rest, draws, immortal, o, handle);
        let before = resolved_all(proxies, rest, draws, immortal, o);
        let after = resolved_all(proxies, pairs, draws, immortal, o);
        if after.siblings[handle] {
            if before.siblings[handle] {
                if !o.siblings[handle] {
                    let k = choose|k: int|
                        0 <= k < rest.len() && is_sibling_contact(
                            proxies,
                            #[trigger] rest[k],
                            handle,
                        );
                    assert(pairs[k] == rest[k]);
                }
            } else {
                assert(is_sibling_contact(proxies, pairs[pairs.len() - 1], handle));
            }
        } else {
            assert forall|k: int| 0 <= k < pairs.len() implies !is_sibling_contact(
                proxies,
                #[trigger] pairs[k],
                handle,
            ) by {
                if k < rest.len() {
                    assert(pairs[k] == rest[k]);
                }
            }
        }
    }
}

/// The graduations name exactly the circles that graduate.
pub proof fn lemma_graduations(proxies: Seq<Proxy>, siblings: Seq<bool>, command: Command)
    ensures
        graduations(proxies, siblings).contains(command) <==> exists|i: int|
            #[trigger] graduates(proxies, siblings, i) && command == Command::SetCollider(
                proxies[i].entity,
                Collider::Asteroid,
            ),
    decreases proxies.len(),
{
    if proxies.len() > 0 {
        let rest = proxies.drop_last();
        let last = proxies.len() - 1;
        lemma_graduations(rest, siblings, command);
        let before = graduations(rest, siblings);
        let all = graduations(proxies, siblings);
        let set_last = Command::SetCollider(proxies[last].entity, Collider::Asteroid);
        if all.contains(command) {
            let at = choose|at: int| 0 <= at < all.len() && all[at] == command;
            if graduates(proxies, siblings, last) && at == before.len() {
                assert(command == set_last);
            } else {
                assert(before[at] == command);
                assert(before.contains(command));
                let i = choose|i: int|
                    #[trigger] graduates(rest, siblings, i) && command == Command::SetCollider(
                        rest[i].entity,
                        Collider::Asteroid,
                    );
                assert(graduates(proxies, siblings, i));
            }
        }
        if exists|i: int|
            #[trigger] graduates(proxies, siblings, i) && command == Command::SetCollider(
                proxies[i].entity,
                Collider::Asteroid,
            ) {
            let i = choose|i: int|
                #[trigger] graduates(proxies, siblings, i) && command == Command::SetCollider(
                    proxies[i].entity,
                    Collider::Asteroid,
                );
            if i == last {
                assert(all[before.len() as int] == command);
            } else {
                assert(graduates(rest, siblings, i));
                assert(before.contains(command));
                let at = choose|at: int| 0 <= at < before.len() && before[at] == command;
                assert(all[at] == command);
            }
        }
    } else {
        assert(!graduations(proxies, siblings).contains(command));
    }
}

/// The grace of siblings: a deferred asteroid graduates in the tick in
/// which it touches no other deferred asteroid, and in no other. Whatever
/// it touches meanwhile, see `lemma_deferred_is_spared`.
pub proof fn lemma_grace_period(
    proxies: Seq<Proxy>,
    pairs: Seq<(usize, usize)>,
    draws: Seq<ChildDraw>,
    immortal: bool,
    o: Outcome,
    handle: int,
)
    requires
        o.siblings == Seq::new(proxies.len(), |i: int| false),
        0 <= handle < proxies.len(),
        proxies[handle].collider is DeferredAsteroid,
    ensures
        graduates(proxies, resolved_all(proxies, pairs, draws, immortal, o).siblings, handle)
            <==> !exists|k: int|
            0 <= k < pairs.len() && is_sibling_contact(proxies, #[trigger] pairs[k], handle),
        graduates(proxies, resolved_all(proxies, pairs, draws, immortal, o).siblings, handle)
            ==> graduations(
            proxies,
            resolved_all(proxies, pairs, draws, immortal, o).siblings,
        ).contains(Command::SetCollider(proxies[handle].entity, Collider::Asteroid)),
{
    lemma_siblings_noted(proxies, pairs, draws, immortal, o, handle);
    let siblings = resolved_all(proxies, pairs, draws, immortal, o).siblings;
    lemma_graduations(
        proxies,
        siblings,
        Command::SetCollider(proxies[handle].entity, Collider::Asteroid),
    );
}

/// While the player is immortal, no contact kills: whatever touches what,
/// the player is dead afterwards only if dead before.
pub proof fn lemma_immortal_survives(
    proxies: Seq<Proxy>,
    pairs: Seq<(usize, usize)>,
    draws: Seq<ChildDraw>,
    o: Outcome,
)
    ensures
        resolved_all(proxies, pairs, draws, true, o).dead == o.dead,
    decreases pairs.len(),
{
    if pairs.len() > 0 {
        lemma_immortal_survives(proxies, pairs.drop_last(), draws, o);
    }
}

/// The asteroid of a hit: the member of the pair that is one, the first if
/// both are.
pub open spec fn rock(proxies: Seq<Proxy>, pair: (usize, usize)) -> Proxy {
    if proxies[pair.0 as int].collider is Asteroid {
        proxies[pair.0 as int]
    } else {
        proxies[pair.1 as int]
    }
}

/// A bullet that hits an asteroid scores one, unless the score is at the
/// top already, and kills nobody. It leaves behind the cluster of the
/// asteroid, which is empty for a small one, and the deletion of both.
pub proof fn lemma_hit_leaves_cluster(
    proxies: Seq<Proxy>,
    pair: (usize, usize),
    first: ChildDraw,
    second: ChildDraw,
    immortal: bool,
    o: Outcome,
)
    requires
        pair.0 < proxies.len(),
        pair.1 < proxies.len(),
        spec_contact(proxies[pair.0 as int].collider, proxies[pair.1 as int].collider, immortal)
            == Contact::Hit,
    ensures
        resolved_pair(proxies, pair, first, second, immortal, o).score == bumped(o.score),
        o.score < u32::MAX ==> resolved_pair(proxies, pair, first, second, immortal, o).score
            == o.score + 1,
        resolved_pair(proxies, pair, first, second, immortal, o).dead == o.dead,
        resolved_pair(proxies, pair, first, second, immortal, o).queue == o.queue + cluster(
            rock(proxies, pair).center,
            area_of(rock(proxies, pair).radius),
            first,
            second,
        ) + seq![
            Command::Delete(proxies[pair.0 as int].entity),
            Command::Delete(proxies[pair.1 as int].entity),
        ],
        !splits(area_of(rock(proxies, pair).radius)) ==> resolved_pair(
            proxies,
            pair,
            first,
            second,
            immortal,
            o,
        ).queue == o.queue + seq![
            Command::Delete(proxies[pair.0 as int].entity),
            Command::Delete(proxies[pair.1 as int].entity),
        ],
{
    let made = cluster(
        rock(proxies, pair).center,
        area_of(rock(proxies, pair).radius),
        first,
        second,
    );
    let a = Command::Delete(proxies[pair.0 as int].entity);
    let b = Command::Delete(proxies[pair.1 as int].entity);
    assert((o.queue + made).push(a).push(b) =~= o.queue + made + seq![a, b]);
    if !splits(area_of(rock(proxies, pair).radius)) {
        assert(o.queue + made + seq![a, b] =~= o.queue + seq![a, b]);
    }
}

/// Whether the contact of the circles `pair.0` and `pair.1` destroys the
/// entity `e`: it is a hit or a merge, and `e` is one of the two.
pub open spec fn destroys(proxies: Seq<Proxy>, pair: (usize, usize), immortal: bool, e: Entity) -> bool {
    &&& pair.0 < proxies.len()
    &&& pair.1 < proxies.len()
    &&& (spec_contact(proxies[pair.0 as int].collider, proxies[pair.1 as int].collider, immortal)
        == Contact::Hit || spec_contact(
        proxies[pair.0 as int].collider,
        proxies[pair.1 as int].collider,
        immortal,
    ) == Contact::Merge)
    &&& (e == proxies[pair.0 as int].entity || e == proxies[pair.1 as int].entity)
}

/// Resolving contacts only adds to the queue, and adds nothing but the
/// children of clusters and deletions. Every deletion that it adds is that
/// of a member of a hit or of a merge.
pub proof fn lemma_only_hits_and_merges_delete(
    proxies: Seq<Proxy>,
    pairs: Seq<(usize, usize)>,
    draws: Seq<ChildDraw>,
    immortal: bool,
    o: Outcome,
)
    ensures
        o.queue.len() <= resolved_all(proxies, pairs, draws, immortal, o).queue.len(),
        forall|i: int|
            0 <= i < o.queue.len() ==> #[trigger] resolved_all(
                proxies,
                pairs,
                draws,
                immortal,
                o,
            ).queue[i] == o.queue[i],
        forall|i: int|
            o.queue.len() <= i < resolved_all(proxies, pairs, draws, immortal, o).queue.len() ==> {
                let command = #[trigger] resolved_all(proxies, pairs, draws, immortal, o).queue[i];
                &&& !(command is SetCollider)
                &&& command is Delete ==> exists|k: int|
                    0 <= k < pairs.len() && destroys(
                        proxies,
                        #[trigger] pairs[k],
                        immortal,
                        command->Delete_0,
                    )
            },
    decreases pairs.len(),
{
    if pairs.len() > 0 {
        let rest = pairs.drop_last();
        let last = pairs.len() - 1;
        lemma_only_hits_and_merges_delete(proxies, rest, draws, immortal, o);
        let before = resolved_all(proxies, rest, draws, immortal, o);
        let after = resolved_all(proxies, pairs, draws, immortal, o);
        let pair = pairs[last];
        assert(after == resolved_pair(
            proxies,
            pair,
            draw_at(draws, 2 * last),
            draw_at(draws, 2 * last + 1),
            immortal,
            before,
        ));
        assert(before.queue.len() <= after.queue.len());
        assert forall|i: int| 0 <= i < before.queue.len() implies after.queue[i]
            == before.queue[i] by {}
        assert forall|i: int| o.queue.len() <= i < after.queue.len() implies {
            let command = #[trigger] after.queue[i];
            &&& !(command is SetCollider)
            &&& command is Delete ==> exists|k: int|
                0 <= k < pairs.len() && destroys(
                    proxies,
                    #[trigger] pairs[k],
                    immortal,
                    command->Delete_0,
                )
        } by {
            let command = after.queue[i];
            if i < before.queue.len() {
                assert(command == before.queue[i]);
                if command is Delete {
                    let k = choose|k: int|
                        0 <= k < rest.len() && destroys(
                            proxies,
                            #[trigger] rest[k],
                            immortal,
                            command->Delete_0,
                        );
                    assert(pairs[k] == rest[k]);
                }
            } else {
                // The contact added to the queue: it is a hit or a merge.
                if command is Delete {
                    assert(destroys(proxies, pairs[last], immortal, command->Delete_0));
                }
            }
        }
    }
}

/// An entity that is neither a bullet nor an asteroid in the broad phase,
/// such as the ship or a deferred asteroid, is never deleted by resolving
/// contacts.
pub proof fn lemma_others_are_never_deleted(
    proxies: Seq<Proxy>,
    pairs: Seq<(usize, usize)>,
    draws: Seq<ChildDraw>,
    immortal: bool,
    o: Outcome,
    e: Entity,
)
    requires
        forall|h: int|
            0 <= h < proxies.len() && (#[trigger] proxies[h]).entity == e ==> !(
            proxies[h].collider is Bullet || proxies[h].collider is Asteroid),
    ensures
        forall|i: int|
            o.queue.len() <= i < resolved_all(proxies, pairs, draws, immortal, o).queue.len()
                ==> #[trigger] resolved_all(proxies, pairs, draws, immortal, o).queue[i]
                != Command::Delete(e),
        !graduations(
            proxies,
            resolved_all(proxies, pairs, draws, immortal, o).siblings,
        ).contains(Command::Delete(e)),
{
    lemma_only_hits_and_merges_delete(proxies, pairs, draws, immortal, o);
    let after = resolved_all(proxies, pairs, draws, immortal, o);
    assert forall|i: int| o.queue.len() <= i < after.queue.len() implies #[trigger] after.queue[i]
        != Command::Delete(e) by {
        if after.queue[i] == Command::Delete(e) {
            let k = choose|k: int|
                0 <= k < pairs.len() && destroys(proxies, #[trigger] pairs[k], immortal, e);
            assert(proxies[pairs[k].0 as int].entity == e || proxies[pairs[k].1 as int].entity == e);
        }
    }
    lemma_graduations(proxies, after.siblings, Command::Delete(e));
}

/// The circles of the broad phase stand for living entities, one each, in
/// the order of their slots: so a pair of circles is a pair of two
/// entities, and no two pairs of circles are the same pair of entities.
pub proof fn lemma_proxies_are_distinct(rows: Seq<Row>)
    requires
        rows.len() <= usize::MAX,
    ensures
        forall|i: int|
            0 <= i < proxies_of(rows).len() ==> is_alive(
                rows,
                (#[trigger] proxies_of(rows)[i]).entity,
            ),
        forall|i: int, j: int|
            0 <= i < j < proxies_of(rows).len() ==> (#[trigger] proxies_of(rows)[i]).entity.index
                < (#[trigger] proxies_of(rows)[j]).entity.index,
    decreases rows.len(),
{
    if rows.len() > 0 {
        let rest = rows.drop_last();
        let last = rows.len() - 1;
        lemma_proxies_are_distinct(rest);
        let before = proxies_of(rest);
        let all = proxies_of(rows);
        assert(proxy_of(rows, last) is Some ==> all == before.push(proxy_of(rows, last)->0));
        assert(proxy_of(rows, last) is None ==> all == before);
        assert forall|i: int| 0 <= i < all.len() implies is_alive(
            rows,
            (#[trigger] all[i]).entity,
        ) by {
            if i < before.len() {
                assert(all[i] == before[i]);
                let e = before[i].entity;
                assert(is_alive(rest, e));
                assert(rest[e.index as int] == rows[e.index as int]);
            } else {
                assert(all[i] == proxy_of(rows, last)->0);
            }
        }
        assert forall|i: int, j: int| 0 <= i < j < all.len() implies (#[trigger] all[i]).entity.index
            < (#[trigger] all[j]).entity.index by {
            assert(all[i] == before[i]);
            assert(is_alive(rest, before[i].entity));
            if j < before.len() {
                assert(all[j] == before[j]);
                assert(before[i].entity.index < before[j].entity.index);
            } else {
                assert(all[j] == proxy_of(rows, last)->0);
            }
        }
    } else {
        assert(proxies_of(rows).len() == 0);
    }
}

} // verus!
