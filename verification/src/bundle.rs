//! The systems of the game in the order in which a tick runs them.

use vstd::prelude::*;
use crate::audio::Cue;
use crate::broad_phase::is_pair_list;
use crate::collision::{proxies_of, resolves, ChildDraw, CollisionSystem};
use crate::resources::{Asteroids, Bullets, Game, RandomGen, Score};
use crate::ship_input::{firing_slots, flown, shots, ShipInput, ShipInputSystem};
use crate::spawner::{RandomAsteroidSystem, SpawnDraw};
use crate::states::State;
use crate::systems::{
    advanced, aged, expirations, limited, GlobalInput, GlobalInputSystem, HandleUiSystem,
    KillBulletsSystem, LimitObjectsSystem, PhysicsSystem, UiUpdate,
};
use crate::world::{applied_all, rejected_all, Command, Row, World};

verus! {

/// The systems that run in every state of the game.
#[derive(Debug, Clone, Copy)]
pub struct GlobalBundle {
    pub global_input: GlobalInputSystem,
}

impl GlobalBundle {
    pub fn new() -> (b: GlobalBundle)
        ensures
            b.global_input.immortal == crate::systems::Action::Inactive,
            b.global_input.restart == crate::systems::Action::Inactive,
            b.global_input.pause == crate::systems::Action::Inactive,
    {
        GlobalBundle { global_input: GlobalInputSystem::default() }
    }

    /// Runs the global systems once.
    pub fn run(&mut self, input: &GlobalInput, game: &mut Game)
        ensures
            final(self).global_input.immortal == old(self).global_input.immortal.after(
                input.immortal,
            ),
            final(self).global_input.restart == old(self).global_input.restart.after(input.restart),
            final(self).global_input.pause == old(self).global_input.pause.after(input.pause),
            *final(game) == old(self).global_input.commanded(*input, *old(game)),
    {
        self.global_input.run(input, game);
    }
}

/// The random draws of one tick and the contacts found in it.
pub struct Tick {
    /// The draws of the asteroid that may enter.
    pub spawn: SpawnDraw,
    /// The draws of the bullets, by slot of the ship.
    pub jitters: Seq<i64>,
    /// The contacts, by handle of the broad phase.
    pub pairs: Seq<(usize, usize)>,
    /// The draws of the children of splits, two for each contact.
    pub children: Seq<ChildDraw>,
}

/// The store after the bullets have aged and the queue, with the deletions
/// of those whose time was up, has been applied.
pub open spec fn after_bullets(rows: Seq<Row>, queue: Seq<Command>, dt: i64) -> Seq<Row> {
    applied_all(rows.map_values(|r: Row| aged(r, dt)), queue + expirations(rows, dt))
}

/// The store after the asteroid that was due, if any, has entered.
pub open spec fn after_spawner(
    rows: Seq<Row>,
    spawner: RandomAsteroidSystem,
    dt: i64,
    draw: SpawnDraw,
) -> Seq<Row> {
    applied_all(rows, spawner.queued(Seq::empty(), dt, draw))
}

/// The store after the ships were flown and their bullets created.
pub open spec fn after_ships(rows: Seq<Row>, input: ShipInput, dt: i64, jitters: Seq<i64>) -> Seq<
    Row,
> {
    applied_all(
        rows.map_values(|r: Row| flown(r, input, dt)),
        shots(rows, firing_slots(rows, input), jitters),
    )
}

/// The store after every body has moved and been brought back into the
/// arena.
pub open spec fn after_physics(rows: Seq<Row>, dt: i64) -> Seq<Row> {
    rows.map_values(|r: Row| limited(advanced(r, dt)))
}

/// The store as the collisions of a tick find it.
pub open spec fn before_collisions(
    rows: Seq<Row>,
    queue: Seq<Command>,
    spawner: RandomAsteroidSystem,
    input: ShipInput,
    dt: i64,
    t: Tick,
) -> Seq<Row> {
    after_physics(
        after_ships(
            after_spawner(after_bullets(rows, queue, dt), spawner, dt, t.spawn),
            input,
            dt,
            t.jitters,
        ),
        dt,
    )
}

/// The slots of the ships that fire in a tick.
pub open spec fn shooters(
    rows: Seq<Row>,
    queue: Seq<Command>,
    spawner: RandomAsteroidSystem,
    input: ShipInput,
    dt: i64,
    t: Tick,
) -> Seq<usize> {
    firing_slots(after_spawner(after_bullets(rows, queue, dt), spawner, dt, t.spawn), input)
}

/// The systems of the main state, in the order of a tick: bullets age,
/// asteroids enter, the ship is flown, bodies move, the arena wraps,
/// collisions are resolved and the display is brought up to date. After
/// each system that asks for structural changes, they are made.
#[derive(Debug, Clone, Copy)]
pub struct MainBundle {
    pub random_asteroids: RandomAsteroidSystem,
}

/// What a tick hands back to the host.
#[derive(Debug)]
pub struct Report {
    /// The texts that the display is to show from now on.
    pub display: UiUpdate,
    /// How many queued changes named an entity that was no longer alive
    /// when their turn came, and were skipped; the count stops at the top.
    pub skipped: usize,
}

/// The count `n`, or the greatest count there is if `n` is beyond it.
pub open spec fn capped(n: nat) -> usize {
    if n > usize::MAX {
        usize::MAX
    } else {
        n as usize
    }
}

/// How many changes are skipped when the bullets have aged: of the queue
/// that the tick found, and of the deletions of the bullets whose time was
/// up.
#[verifier::opaque]
pub open spec fn skipped_by_bullets(rows: Seq<Row>, queue: Seq<Command>, dt: i64) -> nat {
    rejected_all(rows.map_values(|r: Row| aged(r, dt)), queue + expirations(rows, dt))
}

/// How many changes are skipped when the asteroid that was due enters.
#[verifier::opaque]
pub open spec fn skipped_by_spawner(
    rows: Seq<Row>,
    spawner: RandomAsteroidSystem,
    dt: i64,
    draw: SpawnDraw,
) -> nat {
    rejected_all(rows, spawner.queued(Seq::empty(), dt, draw))
}

/// How many changes are skipped when the bullets that were fired are
/// created.
#[verifier::opaque]
pub open spec fn skipped_by_ships(
    rows: Seq<Row>,
    input: ShipInput,
    dt: i64,
    jitters: Seq<i64>,
) -> nat {
    rejected_all(
        rows.map_values(|r: Row| flown(r, input, dt)),
        shots(rows, firing_slots(rows, input), jitters),
    )
}

/// How many queued changes a tick skips before it comes to the collisions.
pub open spec fn skipped_before_collisions(
    rows: Seq<Row>,
    queue: Seq<Command>,
    spawner: RandomAsteroidSystem,
    input: ShipInput,
    dt: i64,
    t: Tick,
) -> nat {
    let first = after_bullets(rows, queue, dt);
    let second = after_spawner(first, spawner, dt, t.spawn);
    skipped_by_bullets(rows, queue, dt) + skipped_by_spawner(first, spawner, dt, t.spawn)
        + skipped_by_ships(second, input, dt, t.jitters)
}

/// The sounds after the ships were flown: one more if any of them fired.
pub open spec fn sounded(cues: Seq<Cue>, shooters: Seq<usize>) -> Seq<Cue> {
    if shooters.len() > 0 {
        cues.push(Cue::Pew)
    } else {
        cues
    }
}

/// Whether `pairs` are the contacts among the entities of `met` and the
/// state `after` is what resolving them, with the draws `children`, makes
/// of the state `before`. States are given as game, score, sounds and
/// queue.
#[verifier::opaque]
pub open spec fn collided(
    met: Seq<Row>,
    pairs: Seq<(usize, usize)>,
    children: Seq<ChildDraw>,
    before: (Game, Score, Seq<Cue>, Seq<Command>),
    after: (Game, Score, Seq<Cue>, Seq<Command>),
) -> bool {
    is_pair_list(proxies_of(met), pairs) && resolves(
        proxies_of(met),
        pairs,
        children,
        before,
        after,
    )
}

/// Whether the state after a tick follows from the state before it, with
/// the draws and contacts of `t`, and `skipped` counts the queued changes
/// that the tick skipped. States are given as store, queue, game, score,
/// sounds and asteroid timer.
pub open spec fn ticks(
    before: (Seq<Row>, Seq<Command>, Game, Score, Seq<Cue>, RandomAsteroidSystem),
    after: (Seq<Row>, Seq<Command>, Game, Score, Seq<Cue>, RandomAsteroidSystem),
    input: ShipInput,
    dt: i64,
    t: Tick,
    skipped: usize,
) -> bool {
    let met = before_collisions(before.0, before.1, before.5, input, dt, t);
    let heard = sounded(before.4, shooters(before.0, before.1, before.5, input, dt, t));
    &&& t.spawn.in_range()
    &&& forall|i: int| 0 <= i < t.jitters.len() ==> 0 <= #[trigger] t.jitters[i] < 1_000_000
    &&& forall|i: int| 0 <= i < t.children.len() ==> (#[trigger] t.children[i]).in_range()
    &&& t.children.len() == 2 * t.pairs.len()
    &&& after.5 == before.5.ticked(dt, t.spawn)
    &&& after.1 == Seq::<Command>::empty()
    &&& exists|queue: Seq<Command>, resolved: Score|
        {
            &&& after.0 == applied_all(met, queue)
            &&& #[trigger] collided(
                met,
                t.pairs,
                t.children,
                (before.2, before.3, heard, Seq::<Command>::empty()),
                (after.2, resolved, after.4, queue),
            )
            &&& after.3 == (Score {
                current_modifiers: after.2.modifiers,
                current_asteroids: resolved.asteroids,
                ..resolved
            })
            &&& skipped == capped(
                skipped_before_collisions(before.0, before.1, before.5, input, dt, t)
                    + rejected_all(met, queue),
            )
        }
}

fn add_capped(a: usize, b: usize) -> (r: usize)
    ensures
        r == capped((a + b) as nat),
{
    if a > usize::MAX - b {
        usize::MAX
    } else {
        a + b
    }
}

fn bullets_pass(world: &mut World, dt: i64) -> (skipped: usize)
    ensures
        final(world).rows@ == after_bullets(old(world).rows@, old(world).queue@, dt),
        final(world).queue@ == Seq::<Command>::empty(),
        skipped == skipped_by_bullets(old(world).rows@, old(world).queue@, dt),
{
    KillBulletsSystem.run(world, dt);
    assert(world.rows@ =~= old(world).rows@.map_values(|r: Row| aged(r, dt)));
    proof {
        reveal(skipped_by_bullets);
    }
    world.maintain()
}

fn spawner_pass(
    spawner: &mut RandomAsteroidSystem,
    world: &mut World,
    rand: &RandomGen,
    dt: i64,
) -> (drawn: (usize, Ghost<SpawnDraw>))
    requires
        old(world).queue@ == Seq::<Command>::empty(),
    ensures
        final(world).queue@ == Seq::<Command>::empty(),
        drawn.1@.in_range(),
        *final(spawner) == old(spawner).ticked(dt, drawn.1@),
        final(world).rows@ == after_spawner(old(world).rows@, *old(spawner), dt, drawn.1@),
        drawn.0 == skipped_by_spawner(old(world).rows@, *old(spawner), dt, drawn.1@),
{
    let asteroids = Asteroids;
    spawner.run(world, &asteroids, rand, dt);
    let ghost draw = choose|draw: SpawnDraw|
        draw.in_range() && *spawner == old(spawner).ticked(dt, draw) && world.queue@
            == #[trigger] old(spawner).queued(Seq::<Command>::empty(), dt, draw);
    proof {
        reveal(skipped_by_spawner);
    }
    let skipped = world.maintain();
    (skipped, Ghost(draw))
}

fn ships_pass(
    world: &mut World,
    cues: &mut Vec<Cue>,
    rand: &RandomGen,
    input: &ShipInput,
    dt: i64,
) -> (drawn: (usize, Ghost<Seq<i64>>))
    requires
        old(world).queue@ == Seq::<Command>::empty(),
    ensures
        final(world).queue@ == Seq::<Command>::empty(),
        final(cues)@ == (if firing_slots(old(world).rows@, *input).len() > 0 {
            old(cues)@.push(Cue::Pew)
        } else {
            old(cues)@
        }),
        forall|i: int| 0 <= i < drawn.1@.len() ==> 0 <= #[trigger] drawn.1@[i] < 1_000_000,
        final(world).rows@ == after_ships(old(world).rows@, *input, dt, drawn.1@),
        drawn.0 == skipped_by_ships(old(world).rows@, *input, dt, drawn.1@),
{
    let bullets = Bullets;
    let ghost rows = world.rows@;
    ShipInputSystem.run(world, cues, &bullets, rand, input, dt);
    let ghost jitters = choose|draws: Seq<i64>|
        {
            &&& draws.len() == rows.len()
            &&& forall|i: int| 0 <= i < draws.len() ==> 0 <= #[trigger] draws[i] < 1_000_000
            &&& world.queue@ == Seq::<Command>::empty() + #[trigger] shots(
                rows,
                firing_slots(rows, *input),
                draws,
            )
        };
    assert(world.rows@ =~= rows.map_values(|r: Row| flown(r, *input, dt)));
    assert(Seq::<Command>::empty() + shots(rows, firing_slots(rows, *input), jitters) =~= shots(
        rows,
        firing_slots(rows, *input),
        jitters,
    ));
    proof {
        reveal(skipped_by_ships);
    }
    let skipped = world.maintain();
    (skipped, Ghost(jitters))
}

fn physics_pass(world: &mut World, dt: i64)
    ensures
        final(world).queue@ == old(world).queue@,
        final(world).rows@ == after_physics(old(world).rows@, dt),
{
    PhysicsSystem.run(world, dt);
    LimitObjectsSystem.run(world);
    assert(world.rows@ =~= old(world).rows@.map_values(|r: Row| limited(advanced(r, dt))));
}

fn collisions_pass(
    world: &mut World,
    game: &mut Game,
    score: &mut Score,
    cues: &mut Vec<Cue>,
    rand: &RandomGen,
) -> (done: (usize, Ghost<(Seq<(usize, usize)>, Seq<ChildDraw>, Seq<Command>)>))
    requires
        old(world).queue@ == Seq::<Command>::empty(),
    ensures
        final(world).queue@ == Seq::<Command>::empty(),
        done.1@.1.len() == 2 * done.1@.0.len(),
        forall|i: int| 0 <= i < done.1@.1.len() ==> (#[trigger] done.1@.1[i]).in_range(),
        final(world).rows@ == applied_all(old(world).rows@, done.1@.2),
        done.0 == rejected_all(old(world).rows@, done.1@.2),
        final(score).current_modifiers == old(score).current_modifiers,
        final(score).current_asteroids == old(score).current_asteroids,
        collided(
            old(world).rows@,
            done.1@.0,
            done.1@.1,
            (*old(game), *old(score), old(cues)@, Seq::<Command>::empty()),
            (*final(game), *final(score), final(cues)@, done.1@.2),
        ),
{
    let asteroids = Asteroids;
    CollisionSystem.run(world, game, score, cues, &asteroids, rand);
    let ghost found = choose|pairs: Seq<(usize, usize)>, children: Seq<ChildDraw>|
        {
            &&& is_pair_list(proxies_of(old(world).rows@), pairs)
            &&& children.len() == 2 * pairs.len()
            &&& forall|i: int| 0 <= i < children.len() ==> (#[trigger] children[i]).in_range()
            &&& #[trigger] resolves(
                proxies_of(old(world).rows@),
                pairs,
                children,
                (*old(game), *old(score), old(cues)@, Seq::<Command>::empty()),
                (*game, *score, cues@, world.queue@),
            )
        };
    let ghost queue = world.queue@;
    let skipped = world.maintain();
    proof {
        reveal(collided);
    }
    (skipped, Ghost((found.0, found.1, queue)))
}

/// The passes of a tick, one after the other, make a tick.
proof fn lemma_ticks(
    before: (Seq<Row>, Seq<Command>, Game, Score, Seq<Cue>, RandomAsteroidSystem),
    after: (Seq<Row>, Seq<Command>, Game, Score, Seq<Cue>, RandomAsteroidSystem),
    input: ShipInput,
    dt: i64,
    t: Tick,
    resolved: Score,
    heard: Seq<Cue>,
    queue: Seq<Command>,
    skipped: usize,
)
    requires
        skipped == capped(
            skipped_before_collisions(before.0, before.1, before.5, input, dt, t) + rejected_all(
                before_collisions(before.0, before.1, before.5, input, dt, t),
                queue,
            ),
        ),
        t.spawn.in_range(),
        forall|i: int| 0 <= i < t.jitters.len() ==> 0 <= #[trigger] t.jitters[i] < 1_000_000,
        forall|i: int| 0 <= i < t.children.len() ==> (#[trigger] t.children[i]).in_range(),
        t.children.len() == 2 * t.pairs.len(),
        after.5 == before.5.ticked(dt, t.spawn),
        after.1 == Seq::<Command>::empty(),
        heard == sounded(before.4, shooters(before.0, before.1, before.5, input, dt, t)),
        after.0 == applied_all(
            before_collisions(before.0, before.1, before.5, input, dt, t),
            queue,
        ),
        collided(
            before_collisions(before.0, before.1, before.5, input, dt, t),
            t.pairs,
            t.children,
            (before.2, before.3, heard, Seq::<Command>::empty()),
            (after.2, resolved, after.4, queue),
        ),
        after.3 == (Score {
            current_modifiers: after.2.modifiers,
            current_asteroids: resolved.asteroids,
            ..resolved
        }),
    ensures
        ticks(before, after, input, dt, t, skipped),
{
    let met = before_collisions(before.0, before.1, before.5, input, dt, t);
    assert(exists|queue: Seq<Command>, resolved: Score|
        {
            &&& after.0 == applied_all(met, queue)
            &&& #[trigger] collided(
                met,
                t.pairs,
                t.children,
                (before.2, before.3, heard, Seq::<Command>::empty()),
                (after.2, resolved, after.4, queue),
            )
            &&& after.3 == (Score {
                current_modifiers: after.2.modifiers,
                current_asteroids: resolved.asteroids,
                ..resolved
            })
            &&& skipped == capped(
                skipped_before_collisions(before.0, before.1, before.5, input, dt, t)
                    + rejected_all(met, queue),
            )
        });
}

impl MainBundle {
    pub fn new() -> (b: MainBundle)
        ensures
            b.random_asteroids.time_to_spawn == 2_000_000,
            b.random_asteroids.max_velocity == 100_000_000,
            b.random_asteroids.max_rotation == 15_000_000,
            b.random_asteroids.average_spawn_time == 500_000,
    {
        MainBundle { random_asteroids: RandomAsteroidSystem::new() }
    }

    /// Runs the systems once if the game is in the main state, and does
    /// nothing otherwise. The result says what the display is to show and
    /// how many queued changes found their entity gone.
    pub fn run(
        &mut self,
        state: State,
        world: &mut World,
        game: &mut Game,
        score: &mut Score,
        cues: &mut Vec<Cue>,
        rand: &RandomGen,
        input: &ShipInput,
        dt: i64,
    ) -> (report: Report)
        ensures
            state != State::Main ==> {
                &&& *final(self) == *old(self)
                &&& final(world).rows@ == old(world).rows@
                &&& final(world).queue@ == old(world).queue@
                &&& *final(game) == *old(game)
                &&& *final(score) == *old(score)
                &&& final(cues)@ == old(cues)@
                &&& report.display.score_text is None
                &&& report.display.modifiers_text is None
                &&& report.skipped == 0
            },
            state == State::Main ==> exists|t: Tick|
                #[trigger] ticks(
                    (
                        old(world).rows@,
                        old(world).queue@,
                        *old(game),
                        *old(score),
                        old(cues)@,
                        old(self).random_asteroids,
                    ),
                    (
                        final(world).rows@,
                        final(world).queue@,
                        *final(game),
                        *final(score),
                        final(cues)@,
                        final(self).random_asteroids,
                    ),
                    *input,
                    dt,
                    t,
                    report.skipped,
                ),
            state == State::Main ==> {
                &&& report.display.modifiers_text is Some <==> final(game).modifiers
                    != old(score).current_modifiers
                &&& report.display.modifiers_text is Some ==> report.display.modifiers_text->0@
                    == final(game).modifiers.text()
                &&& report.display.score_text is Some <==> final(score).asteroids
                    != old(score).current_asteroids
                &&& report.display.score_text is Some ==> report.display.score_text->0@
                    == crate::text::decimal(final(score).asteroids as nat)
            },
    {
        if state != State::Main {
            return Report {
                display: UiUpdate { score_text: None, modifiers_text: None },
                skipped: 0,
            };
        }
        let aged_out = bullets_pass(world, dt);
        let (entered, spawn) = spawner_pass(&mut self.random_asteroids, world, rand, dt);
        let (fired, jitters) = ships_pass(world, cues, rand, input, dt);
        let ghost heard = cues@;
        physics_pass(world, dt);
        let (clashed, found) = collisions_pass(world, game, score, cues, rand);
        let ghost resolved = *score;
        let display = HandleUiSystem.run(game, score);
        let skipped = add_capped(add_capped(add_capped(aged_out, entered), fired), clashed);
        let report = Report { display, skipped };
        proof {
            lemma_ticks(
                (
                    old(world).rows@,
                    old(world).queue@,
                    *old(game),
                    *old(score),
                    old(cues)@,
                    old(self).random_asteroids,
                ),
                (world.rows@, world.queue@, *game, *score, cues@, self.random_asteroids),
                *input,
                dt,
                Tick { spawn: spawn@, jitters: jitters@, pairs: found@.0, children: found@.1 },
                resolved,
                heard,
                found@.2,
                report.skipped,
            );
        }
        report
    }
}


} // verus!
