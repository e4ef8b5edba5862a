//! The entity store: reusable entity identifiers, the component table that
//! they index, and the queue of structural changes that is applied between
//! the passes of a tick.

use vstd::prelude::*;
use crate::components::{Bounded, Bullet, Collider, ConstrainedObject, Physical, Ship, Transform};

verus! {

/// An entity's identifier: a slot of the store and the generation of that
/// slot for which the identifier was issued.
#[derive(Debug, Clone, Copy, PartialEq, Eq, Hash, Structural)]
pub struct Entity {
    pub index: usize,
    pub generation: u64,
}

/// The components of one entity; an absent component is `None`.
#[derive(Debug, Clone, Copy)]
pub struct Components {
    pub transform: Option<Transform>,
    pub physical: Option<Physical>,
    pub bounded: Option<Bounded>,
    pub collider: Option<Collider>,
    pub ship: Option<Ship>,
    pub bullet: Option<Bullet>,
    pub constrained: Option<ConstrainedObject>,
    /// Which sprite of its sheet the entity is drawn with.
    pub sprite: Option<usize>,
}

impl Components {
    /// No component at all.
    pub open spec fn empty() -> Components {
        Components {
            transform: None,
            physical: None,
            bounded: None,
            collider: None,
            ship: None,
            bullet: None,
            constrained: None,
            sprite: None,
        }
    }

    pub fn new() -> (c: Components)
        ensures
            c == Components::empty(),
    {
        Components {
            transform: None,
            physical: None,
            bounded: None,
            collider: None,
            ship: None,
            bullet: None,
            constrained: None,
            sprite: None,
        }
    }
}

/// One slot of the store.
#[derive(Debug, Clone, Copy)]
pub struct Row {
    /// How many times the slot has been handed out before its current use.
    pub generation: u64,
    /// Whether an entity lives in the slot.
    pub alive: bool,
    pub components: Components,
}

/// A structural change that waits for the next flush.
#[derive(Debug, Clone, Copy)]
pub enum Command {
    /// Create an entity with these components.
    Create(Components),
    /// Delete this entity.
    Delete(Entity),
    /// Give this entity another collider kind.
    SetCollider(Entity, Collider),
}

/// Deleting or changing an entity that is not, or no longer, alive.
#[derive(Debug, Clone, Copy, PartialEq, Eq, Structural)]
pub struct WrongGeneration {
    pub entity: Entity,
}

/// Whether `e` names a living entity of `rows`.
pub open spec fn is_alive(rows: Seq<Row>, e: Entity) -> bool {
    &&& e.index < rows.len()
    &&& rows[e.index as int].alive
    &&& rows[e.index as int].generation == e.generation
}

/// Whether slot `i` can take a new entity: it is empty, and has a
/// generation left that no identifier has used.
pub open spec fn is_free(rows: Seq<Row>, i: int) -> bool {
    0 <= i < rows.len() && !rows[i].alive && rows[i].generation < u64::MAX
}

/// The first free slot from `start` on, or the length of `rows`.
pub open spec fn first_free_from(rows: Seq<Row>, start: int) -> int
    decreases rows.len() - start,
{
    if start < 0 || start >= rows.len() {
        rows.len() as int
    } else if is_free(rows, start) {
        start
    } else {
        first_free_from(rows, start + 1)
    }
}

/// The slot that the next creation takes: the first free one, or a new one
/// at the end.
pub open spec fn first_free(rows: Seq<Row>) -> int {
    first_free_from(rows, 0)
}

/// The identifier that the next creation issues.
pub open spec fn next_entity(rows: Seq<Row>) -> Entity {
    let i = first_free(rows);
    if i < rows.len() {
        Entity { index: i as usize, generation: (rows[i].generation + 1) as u64 }
    } else {
        Entity { index: i as usize, generation: 0 }
    }
}

/// The store after an entity with `components` has been created.
pub open spec fn created(rows: Seq<Row>, components: Components) -> Seq<Row> {
    let e = next_entity(rows);
    let row = Row { generation: e.generation, alive: true, components };
    if e.index < rows.len() {
        rows.update(e.index as int, row)
    } else {
        rows.push(row)
    }
}

/// The store after `e` has been deleted; unchanged if `e` is not alive.
pub open spec fn deleted(rows: Seq<Row>, e: Entity) -> Seq<Row> {
    if is_alive(rows, e) {
        rows.update(
            e.index as int,
            Row { generation: e.generation, alive: false, components: Components::empty() },
        )
    } else {
        rows
    }
}

/// The store after `e` has been given the collider kind `collider`;
/// unchanged if `e` is not alive.
pub open spec fn recollided(rows: Seq<Row>, e: Entity, collider: Collider) -> Seq<Row> {
    if is_alive(rows, e) {
        let row = rows[e.index as int];
        rows.update(
            e.index as int,
            Row { components: Components { collider: Some(collider), ..row.components }, ..row },
        )
    } else {
        rows
    }
}

/// The store after one command.
pub open spec fn applied(rows: Seq<Row>, command: Command) -> Seq<Row> {
    match command {
        Command::Create(components) => created(rows, components),
        Command::Delete(e) => deleted(rows, e),
        Command::SetCollider(e, collider) => recollided(rows, e, collider),
    }
}

/// Whether a command names an entity that is not alive, and so does nothing.
pub open spec fn is_rejected(rows: Seq<Row>, command: Command) -> bool {
    match command {
        Command::Create(_) => false,
        Command::Delete(e) => !is_alive(rows, e),
        Command::SetCollider(e, _) => !is_alive(rows, e),
    }
}

/// The store after all of `commands`, first to last.
pub open spec fn applied_all(rows: Seq<Row>, commands: Seq<Command>) -> Seq<Row>
    decreases commands.len(),
{
    if commands.len() == 0 {
        rows
    } else {
        applied(applied_all(rows, commands.drop_last()), commands.last())
    }
}

/// How many of `commands`, applied first to last, do nothing because the
/// entity they name is not alive when their turn comes.
pub open spec fn rejected_all(rows: Seq<Row>, commands: Seq<Command>) -> nat
    decreases commands.len(),
{
    if commands.len() == 0 {
        0
    } else {
        let before = rejected_all(rows, commands.drop_last());
        if is_rejected(applied_all(rows, commands.drop_last()), commands.last()) {
            before + 1
        } else {
            before
        }
    }
}

/// The first free slot is free, and no slot before it is.
pub proof fn lemma_first_free(rows: Seq<Row>, start: int)
    requires
        0 <= start <= rows.len(),
    ensures
        start <= first_free_from(rows, start) <= rows.len(),
        first_free_from(rows, start) < rows.len() ==> is_free(rows, first_free_from(rows, start)),
        forall|j: int| start <= j < first_free_from(rows, start) ==> !is_free(rows, j),
    decreases rows.len() - start,
{
    if start < rows.len() && !is_free(rows, start) {
        lemma_first_free(rows, start + 1);
    }
}

/// The entity store together with its queue of pending changes.
pub struct World {
    /// The slots, indexed by `Entity::index`.
    pub rows: Vec<Row>,
    /// The changes that the next flush applies, in order.
    pub queue: Vec<Command>,
}

impl World {
    pub fn new() -> (w: World)
        ensures
            w.rows@ == Seq::<Row>::empty(),
            w.queue@ == Seq::<Command>::empty(),
    {
        World { rows: Vec::new(), queue: Vec::new() }
    }

    /// Whether `e` names a living entity.
    pub fn is_alive(&self, e: Entity) -> (r: bool)
        ensures
            r == is_alive(self.rows@, e),
    {
        e.index < self.rows.len() && self.rows[e.index].alive && self.rows[e.index].generation
            == e.generation
    }

    /// The identifier of the entity in slot `index`, if one lives there.
    pub fn entity_at(&self, index: usize) -> (r: Option<Entity>)
        ensures
            r == if index < self.rows.len() && self.rows@[index as int].alive {
                Some(Entity { index, generation: self.rows@[index as int].generation })
            } else {
                None
            },
    {
        if index < self.rows.len() && self.rows[index].alive {
            Some(Entity { index, generation: self.rows[index].generation })
        } else {
            None
        }
    }

    /// The components of `e`, if it is alive.
    pub fn get(&self, e: Entity) -> (r: Option<Components>)
        ensures
            r == if is_alive(self.rows@, e) {
                Some(self.rows@[e.index as int].components)
            } else {
                None
            },
    {
        if self.is_alive(e) {
            Some(self.rows[e.index].components)
        } else {
            None
        }
    }

    /// Creates an entity at once, in the first free slot.
    pub fn create(&mut self, components: Components) -> (e: Entity)
        ensures
            e == next_entity(old(self).rows@),
            final(self).rows@ == created(old(self).rows@, components),
            final(self).queue@ == old(self).queue@,
            !is_alive(old(self).rows@, e),
            is_alive(final(self).rows@, e),
    {
        let mut i: usize = 0;
        while i < self.rows.len() && !(!self.rows[i].alive && self.rows[i].generation < u64::MAX)
            invariant
                i <= self.rows.len(),
                *self == *old(self),
                first_free_from(self.rows@, i as int) == first_free(self.rows@),
            decreases self.rows.len() - i,
        {
            i = i + 1;
        }
        if i < self.rows.len() {
            let generation = self.rows[i].generation + 1;
            self.rows.set(i, Row { generation, alive: true, components });
            Entity { index: i, generation }
        } else {
            self.rows.push(Row { generation: 0, alive: true, components });
            Entity { index: i, generation: 0 }
        }
    }

    /// Deletes `e` at once. Fails, and changes nothing, if `e` is not alive.
    pub fn delete(&mut self, e: Entity) -> (r: Result<(), WrongGeneration>)
        ensures
            final(self).rows@ == deleted(old(self).rows@, e),
            final(self).queue@ == old(self).queue@,
            r is Ok <==> is_alive(old(self).rows@, e),
            r is Err ==> r->Err_0.entity == e,
            !is_alive(final(self).rows@, e),
    {
        if self.is_alive(e) {
            self.rows.set(
                e.index,
                Row { generation: e.generation, alive: false, components: Components::new() },
            );
            Ok(())
        } else {
            Err(WrongGeneration { entity: e })
        }
    }

    /// Gives `e` another collider kind at once. Fails, and changes nothing,
    /// if `e` is not alive.
    pub fn set_collider(&mut self, e: Entity, collider: Collider) -> (r: Result<
        (),
        WrongGeneration,
    >)
        ensures
            final(self).rows@ == recollided(old(self).rows@, e, collider),
            final(self).queue@ == old(self).queue@,
            r is Ok <==> is_alive(old(self).rows@, e),
            r is Err ==> r->Err_0.entity == e,
    {
        if self.is_alive(e) {
            let row = self.rows[e.index];
            let components = Components { collider: Some(collider), ..row.components };
            self.rows.set(e.index, Row { components, ..row });
            Ok(())
        } else {
            Err(WrongGeneration { entity: e })
        }
    }

    /// Asks for an entity with `components` to be created at the next flush.
    pub fn lazy_create(&mut self, components: Components)
        ensures
            final(self).rows@ == old(self).rows@,
            final(self).queue@ == old(self).queue@.push(Command::Create(components)),
    {
        self.queue.push(Command::Create(components));
    }

    /// Asks for `e` to be deleted at the next flush.
    pub fn lazy_delete(&mut self, e: Entity)
        ensures
            final(self).rows@ == old(self).rows@,
            final(self).queue@ == old(self).queue@.push(Command::Delete(e)),
    {
        self.queue.push(Command::Delete(e));
    }

    /// Asks for `e` to be given the collider kind `collider` at the next flush.
    pub fn lazy_set_collider(&mut self, e: Entity, collider: Collider)
        ensures
            final(self).rows@ == old(self).rows@,
            final(self).queue@ == old(self).queue@.push(Command::SetCollider(e, collider)),
    {
        self.queue.push(Command::SetCollider(e, collider));
    }

    /// Applies the queued changes in the order in which they were asked for
    /// and empties the queue. A change to an entity that is no longer alive,
    /// such as a second deletion of one entity, is skipped; the result
    /// counts those.
    pub fn maintain(&mut self) -> (skipped: usize)
        ensures
            final(self).rows@ == applied_all(old(self).rows@, old(self).queue@),
            final(self).queue@ == Seq::<Command>::empty(),
            skipped == rejected_all(old(self).rows@, old(self).queue@),
    {
        let mut skipped: usize = 0;
        let mut i: usize = 0;
        while i < self.queue.len()
            invariant
                i <= self.queue.len(),
                self.queue@ == old(self).queue@,
                self.rows@ == applied_all(old(self).rows@, self.queue@.take(i as int)),
                skipped == rejected_all(old(self).rows@, self.queue@.take(i as int)),
                skipped <= i,
            decreases self.queue.len() - i,
        {
            let command = self.queue[i];
            proof {
                assert(self.queue@.take(i + 1).drop_last() == self.queue@.take(i as int));
                assert(self.queue@.take(i + 1).last() == command);
            }
            match command {
                Command::Create(components) => {
                    self.create(components);
                },
                Command::Delete(e) => {
                    if self.delete(e).is_err() {
                        skipped = skipped + 1;
                    }
                },
                Command::SetCollider(e, collider) => {
                    if self.set_collider(e, collider).is_err() {
                        skipped = skipped + 1;
                    }
                },
            }
            i = i + 1;
        }
        proof {
            assert(self.queue@.take(i as int) == self.queue@);
        }
        self.queue.clear();
        skipped
    }

    /// Deletes every entity and forgets every queued change.
    pub fn delete_all(&mut self)
        ensures
            final(self).rows@.len() == old(self).rows@.len(),
            forall|i: int|
                0 <= i < old(self).rows@.len() ==> #[trigger] final(self).rows@[i] == (Row {
                    generation: old(self).rows@[i].generation,
                    alive: false,
                    components: Components::empty(),
                }),
            final(self).queue@ == Seq::<Command>::empty(),
    {
        let mut i: usize = 0;
        while i < self.rows.len()
            invariant
                i <= self.rows.len(),
                self.rows@.len() == old(self).rows@.len(),
                forall|j: int|
                    0 <= j < i ==> #[trigger] self.rows@[j] == (Row {
                        generation: old(self).rows@[j].generation,
                        alive: false,
                        components: Components::empty(),
                    }),
                forall|j: int| i <= j < self.rows@.len() ==> self.rows@[j] == old(self).rows@[j],
            decreases self.rows.len() - i,
        {
            let generation = self.rows[i].generation;
            self.rows.set(i, Row { generation, alive: false, components: Components::new() });
            i = i + 1;
        }
        self.queue.clear();
    }
}

} // verus!
