//! The entity store and its attribute columns.
//!
//! An entity is an identifier without payload. A column maps entities to
//! values of one kind; an entity's record is whatever the columns hold for it.

use crate::label::LabelDataKind;
use std::collections::HashMap;
use vstd::prelude::*;

verus! {

/// An opaque identifier of one record.
#[derive(Copy, Clone, Debug, PartialEq, Eq, Hash, Structural)]
pub struct Entity {
    id: u64,
}

/// The value of one attribute of one record.
#[derive(Debug, PartialEq, Eq)]
pub enum Value {
    Number(i16),
    Text(String),
    Unit,
}

/// What a value is: a text by its characters.
pub enum ValueView {
    Number(i16),
    Text(Seq<char>),
    Unit,
}

impl ValueView {
    /// The kind of column that holds such a value.
    pub open spec fn kind(self) -> LabelDataKind {
        match self {
            ValueView::Number(_) => LabelDataKind::Number,
            ValueView::Text(_) => LabelDataKind::Text,
            ValueView::Unit => LabelDataKind::Unit,
        }
    }
}

impl View for Value {
    type V = ValueView;

    open spec fn view(&self) -> ValueView {
        match self {
            Value::Number(n) => ValueView::Number(*n),
            Value::Text(s) => ValueView::Text(s@),
            Value::Unit => ValueView::Unit,
        }
    }
}

impl Clone for Value {
    fn clone(&self) -> (r: Self)
        ensures
            r@ == self@,
    {
        match self {
            Value::Number(n) => Value::Number(*n),
            Value::Text(s) => Value::Text(s.clone()),
            Value::Unit => Value::Unit,
        }
    }
}

impl Value {
    /// The kind of column that holds this value.
    pub fn kind(&self) -> (r: LabelDataKind)
        ensures
            r == self@.kind(),
    {
        match self {
            Value::Number(_) => LabelDataKind::Number,
            Value::Text(_) => LabelDataKind::Text,
            Value::Unit => LabelDataKind::Unit,
        }
    }
}

/// The store of entities: which identifiers are live, in the order in which
/// they were spawned. An identifier is never issued twice.
pub struct World {
    next_id: u64,
    live: Vec<Entity>,
}

impl World {
    /// The live entities, oldest first.
    pub closed spec fn entities(&self) -> Seq<Entity> {
        self.live@
    }

    /// The identifiers are issued in increasing order and none is live twice.
    pub closed spec fn wf(&self) -> bool {
        &&& forall|i: int, j: int| 0 <= i < j < self.live@.len() ==> self.live@[i].id < self.live@[j].id
        &&& forall|i: int| 0 <= i < self.live@.len() ==> self.live@[i].id < self.next_id
    }

    /// The entity was spawned by this store at some time, and may have been
    /// despawned since.
    pub closed spec fn issued(&self, entity: Entity) -> bool {
        entity.id < self.next_id
    }

    /// How many entities can still be spawned.
    pub closed spec fn spawns_left(&self) -> nat {
        (u64::MAX - self.next_id) as nat
    }

    /// No live entity occurs twice, and every live entity was issued by this
    /// store.
    pub proof fn lemma_entities_distinct(&self)
        requires
            self.wf(),
        ensures
            self.entities().no_duplicates(),
            forall|e: Entity| self.entities().contains(e) ==> self.issued(e),
    {
    }

    /// A store without entities.
    pub fn new() -> (r: World)
        ensures
            r.wf(),
            r.entities() == Seq::<Entity>::empty(),
            r.spawns_left() == u64::MAX,
            forall|e: Entity| !r.issued(e),
    {
        World { next_id: 0, live: Vec::new() }
    }

    /// Whether another entity can be spawned.
    pub fn has_room(&self) -> (r: bool)
        ensures
            r == (self.spawns_left() > 0),
    {
        self.next_id < u64::MAX
    }

    /// Spawns an entity: a new identifier, live from now on and last in order.
    pub fn spawn(&mut self) -> (e: Entity)
        requires
            old(self).wf(),
            old(self).spawns_left() > 0,
        ensures
            final(self).wf(),
            !old(self).issued(e),
            !old(self).entities().contains(e),
            final(self).entities() == old(self).entities().push(e),
            final(self).entities().contains(e),
            final(self).spawns_left() == old(self).spawns_left() - 1,
            forall|o: Entity| final(self).issued(o) == (o == e || old(self).issued(o)),
    {
        let e = Entity { id: self.next_id };
        self.next_id = self.next_id + 1;
        self.live.push(e);
        assert(self.live@.last() == e);
        e
    }

    /// The position of an entity among the live ones.
    pub fn position(&self, entity: Entity) -> (r: Option<usize>)
        requires
            self.wf(),
        ensures
            match r {
                Some(i) => i < self.entities().len() && self.entities()[i as int] == entity
                    && self.entities().index_of(entity) == i,
                None => !self.entities().contains(entity),
            },
    {
        let mut i: usize = 0;
        while i < self.live.len()
            invariant
                self.wf(),
                i <= self.live.len(),
                forall|j: int| 0 <= j < i ==> self.live@[j] != entity,
            decreases self.live.len() - i,
        {
            if self.live[i].id == entity.id {
                proof {
                    assert(self.live@[i as int] == entity);
                    let j = self.live@.index_of(entity);
                    assert(0 <= j < self.live@.len() && self.live@[j] == entity);
                    assert(j == i) by {
                        if j < i {
                            assert(self.live@[j].id < self.live@[i as int].id);
                        } else if i < j {
                            assert(self.live@[i as int].id < self.live@[j].id);
                        }
                    }
                }
                return Some(i);
            }
            i += 1;
        }
        None
    }

    /// Whether an entity is live.
    pub fn is_live(&self, entity: Entity) -> (r: bool)
        requires
            self.wf(),
        ensures
            r == self.entities().contains(entity),
    {
        self.position(entity).is_some()
    }

    /// Despawns an entity: it is live no longer, and the others keep their
    /// order. Despawning one that is not live changes nothing.
    pub fn despawn(&mut self, entity: Entity)
        requires
            old(self).wf(),
        ensures
            final(self).wf(),
            !final(self).entities().contains(entity),
            old(self).entities().contains(entity) ==> final(self).entities() == old(
                self,
            ).entities().remove(old(self).entities().index_of(entity)),
            !old(self).entities().contains(entity) ==> final(self).entities() == old(
                self,
            ).entities(),
            forall|other: Entity|
                other != entity ==> final(self).entities().contains(other) == old(
                    self,
                ).entities().contains(other),
            final(self).spawns_left() == old(self).spawns_left(),
            forall|o: Entity| final(self).issued(o) == old(self).issued(o),
    {
        match self.position(entity) {
            Some(i) => {
                let ghost before = self.live@;
                self.live.remove(i);
                proof {
                    let after = self.live@;
                    assert(after =~= before.remove(i as int));
                    assert forall|k: int| 0 <= k < after.len() implies #[trigger] after[k]
                        == before[if k < i { k } else { k + 1 }] by {}
                    assert(!after.contains(entity)) by {
                        if after.contains(entity) {
                            let k = choose|k: int| 0 <= k < after.len() && after[k] == entity;
                            assert(before[if k < i { k } else { k + 1 }] == entity);
                        }
                    }
                    assert forall|other: Entity| other != entity implies after.contains(other)
                        == before.contains(other) by {
                        if before.contains(other) {
                            let k = choose|k: int| 0 <= k < before.len() && before[k] == other;
                            assert(after[if k < i { k } else { k - 1 }] == other);
                        }
                        if after.contains(other) {
                            let k = choose|k: int| 0 <= k < after.len() && after[k] == other;
                            assert(before[if k < i { k } else { k + 1 }] == other);
                        }
                    }
                }
            },
            None => {},
        }
    }

    /// The live entities, oldest first.
    pub fn live_entities(&self) -> (r: &Vec<Entity>)
        ensures
            r@ == self.entities(),
    {
        &self.live
    }

    /// The number of live entities.
    pub fn count(&self) -> (r: usize)
        ensures
            r == self.entities().len(),
    {
        self.live.len()
    }

    /// The live entity at a position, counted from the oldest.
    pub fn entity_at(&self, row: usize) -> (r: Option<Entity>)
        ensures
            r == (if row < self.entities().len() {
                Some(self.entities()[row as int])
            } else {
                None
            }),
    {
        if row < self.live.len() {
            Some(self.live[row])
        } else {
            None
        }
    }
}

/// A column: a sparse map from entities to values of one kind.
pub struct Column {
    kind: LabelDataKind,
    cells: HashMap<u64, Value>,
}

impl Column {
    /// The kind of value that the column holds.
    pub closed spec fn kind_of(&self) -> LabelDataKind {
        self.kind
    }

    /// What the column holds: for each entity that has the attribute, its
    /// value.
    pub closed spec fn entries(&self) -> Map<Entity, ValueView> {
        Map::new(
            |e: Entity| self.cells@.contains_key(e.id),
            |e: Entity| self.cells@[e.id]@,
        )
    }

    /// Every value in the column is of the column's kind.
    pub closed spec fn wf(&self) -> bool {
        forall|k: u64| #[trigger] self.cells@.contains_key(k) ==> self.cells@[k]@.kind() == self.kind
    }

    /// What holds of every entry of a column.
    pub proof fn lemma_entries_have_kind(&self, entity: Entity)
        requires
            self.wf(),
            self.entries().contains_key(entity),
        ensures
            self.entries()[entity].kind() == self.kind_of(),
    {
    }

    /// An empty column for values of the given kind.
    pub fn new(kind: LabelDataKind) -> (r: Column)
        ensures
            r.wf(),
            r.kind_of() == kind,
            r.entries() == Map::<Entity, ValueView>::empty(),
    {
        let r = Column { kind, cells: HashMap::new() };
        assert(r.entries() =~= Map::<Entity, ValueView>::empty());
        r
    }

    /// The kind of value that the column holds.
    pub fn kind(&self) -> (r: LabelDataKind)
        ensures
            r == self.kind_of(),
    {
        self.kind
    }

    /// Sets the attribute for an entity. The column takes the value over; a
    /// value that the entity had before is dropped.
    pub fn insert(&mut self, entity: Entity, value: Value)
        requires
            old(self).wf(),
            value@.kind() == old(self).kind_of(),
        ensures
            final(self).wf(),
            final(self).kind_of() == old(self).kind_of(),
            final(self).entries() == old(self).entries().insert(entity, value@),
    {
        broadcast use vstd::std_specs::hash::group_hash_axioms;

        self.cells.insert(entity.id, value);
        assert(final(self).entries() =~= old(self).entries().insert(entity, value@));
    }

    /// The value of the attribute for an entity, where it has one.
    pub fn get(&self, entity: Entity) -> (r: Option<&Value>)
        ensures
            match r {
                Some(v) => self.entries().contains_key(entity) && self.entries()[entity] == v@,
                None => !self.entries().contains_key(entity),
            },
    {
        broadcast use vstd::std_specs::hash::group_hash_axioms;

        self.cells.get(&entity.id)
    }

    /// Whether the entity has the attribute.
    pub fn contains(&self, entity: Entity) -> (r: bool)
        ensures
            r == self.entries().contains_key(entity),
    {
        broadcast use vstd::std_specs::hash::group_hash_axioms;

        self.cells.contains_key(&entity.id)
    }

    /// Takes the attribute from an entity, dropping its value. Where the
    /// entity has no such attribute, nothing changes.
    pub fn remove(&mut self, entity: Entity)
        requires
            old(self).wf(),
        ensures
            final(self).wf(),
            final(self).kind_of() == old(self).kind_of(),
            final(self).entries() == old(self).entries().remove(entity),
            !old(self).entries().contains_key(entity) ==> final(self).entries() == old(
                self,
            ).entries(),
    {
        broadcast use vstd::std_specs::hash::group_hash_axioms;

        self.cells.remove(&entity.id);
        assert(final(self).entries() =~= old(self).entries().remove(entity));
        assert(!old(self).entries().contains_key(entity) ==> old(self).entries().remove(entity)
            =~= old(self).entries());
    }
}

} // verus!
