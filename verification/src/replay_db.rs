//! The table of replays: a fixed schema of labels, the entities that are its
//! rows, and one column for each label.

use crate::label::{label_views, position_of, Label, LabelDataKind, LabelView};
use crate::store::{Column, Entity, Value, ValueView, World};
use crate::number::{format_number, text_of_number};
use rand::Rng;
use vstd::prelude::*;
use vstd::string::*;

verus! {

/// The table: the entity store, the schema and one column for each of its
/// labels, in the schema's order.
pub struct ReplayDB {
    pub world: World,
    pub labels: Vec<Label>,
    pub columns: Vec<Column>,
}

/// The schema that every table starts with: a name, a split and a flag.
pub open spec fn default_schema() -> Seq<LabelView> {
    seq![
        LabelView { name: "Name"@, data: LabelDataKind::Text },
        LabelView { name: "800 Split"@, data: LabelDataKind::Number },
        LabelView { name: "PB"@, data: LabelDataKind::Unit },
    ]
}

/// The text that a cell is shown as in the table: a number in decimal, a text
/// as it is, a presence as `X`, and an absent value as nothing.
pub open spec fn cell_text(cell: Option<ValueView>) -> Seq<char> {
    match cell {
        Some(ValueView::Number(n)) => text_of_number(n),
        Some(ValueView::Text(s)) => s,
        Some(ValueView::Unit) => seq!['X'],
        None => Seq::empty(),
    }
}

/// The number of rows that a new table is filled with.
pub const DEMO_ROWS: usize = 10;

/// A text of `n` letters `a`.
pub open spec fn letters(n: nat) -> Seq<char> {
    Seq::new(n, |i: int| 'a')
}

/// Calls `rand::rng()` and `Rng::random_range` on the half-open range from
/// `low` to `high`. The range must not be empty; the result lies in it, and
/// no more is known of it.
#[verifier::external_body]
fn random_length(low: usize, high: usize) -> (r: usize)
    requires
        low < high,
    ensures
        low <= r < high,
{
    rand::rng().random_range(low..high)
}

/// Calls `rand::rng()` and `Rng::random_range` on the closed range from `low`
/// to `high`. The range must not be empty; the result lies in it, and no more
/// is known of it.
#[verifier::external_body]
fn random_split(low: i16, high: i16) -> (r: i16)
    requires
        low <= high,
    ensures
        low <= r <= high,
{
    rand::rng().random_range(low..=high)
}

/// Calls `rand::rng()` and `Rng::random` for a `bool`. Nothing is known of
/// the result.
#[verifier::external_body]
fn random_flag() -> (r: bool) {
    rand::rng().random()
}

/// A text of `n` letters `a`.
pub fn repeated_letter(n: usize) -> (r: String)
    ensures
        r@ == letters(n as nat),
{
    let mut out = String::new();
    let mut i: usize = 0;
    while i < n
        invariant
            i <= n,
            out@ == letters(i as nat),
        decreases n - i,
    {
        proof {
            reveal_strlit("a");
        }
        out.append("a");
        i += 1;
        assert(out@ =~= letters(i as nat));
    }
    assert(out@ =~= letters(n as nat));
    out
}

impl ReplayDB {
    /// The schema: the labels by their views, in order.
    pub open spec fn schema(&self) -> Seq<LabelView> {
        label_views(self.labels@)
    }

    /// The table is consistent: one column of the right kind for each label,
    /// no label twice, and no column holds anything for an entity that is
    /// not live.
    pub open spec fn wf(&self) -> bool {
        &&& self.world.wf()
        &&& self.labels@.len() == self.columns@.len()
        &&& self.schema().no_duplicates()
        &&& forall|i: int|
            0 <= i < self.columns@.len() ==> (#[trigger] self.columns@[i]).wf()
                && self.columns@[i].kind_of() == self.labels@[i].data
        &&& forall|i: int, e: Entity|
            0 <= i < self.columns@.len() && #[trigger] self.columns@[i].entries().contains_key(e)
                ==> self.world.entities().contains(e)
    }

    /// What the column of the label with index `i` holds for an entity.
    pub open spec fn cell(&self, i: int, e: Entity) -> Option<ValueView> {
        if self.columns@[i].entries().contains_key(e) {
            Some(self.columns@[i].entries()[e])
        } else {
            None
        }
    }

    /// The row of an entity: for each index of a label that it has, the
    /// value.
    pub open spec fn row(&self, e: Entity) -> Map<int, ValueView> {
        Map::new(
            |i: int| 0 <= i < self.columns@.len() && self.columns@[i].entries().contains_key(e),
            |i: int| self.columns@[i].entries()[e],
        )
    }

    /// Another table with the same schema, in which every row but that of
    /// `e` is as in this one.
    pub open spec fn same_but_row(&self, other: &ReplayDB, e: Entity) -> bool {
        &&& self.schema() == other.schema()
        &&& self.columns@.len() == other.columns@.len()
        &&& forall|i: int, o: Entity|
            0 <= i < self.columns@.len() && o != e ==> #[trigger] self.cell(i, o) == other.cell(
                i,
                o,
            )
    }

    /// A table with the given schema and no rows.
    pub fn with_labels(labels: Vec<Label>) -> (r: ReplayDB)
        requires
            label_views(labels@).no_duplicates(),
        ensures
            r.wf(),
            r.labels == labels,
            r.world.entities() == Seq::<Entity>::empty(),
            r.world.spawns_left() == u64::MAX,
            forall|i: int, e: Entity| 0 <= i < labels@.len() ==> r.cell(i, e).is_none(),
    {
        let mut columns: Vec<Column> = Vec::new();
        let mut i: usize = 0;
        while i < labels.len()
            invariant
                i <= labels.len(),
                columns@.len() == i,
                forall|j: int|
                    0 <= j < i ==> (#[trigger] columns@[j]).wf() && columns@[j].kind_of()
                        == labels@[j].data && columns@[j].entries() == Map::<
                        Entity,
                        ValueView,
                    >::empty(),
            decreases labels.len() - i,
        {
            columns.push(Column::new(labels[i].data));
            i += 1;
        }
        ReplayDB { world: World::new(), labels, columns }
    }

    /// The labels of the default schema.
    pub fn default_labels() -> (r: Vec<Label>)
        ensures
            label_views(r@) == default_schema(),
            label_views(r@).no_duplicates(),
    {
        let mut labels: Vec<Label> = Vec::new();
        labels.push(Label::new("Name".to_owned(), LabelDataKind::Text));
        labels.push(Label::new("800 Split".to_owned(), LabelDataKind::Number));
        labels.push(Label::new("PB".to_owned(), LabelDataKind::Unit));
        proof {
            reveal_strlit("Name");
            reveal_strlit("800 Split");
            reveal_strlit("PB");
            assert(label_views(labels@) =~= default_schema());
        }
        labels
    }

    /// A table with the default schema and no rows.
    pub fn empty() -> (r: ReplayDB)
        ensures
            r.wf(),
            r.schema() == default_schema(),
            r.world.entities() == Seq::<Entity>::empty(),
            r.world.spawns_left() == u64::MAX,
            forall|i: int, e: Entity| 0 <= i < 3 ==> r.cell(i, e).is_none(),
    {
        ReplayDB::with_labels(ReplayDB::default_labels())
    }

    /// Spawns an entity with an empty row.
    pub fn spawn(&mut self) -> (e: Entity)
        requires
            old(self).wf(),
            old(self).world.spawns_left() > 0,
        ensures
            final(self).wf(),
            final(self).labels == old(self).labels,
            final(self).columns == old(self).columns,
            !old(self).world.issued(e),
            !old(self).world.entities().contains(e),
            final(self).world.entities() == old(self).world.entities().push(e),
            final(self).world.entities().contains(e),
            final(self).world.spawns_left() == old(self).world.spawns_left() - 1,
            final(self).row(e) == Map::<int, ValueView>::empty(),
    {
        let e = self.world.spawn();
        proof {
            assert forall|i: int, o: Entity|
                0 <= i < self.columns@.len() && #[trigger] self.columns@[i].entries().contains_key(
                    o,
                ) implies self.world.entities().contains(o) by {
                assert(old(self).world.entities().contains(o));
                let k = choose|k: int|
                    0 <= k < old(self).world.entities().len() && old(self).world.entities()[k] == o;
                assert(self.world.entities()[k] == o);
            }
            assert(self.row(e) =~= Map::<int, ValueView>::empty());
        }
        e
    }

    /// The index of a label in the schema.
    pub fn label_index(&self, label: &Label) -> (r: Option<usize>)
        ensures
            match r {
                Some(i) => i < self.labels@.len() && self.labels@[i as int]@ == label@ && forall|
                    j: int,
                | 0 <= j < i ==> self.labels@[j]@ != label@,
                None => !self.schema().contains(label@),
            },
            self.schema().contains(label@) ==> r.is_some(),
    {
        let r = position_of(&self.labels, label);
        proof {
            match r {
                Some(i) => {
                    assert(self.schema()[i as int] == label@);
                },
                None => {
                    assert forall|j: int| 0 <= j < self.schema().len() implies self.schema()[j]
                        != label@ by {
                        assert(self.labels@[j]@ != label@);
                    }
                },
            }
        }
        r
    }

    /// What the column of the label with index `i` holds for an entity.
    pub fn get(&self, i: usize, entity: Entity) -> (r: Option<&Value>)
        requires
            i < self.columns@.len(),
        ensures
            match r {
                Some(v) => self.cell(i as int, entity) == Some(v@),
                None => self.cell(i as int, entity).is_none(),
            },
    {
        self.columns[i].get(entity)
    }

    /// The row of an entity as the table shows it: one text for each label of
    /// the schema, in its order, empty where the entity has no value.
    pub fn display_row(&self, entity: Entity) -> (r: Vec<String>)
        ensures
            r@.len() == self.columns@.len(),
            forall|i: int| 0 <= i < r@.len() ==> (#[trigger] r@[i])@ == cell_text(self.cell(i, entity)),
    {
        let mut out: Vec<String> = Vec::new();
        let n: usize = self.columns.len();
        let mut i: usize = 0;
        while i < n
            invariant
                i <= n,
                n == self.columns@.len(),
                out@.len() == i,
                forall|j: int| 0 <= j < i ==> (#[trigger] out@[j])@ == cell_text(self.cell(j, entity)),
            decreases n - i,
        {
            let text = match self.get(i, entity) {
                Some(Value::Number(n)) => format_number(*n),
                Some(Value::Text(s)) => s.clone(),
                Some(Value::Unit) => {
                    proof {
                        reveal_strlit("X");
                        assert("X"@ =~= seq!['X']);
                    }
                    "X".to_owned()
                },
                None => String::new(),
            };
            out.push(text);
            i += 1;
        }
        out
    }

    /// Sets the attribute with index `i` for a live entity.
    pub fn insert(&mut self, i: usize, entity: Entity, value: Value)
        requires
            old(self).wf(),
            i < old(self).columns@.len(),
            old(self).world.entities().contains(entity),
            value@.kind() == old(self).labels@[i as int].data,
        ensures
            final(self).wf(),
            final(self).world == old(self).world,
            final(self).labels == old(self).labels,
            final(self).columns@.len() == old(self).columns@.len(),
            final(self).cell(i as int, entity) == Some(value@),
            forall|j: int, o: Entity|
                0 <= j < old(self).columns@.len() && (j != i || o != entity) ==> final(self).cell(
                    j,
                    o,
                ) == old(self).cell(j, o),
    {
        self.columns[i].insert(entity, value);
        proof {
            assert forall|j: int| 0 <= j < self.columns@.len() && j != i implies self.columns@[j]
                == old(self).columns@[j] by {}
        }
    }

    /// Takes the attribute with index `i` from an entity.
    pub fn remove(&mut self, i: usize, entity: Entity)
        requires
            old(self).wf(),
            i < old(self).columns@.len(),
        ensures
            final(self).wf(),
            final(self).world == old(self).world,
            final(self).labels == old(self).labels,
            final(self).columns@.len() == old(self).columns@.len(),
            final(self).cell(i as int, entity).is_none(),
            forall|j: int, o: Entity|
                0 <= j < old(self).columns@.len() && (j != i || o != entity) ==> final(self).cell(
                    j,
                    o,
                ) == old(self).cell(j, o),
    {
        self.columns[i].remove(entity);
        proof {
            assert forall|j: int| 0 <= j < self.columns@.len() && j != i implies self.columns@[j]
                == old(self).columns@[j] by {}
        }
    }

    /// Clears the row of an entity: takes every attribute from it.
    pub fn clear_row(&mut self, entity: Entity)
        requires
            old(self).wf(),
        ensures
            final(self).wf(),
            final(self).world == old(self).world,
            final(self).labels == old(self).labels,
            final(self).columns@.len() == old(self).columns@.len(),
            final(self).row(entity) == Map::<int, ValueView>::empty(),
            forall|j: int| 0 <= j < old(self).columns@.len() ==> final(self).cell(j, entity).is_none(),
            final(self).same_but_row(old(self), entity),
    {
        let n: usize = self.columns.len();
        let mut i: usize = 0;
        while i < n
            invariant
                i <= n,
                n == self.columns@.len(),
                self.wf(),
                self.world == old(self).world,
                self.labels == old(self).labels,
                self.columns@.len() == old(self).columns@.len(),
                forall|j: int| 0 <= j < i ==> self.cell(j, entity).is_none(),
                forall|j: int, o: Entity|
                    0 <= j < n && o != entity ==> #[trigger] self.cell(j, o) == old(self).cell(j, o),
            decreases n - i,
        {
            self.remove(i, entity);
            i += 1;
        }
        proof {
            assert forall|j: int| 0 <= j < self.columns@.len() implies !self.columns@[j].entries().contains_key(
                entity,
            ) by {
                assert(self.cell(j, entity).is_none());
            }
            assert(self.row(entity) =~= Map::<int, ValueView>::empty());
        }
    }

    /// Despawns an entity: its row is gone from every column, and it is live
    /// no longer. The other rows stay as they are. Despawning an entity that
    /// is not live changes nothing.
    pub fn despawn(&mut self, entity: Entity)
        requires
            old(self).wf(),
        ensures
            final(self).wf(),
            final(self).labels == old(self).labels,
            !final(self).world.entities().contains(entity),
            forall|j: int| 0 <= j < old(self).columns@.len() ==> final(self).cell(j, entity).is_none(),
            final(self).row(entity) == Map::<int, ValueView>::empty(),
            final(self).same_but_row(old(self), entity),
            old(self).world.entities().contains(entity) ==> final(self).world.entities() == old(
                self,
            ).world.entities().remove(old(self).world.entities().index_of(entity)),
            !old(self).world.entities().contains(entity) ==> final(self).world.entities() == old(
                self,
            ).world.entities(),
            final(self).world.spawns_left() == old(self).world.spawns_left(),
            forall|o: Entity| final(self).world.issued(o) == old(self).world.issued(o),
    {
        self.clear_row(entity);
        let ghost cleared = *self;
        self.world.despawn(entity);
        proof {
            assert(self.columns == cleared.columns);
            assert forall|j: int| 0 <= j < self.columns@.len() implies self.cell(j, entity).is_none() by {
                assert(cleared.cell(j, entity).is_none());
            }
            assert forall|j: int, o: Entity|
                0 <= j < self.columns@.len() && #[trigger] self.columns@[j].entries().contains_key(
                    o,
                ) implies self.world.entities().contains(o) by {
                assert(self.cell(j, entity).is_none());
                assert(o != entity);
                assert(cleared.world.entities().contains(o));
            }
            assert forall|j: int, o: Entity| 0 <= j < self.columns@.len() && o != entity implies #[trigger] self.cell(
                j,
                o,
            ) == old(self).cell(j, o) by {
                assert(cleared.cell(j, o) == old(self).cell(j, o));
            }
            assert(self.row(entity) =~= cleared.row(entity));
        }
    }

    /// Adds a row with a name of `name_length` letters, a split, and the flag
    /// where `pb` is set.
    pub fn add_demo_row(&mut self, name_length: usize, split: i16, pb: bool) -> (e: Entity)
        requires
            old(self).wf(),
            old(self).schema() == default_schema(),
            old(self).world.spawns_left() > 0,
        ensures
            final(self).wf(),
            final(self).labels == old(self).labels,
            final(self).world.entities() == old(self).world.entities().push(e),
            final(self).world.spawns_left() == old(self).world.spawns_left() - 1,
            !old(self).world.entities().contains(e),
            final(self).cell(0, e) == Some(ValueView::Text(letters(name_length as nat))),
            final(self).cell(1, e) == Some(ValueView::Number(split)),
            final(self).cell(2, e) == (if pb {
                Some(ValueView::Unit)
            } else {
                None
            }),
            final(self).same_but_row(old(self), e),
    {
        assert(self.schema().len() == 3);
        assert(self.schema()[0].data == LabelDataKind::Text);
        assert(self.schema()[1].data == LabelDataKind::Number);
        assert(self.schema()[2].data == LabelDataKind::Unit);
        let e = self.spawn();
        assert(self.row(e).contains_key(2) == self.columns@[2].entries().contains_key(e));
        self.insert(0, e, Value::Text(repeated_letter(name_length)));
        self.insert(1, e, Value::Number(split));
        if pb {
            self.insert(2, e, Value::Unit);
        }
        e
    }

    /// A table with the default schema and `DEMO_ROWS` rows of made-up data:
    /// each has a name of one to seven letters and a split from -100 to 182,
    /// and some have the flag.
    pub fn new() -> (r: ReplayDB)
        ensures
            r.wf(),
            r.schema() == default_schema(),
            r.world.entities().len() == DEMO_ROWS,
            r.world.spawns_left() == u64::MAX - DEMO_ROWS,
            forall|k: int|
                0 <= k < DEMO_ROWS ==> ReplayDB::is_demo_row(
                    &r,
                    #[trigger] r.world.entities()[k],
                ),
    {
        let mut db = ReplayDB::empty();
        let mut i: usize = 0;
        while i < DEMO_ROWS
            invariant
                i <= DEMO_ROWS,
                db.wf(),
                db.schema() == default_schema(),
                db.world.entities().len() == i,
                db.world.spawns_left() == u64::MAX - i,
                forall|k: int|
                    0 <= k < i ==> ReplayDB::is_demo_row(&db, #[trigger] db.world.entities()[k]),
            decreases DEMO_ROWS - i,
        {
            let ghost before = db;
            let name_length = random_length(1, 8);
            let split = random_split(-100, 182);
            let pb = random_flag();
            let e = db.add_demo_row(name_length, split, pb);
            proof {
                assert forall|k: int| 0 <= k < i + 1 implies ReplayDB::is_demo_row(
                    &db,
                    #[trigger] db.world.entities()[k],
                ) by {
                    if k < i {
                        let o = before.world.entities()[k];
                        assert(before.world.entities().contains(o));
                        assert(ReplayDB::is_demo_row(&before, o));
                        assert(o != e);
                        assert(before.schema().len() == 3);
                        assert(db.columns@.len() == 3);
                        assert(db.cell(0, o) == before.cell(0, o));
                        assert(db.cell(1, o) == before.cell(1, o));
                    }
                }
            }
            i += 1;
        }
        db
    }

    /// The row of an entity is one of made-up data: a name of one to seven
    /// letters `a` and a split from -100 to 182.
    pub open spec fn is_demo_row(&self, e: Entity) -> bool {
        &&& exists|n: nat| 1 <= n < 8 && self.cell(0, e) == Some(ValueView::Text(letters(n)))
        &&& exists|s: i16| -100 <= s <= 182 && self.cell(1, e) == Some(ValueView::Number(s))
    }
}

} // verus!
