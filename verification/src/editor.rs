//! The edit session: the staged copy of one record's attributes, the focus
//! that moves over it, and the commit that writes it back.

use crate::app::App;
use crate::focus::ReplayInfoEditorFocus;
use crate::input::{input_handle, input_new, input_text, input_text_after, input_value};
use crate::label::{Label, LabelDataKind, LabelView};
use crate::number::{format_number, number_of_text, parse_number, text_of_number};
use crate::replay_db::ReplayDB;
use crate::store::{Entity, Value, ValueView};
use tui_input::{Input, InputRequest};
use vstd::prelude::*;

verus! {

/// A staged field: a label and the text that is being edited for it.
pub struct LabelInput {
    pub label: Label,
    pub data: Input,
}

/// What a staged field is: its label and its text.
pub struct StagedView {
    pub label: LabelView,
    pub text: Seq<char>,
}

impl View for LabelInput {
    type V = StagedView;

    open spec fn view(&self) -> StagedView {
        StagedView { label: self.label@, text: input_text(self.data) }
    }
}

impl LabelInput {
    /// A staged field with the given label and text.
    pub fn new(label: Label, text: String) -> (r: LabelInput)
        ensures
            r@ == (StagedView { label: label@, text: text@ }),
    {
        LabelInput { label, data: input_new(text) }
    }

    /// The text of the field.
    pub fn text(&self) -> (r: String)
        ensures
            r@ == self@.text,
    {
        input_value(&self.data)
    }
}

/// The staged fields of a list, each by its view.
pub open spec fn staged_views(fields: Seq<LabelInput>) -> Seq<StagedView> {
    fields.map_values(|f: LabelInput| f@)
}

/// The labels of staged fields, in their order.
pub open spec fn staged_labels(fields: Seq<StagedView>) -> Seq<LabelView> {
    fields.map_values(|f: StagedView| f.label)
}

/// The labels of a schema that are not staged, in the schema's order.
pub open spec fn addable(schema: Seq<LabelView>, staged: Seq<LabelView>) -> Seq<LabelView> {
    schema.filter(|l: LabelView| !staged.contains(l))
}

/// The value that a text stands for in a column of the given kind: the number
/// that it reads as, the text itself, or the bare presence. A text that is no
/// number stands for nothing in a column of numbers.
pub open spec fn staged_value(kind: LabelDataKind, text: Seq<char>) -> Option<ValueView> {
    match kind {
        LabelDataKind::Number => match number_of_text(text) {
            Some(n) => Some(ValueView::Number(n)),
            None => None,
        },
        LabelDataKind::Text => Some(ValueView::Text(text)),
        LabelDataKind::Unit => Some(ValueView::Unit),
    }
}

/// The text that a stored value is edited as.
pub open spec fn text_of_value(value: ValueView) -> Seq<char> {
    match value {
        ValueView::Number(n) => text_of_number(n),
        ValueView::Text(s) => s,
        ValueView::Unit => Seq::empty(),
    }
}

/// The fields that a session starts with, from the first `upto` labels of the
/// schema: one for each label that the entity has, in the schema's order, with
/// the stored value as its text.
pub open spec fn loaded_fields(db: &ReplayDB, entity: Entity, upto: int) -> Seq<StagedView>
    decreases upto,
{
    if upto <= 0 {
        Seq::empty()
    } else {
        let rest = loaded_fields(db, entity, upto - 1);
        match db.cell(upto - 1, entity) {
            Some(v) => rest.push(
                StagedView { label: db.schema()[upto - 1], text: text_of_value(v) },
            ),
            None => rest,
        }
    }
}

/// For an entity with an empty row no field is loaded.
pub proof fn lemma_nothing_loaded(db: &ReplayDB, entity: Entity, upto: int)
    requires
        upto <= db.columns@.len(),
        db.row(entity) == Map::<int, ValueView>::empty(),
    ensures
        loaded_fields(db, entity, upto) == Seq::<StagedView>::empty(),
    decreases upto,
{
    if upto > 0 {
        lemma_nothing_loaded(db, entity, upto - 1);
        assert(!db.row(entity).contains_key(upto - 1));
    }
}

/// A stored value is loaded as a field of its label, with the value as text.
pub proof fn lemma_stored_is_loaded(db: &ReplayDB, entity: Entity, upto: int, i: int)
    requires
        0 <= i < upto,
        db.cell(i, entity).is_some(),
    ensures
        loaded_fields(db, entity, upto).contains(
            StagedView { label: db.schema()[i], text: text_of_value(db.cell(i, entity).unwrap()) },
        ),
    decreases upto,
{
    let wanted = StagedView {
        label: db.schema()[i],
        text: text_of_value(db.cell(i, entity).unwrap()),
    };
    let all = loaded_fields(db, entity, upto);
    let rest = loaded_fields(db, entity, upto - 1);
    if i == upto - 1 {
        assert(all.last() == wanted);
    } else {
        lemma_stored_is_loaded(db, entity, upto - 1, i);
        let k = choose|k: int| 0 <= k < rest.len() && rest[k] == wanted;
        assert(all[k] == wanted);
    }
}

/// A text that stands for a value stands for the same value again once the
/// value has been turned back into text: a number keeps its value, a text
/// comes back letter for letter, and a presence stays a presence.
pub proof fn lemma_value_round_trip(kind: LabelDataKind, text: Seq<char>)
    requires
        staged_value(kind, text).is_some(),
    ensures
        staged_value(kind, text_of_value(staged_value(kind, text).unwrap())) == staged_value(
            kind,
            text,
        ),
        kind == LabelDataKind::Text ==> text_of_value(staged_value(kind, text).unwrap()) == text,
{
    if kind == LabelDataKind::Number {
        crate::number::lemma_number_round_trip(number_of_text(text).unwrap());
    }
}

/// Staging, committing and loading again gives the same value back: where the
/// row of an entity holds exactly the staged fields, a new session on that
/// entity has, for each of them, a field of the same label whose text stands
/// for the same value, and for a label of texts that text is the same.
pub proof fn lemma_commit_then_reload(
    db: &ReplayDB,
    entity: Entity,
    fields: Seq<StagedView>,
    k: int,
)
    requires
        holds_exactly(db, entity, fields),
        all_valid(fields),
        0 <= k < fields.len(),
        db.schema().contains(fields[k].label),
    ensures
        exists|f: StagedView|
            {
                &&& #[trigger] loaded_fields(db, entity, db.schema().len() as int).contains(f)
                &&& f.label == fields[k].label
                &&& staged_value(f.label.data, f.text) == staged_value(
                    fields[k].label.data,
                    fields[k].text,
                )
                &&& f.label.data == LabelDataKind::Text ==> f.text == fields[k].text
            },
{
    let i = choose|i: int| 0 <= i < db.schema().len() && db.schema()[i] == fields[k].label;
    let kind = fields[k].label.data;
    assert(db.cell(i, entity) == staged_value(kind, fields[k].text));
    lemma_stored_is_loaded(db, entity, db.schema().len() as int, i);
    lemma_value_round_trip(kind, fields[k].text);
    let f = StagedView { label: db.schema()[i], text: text_of_value(db.cell(i, entity).unwrap()) };
    assert(loaded_fields(db, entity, db.schema().len() as int).contains(f));
}

/// Whether a label is among the staged fields.
pub fn is_staged(existing: &Vec<LabelInput>, label: &Label) -> (r: bool)
    ensures
        r == staged_labels(staged_views(existing@)).contains(label@),
{
    let ghost labels = staged_labels(staged_views(existing@));
    let mut i: usize = 0;
    while i < existing.len()
        invariant
            i <= existing.len(),
            labels == staged_labels(staged_views(existing@)),
            forall|j: int| 0 <= j < i ==> labels[j] != label@,
        decreases existing.len() - i,
    {
        if existing[i].label.same(label) {
            assert(labels[i as int] == label@);
            return true;
        }
        i += 1;
    }
    false
}

/// The text that a stored value is edited as.
pub fn value_text(value: &Value) -> (r: String)
    ensures
        r@ == text_of_value(value@),
{
    match value {
        Value::Number(n) => format_number(*n),
        Value::Text(s) => s.clone(),
        Value::Unit => String::new(),
    }
}

/// Every staged text stands for a value of its label's kind.
pub open spec fn all_valid(fields: Seq<StagedView>) -> bool {
    forall|k: int|
        0 <= k < fields.len() ==> staged_value(
            (#[trigger] fields[k]).label.data,
            fields[k].text,
        ).is_some()
}

/// The staged field with index `k` is the first whose text stands for no value
/// of its label's kind.
pub open spec fn first_invalid(fields: Seq<StagedView>, k: int) -> bool {
    &&& 0 <= k < fields.len()
    &&& staged_value(fields[k].label.data, fields[k].text).is_none()
    &&& all_valid(fields.take(k))
}

/// The row of the entity holds the staged fields and nothing else: for each
/// staged label the value that its text stands for, and no value for any other
/// label of the schema.
pub open spec fn holds_exactly(db: &ReplayDB, entity: Entity, fields: Seq<StagedView>) -> bool {
    &&& forall|i: int, k: int|
        #![trigger db.cell(i, entity), fields[k]]
        0 <= i < db.schema().len() && 0 <= k < fields.len() && fields[k].label == db.schema()[i]
            ==> db.cell(i, entity) == staged_value(fields[k].label.data, fields[k].text)
    &&& forall|i: int|
        0 <= i < db.schema().len() && !staged_labels(fields).contains(db.schema()[i]) ==> (
        #[trigger] db.cell(i, entity)).is_none()
}

/// The table `after` is the table `before` with the staged fields committed
/// for the entity: without fields the entity is despawned; with fields its row
/// holds exactly those, and the store of entities is untouched. Every other
/// row is as it was.
pub open spec fn committed(
    before: &ReplayDB,
    after: &ReplayDB,
    entity: Entity,
    fields: Seq<StagedView>,
) -> bool {
    &&& after.labels == before.labels
    &&& after.same_but_row(before, entity)
    &&& if fields.len() == 0 {
        &&& !after.world.entities().contains(entity)
        &&& after.world.entities() == before.world.entities().remove(
            before.world.entities().index_of(entity),
        )
        &&& after.row(entity) == Map::<int, ValueView>::empty()
    } else {
        &&& after.world == before.world
        &&& holds_exactly(after, entity, fields)
    }
}

/// Activating the focused control saves the session: the focus is on the
/// save control and every staged text stands for a value.
pub open spec fn saves(editor: &ReplayInfoEditor) -> bool {
    editor.focus is SaveChanges && all_valid(editor.fields())
}

/// The session `after` is the session `before` with the focused control
/// activated, where that does not save it. On a field the focus moves on; on
/// a delete control the field is removed and the focus moves to what follows
/// it; the add control opens the menu where there is something to add; a menu
/// entry stages its label with an empty text and puts the focus on it; the
/// save control, where a text is refused, marks the first such field.
pub open spec fn activated(
    before: &ReplayInfoEditor,
    db: &ReplayDB,
    after: &ReplayInfoEditor,
) -> bool {
    let count = before.fields().len() as int;
    let menu = before.addable(db);
    &&& after.entity == before.entity
    &&& match before.focus {
        ReplayInfoEditorFocus::LabelData(_) => {
            &&& after.fields() == before.fields()
            &&& after.rejected == before.rejected
            &&& after.focus == before.focus.next(count, menu.len() as int, false)
        },
        ReplayInfoEditorFocus::LabelRemove(n) => {
            &&& after.fields() == before.fields().remove(n as int)
            &&& after.rejected.is_none()
            &&& after.focus == before.focus.next(count, menu.len() as int, true)
        },
        ReplayInfoEditorFocus::LabelAdd => {
            &&& after.fields() == before.fields()
            &&& after.rejected == before.rejected
            &&& after.focus == (if menu.len() > 0 {
                ReplayInfoEditorFocus::AddableLabel(0)
            } else {
                ReplayInfoEditorFocus::LabelAdd
            })
        },
        ReplayInfoEditorFocus::AddableLabel(j) => {
            &&& after.fields() == before.fields().push(
                StagedView { label: menu[j as int], text: Seq::empty() },
            )
            &&& after.rejected.is_none()
            &&& after.focus == ReplayInfoEditorFocus::LabelData(count as usize)
        },
        ReplayInfoEditorFocus::SaveChanges => {
            &&& after.fields() == before.fields()
            &&& after.focus == before.focus
            &&& match after.rejected {
                Some(k) => first_invalid(before.fields(), k as int),
                None => false,
            }
        },
    }
}

/// Why a session could not be committed.
#[derive(Copy, Clone, Debug, PartialEq, Eq, Structural)]
pub enum CommitError {
    /// The text of the staged field with this index is no 16-bit number.
    InvalidNumber(usize),
}

/// How a session goes on after a command.
#[derive(Copy, Clone, Debug, PartialEq, Eq, Structural)]
pub enum EditorOutcome {
    /// The session stays open.
    Open,
    /// The session was abandoned; the table is as it was.
    Cancelled,
    /// The session was committed to the table.
    Saved,
}

/// A command to the editor.
pub enum EditorCommand {
    /// Leave the menu, or abandon the session.
    Cancel,
    /// Move the focus backward.
    Previous,
    /// Move the focus forward.
    Next,
    /// Activate the control that has the focus.
    Activate,
    /// Apply an editing request to the text that has the focus.
    Edit(InputRequest),
}

/// The edit session of one entity.
pub struct ReplayInfoEditor {
    pub entity: Entity,
    pub focus: ReplayInfoEditorFocus,
    pub labels: Vec<LabelInput>,
    /// The staged field that the last attempt to save was refused for.
    pub rejected: Option<usize>,
}

impl ReplayInfoEditor {
    /// The staged fields.
    pub open spec fn fields(&self) -> Seq<StagedView> {
        staged_views(self.labels@)
    }

    /// The labels that can be added to the session.
    pub open spec fn addable(&self, db: &ReplayDB) -> Seq<LabelView> {
        addable(db.schema(), staged_labels(self.fields()))
    }

    /// The session fits the table: its entity is live, every staged label is
    /// one of the schema and none is staged twice, and the focus and the mark
    /// of a refused field point at something that exists.
    pub open spec fn wf(&self, db: &ReplayDB) -> bool {
        &&& db.world.entities().contains(self.entity)
        &&& staged_labels(self.fields()).no_duplicates()
        &&& forall|k: int|
            0 <= k < self.fields().len() ==> db.schema().contains(#[trigger] self.fields()[k].label)
        &&& self.focus.in_range(self.labels@.len() as int, self.addable(db).len() as int)
        &&& match self.rejected {
            Some(k) => k < self.labels@.len(),
            None => true,
        }
    }

    /// Opens a session on a live entity: its row is staged, and the focus is
    /// on the first field, or on the add control where the row is empty.
    pub fn new(db: &ReplayDB, entity: Entity) -> (r: Self)
        requires
            db.wf(),
            db.world.entities().contains(entity),
        ensures
            r.wf(db),
            r.entity == entity,
            r.fields() == loaded_fields(db, entity, db.schema().len() as int),
            r.focus == (if r.fields().len() > 0 {
                ReplayInfoEditorFocus::LabelData(0)
            } else {
                ReplayInfoEditorFocus::LabelAdd
            }),
            r.rejected.is_none(),
            db.row(entity) == Map::<int, ValueView>::empty() ==> r.fields().len() == 0,
    {
        proof {
            if db.row(entity) == Map::<int, ValueView>::empty() {
                lemma_nothing_loaded(db, entity, db.schema().len() as int);
            }
        }
        let mut labels: Vec<LabelInput> = Vec::new();
        let n: usize = db.labels.len();
        let mut i: usize = 0;
        while i < n
            invariant
                i <= n,
                n == db.labels@.len(),
                db.wf(),
                staged_views(labels@) == loaded_fields(db, entity, i as int),
                forall|k: int|
                    0 <= k < labels@.len() ==> exists|j: int|
                        0 <= j < i && db.schema()[j] == (#[trigger] staged_views(labels@)[k]).label,
                staged_labels(staged_views(labels@)).no_duplicates(),
            decreases n - i,
        {
            let ghost before = staged_views(labels@);
            match db.get(i, entity) {
                Some(value) => {
                    let field = LabelInput::new(db.labels[i].clone(), value_text(value));
                    labels.push(field);
                    proof {
                        let after = staged_views(labels@);
                        assert(after =~= before.push(field@));
                        assert(field@.label == db.schema()[i as int]);
                        assert forall|k: int| 0 <= k < labels@.len() implies exists|j: int|
                            0 <= j < i + 1 && db.schema()[j] == (#[trigger] after[k]).label by {
                            if k < before.len() {
                                assert(after[k] == before[k]);
                                let j = choose|j: int|
                                    0 <= j < i && db.schema()[j] == before[k].label;
                                assert(0 <= j < i + 1 && db.schema()[j] == after[k].label);
                            } else {
                                assert(db.schema()[i as int] == after[k].label);
                            }
                        }
                        let names = staged_labels(after);
                        assert forall|a: int, b: int|
                            0 <= a < names.len() && 0 <= b < names.len() && a != b implies names[a]
                            != names[b] by {
                            let old_names = staged_labels(before);
                            if a < before.len() && b < before.len() {
                                assert(names[a] == old_names[a]);
                                assert(names[b] == old_names[b]);
                            } else {
                                let c = if a < before.len() {
                                    a
                                } else {
                                    b
                                };
                                let j = choose|j: int|
                                    0 <= j < i && db.schema()[j] == before[c].label;
                                assert(db.schema()[j] != db.schema()[i as int]);
                                assert(after[c] == before[c]);
                            }
                        }
                    }
                },
                None => {},
            }
            i += 1;
        }
        let focus = if labels.len() > 0 {
            ReplayInfoEditorFocus::LabelData(0)
        } else {
            ReplayInfoEditorFocus::LabelAdd
        };
        let r = ReplayInfoEditor { entity, focus, labels, rejected: None };
        proof {
            assert forall|k: int| 0 <= k < r.fields().len() implies db.schema().contains(
                #[trigger] r.fields()[k].label,
            ) by {
                let j = choose|j: int| 0 <= j < n && db.schema()[j] == r.fields()[k].label;
                assert(db.schema()[j] == r.fields()[k].label);
            }
        }
        r
    }

    /// Moves the focus one step forward.
    pub fn focus_next(&mut self, db: &ReplayDB)
        requires
            old(self).wf(db),
        ensures
            final(self).wf(db),
            final(self).entity == old(self).entity,
            final(self).labels == old(self).labels,
            final(self).rejected == old(self).rejected,
            final(self).focus == old(self).focus.next(
                old(self).labels@.len() as int,
                old(self).addable(db).len() as int,
                false,
            ),
    {
        let addable_count = App::number_addable_labels(db, &self.labels);
        self.focus = self.focus.next_focus(self.labels.len(), addable_count, false);
    }

    /// Moves the focus one step backward.
    pub fn focus_prev(&mut self, db: &ReplayDB)
        requires
            old(self).wf(db),
        ensures
            final(self).wf(db),
            final(self).entity == old(self).entity,
            final(self).labels == old(self).labels,
            final(self).rejected == old(self).rejected,
            final(self).focus == old(self).focus.prev(
                old(self).labels@.len() as int,
                old(self).addable(db).len() as int,
            ),
    {
        let addable_count = App::number_addable_labels(db, &self.labels);
        self.focus = self.focus.prev_focus(self.labels.len(), addable_count);
    }

    /// Cancels: from the menu of addable labels back to the add control, with
    /// the session open; from anywhere else the session is abandoned. The
    /// staged fields are not touched.
    pub fn cancel(&mut self) -> (r: EditorOutcome)
        ensures
            final(self).entity == old(self).entity,
            final(self).labels == old(self).labels,
            final(self).rejected == old(self).rejected,
            old(self).focus is AddableLabel ==> r == EditorOutcome::Open && final(self).focus
                == ReplayInfoEditorFocus::LabelAdd,
            !(old(self).focus is AddableLabel) ==> r == EditorOutcome::Cancelled && final(self).focus
                == old(self).focus,
    {
        match self.focus {
            ReplayInfoEditorFocus::AddableLabel(_) => {
                self.focus = ReplayInfoEditorFocus::LabelAdd;
                EditorOutcome::Open
            },
            _ => EditorOutcome::Cancelled,
        }
    }

    /// Applies an editing request to the text of the field that has the
    /// focus: its text becomes what its buffer makes of the request. Where no
    /// field has the focus, nothing changes. No label changes, and no text
    /// but that of the focused field.
    pub fn edit(&mut self, request: InputRequest)
        ensures
            final(self).entity == old(self).entity,
            final(self).focus == old(self).focus,
            final(self).rejected == old(self).rejected,
            final(self).fields().len() == old(self).fields().len(),
            staged_labels(final(self).fields()) == staged_labels(old(self).fields()),
            forall|k: int|
                0 <= k < old(self).fields().len() && old(self).focus
                    != ReplayInfoEditorFocus::LabelData(k as usize) ==> final(self).fields()[k] == old(
                    self,
                ).fields()[k],
            match old(self).focus {
                ReplayInfoEditorFocus::LabelData(n) => n < old(self).labels@.len() ==> final(self).fields()[n as int].text
                    == input_text_after(old(self).labels@[n as int].data, request),
                _ => true,
            },
    {
        match self.focus {
            ReplayInfoEditorFocus::LabelData(n) => {
                if n < self.labels.len() {
                    input_handle(&mut self.labels[n].data, request);
                    assert(staged_labels(self.fields()) =~= staged_labels(old(self).fields()));
                }
            },
            _ => {},
        }
    }

    /// The values that the staged texts stand for, or the first field whose
    /// text stands for none.
    pub fn staged_values(&self) -> (r: Result<Vec<Value>, CommitError>)
        ensures
            match r {
                Ok(values) => {
                    &&& all_valid(self.fields())
                    &&& values@.len() == self.fields().len()
                    &&& forall|k: int|
                        0 <= k < values@.len() ==> Some((#[trigger] values@[k])@) == staged_value(
                            self.fields()[k].label.data,
                            self.fields()[k].text,
                        )
                },
                Err(CommitError::InvalidNumber(k)) => first_invalid(self.fields(), k as int),
            },
    {
        let mut values: Vec<Value> = Vec::new();
        let mut k: usize = 0;
        while k < self.labels.len()
            invariant
                k <= self.labels@.len(),
                values@.len() == k,
                all_valid(self.fields().take(k as int)),
                forall|j: int|
                    0 <= j < k ==> Some((#[trigger] values@[j])@) == staged_value(
                        self.fields()[j].label.data,
                        self.fields()[j].text,
                    ),
            decreases self.labels@.len() - k,
        {
            let field = &self.labels[k];
            let text = field.text();
            let value = match field.label.data {
                LabelDataKind::Number => match parse_number(text.as_str()) {
                    Some(n) => Value::Number(n),
                    None => {
                        return Err(CommitError::InvalidNumber(k));
                    },
                },
                LabelDataKind::Text => Value::Text(text),
                LabelDataKind::Unit => Value::Unit,
            };
            values.push(value);
            proof {
                let longer = self.fields().take(k + 1);
                assert forall|j: int| 0 <= j < longer.len() implies staged_value(
                    (#[trigger] longer[j]).label.data,
                    longer[j].text,
                ).is_some() by {
                    if j < k {
                        assert(self.fields().take(k as int)[j] == longer[j]);
                    }
                }
            }
            k += 1;
        }
        assert(self.fields().take(k as int) =~= self.fields());
        Ok(values)
    }

    /// Commits the session: replaces the entity's row by the staged fields,
    /// or despawns the entity where nothing is staged. Where a staged text
    /// stands for no value, nothing is written and the first such field is
    /// reported.
    pub fn commit(&self, db: &mut ReplayDB) -> (r: Result<(), CommitError>)
        requires
            old(db).wf(),
            self.wf(old(db)),
        ensures
            final(db).wf(),
            match r {
                Ok(()) => all_valid(self.fields()) && committed(
                    old(db),
                    final(db),
                    self.entity,
                    self.fields(),
                ),
                Err(CommitError::InvalidNumber(k)) => *final(db) == *old(db) && first_invalid(
                    self.fields(),
                    k as int,
                ),
            },
    {
        let mut values = match self.staged_values() {
            Ok(values) => values,
            Err(e) => {
                return Err(e);
            },
        };
        let entity = self.entity;
        if self.labels.is_empty() {
            db.despawn(entity);
            return Ok(());
        }
        db.clear_row(entity);
        let ghost fields = self.fields();
        let ghost all_values = values@;
        let n: usize = self.labels.len();
        let mut k: usize = n;
        while k > 0
            invariant
                k <= n,
                n == self.labels@.len(),
                fields == self.fields(),
                entity == self.entity,
                values@ == all_values.take(k as int),
                all_values.len() == n,
                forall|j: int|
                    0 <= j < n ==> Some((#[trigger] all_values[j])@) == staged_value(
                        fields[j].label.data,
                        fields[j].text,
                    ),
                db.wf(),
                self.wf(db),
                db.labels == old(db).labels,
                db.world == old(db).world,
                db.same_but_row(old(db), entity),
                forall|i: int, j: int|
                    #![trigger db.cell(i, entity), fields[j]]
                    0 <= i < db.schema().len() && k <= j < n && fields[j].label == db.schema()[i]
                        ==> db.cell(i, entity) == staged_value(fields[j].label.data, fields[j].text),
                forall|i: int|
                    0 <= i < db.schema().len() && !staged_labels(fields.skip(k as int)).contains(
                        db.schema()[i],
                    ) ==> (#[trigger] db.cell(i, entity)).is_none(),
            decreases k,
        {
            k -= 1;
            let ghost before = *db;
            let value = values.pop().unwrap();
            let field = &self.labels[k];
            assert(fields[k as int] == field@);
            assert(db.schema().contains(fields[k as int].label));
            match db.label_index(&field.label) {
                Some(i) => {
                    assert(Some(all_values[k as int]@) == staged_value(
                        fields[k as int].label.data,
                        fields[k as int].text,
                    ));
                    db.insert(i, entity, value);
                    proof {
                        assert(db.schema() == before.schema());
                        let names = staged_labels(fields);
                        assert forall|i2: int, j: int|
                            #![trigger db.cell(i2, entity), fields[j]]
                            0 <= i2 < db.schema().len() && k <= j < n && fields[j].label
                                == db.schema()[i2] implies db.cell(i2, entity) == staged_value(
                            fields[j].label.data,
                            fields[j].text,
                        ) by {
                            if j == k {
                                assert(db.schema()[i2] == db.schema()[i as int]);
                            } else {
                                assert(names[j] != names[k as int]);
                                assert(i2 != i);
                                assert(before.cell(i2, entity) == staged_value(
                                    fields[j].label.data,
                                    fields[j].text,
                                ));
                            }
                        }
                        assert forall|i2: int|
                            0 <= i2 < db.schema().len() && !staged_labels(
                                fields.skip(k as int),
                            ).contains(db.schema()[i2]) implies (#[trigger] db.cell(
                            i2,
                            entity,
                        )).is_none() by {
                            let shorter = staged_labels(fields.skip(k + 1));
                            let longer = staged_labels(fields.skip(k as int));
                            assert(longer[0] == fields[k as int].label);
                            assert(i2 != i);
                            if shorter.contains(db.schema()[i2]) {
                                let j = choose|j: int|
                                    0 <= j < shorter.len() && shorter[j] == db.schema()[i2];
                                assert(longer[j + 1] == db.schema()[i2]);
                            }
                            assert(before.cell(i2, entity).is_none());
                        }
                        assert forall|i2: int, o: Entity|
                            0 <= i2 < db.columns@.len() && o != entity implies #[trigger] db.cell(
                            i2,
                            o,
                        ) == old(db).cell(i2, o) by {
                            assert(before.cell(i2, o) == old(db).cell(i2, o));
                        }
                    }
                },
                None => {},
            }
        }
        proof {
            assert(fields.skip(0) =~= fields);
        }
        Ok(())
    }

    /// Activates the control that has the focus. On the save control, with
    /// every staged text valid, the session is committed; anything else
    /// leaves the table as it is and the session open.
    pub fn activate(&mut self, db: &mut ReplayDB) -> (r: EditorOutcome)
        requires
            old(db).wf(),
            old(self).wf(old(db)),
        ensures
            final(db).wf(),
            saves(old(self)) ==> r == EditorOutcome::Saved && committed(
                old(db),
                final(db),
                old(self).entity,
                old(self).fields(),
            ),
            !saves(old(self)) ==> r == EditorOutcome::Open && *final(db) == *old(db) && activated(
                old(self),
                old(db),
                final(self),
            ) && final(self).wf(final(db)),
    {
        let count: usize = self.labels.len();
        let ghost before = self.fields();
        let ghost names = staged_labels(before);
        match self.focus {
            ReplayInfoEditorFocus::LabelData(_) => {
                self.focus_next(db);
                EditorOutcome::Open
            },
            ReplayInfoEditorFocus::LabelRemove(n) => {
                let addable_count = App::number_addable_labels(db, &self.labels);
                self.focus = self.focus.next_focus(count, addable_count, true);
                self.labels.remove(n);
                self.rejected = None;
                proof {
                    let after = self.fields();
                    assert(after =~= before.remove(n as int));
                    let after_names = staged_labels(after);
                    assert forall|k: int| 0 <= k < after.len() implies #[trigger] after[k]
                        == before[if k < n { k } else { k + 1 }] by {}
                    assert forall|a: int, b: int|
                        0 <= a < after_names.len() && 0 <= b < after_names.len() && a
                            != b implies after_names[a] != after_names[b] by {
                        let a0 = if a < n { a } else { a + 1 };
                        let b0 = if b < n { b } else { b + 1 };
                        assert(after_names[a] == names[a0]);
                        assert(after_names[b] == names[b0]);
                    }
                    assert forall|k: int| 0 <= k < after.len() implies db.schema().contains(
                        #[trigger] after[k].label,
                    ) by {
                        let k0 = if k < n { k } else { k + 1 };
                        assert(db.schema().contains(before[k0].label));
                    }
                }
                EditorOutcome::Open
            },
            ReplayInfoEditorFocus::LabelAdd => {
                if App::number_addable_labels(db, &self.labels) > 0 {
                    self.focus = ReplayInfoEditorFocus::AddableLabel(0);
                }
                EditorOutcome::Open
            },
            ReplayInfoEditorFocus::AddableLabel(j) => {
                let menu = App::addable_labels(db, &self.labels);
                let ghost keep = |l: LabelView| !names.contains(l);
                let label = menu[j].clone();
                proof {
                    assert(crate::label::label_views(menu@)[j as int] == label@);
                    assert(label@ == db.schema().filter(keep)[j as int]);
                    db.schema().lemma_filter_pred(keep, j as int);
                    assert(db.schema().filter(keep).contains(label@));
                    db.schema().lemma_filter_contains_rev(keep, label@);
                }
                let field = LabelInput::new(label, String::new());
                self.labels.push(field);
                self.focus = ReplayInfoEditorFocus::LabelData(self.labels.len() - 1);
                self.rejected = None;
                proof {
                    let after = self.fields();
                    assert(after =~= before.push(field@));
                    let after_names = staged_labels(after);
                    assert forall|a: int, b: int|
                        0 <= a < after_names.len() && 0 <= b < after_names.len() && a
                            != b implies after_names[a] != after_names[b] by {
                        if a < before.len() {
                            assert(after_names[a] == names[a]);
                        }
                        if b < before.len() {
                            assert(after_names[b] == names[b]);
                        }
                    }
                    assert forall|k: int| 0 <= k < after.len() implies db.schema().contains(
                        #[trigger] after[k].label,
                    ) by {
                        if k < before.len() {
                            assert(db.schema().contains(before[k].label));
                        }
                    }
                }
                EditorOutcome::Open
            },
            ReplayInfoEditorFocus::SaveChanges => {
                match self.commit(db) {
                    Ok(()) => EditorOutcome::Saved,
                    Err(CommitError::InvalidNumber(k)) => {
                        self.rejected = Some(k);
                        assert(before.take(k as int + 1)[k as int] == before[k as int]);
                        EditorOutcome::Open
                    },
                }
            },
        }
    }
}

} // verus!
