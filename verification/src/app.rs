//! The application around the table: the viewer with its selected row, the
//! editor, and what a key does in each.

use crate::editor::{
    activated, addable, committed, is_staged, loaded_fields, saves, staged_labels, staged_views,
    EditorOutcome, LabelInput, ReplayInfoEditor,
};
use crate::focus::ReplayInfoEditorFocus;
use crate::label::{label_views, Label, LabelView};
use crate::replay_db::{default_schema, ReplayDB, DEMO_ROWS};
use crate::store::Entity;
use crate::input::input_text_after;
use tui_input::InputRequest;
use vstd::prelude::*;

verus! {

/// What the application shows.
pub enum AppState {
    /// The table, with the row that is selected, if any.
    ReplayDBViewer { selected: Option<usize> },
    /// The editor, open on one entity.
    ReplayInfoEditor(ReplayInfoEditor),
}

/// The application: the table and what is shown of it.
pub struct App {
    pub replay_db: ReplayDB,
    pub state: AppState,
}

/// A key that was pressed.
#[derive(Copy, Clone, Debug, PartialEq, Eq, Structural)]
pub enum Key {
    Esc,
    Up,
    Down,
    Left,
    Right,
    Tab,
    Enter,
    Char(char),
    Other,
}

/// What the caller has to do after a key was handled.
#[derive(Copy, Clone, Debug, PartialEq, Eq, Structural)]
pub enum Action {
    /// Nothing but to show the new state.
    Continue,
    /// End the program.
    Quit,
    /// Move the column highlight of the table to the right.
    SelectNextColumn,
    /// Move the column highlight of the table to the left.
    SelectPreviousColumn,
}

/// The row that is selected when the table comes into view: the first, or
/// none where the table is empty.
pub open spec fn initial_selection(rows: int) -> Option<usize> {
    if rows > 0 {
        Some(0usize)
    } else {
        None
    }
}

/// The selection one row further down: after the last row comes the first.
/// In an empty table no row is selected.
pub open spec fn next_selected(selected: Option<usize>, rows: int) -> Option<usize> {
    if rows <= 0 {
        None
    } else {
        match selected {
            Some(i) => if i >= rows - 1 {
                Some(0usize)
            } else {
                Some((i + 1) as usize)
            },
            None => Some(0usize),
        }
    }
}

/// The selection one row further up: before the first row comes the last.
/// In an empty table no row is selected.
pub open spec fn prev_selected(selected: Option<usize>, rows: int) -> Option<usize> {
    if rows <= 0 {
        None
    } else {
        match selected {
            Some(i) => if i == 0 {
                Some((rows - 1) as usize)
            } else {
                Some((i - 1) as usize)
            },
            None => Some(0usize),
        }
    }
}

/// The session `after` is the session `before` with the text of the focused
/// field edited by `request`: that text is what its buffer makes of the
/// request, and nothing else is changed.
pub open spec fn edited(
    before: &ReplayInfoEditor,
    request: InputRequest,
    after: &ReplayInfoEditor,
) -> bool {
    &&& after.entity == before.entity
    &&& after.focus == before.focus
    &&& after.rejected == before.rejected
    &&& after.fields().len() == before.fields().len()
    &&& staged_labels(after.fields()) == staged_labels(before.fields())
    &&& forall|k: int|
        0 <= k < before.fields().len() && before.focus != ReplayInfoEditorFocus::LabelData(
            k as usize,
        ) ==> after.fields()[k] == before.fields()[k]
    &&& match before.focus {
        ReplayInfoEditorFocus::LabelData(n) => n < before.labels@.len() ==> after.fields()[n as int].text
            == input_text_after(before.labels@[n as int].data, request),
        _ => true,
    }
}

impl App {
    /// The labels of the schema that are not staged yet, in the schema's
    /// order.
    pub fn addable_labels(db: &ReplayDB, existing_labels: &Vec<LabelInput>) -> (r: Vec<Label>)
        ensures
            label_views(r@) == addable(db.schema(), staged_labels(staged_views(existing_labels@))),
    {
        let ghost staged = staged_labels(staged_views(existing_labels@));
        let ghost keep = |l: LabelView| !staged.contains(l);
        let mut out: Vec<Label> = Vec::new();
        let mut i: usize = 0;
        proof {
            reveal(Seq::filter);
            assert(db.schema().take(0) =~= Seq::<LabelView>::empty());
            assert(label_views(out@) =~= db.schema().take(0).filter(keep));
        }
        while i < db.labels.len()
            invariant
                i <= db.labels.len(),
                staged == staged_labels(staged_views(existing_labels@)),
                keep == (|l: LabelView| !staged.contains(l)),
                label_views(out@) == db.schema().take(i as int).filter(keep),
            decreases db.labels.len() - i,
        {
            let ghost before = label_views(out@);
            proof {
                reveal(Seq::filter);
                assert(db.schema().take(i + 1).drop_last() =~= db.schema().take(i as int));
                assert(db.schema().take(i + 1).last() == db.labels@[i as int]@);
            }
            if !is_staged(existing_labels, &db.labels[i]) {
                out.push(db.labels[i].clone());
                assert(label_views(out@) =~= before.push(db.labels@[i as int]@));
            }
            i += 1;
        }
        assert(db.schema().take(i as int) =~= db.schema());
        out
    }

    /// The number of labels that can still be added.
    pub fn number_addable_labels(db: &ReplayDB, existing_labels: &Vec<LabelInput>) -> (r: usize)
        ensures
            r == addable(db.schema(), staged_labels(staged_views(existing_labels@))).len(),
    {
        let labels = App::addable_labels(db, existing_labels);
        assert(label_views(labels@).len() == labels@.len());
        labels.len()
    }

    /// The table is consistent, and an open session fits it.
    pub open spec fn wf(&self) -> bool {
        &&& self.replay_db.wf()
        &&& match self.state {
            AppState::ReplayDBViewer { .. } => true,
            AppState::ReplayInfoEditor(editor) => editor.wf(&self.replay_db),
        }
    }

    /// The application at its start: a table of made-up rows in the viewer,
    /// with the first row selected.
    pub fn new() -> (r: Self)
        ensures
            r.wf(),
            r.state == (AppState::ReplayDBViewer { selected: Some(0usize) }),
            r.replay_db.schema() == default_schema(),
            r.replay_db.world.entities().len() == DEMO_ROWS,
            r.replay_db.world.spawns_left() == u64::MAX - DEMO_ROWS,
            forall|k: int|
                0 <= k < DEMO_ROWS ==> ReplayDB::is_demo_row(
                    &r.replay_db,
                    #[trigger] r.replay_db.world.entities()[k],
                ),
    {
        App { replay_db: ReplayDB::new(), state: AppState::ReplayDBViewer { selected: Some(0) } }
    }

    /// Selects the next row of the table, the first after the last. Outside
    /// the viewer nothing changes.
    pub fn next_row(&mut self)
        ensures
            final(self).replay_db == old(self).replay_db,
            match old(self).state {
                AppState::ReplayDBViewer { selected } => final(self).state
                    == (AppState::ReplayDBViewer {
                    selected: next_selected(
                        selected,
                        old(self).replay_db.world.entities().len() as int,
                    ),
                }),
                AppState::ReplayInfoEditor(_) => final(self).state == old(self).state,
            },
    {
        let rows: usize = self.replay_db.world.count();
        if let AppState::ReplayDBViewer { selected } = &self.state {
            let next: Option<usize> = if rows == 0 {
                None
            } else {
                match *selected {
                    Some(i) => if i >= rows - 1 {
                        Some(0)
                    } else {
                        Some(i + 1)
                    },
                    None => Some(0),
                }
            };
            self.state = AppState::ReplayDBViewer { selected: next };
        }
    }

    /// Selects the previous row of the table, the last before the first.
    /// Outside the viewer nothing changes.
    pub fn prev_row(&mut self)
        ensures
            final(self).replay_db == old(self).replay_db,
            match old(self).state {
                AppState::ReplayDBViewer { selected } => final(self).state
                    == (AppState::ReplayDBViewer {
                    selected: prev_selected(
                        selected,
                        old(self).replay_db.world.entities().len() as int,
                    ),
                }),
                AppState::ReplayInfoEditor(_) => final(self).state == old(self).state,
            },
    {
        let rows: usize = self.replay_db.world.count();
        if let AppState::ReplayDBViewer { selected } = &self.state {
            let prev: Option<usize> = if rows == 0 {
                None
            } else {
                match *selected {
                    Some(i) => if i == 0 {
                        Some(rows - 1)
                    } else {
                        Some(i - 1)
                    },
                    None => Some(0),
                }
            };
            self.state = AppState::ReplayDBViewer { selected: prev };
        }
    }

    /// The viewer on a table of `rows` rows.
    fn viewer(rows: usize) -> (r: AppState)
        ensures
            r == (AppState::ReplayDBViewer { selected: initial_selection(rows as int) }),
    {
        AppState::ReplayDBViewer {
            selected: if rows > 0 {
                Some(0)
            } else {
                None
            },
        }
    }

    /// What a key does in the viewer.
    pub open spec fn viewer_step(
        before: &App,
        selected: Option<usize>,
        key: Key,
        after: &App,
        action: Action,
    ) -> bool {
        let rows = before.replay_db.world.entities();
        match key {
            Key::Esc => action == Action::Quit && after == before,
            Key::Up => action == Action::Continue && after.replay_db == before.replay_db
                && after.state == (AppState::ReplayDBViewer {
                selected: prev_selected(selected, rows.len() as int),
            }),
            Key::Down => action == Action::Continue && after.replay_db == before.replay_db
                && after.state == (AppState::ReplayDBViewer {
                selected: next_selected(selected, rows.len() as int),
            }),
            Key::Right => action == Action::SelectNextColumn && after == before,
            Key::Left => action == Action::SelectPreviousColumn && after == before,
            Key::Char(c) => action == Action::Continue && if c == 'e' && selected.is_some()
                && selected.unwrap() < rows.len() {
                &&& after.replay_db == before.replay_db
                &&& match after.state {
                    AppState::ReplayInfoEditor(editor) => {
                        &&& editor.entity == rows[selected.unwrap() as int]
                        &&& editor.fields() == loaded_fields(
                            &before.replay_db,
                            editor.entity,
                            before.replay_db.schema().len() as int,
                        )
                        &&& editor.focus == (if editor.fields().len() > 0 {
                            ReplayInfoEditorFocus::LabelData(0)
                        } else {
                            ReplayInfoEditorFocus::LabelAdd
                        })
                        &&& editor.rejected.is_none()
                    },
                    AppState::ReplayDBViewer { .. } => false,
                }
            } else if c == 'n' && before.replay_db.world.spawns_left() > 0 {
                &&& after.replay_db.labels == before.replay_db.labels
                &&& after.replay_db.columns == before.replay_db.columns
                &&& match after.state {
                    AppState::ReplayInfoEditor(editor) => {
                        &&& !rows.contains(editor.entity)
                        &&& after.replay_db.world.entities() == rows.push(editor.entity)
                        &&& editor.fields() == Seq::<crate::editor::StagedView>::empty()
                        &&& editor.focus == ReplayInfoEditorFocus::LabelAdd
                        &&& editor.rejected.is_none()
                    },
                    AppState::ReplayDBViewer { .. } => false,
                }
            } else {
                after == before
            },
            _ => action == Action::Continue && after == before,
        }
    }

    /// What a key does in the editor. A key that is none of the editor's own
    /// goes to the text that has the focus, as the editing request that it
    /// was decoded to, if any.
    pub open spec fn editor_step(
        before: &App,
        editor: &ReplayInfoEditor,
        key: Key,
        request: Option<InputRequest>,
        after: &App,
    ) -> bool {
        let db = &before.replay_db;
        let closed = AppState::ReplayDBViewer {
            selected: initial_selection(after.replay_db.world.entities().len() as int),
        };
        match key {
            Key::Esc => after.replay_db == before.replay_db && if editor.focus is AddableLabel {
                match after.state {
                    AppState::ReplayInfoEditor(next) => next.entity == editor.entity
                        && next.fields() == editor.fields() && next.rejected == editor.rejected
                        && next.focus == ReplayInfoEditorFocus::LabelAdd,
                    AppState::ReplayDBViewer { .. } => false,
                }
            } else {
                after.state == closed
            },
            Key::Up => after.replay_db == before.replay_db && match after.state {
                AppState::ReplayInfoEditor(next) => next.entity == editor.entity && next.fields()
                    == editor.fields() && next.rejected == editor.rejected && next.focus
                    == editor.focus.prev(
                    editor.fields().len() as int,
                    editor.addable(db).len() as int,
                ),
                AppState::ReplayDBViewer { .. } => false,
            },
            Key::Down | Key::Tab => after.replay_db == before.replay_db && match after.state {
                AppState::ReplayInfoEditor(next) => next.entity == editor.entity && next.fields()
                    == editor.fields() && next.rejected == editor.rejected && next.focus
                    == editor.focus.next(
                    editor.fields().len() as int,
                    editor.addable(db).len() as int,
                    false,
                ),
                AppState::ReplayDBViewer { .. } => false,
            },
            Key::Enter => if saves(editor) {
                &&& committed(db, &after.replay_db, editor.entity, editor.fields())
                &&& after.state == closed
            } else {
                &&& after.replay_db == before.replay_db
                &&& match after.state {
                    AppState::ReplayInfoEditor(next) => activated(editor, db, &next),
                    AppState::ReplayDBViewer { .. } => false,
                }
            },
            _ => after.replay_db == before.replay_db && match after.state {
                AppState::ReplayInfoEditor(next) => match request {
                    Some(request) => edited(editor, request, &next),
                    None => next.entity == editor.entity && next.focus == editor.focus
                        && next.rejected == editor.rejected && next.fields() == editor.fields(),
                },
                AppState::ReplayDBViewer { .. } => false,
            },
        }
    }

    /// Handles one key: `request` is the editing request that the key was
    /// decoded to, if any. In the viewer the key moves the selection, opens
    /// the editor on the selected row or on a new one, or ends the program; in
    /// the editor it moves the focus, activates the focused control, cancels,
    /// or edits the focused text.
    pub fn handle_key(&mut self, key: Key, request: Option<InputRequest>) -> (action: Action)
        requires
            old(self).wf(),
        ensures
            final(self).wf(),
            match old(self).state {
                AppState::ReplayDBViewer { selected } => App::viewer_step(
                    old(self),
                    selected,
                    key,
                    final(self),
                    action,
                ),
                AppState::ReplayInfoEditor(editor) => action == Action::Continue
                    && App::editor_step(old(self), &editor, key, request, final(self)),
            },
    {
        match &mut self.state {
            AppState::ReplayDBViewer { selected } => {
                let selected: Option<usize> = *selected;
                match key {
                    Key::Esc => Action::Quit,
                    Key::Up => {
                        self.prev_row();
                        Action::Continue
                    },
                    Key::Down => {
                        self.next_row();
                        Action::Continue
                    },
                    Key::Right => Action::SelectNextColumn,
                    Key::Left => Action::SelectPreviousColumn,
                    Key::Char(c) => {
                        if c == 'e' {
                            if let Some(row) = selected {
                                if let Some(entity) = self.replay_db.world.entity_at(row) {
                                    assert(self.replay_db.world.entities()[row as int] == entity);
                                    self.state = AppState::ReplayInfoEditor(
                                        ReplayInfoEditor::new(&self.replay_db, entity),
                                    );
                                }
                            }
                        } else if c == 'n' {
                            if self.replay_db.world.has_room() {
                                let entity = self.replay_db.spawn();
                                let editor = ReplayInfoEditor::new(&self.replay_db, entity);
                                assert(editor.fields() =~= Seq::<crate::editor::StagedView>::empty());
                                self.state = AppState::ReplayInfoEditor(editor);
                            }
                        }
                        Action::Continue
                    },
                    _ => Action::Continue,
                }
            },
            AppState::ReplayInfoEditor(editor) => {
                match key {
                    Key::Esc => {
                        match editor.cancel() {
                            EditorOutcome::Open => {},
                            _ => {
                                self.state = App::viewer(self.replay_db.world.count());
                            },
                        }
                    },
                    Key::Up => {
                        editor.focus_prev(&self.replay_db);
                    },
                    Key::Down | Key::Tab => {
                        editor.focus_next(&self.replay_db);
                    },
                    Key::Enter => {
                        match editor.activate(&mut self.replay_db) {
                            EditorOutcome::Open => {},
                            _ => {
                                self.state = App::viewer(self.replay_db.world.count());
                            },
                        }
                    },
                    _ => {
                        if let Some(request) = request {
                            let ghost before = editor.fields();
                            editor.edit(request);
                            proof {
                                let after = editor.fields();
                                assert forall|k: int| 0 <= k < after.len() implies after[k].label
                                    == before[k].label by {
                                    assert(staged_labels(after)[k] == staged_labels(before)[k]);
                                }
                            }
                        }
                    },
                }
                Action::Continue
            },
        }
    }
}

} // verus!
