use replaydb::app::App;
use replaydb::editor::{
    is_staged, value_text, CommitError, EditorOutcome, LabelInput, ReplayInfoEditor,
};
use replaydb::focus::ReplayInfoEditorFocus as Focus;
use replaydb::label::{Label, LabelDataKind};
use replaydb::replay_db::ReplayDB;
use replaydb::store::{Entity, Value};
use tui_input::InputRequest;

fn name() -> Label {
    Label::new("Name".to_string(), LabelDataKind::Text)
}

fn split() -> Label {
    Label::new("800 Split".to_string(), LabelDataKind::Number)
}

fn pb() -> Label {
    Label::new("PB".to_string(), LabelDataKind::Unit)
}

fn session(entity: Entity, fields: Vec<(Label, &str)>, focus: Focus) -> ReplayInfoEditor {
    ReplayInfoEditor {
        entity,
        focus,
        labels: fields
            .into_iter()
            .map(|(label, text)| LabelInput::new(label, text.to_string()))
            .collect(),
        rejected: None,
    }
}

fn staged(editor: &ReplayInfoEditor) -> Vec<(Label, String)> {
    editor.labels.iter().map(|f| (f.label.clone(), f.text())).collect()
}

fn row(db: &ReplayDB, entity: Entity) -> Vec<Option<Value>> {
    (0..db.labels.len()).map(|i| db.get(i, entity).cloned()).collect()
}

#[test]
fn staged_field_keeps_its_text() {
    let field = LabelInput::new(name(), "Foo".to_string());
    assert_eq!(field.text(), "Foo");
    assert_eq!(field.label, name());
    assert_eq!(LabelInput::new(pb(), String::new()).text(), "");
}

#[test]
fn stored_values_are_shown_as_text() {
    assert_eq!(value_text(&Value::Number(-100)), "-100");
    assert_eq!(value_text(&Value::Text("Foo".to_string())), "Foo");
    assert_eq!(value_text(&Value::Unit), "");
}

#[test]
fn session_is_loaded_from_the_row_in_schema_order() {
    let mut db = ReplayDB::empty();
    let e = db.spawn();
    db.insert(2, e, Value::Unit);
    db.insert(0, e, Value::Text("Foo".to_string()));
    let editor = ReplayInfoEditor::new(&db, e);
    assert_eq!(editor.entity, e);
    assert_eq!(editor.focus, Focus::LabelData(0));
    assert_eq!(editor.rejected, None);
    assert_eq!(staged(&editor), vec![(name(), "Foo".to_string()), (pb(), String::new())]);
}

#[test]
fn session_on_an_empty_row_starts_at_the_add_control() {
    let mut db = ReplayDB::empty();
    let e = db.spawn();
    let editor = ReplayInfoEditor::new(&db, e);
    assert!(editor.labels.is_empty());
    assert_eq!(editor.focus, Focus::LabelAdd);
}

#[test]
fn addable_labels_are_the_unstaged_ones_in_schema_order() {
    let db = ReplayDB::empty();
    let none: Vec<LabelInput> = Vec::new();
    assert_eq!(App::addable_labels(&db, &none), vec![name(), split(), pb()]);
    assert_eq!(App::number_addable_labels(&db, &none), 3);
    let some = vec![LabelInput::new(split(), "1".to_string())];
    assert_eq!(App::addable_labels(&db, &some), vec![name(), pb()]);
    assert_eq!(App::number_addable_labels(&db, &some), 2);
    assert!(is_staged(&some, &split()));
    assert!(!is_staged(&some, &name()));
    let all = vec![
        LabelInput::new(pb(), String::new()),
        LabelInput::new(name(), String::new()),
        LabelInput::new(split(), String::new()),
    ];
    assert!(App::addable_labels(&db, &all).is_empty());
    assert_eq!(App::number_addable_labels(&db, &all), 0);
}

#[test]
fn deletion_shifts_the_index() {
    let mut db = ReplayDB::empty();
    let e = db.spawn();
    let mut editor =
        session(e, vec![(name(), "A"), (split(), "2"), (pb(), "")], Focus::LabelRemove(1));
    assert_eq!(editor.activate(&mut db), EditorOutcome::Open);
    assert_eq!(staged(&editor), vec![(name(), "A".to_string()), (pb(), String::new())]);
    assert_eq!(editor.focus, Focus::LabelData(1));
    assert_eq!(row(&db, e), vec![None, None, None]);
}

#[test]
fn deleting_the_last_field_moves_to_the_add_control() {
    let mut db = ReplayDB::empty();
    let e = db.spawn();
    let mut editor = session(e, vec![(name(), "A"), (split(), "2")], Focus::LabelRemove(1));
    assert_eq!(editor.activate(&mut db), EditorOutcome::Open);
    assert_eq!(staged(&editor), vec![(name(), "A".to_string())]);
    assert_eq!(editor.focus, Focus::LabelAdd);
}

#[test]
fn activating_a_field_moves_on_without_changing_it() {
    let mut db = ReplayDB::empty();
    let e = db.spawn();
    let mut editor = session(e, vec![(name(), "A")], Focus::LabelData(0));
    assert_eq!(editor.activate(&mut db), EditorOutcome::Open);
    assert_eq!(editor.focus, Focus::LabelRemove(0));
    assert_eq!(staged(&editor), vec![(name(), "A".to_string())]);
}

#[test]
fn add_control_opens_the_menu_only_where_something_can_be_added() {
    let mut db = ReplayDB::empty();
    let e = db.spawn();
    let mut editor = session(e, vec![(name(), "A")], Focus::LabelAdd);
    assert_eq!(editor.activate(&mut db), EditorOutcome::Open);
    assert_eq!(editor.focus, Focus::AddableLabel(0));
    let mut full =
        session(e, vec![(name(), "A"), (split(), "2"), (pb(), "")], Focus::LabelAdd);
    assert_eq!(full.activate(&mut db), EditorOutcome::Open);
    assert_eq!(full.focus, Focus::LabelAdd);
}

#[test]
fn picking_a_menu_entry_stages_it_with_empty_text() {
    let mut db = ReplayDB::empty();
    let e = db.spawn();
    let mut editor = session(e, vec![(split(), "2")], Focus::AddableLabel(1));
    assert_eq!(editor.activate(&mut db), EditorOutcome::Open);
    assert_eq!(staged(&editor), vec![(split(), "2".to_string()), (pb(), String::new())]);
    assert_eq!(editor.focus, Focus::LabelData(1));
}

#[test]
fn cancel_leaves_the_menu_or_the_session() {
    let mut db = ReplayDB::empty();
    let e = db.spawn();
    let mut editor = session(e, vec![(split(), "2")], Focus::AddableLabel(1));
    assert_eq!(editor.cancel(), EditorOutcome::Open);
    assert_eq!(editor.focus, Focus::LabelAdd);
    assert_eq!(staged(&editor), vec![(split(), "2".to_string())]);
    assert_eq!(editor.cancel(), EditorOutcome::Cancelled);
    for focus in [Focus::LabelData(0), Focus::LabelRemove(0), Focus::SaveChanges] {
        let mut other = session(e, vec![(split(), "2")], focus);
        assert_eq!(other.cancel(), EditorOutcome::Cancelled);
    }
    assert_eq!(row(&db, e), vec![None, None, None]);
    db.despawn(e);
}

#[test]
fn navigation_follows_the_focus_rules() {
    let mut db = ReplayDB::empty();
    let e = db.spawn();
    let mut editor = session(e, vec![(split(), "2")], Focus::LabelData(0));
    editor.focus_next(&db);
    assert_eq!(editor.focus, Focus::LabelRemove(0));
    editor.focus_next(&db);
    assert_eq!(editor.focus, Focus::LabelAdd);
    editor.focus_next(&db);
    assert_eq!(editor.focus, Focus::SaveChanges);
    editor.focus_next(&db);
    assert_eq!(editor.focus, Focus::SaveChanges);
    editor.focus_prev(&db);
    assert_eq!(editor.focus, Focus::LabelAdd);
    editor.focus_prev(&db);
    assert_eq!(editor.focus, Focus::LabelRemove(0));
    editor.focus = Focus::AddableLabel(1);
    editor.focus_next(&db);
    assert_eq!(editor.focus, Focus::AddableLabel(0));
    editor.focus_prev(&db);
    assert_eq!(editor.focus, Focus::AddableLabel(1));
}

#[test]
fn only_the_focused_text_is_edited() {
    let mut db = ReplayDB::empty();
    let e = db.spawn();
    let mut editor = session(e, vec![(name(), "Fo"), (split(), "12")], Focus::LabelData(0));
    editor.edit(InputRequest::InsertChar('o'));
    assert_eq!(staged(&editor), vec![(name(), "Foo".to_string()), (split(), "12".to_string())]);
    editor.focus = Focus::LabelData(1);
    editor.edit(InputRequest::DeletePrevChar);
    assert_eq!(staged(&editor), vec![(name(), "Foo".to_string()), (split(), "1".to_string())]);
    for focus in [Focus::LabelRemove(0), Focus::LabelAdd, Focus::AddableLabel(0), Focus::SaveChanges]
    {
        editor.focus = focus;
        editor.edit(InputRequest::InsertChar('x'));
        assert_eq!(
            staged(&editor),
            vec![(name(), "Foo".to_string()), (split(), "1".to_string())]
        );
    }
    assert_eq!(row(&db, e), vec![None, None, None]);
    db.despawn(e);
}

#[test]
fn commit_replaces_the_whole_row() {
    let mut db = ReplayDB::empty();
    let other = db.add_demo_row(2, 5, true);
    let e = db.spawn();
    db.insert(0, e, Value::Text("Old".to_string()));
    db.insert(2, e, Value::Unit);
    let editor = session(e, vec![(split(), "-7"), (name(), "New")], Focus::SaveChanges);
    assert_eq!(editor.commit(&mut db), Ok(()));
    assert_eq!(
        row(&db, e),
        vec![Some(Value::Text("New".to_string())), Some(Value::Number(-7)), None]
    );
    assert_eq!(
        row(&db, other),
        vec![Some(Value::Text("aa".to_string())), Some(Value::Number(5)), Some(Value::Unit)]
    );
    assert_eq!(db.world.live_entities(), &vec![other, e]);
}

#[test]
fn commit_of_nothing_despawns_the_entity() {
    let mut db = ReplayDB::empty();
    let other = db.add_demo_row(2, 5, false);
    let e = db.add_demo_row(3, 6, true);
    let editor = session(e, vec![], Focus::SaveChanges);
    assert_eq!(editor.commit(&mut db), Ok(()));
    assert_eq!(db.world.live_entities(), &vec![other]);
    assert_eq!(row(&db, e), vec![None, None, None]);
    assert_eq!(
        row(&db, other),
        vec![Some(Value::Text("aa".to_string())), Some(Value::Number(5)), None]
    );
}

#[test]
fn commit_refuses_a_text_that_is_no_number_and_writes_nothing() {
    let mut db = ReplayDB::empty();
    let e = db.add_demo_row(3, 6, true);
    let editor = session(
        e,
        vec![(name(), "New"), (split(), "12x"), (pb(), "")],
        Focus::SaveChanges,
    );
    assert_eq!(editor.commit(&mut db), Err(CommitError::InvalidNumber(1)));
    assert_eq!(
        row(&db, e),
        vec![Some(Value::Text("aaa".to_string())), Some(Value::Number(6)), Some(Value::Unit)]
    );
    assert!(db.world.is_live(e));
    let too_big = session(e, vec![(split(), "40000")], Focus::SaveChanges);
    assert_eq!(too_big.staged_values(), Err(CommitError::InvalidNumber(0)));
    let empty = session(e, vec![(split(), "")], Focus::SaveChanges);
    assert_eq!(empty.staged_values(), Err(CommitError::InvalidNumber(0)));
}

#[test]
fn refused_save_keeps_the_session_open_and_marks_the_field() {
    let mut db = ReplayDB::empty();
    let e = db.add_demo_row(3, 6, false);
    let mut editor = session(e, vec![(name(), "New"), (split(), "")], Focus::SaveChanges);
    assert_eq!(editor.activate(&mut db), EditorOutcome::Open);
    assert_eq!(editor.rejected, Some(1));
    assert_eq!(editor.focus, Focus::SaveChanges);
    assert_eq!(staged(&editor), vec![(name(), "New".to_string()), (split(), String::new())]);
    assert_eq!(
        row(&db, e),
        vec![Some(Value::Text("aaa".to_string())), Some(Value::Number(6)), None]
    );
    editor.focus = Focus::LabelData(1);
    editor.edit(InputRequest::InsertChar('9'));
    editor.focus = Focus::SaveChanges;
    assert_eq!(editor.activate(&mut db), EditorOutcome::Saved);
    assert_eq!(
        row(&db, e),
        vec![Some(Value::Text("New".to_string())), Some(Value::Number(9)), None]
    );
}

#[test]
fn staged_values_are_read_by_kind() {
    let mut db = ReplayDB::empty();
    let e = db.spawn();
    let editor = session(
        e,
        vec![(pb(), "ignored"), (split(), "+32767"), (name(), "12x")],
        Focus::SaveChanges,
    );
    assert_eq!(
        editor.staged_values(),
        Ok(vec![Value::Unit, Value::Number(32767), Value::Text("12x".to_string())])
    );
    db.despawn(e);
}

#[test]
fn committed_values_come_back_when_the_row_is_loaded_again() {
    let mut db = ReplayDB::empty();
    let e = db.spawn();
    let editor = session(
        e,
        vec![(pb(), ""), (split(), "-0042"), (name(), " Foo bar ")],
        Focus::SaveChanges,
    );
    assert_eq!(editor.commit(&mut db), Ok(()));
    let again = ReplayInfoEditor::new(&db, e);
    assert_eq!(
        staged(&again),
        vec![
            (name(), " Foo bar ".to_string()),
            (split(), "-42".to_string()),
            (pb(), String::new())
        ]
    );
    assert_eq!(again.commit(&mut db), Ok(()));
    assert_eq!(
        row(&db, e),
        vec![
            Some(Value::Text(" Foo bar ".to_string())),
            Some(Value::Number(-42)),
            Some(Value::Unit)
        ]
    );
}

#[test]
fn replace_all_leaves_no_old_attribute() {
    let mut db = ReplayDB::empty();
    let e = db.spawn();
    db.insert(0, e, Value::Text("A".to_string()));
    db.insert(2, e, Value::Unit);
    let editor = session(e, vec![(name(), "A"), (split(), "1")], Focus::SaveChanges);
    assert_eq!(editor.commit(&mut db), Ok(()));
    assert_eq!(
        row(&db, e),
        vec![Some(Value::Text("A".to_string())), Some(Value::Number(1)), None]
    );
    let again = ReplayInfoEditor::new(&db, e);
    assert_eq!(staged(&again), vec![(name(), "A".to_string()), (split(), "1".to_string())]);
}

#[test]
fn session_on_a_row_spawned_into_a_new_table_is_empty() {
    let mut db = ReplayDB::new();
    assert!(db.world.has_room());
    let e = db.spawn();
    assert_eq!(db.world.count(), 11);
    let editor = ReplayInfoEditor::new(&db, e);
    assert!(editor.labels.is_empty());
    assert_eq!(editor.focus, Focus::LabelAdd);
}

#[test]
fn editing_requests_reach_the_buffer_of_the_focused_field() {
    let mut db = ReplayDB::empty();
    let e = db.spawn();
    let mut editor = session(e, vec![(name(), "abc"), (split(), "12")], Focus::LabelData(0));
    editor.edit(InputRequest::GoToStart);
    assert_eq!(editor.labels[0].text(), "abc");
    editor.edit(InputRequest::InsertChar('x'));
    assert_eq!(editor.labels[0].text(), "xabc");
    editor.edit(InputRequest::DeleteNextChar);
    assert_eq!(editor.labels[0].text(), "xbc");
    editor.edit(InputRequest::DeleteLine);
    assert_eq!(editor.labels[0].text(), "");
    assert_eq!(editor.labels[1].text(), "12");
    db.despawn(e);
}
