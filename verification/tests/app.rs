use replaydb::app::{Action, App, AppState, Key};
use replaydb::focus::ReplayInfoEditorFocus as Focus;
use replaydb::replay_db::ReplayDB;
use replaydb::store::{Entity, Value};
use tui_input::InputRequest;

fn empty_app() -> App {
    App { replay_db: ReplayDB::empty(), state: AppState::ReplayDBViewer { selected: None } }
}

fn press(app: &mut App, key: Key) -> Action {
    let request = match key {
        Key::Char(c) => Some(InputRequest::InsertChar(c)),
        Key::Left => Some(InputRequest::GoToPrevChar),
        Key::Right => Some(InputRequest::GoToNextChar),
        _ => None,
    };
    app.handle_key(key, request)
}

fn type_text(app: &mut App, text: &str) {
    for c in text.chars() {
        assert_eq!(press(app, Key::Char(c)), Action::Continue);
    }
}

fn focus(app: &App) -> Focus {
    match &app.state {
        AppState::ReplayInfoEditor(editor) => editor.focus,
        AppState::ReplayDBViewer { .. } => panic!("the editor is not open"),
    }
}

fn staged(app: &App) -> Vec<(String, String)> {
    match &app.state {
        AppState::ReplayInfoEditor(editor) => {
            editor.labels.iter().map(|f| (f.label.name.clone(), f.text())).collect()
        }
        AppState::ReplayDBViewer { .. } => panic!("the editor is not open"),
    }
}

fn selected(app: &App) -> Option<usize> {
    match &app.state {
        AppState::ReplayDBViewer { selected } => *selected,
        AppState::ReplayInfoEditor(_) => panic!("the viewer is not open"),
    }
}

fn row(app: &App, entity: Entity) -> Vec<Option<Value>> {
    (0..3).map(|i| app.replay_db.get(i, entity).cloned()).collect()
}

fn go_to(app: &mut App, wanted: Focus) {
    for _ in 0..20 {
        if focus(app) == wanted {
            return;
        }
        press(app, Key::Down);
    }
    panic!("the focus never reached {wanted:?}");
}

#[test]
fn app_starts_in_the_viewer_on_the_first_of_ten_rows() {
    let app = App::new();
    assert_eq!(selected(&app), Some(0));
    assert_eq!(app.replay_db.world.count(), 10);
    assert_eq!(app.replay_db.labels.len(), 3);
}

#[test]
fn selection_wraps_around_the_rows() {
    let mut app = App::new();
    app.prev_row();
    assert_eq!(selected(&app), Some(9));
    app.next_row();
    assert_eq!(selected(&app), Some(0));
    app.next_row();
    assert_eq!(selected(&app), Some(1));
    app.prev_row();
    assert_eq!(selected(&app), Some(0));
    app.state = AppState::ReplayDBViewer { selected: None };
    app.next_row();
    assert_eq!(selected(&app), Some(0));
    app.state = AppState::ReplayDBViewer { selected: None };
    app.prev_row();
    assert_eq!(selected(&app), Some(0));
    app.state = AppState::ReplayDBViewer { selected: Some(8) };
    app.next_row();
    assert_eq!(selected(&app), Some(9));
}

#[test]
fn selection_in_an_empty_table_is_none() {
    let mut app = empty_app();
    app.next_row();
    assert_eq!(selected(&app), None);
    app.prev_row();
    assert_eq!(selected(&app), None);
    app.state = AppState::ReplayDBViewer { selected: Some(0) };
    assert_eq!(press(&mut app, Key::Char('e')), Action::Continue);
    assert_eq!(selected(&app), Some(0));
    assert_eq!(press(&mut app, Key::Down), Action::Continue);
    assert_eq!(selected(&app), None);
}

#[test]
fn rows_are_not_selected_while_the_editor_is_open() {
    let mut app = App::new();
    press(&mut app, Key::Char('e'));
    app.next_row();
    app.prev_row();
    assert_eq!(focus(&app), Focus::LabelData(0));
}

#[test]
fn viewer_keys() {
    let mut app = App::new();
    assert_eq!(press(&mut app, Key::Down), Action::Continue);
    assert_eq!(selected(&app), Some(1));
    assert_eq!(press(&mut app, Key::Up), Action::Continue);
    assert_eq!(selected(&app), Some(0));
    assert_eq!(press(&mut app, Key::Right), Action::SelectNextColumn);
    assert_eq!(press(&mut app, Key::Left), Action::SelectPreviousColumn);
    assert_eq!(press(&mut app, Key::Char('x')), Action::Continue);
    assert_eq!(press(&mut app, Key::Enter), Action::Continue);
    assert_eq!(press(&mut app, Key::Other), Action::Continue);
    assert_eq!(selected(&app), Some(0));
    assert_eq!(app.replay_db.world.count(), 10);
    assert_eq!(press(&mut app, Key::Esc), Action::Quit);
}

#[test]
fn editor_opens_on_the_selected_row() {
    let mut app = App::new();
    press(&mut app, Key::Down);
    press(&mut app, Key::Down);
    press(&mut app, Key::Char('e'));
    let third = app.replay_db.world.entity_at(2).unwrap();
    match &app.state {
        AppState::ReplayInfoEditor(editor) => {
            assert_eq!(editor.entity, third);
            assert_eq!(editor.focus, Focus::LabelData(0));
            assert_eq!(editor.labels[0].label.name, "Name");
            assert_eq!(editor.labels[1].label.name, "800 Split");
        }
        AppState::ReplayDBViewer { .. } => panic!("the editor is not open"),
    }
}

#[test]
fn escape_leaves_the_menu_then_the_editor() {
    let mut app = empty_app();
    press(&mut app, Key::Char('n'));
    assert_eq!(focus(&app), Focus::LabelAdd);
    press(&mut app, Key::Enter);
    assert_eq!(focus(&app), Focus::AddableLabel(0));
    press(&mut app, Key::Tab);
    assert_eq!(focus(&app), Focus::AddableLabel(1));
    press(&mut app, Key::Up);
    press(&mut app, Key::Up);
    assert_eq!(focus(&app), Focus::AddableLabel(2));
    assert_eq!(press(&mut app, Key::Esc), Action::Continue);
    assert_eq!(focus(&app), Focus::LabelAdd);
    assert!(staged(&app).is_empty());
    assert_eq!(press(&mut app, Key::Esc), Action::Continue);
    assert_eq!(selected(&app), Some(0));
    assert_eq!(app.replay_db.world.count(), 1);
}

#[test]
fn staged_edits_are_discarded_on_cancel() {
    let mut app = App::new();
    let first = app.replay_db.world.entity_at(0).unwrap();
    let before = row(&app, first);
    press(&mut app, Key::Char('e'));
    type_text(&mut app, "zzz");
    press(&mut app, Key::Down);
    press(&mut app, Key::Enter);
    assert_eq!(press(&mut app, Key::Esc), Action::Continue);
    assert_eq!(selected(&app), Some(0));
    assert_eq!(row(&app, first), before);
}

#[test]
fn add_then_remove_an_attribute_end_to_end() {
    let mut app = empty_app();
    let e = app.replay_db.spawn();
    app.replay_db.insert(0, e, Value::Text("Foo".to_string()));
    app.replay_db.insert(1, e, Value::Number(120));
    app.state = AppState::ReplayDBViewer { selected: Some(0) };

    press(&mut app, Key::Char('e'));
    assert_eq!(
        staged(&app),
        vec![("Name".to_string(), "Foo".to_string()), ("800 Split".to_string(), "120".to_string())]
    );
    go_to(&mut app, Focus::LabelAdd);
    press(&mut app, Key::Enter);
    assert_eq!(focus(&app), Focus::AddableLabel(0));
    press(&mut app, Key::Enter);
    assert_eq!(focus(&app), Focus::LabelData(2));
    assert_eq!(staged(&app)[2], ("PB".to_string(), String::new()));
    go_to(&mut app, Focus::SaveChanges);
    press(&mut app, Key::Enter);
    assert_eq!(selected(&app), Some(0));
    assert_eq!(
        row(&app, e),
        vec![Some(Value::Text("Foo".to_string())), Some(Value::Number(120)), Some(Value::Unit)]
    );

    press(&mut app, Key::Char('e'));
    assert_eq!(focus(&app), Focus::LabelData(0));
    press(&mut app, Key::Down);
    assert_eq!(focus(&app), Focus::LabelRemove(0));
    press(&mut app, Key::Enter);
    assert_eq!(focus(&app), Focus::LabelData(0));
    assert_eq!(
        staged(&app),
        vec![("800 Split".to_string(), "120".to_string()), ("PB".to_string(), String::new())]
    );
    go_to(&mut app, Focus::SaveChanges);
    press(&mut app, Key::Enter);
    assert_eq!(row(&app, e), vec![None, Some(Value::Number(120)), Some(Value::Unit)]);
    assert_eq!(app.replay_db.world.live_entities(), &vec![e]);
}

#[test]
fn removing_every_field_despawns_the_row() {
    let mut app = empty_app();
    let keep = app.replay_db.add_demo_row(2, 1, false);
    let e = app.replay_db.add_demo_row(3, 2, true);
    app.state = AppState::ReplayDBViewer { selected: Some(1) };
    press(&mut app, Key::Char('e'));
    assert_eq!(staged(&app).len(), 3);
    for left in [2usize, 1, 0] {
        assert_eq!(focus(&app), Focus::LabelData(0));
        press(&mut app, Key::Down);
        press(&mut app, Key::Enter);
        assert_eq!(staged(&app).len(), left);
    }
    assert_eq!(focus(&app), Focus::LabelAdd);
    press(&mut app, Key::Down);
    assert_eq!(focus(&app), Focus::SaveChanges);
    press(&mut app, Key::Enter);
    assert_eq!(selected(&app), Some(0));
    assert_eq!(app.replay_db.world.live_entities(), &vec![keep]);
    assert_eq!(row(&app, e), vec![None, None, None]);
}

#[test]
fn new_row_is_typed_in_and_saved() {
    let mut app = empty_app();
    press(&mut app, Key::Char('n'));
    let e = app.replay_db.world.entity_at(0).unwrap();
    press(&mut app, Key::Enter);
    press(&mut app, Key::Enter);
    assert_eq!(focus(&app), Focus::LabelData(0));
    type_text(&mut app, "Foo");
    go_to(&mut app, Focus::LabelAdd);
    press(&mut app, Key::Enter);
    press(&mut app, Key::Enter);
    assert_eq!(focus(&app), Focus::LabelData(1));
    type_text(&mut app, "12x");
    go_to(&mut app, Focus::SaveChanges);
    press(&mut app, Key::Enter);
    assert_eq!(focus(&app), Focus::SaveChanges);
    assert_eq!(row(&app, e), vec![None, None, None]);
    match &app.state {
        AppState::ReplayInfoEditor(editor) => assert_eq!(editor.rejected, Some(1)),
        AppState::ReplayDBViewer { .. } => panic!("the editor is not open"),
    }
    press(&mut app, Key::Up);
    press(&mut app, Key::Up);
    press(&mut app, Key::Up);
    assert_eq!(focus(&app), Focus::LabelData(1));
    assert_eq!(app.handle_key(Key::Other, Some(InputRequest::DeletePrevChar)), Action::Continue);
    assert_eq!(app.handle_key(Key::Other, None), Action::Continue);
    assert_eq!(staged(&app)[1], ("800 Split".to_string(), "12".to_string()));
    go_to(&mut app, Focus::SaveChanges);
    press(&mut app, Key::Enter);
    assert_eq!(selected(&app), Some(0));
    assert_eq!(
        row(&app, e),
        vec![Some(Value::Text("Foo".to_string())), Some(Value::Number(12)), None]
    );
}
