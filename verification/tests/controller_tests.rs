use myshortcuts::controller::{App, Key};
use myshortcuts::pane::State;
use myshortcuts::store::{format_config, Database, ReadStatement, WriteStatement};
use myshortcuts::objects::Configuration;

fn seeded(rows: &[(&str, &str, &str)]) -> (App, Database) {
    let mut db = Database::new();
    for (name, configuration, kind) in rows {
        db.query_write(&WriteStatement::Insert {
            name: String::from(*name),
            configuration: String::from(*configuration),
            kind: String::from(*kind),
        })
        .unwrap();
    }
    let mut app = App::new();
    app.update_widgets_args(&db);
    (app, db)
}

fn shortcut_row(app: &App) -> usize {
    match app.shortcuts.get_state() {
        State::Selected { row, .. } => row,
        State::WasSelected { row } => row,
        State::Editing { row, .. } => row,
    }
}

fn listing(db: &Database) -> String {
    db.query_read(&ReadStatement::SelectShortcuts).unwrap()
}

#[test]
fn down_cycles_back_after_len_presses() {
    let (mut app, mut db) = seeded(&[
        ("a", "x", "Custom"),
        ("b", "y", "Custom"),
        ("c", "z", "Custom"),
    ]);
    assert_eq!(shortcut_row(&app), 0);
    let mut seen = Vec::new();
    for _ in 0..3 {
        app.handle_key(&mut db, Key::Down);
        seen.push(shortcut_row(&app));
    }
    assert_eq!(seen, vec![1, 2, 0]);
}

#[test]
fn up_cycles_back_after_len_presses() {
    let (mut app, mut db) = seeded(&[
        ("a", "x", "Custom"),
        ("b", "y", "Custom"),
        ("c", "z", "Custom"),
    ]);
    let mut seen = Vec::new();
    for _ in 0..3 {
        app.handle_key(&mut db, Key::Up);
        seen.push(shortcut_row(&app));
    }
    assert_eq!(seen, vec![2, 1, 0]);
}

#[test]
fn left_stays_at_leftmost_column() {
    let (mut app, mut db) = seeded(&[("a", "x", "Custom")]);
    app.shortcuts.set_state(State::Selected { row: 0, column: 0 });
    for _ in 0..3 {
        app.handle_key(&mut db, Key::Left);
        match app.shortcuts.get_state() {
            State::Selected { column, .. } => assert_eq!(column, 0),
            _ => panic!("focus must stay on the shortcut pane"),
        }
    }
}

#[test]
fn right_hands_focus_off_exactly_once_per_boundary_press() {
    let (mut app, mut db) = seeded(&[("a", "x", "Custom")]);
    // The shortcut pane starts selected at its last column.
    app.handle_key(&mut db, Key::Right);
    assert!(matches!(app.shortcuts.get_state(), State::WasSelected { .. }));
    match app.configurations.get_state() {
        State::Selected { column, .. } => assert_eq!(column, 0),
        _ => panic!("configurations must be focused after the hand-off"),
    }
    // The next press only advances the newly focused pane's column.
    app.handle_key(&mut db, Key::Right);
    match app.configurations.get_state() {
        State::Selected { column, .. } => assert_eq!(column, 1),
        _ => panic!("configurations must keep focus within its columns"),
    }
    // Only the press after that hands focus back.
    app.handle_key(&mut db, Key::Right);
    assert!(matches!(app.shortcuts.get_state(), State::Selected { .. }));
    assert!(matches!(app.configurations.get_state(), State::WasSelected { .. }));
}

#[test]
fn edit_then_commit_renames_and_next_sync_shows_it() {
    let (mut app, mut db) = seeded(&[("c1", "echo hi", "Custom")]);
    app.handle_key(&mut db, Key::Char('e'));
    match app.shortcuts.get_state() {
        State::Editing { ref buffer, cursor, .. } => {
            assert_eq!(buffer, "c1");
            assert_eq!(cursor, 2);
        }
        _ => panic!("edit mode expected"),
    }
    app.handle_key(&mut db, Key::Backspace);
    app.handle_key(&mut db, Key::Char('2'));
    app.update_widgets_args(&db);
    app.handle_key(&mut db, Key::Enter);
    assert_eq!(listing(&db), "c2;Custom;\n");
    app.update_widgets_args(&db);
    assert_eq!(app.shortcuts.get_values()[0].get_name(), "c2");
    assert!(matches!(app.shortcuts.get_state(), State::Selected { .. }));
}

#[test]
fn backspace_never_empties_the_buffer() {
    let (mut app, mut db) = seeded(&[("c", "echo hi", "Custom")]);
    app.handle_key(&mut db, Key::Char('e'));
    app.handle_key(&mut db, Key::Backspace);
    match app.shortcuts.get_state() {
        State::Editing { ref buffer, .. } => assert_eq!(buffer, "c"),
        _ => panic!("edit mode expected"),
    }
}

#[test]
fn deleting_the_sole_shortcut_reseeds_one_default_custom_row() {
    let (mut app, mut db) = seeded(&[("only", "x", "Redis")]);
    app.handle_key(&mut db, Key::Char('r'));
    assert_eq!(listing(&db), "Default0;Custom;\n");
    let statement = ReadStatement::SelectConfiguration { name: String::from("Default0") };
    assert_eq!(db.query_read(&statement).unwrap(), "echo Welcome on MyShortcuts !;\n");
}

#[test]
fn deleting_one_of_many_keeps_the_rest() {
    let (mut app, mut db) = seeded(&[("a", "x", "Custom"), ("b", "y", "Custom")]);
    app.handle_key(&mut db, Key::Char('r'));
    assert_eq!(listing(&db), "b;Custom;\n");
}

#[test]
fn custom_shortcut_launches_the_literal_command() {
    let (mut app, mut db) = seeded(&[("hi", "echo hi", "Custom")]);
    let command = app.handle_key(&mut db, Key::Char('o'));
    assert_eq!(command, Some(String::from("echo hi")));
    assert!(app.should_exit());
}

#[test]
fn postgresql_shortcut_launches_through_the_builder() {
    let (mut app, mut db) = seeded(&[(
        "pg",
        "db.local;5432;alice;secret;mydb;",
        "PostgreSQL",
    )]);
    let command = app.handle_key(&mut db, Key::Char('o'));
    assert_eq!(
        command,
        Some(String::from(
            "export PGPASSWORD='secret' && psql -h db.local -p 5432 -U alice -d mydb"
        ))
    );
}

#[test]
fn popup_flow_creates_a_shortcut_of_the_highlighted_kind() {
    let (mut app, mut db) = seeded(&[("a", "x", "Custom")]);
    app.handle_key(&mut db, Key::Char('a'));
    assert_eq!(app.pop_up(), (true, 0));
    app.handle_key(&mut db, Key::Down);
    app.handle_key(&mut db, Key::Down);
    app.handle_key(&mut db, Key::Down);
    assert_eq!(app.pop_up(), (true, 3));
    app.handle_key(&mut db, Key::Enter);
    assert_eq!(app.pop_up(), (false, 0));
    assert_eq!(listing(&db), "a;Custom;\nDefault0;PostgreSQL;\n");
    let statement = ReadStatement::SelectConfiguration { name: String::from("Default0") };
    assert_eq!(
        db.query_read(&statement).unwrap(),
        "Required;Required;Required;Required;Required;Required;\n"
    );
    assert!(matches!(app.shortcuts.get_state(), State::Selected { .. }));
}

#[test]
fn popup_up_wraps_to_the_last_kind_and_esc_cancels() {
    let (mut app, mut db) = seeded(&[("a", "x", "Custom")]);
    app.handle_key(&mut db, Key::Char('a'));
    app.handle_key(&mut db, Key::Up);
    assert_eq!(app.pop_up(), (true, 8));
    app.handle_key(&mut db, Key::Esc);
    assert_eq!(app.pop_up(), (false, 0));
    assert_eq!(listing(&db), "a;Custom;\n");
}

#[test]
fn reset_field_clears_value_and_repersists() {
    let (mut app, mut db) = seeded(&[("pg", "h;5432;u;pw;db;", "PostgreSQL")]);
    app.handle_key(&mut db, Key::Right);
    app.handle_key(&mut db, Key::Down);
    app.handle_key(&mut db, Key::Char('r'));
    let statement = ReadStatement::SelectConfiguration { name: String::from("pg") };
    assert_eq!(db.query_read(&statement).unwrap(), "h;;u;pw;db;;;\n");
}

#[test]
fn mask_toggle_reaches_the_configuration_pane() {
    let (mut app, mut db) = seeded(&[("a", "x", "Custom")]);
    assert!(app.configurations.is_hidden());
    app.handle_key(&mut db, Key::Char('h'));
    assert!(!app.configurations.is_hidden());
}

#[test]
fn quit_sets_the_exit_flag() {
    let (mut app, mut db) = seeded(&[("a", "x", "Custom")]);
    assert!(!app.should_exit());
    app.handle_key(&mut db, Key::Char('q'));
    assert!(app.should_exit());
}

#[test]
fn sync_projects_fields_through_the_scheme() {
    let (app, _db) = seeded(&[("pg", "h;5432;u", "PostgreSQL")]);
    let fields = app.configurations.get_values();
    assert_eq!(fields.len(), 6);
    assert_eq!(fields[0].get_kind(), "Host");
    assert_eq!(fields[0].get_value(), "h");
    assert_eq!(fields[1].get_value(), "5432");
    assert_eq!(fields[2].get_value(), "u");
    assert_eq!(fields[3].get_value(), "");
    assert_eq!(fields[5].get_kind(), "Script Path");
}

#[test]
fn sync_degrades_unknown_kind_to_single_unknown_field() {
    let (app, _db) = seeded(&[("odd", "v1;v2", "NotAKind")]);
    let fields = app.configurations.get_values();
    assert_eq!(fields.len(), 1);
    assert_eq!(fields[0].get_kind(), "Unknown");
    assert_eq!(fields[0].get_value(), "v1");
}

#[test]
fn persisted_fields_round_trip_up_to_scheme_length() {
    let values = vec![
        Configuration::from("db.local", "Host"),
        Configuration::from("5432", "Port"),
        Configuration::from("alice", "Username"),
    ];
    let stored = format_config(&values);
    assert_eq!(stored, "db.local;5432;alice;");
    let (app, _db) = seeded(&[("pg", stored.as_str(), "PostgreSQL")]);
    let fields = app.configurations.get_values();
    assert_eq!(fields.len(), 6);
    assert_eq!(fields[0].get_value(), "db.local");
    assert_eq!(fields[1].get_value(), "5432");
    assert_eq!(fields[2].get_value(), "alice");
    assert_eq!(fields[3].get_value(), "");
    assert_eq!(fields[4].get_value(), "");
    assert_eq!(fields[5].get_value(), "");
}

#[test]
fn sync_with_empty_store_keeps_one_renderable_row() {
    let db = Database::new();
    let mut app = App::new();
    app.update_widgets_args(&db);
    assert_eq!(app.shortcuts.get_values().len(), 1);
    assert_eq!(app.shortcuts.get_values()[0].get_name(), "Default0");
    assert_eq!(app.configurations.get_values().len(), 1);
}
