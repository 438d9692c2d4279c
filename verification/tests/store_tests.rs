use myshortcuts::store::{
    insert_default_config, Database, ReadStatement, StoreError, WriteStatement,
};

fn insert(name: &str, configuration: &str, kind: &str) -> WriteStatement {
    WriteStatement::Insert {
        name: String::from(name),
        configuration: String::from(configuration),
        kind: String::from(kind),
    }
}

#[test]
fn insert_and_select_shortcuts_in_kind_order() {
    let mut db = Database::new();
    db.query_write(&insert("s", "a;b", "SQLite")).unwrap();
    db.query_write(&insert("m", "x", "MongoDB")).unwrap();
    db.query_write(&insert("c", "echo hi", "Custom")).unwrap();
    let listing = db.query_read(&ReadStatement::SelectShortcuts).unwrap();
    assert_eq!(listing, "c;Custom;\nm;MongoDB;\ns;SQLite;\n");
}

#[test]
fn insert_duplicate_name_is_rejected() {
    let mut db = Database::new();
    db.query_write(&insert("a", "x", "Custom")).unwrap();
    let r = db.query_write(&insert("a", "y", "Redis"));
    assert_eq!(r, Err(StoreError::DuplicateName));
    let listing = db.query_read(&ReadStatement::SelectShortcuts).unwrap();
    assert_eq!(listing, "a;Custom;\n");
}

#[test]
fn insert_separator_in_name_is_rejected() {
    let mut db = Database::new();
    let r = db.query_write(&insert("a;b", "x", "Custom"));
    assert_eq!(r, Err(StoreError::InvalidText));
    assert_eq!(db.query_read(&ReadStatement::SelectShortcuts).unwrap(), "");
}

#[test]
fn select_configuration_appends_frame() {
    let mut db = Database::new();
    db.query_write(&insert("a", "h;5432;u", "PostgreSQL")).unwrap();
    let statement = ReadStatement::SelectConfiguration { name: String::from("a") };
    assert_eq!(db.query_read(&statement).unwrap(), "h;5432;u;\n");
    let missing = ReadStatement::SelectConfiguration { name: String::from("nope") };
    assert_eq!(db.query_read(&missing).unwrap(), "");
}

#[test]
fn update_name_rekeys_row() {
    let mut db = Database::new();
    db.query_write(&insert("c1", "echo hi", "Custom")).unwrap();
    let rename = WriteStatement::UpdateName {
        name: String::from("c1"),
        new_name: String::from("c2"),
    };
    db.query_write(&rename).unwrap();
    assert_eq!(db.query_read(&ReadStatement::SelectShortcuts).unwrap(), "c2;Custom;\n");
    let statement = ReadStatement::SelectConfiguration { name: String::from("c2") };
    assert_eq!(db.query_read(&statement).unwrap(), "echo hi;\n");
}

#[test]
fn update_name_collision_is_rejected() {
    let mut db = Database::new();
    db.query_write(&insert("a", "x", "Custom")).unwrap();
    db.query_write(&insert("b", "y", "Custom")).unwrap();
    let rename = WriteStatement::UpdateName {
        name: String::from("a"),
        new_name: String::from("b"),
    };
    assert_eq!(db.query_write(&rename), Err(StoreError::DuplicateName));
}

#[test]
fn update_missing_key_changes_nothing() {
    let mut db = Database::new();
    db.query_write(&insert("a", "x", "Custom")).unwrap();
    let rename = WriteStatement::UpdateName {
        name: String::from("ghost"),
        new_name: String::from("b"),
    };
    assert_eq!(db.query_write(&rename), Ok(()));
    let update = WriteStatement::UpdateConfiguration {
        name: String::from("ghost"),
        configuration: String::from("z"),
    };
    assert_eq!(db.query_write(&update), Ok(()));
    assert_eq!(db.query_read(&ReadStatement::SelectShortcuts).unwrap(), "a;Custom;\n");
}

#[test]
fn delete_removes_only_named_row() {
    let mut db = Database::new();
    db.query_write(&insert("a", "x", "Custom")).unwrap();
    db.query_write(&insert("b", "y", "Custom")).unwrap();
    db.query_write(&WriteStatement::Delete { name: String::from("a") }).unwrap();
    assert_eq!(db.query_read(&ReadStatement::SelectShortcuts).unwrap(), "b;Custom;\n");
    db.query_write(&WriteStatement::Delete { name: String::from("a") }).unwrap();
    assert_eq!(db.query_read(&ReadStatement::SelectShortcuts).unwrap(), "b;Custom;\n");
}

#[test]
fn init_empties_the_store() {
    let mut db = Database::new();
    db.query_write(&insert("a", "x", "Custom")).unwrap();
    db.init();
    assert_eq!(db.query_read(&ReadStatement::SelectShortcuts).unwrap(), "");
}

#[test]
fn insert_default_config_joins_placeholders() {
    let mut db = Database::new();
    insert_default_config(&mut db, vec![], "Redis", 6);
    assert_eq!(db.query_read(&ReadStatement::SelectShortcuts).unwrap(), "Default0;Redis;\n");
    let statement = ReadStatement::SelectConfiguration { name: String::from("Default0") };
    assert_eq!(
        db.query_read(&statement).unwrap(),
        "Required;Required;Required;Required;Required;Required;\n"
    );
}
