use rusqlite::Connection;
use shelf_store::schema::{
    classify_migration, is_duplicate_column_message, schema_statements, schema_step,
    ADD_BOOK_PERCENTAGE, ADD_HIGHLIGHT_COLOR, CREATE_BASE_TABLES, CREATE_COLLECTION_TABLES,
};
use shelf_store::{initialize, MigrationOutcome, SchemaError};

#[test]
fn initialize_is_idempotent() {
    let conn = Connection::open_in_memory().unwrap();
    assert_eq!(initialize(&conn), Ok(()));
    assert_eq!(initialize(&conn), Ok(()));
    let n: i64 = conn
        .query_row(
            "SELECT count(*) FROM sqlite_master WHERE type = 'table' AND name IN \
             ('books','highlights','bookmarks','collections','highlight_collections')",
            [],
            |r| r.get(0),
        )
        .unwrap();
    assert_eq!(n, 5);
}

#[test]
fn initialize_upgrades_an_older_schema() {
    let conn = Connection::open_in_memory().unwrap();
    conn.execute_batch(
        "CREATE TABLE highlights (id INTEGER PRIMARY KEY AUTOINCREMENT, book_title TEXT NOT NULL,
         cfi TEXT NOT NULL, text TEXT NOT NULL);
         CREATE TABLE books (id INTEGER PRIMARY KEY AUTOINCREMENT, title TEXT NOT NULL UNIQUE,
         filename TEXT NOT NULL, last_cfi TEXT NOT NULL DEFAULT '', cover TEXT);
         INSERT INTO books (title, filename) VALUES ('Old', 'old.epub');",
    )
    .unwrap();
    assert_eq!(initialize(&conn), Ok(()));
    let (pct, loc): (f64, Option<String>) = conn
        .query_row(
            "SELECT last_percentage, locations_data FROM books WHERE title = 'Old'",
            [],
            |r| Ok((r.get(0)?, r.get(1)?)),
        )
        .unwrap();
    assert_eq!(pct, 0.0);
    assert_eq!(loc, None);
    conn.execute(
        "INSERT INTO highlights (book_title, cfi, text, notes, color) VALUES ('Old', 'c', 't', 'n', '#fff')",
        [],
    )
    .unwrap();
}

#[test]
fn duplicate_column_message_is_recognised() {
    assert!(is_duplicate_column_message("duplicate column name: color"));
    assert!(!is_duplicate_column_message("no such table: books"));
    assert!(!is_duplicate_column_message("duplicate"));
}

#[test]
fn classify_migration_outcomes() {
    assert_eq!(classify_migration(Ok(())), MigrationOutcome::Applied);
    assert_eq!(
        classify_migration(Err("duplicate column name: notes".to_string())),
        MigrationOutcome::AlreadyApplied
    );
    assert_eq!(
        classify_migration(Err("disk I/O error".to_string())),
        MigrationOutcome::Failed("disk I/O error".to_string())
    );
}

#[test]
fn schema_statements_run_tables_then_columns_then_collections() {
    let v = schema_statements();
    assert_eq!(v.len(), 7);
    assert_eq!(v[0], CREATE_BASE_TABLES);
    assert_eq!(v[1], ADD_HIGHLIGHT_COLOR);
    assert_eq!(v[5], ADD_BOOK_PERCENTAGE);
    assert_eq!(v[6], CREATE_COLLECTION_TABLES);
}

#[test]
fn schema_step_decisions() {
    let dup = || Err("duplicate column name: notes".to_string());
    let other = || Err("disk I/O error".to_string());
    assert_eq!(schema_step(0, Ok(())), None);
    assert_eq!(schema_step(0, other()), Some(Err(SchemaError::Tables("disk I/O error".to_string()))));
    assert_eq!(schema_step(3, Ok(())), None);
    assert_eq!(schema_step(3, dup()), None);
    assert_eq!(
        schema_step(3, other()),
        Some(Err(SchemaError::Migration("disk I/O error".to_string())))
    );
    assert_eq!(schema_step(6, Ok(())), Some(Ok(())));
    assert_eq!(schema_step(6, dup()), Some(Err(SchemaError::Tables("duplicate column name: notes".to_string()))));
}
