use vstd::prelude::*;

verus! {

#[verifier::external_type_specification]
#[verifier::external_body]
pub struct ExConnection(rusqlite::Connection);

#[verifier::external_type_specification]
#[verifier::external_body]
pub struct ExSqlError(rusqlite::Error);

/// The tables of catalog, highlights and bookmarks, created when absent.
pub const CREATE_BASE_TABLES: &'static str = "CREATE TABLE IF NOT EXISTS highlights (
    id          INTEGER PRIMARY KEY AUTOINCREMENT,
    book_title  TEXT    NOT NULL,
    cfi         TEXT    NOT NULL,
    text        TEXT    NOT NULL,
    color       TEXT    NOT NULL DEFAULT '#facc15',
    created_at  INTEGER NOT NULL DEFAULT 0
);
CREATE TABLE IF NOT EXISTS books (
    id          INTEGER PRIMARY KEY AUTOINCREMENT,
    title       TEXT    NOT NULL UNIQUE,
    filename    TEXT    NOT NULL,
    last_cfi    TEXT    NOT NULL DEFAULT '',
    cover       TEXT,
    created_at  INTEGER NOT NULL DEFAULT 0
);
CREATE TABLE IF NOT EXISTS bookmarks (
    id          INTEGER PRIMARY KEY AUTOINCREMENT,
    book_title  TEXT    NOT NULL,
    cfi         TEXT    NOT NULL,
    label       TEXT    NOT NULL,
    created_at  INTEGER NOT NULL DEFAULT 0
);";

/// The tables of collections and their links to highlights.
pub const CREATE_COLLECTION_TABLES: &'static str = "CREATE TABLE IF NOT EXISTS collections (
    id          INTEGER PRIMARY KEY AUTOINCREMENT,
    name        TEXT    NOT NULL UNIQUE,
    emoji       TEXT    NOT NULL DEFAULT '📌',
    created_at  INTEGER NOT NULL DEFAULT 0
);
CREATE TABLE IF NOT EXISTS highlight_collections (
    highlight_id   INTEGER NOT NULL,
    collection_id  INTEGER NOT NULL,
    PRIMARY KEY (highlight_id, collection_id),
    FOREIGN KEY (highlight_id) REFERENCES highlights(id) ON DELETE CASCADE,
    FOREIGN KEY (collection_id) REFERENCES collections(id) ON DELETE CASCADE
);";

/// Columns added after the first schema, in the order they are applied.
pub const ADD_HIGHLIGHT_COLOR: &'static str = "ALTER TABLE highlights ADD COLUMN color TEXT NOT NULL DEFAULT '#facc15'";

pub const ADD_HIGHLIGHT_CREATED_AT: &'static str = "ALTER TABLE highlights ADD COLUMN created_at INTEGER NOT NULL DEFAULT 0";

pub const ADD_HIGHLIGHT_NOTES: &'static str = "ALTER TABLE highlights ADD COLUMN notes TEXT NOT NULL DEFAULT ''";

pub const ADD_BOOK_LOCATIONS: &'static str = "ALTER TABLE books ADD COLUMN locations_data TEXT";

pub const ADD_BOOK_PERCENTAGE: &'static str = "ALTER TABLE books ADD COLUMN last_percentage REAL NOT NULL DEFAULT 0.0";

/// How SQLite's message for adding a column that exists begins.
pub const DUPLICATE_COLUMN: &'static str = "duplicate column name";

/// The message says that the column to add is there already.
pub open spec fn is_duplicate_column(msg: Seq<char>) -> bool {
    msg.len() >= DUPLICATE_COLUMN@.len() && msg.subrange(0, DUPLICATE_COLUMN@.len() as int)
        == DUPLICATE_COLUMN@
}

/// What became of one additive column migration.
#[derive(Clone, Debug, PartialEq, Eq)]
pub enum MigrationOutcome {
    Applied,
    /// The column was there already: the migration had run before.
    AlreadyApplied,
    /// Any other failure, with SQLite's message.
    Failed(String),
}

/// Why the schema could not be brought up to date.
#[derive(Clone, Debug, PartialEq, Eq)]
pub enum SchemaError {
    /// Creating the tables failed, with SQLite's message.
    Tables(String),
    /// An additive migration failed for another reason than an existing
    /// column, with SQLite's message.
    Migration(String),
}

/// Tells whether a failure message says that the column exists.
pub fn is_duplicate_column_message(msg: &str) -> (r: bool)
    ensures
        r == is_duplicate_column(msg@),
{
    let pat = DUPLICATE_COLUMN;
    let lp = pat.unicode_len();
    let lm = msg.unicode_len();
    if lm < lp {
        return false;
    }
    let mut i: usize = 0;
    while i < lp
        invariant
            pat@ == DUPLICATE_COLUMN@,
            lp == pat@.len(),
            lm == msg@.len(),
            lp <= lm,
            i <= lp,
            forall|j: int| 0 <= j < i ==> msg@[j] == pat@[j],
        decreases lp - i,
    {
        if msg.get_char(i) != pat.get_char(i) {
            assert(msg@.subrange(0, lp as int)[i as int] != pat@[i as int]);
            return false;
        }
        i = i + 1;
    }
    assert(msg@.subrange(0, lp as int) =~= pat@);
    true
}

/// Classifies the result of one additive migration, given as SQLite's
/// message on failure.
pub fn classify_migration(result: Result<(), String>) -> (r: MigrationOutcome)
    ensures
        result is Ok ==> r == MigrationOutcome::Applied,
        result is Err && is_duplicate_column(result->Err_0@) ==> r
            == MigrationOutcome::AlreadyApplied,
        result is Err && !is_duplicate_column(result->Err_0@) ==> r == MigrationOutcome::Failed(
            result->Err_0,
        ),
{
    match result {
        Ok(()) => MigrationOutcome::Applied,
        Err(msg) => {
            if is_duplicate_column_message(msg.as_str()) {
                MigrationOutcome::AlreadyApplied
            } else {
                MigrationOutcome::Failed(msg)
            }
        },
    }
}

/// Relies on rusqlite::Connection::execute_batch: runs the statements of `sql`
/// on the database, stopping at the first that fails.
#[verifier::external_body]
fn run_batch(conn: &rusqlite::Connection, sql: &str) -> (r: Result<(), rusqlite::Error>) {
    conn.execute_batch(sql)
}

/// Relies on rusqlite::Error's Display: for a failed statement, the message
/// that SQLite gave.
#[verifier::external_body]
fn error_message(e: &rusqlite::Error) -> (r: String) {
    e.to_string()
}

/// The statements that bring the schema up to date, in the order they run:
/// the base tables, the additive column migrations, the collection tables.
pub open spec fn schema_sequence() -> Seq<&'static str> {
    seq![
        CREATE_BASE_TABLES,
        ADD_HIGHLIGHT_COLOR,
        ADD_HIGHLIGHT_CREATED_AT,
        ADD_HIGHLIGHT_NOTES,
        ADD_BOOK_LOCATIONS,
        ADD_BOOK_PERCENTAGE,
        CREATE_COLLECTION_TABLES,
    ]
}

/// The statements of `schema_sequence`, to run in order.
pub fn schema_statements() -> (r: Vec<&'static str>)
    ensures
        r@ == schema_sequence(),
{
    let mut v: Vec<&'static str> = Vec::new();
    v.push(CREATE_BASE_TABLES);
    v.push(ADD_HIGHLIGHT_COLOR);
    v.push(ADD_HIGHLIGHT_CREATED_AT);
    v.push(ADD_HIGHLIGHT_NOTES);
    v.push(ADD_BOOK_LOCATIONS);
    v.push(ADD_BOOK_PERCENTAGE);
    v.push(CREATE_COLLECTION_TABLES);
    assert(v@ =~= schema_sequence());
    v
}

/// The first and the last statement create tables; the others add columns.
pub open spec fn is_table_step(index: int) -> bool {
    index == 0 || index == 6
}

/// What running step `index` of the schema, with the given outcome (SQLite's
/// message on failure), decides: `None` to go on to the next step, or the
/// result of the whole initialization.
pub open spec fn step_decision(index: int, outcome: Result<(), String>) -> Option<Result<(), SchemaError>> {
    match outcome {
        Ok(()) => if index == 6 {
            Some(Ok(()))
        } else {
            None
        },
        Err(msg) => if is_table_step(index) {
            Some(Err(SchemaError::Tables(msg)))
        } else if is_duplicate_column(msg@) {
            None
        } else {
            Some(Err(SchemaError::Migration(msg)))
        },
    }
}

/// Decides what follows step `index` of the schema from its outcome.
pub fn schema_step(index: usize, outcome: Result<(), String>) -> (r: Option<Result<(), SchemaError>>)
    requires
        index < 7,
    ensures
        r == step_decision(index as int, outcome),
{
    match outcome {
        Ok(()) => {
            if index == 6 {
                Some(Ok(()))
            } else {
                None
            }
        },
        Err(msg) => {
            if index == 0 || index == 6 {
                Some(Err(SchemaError::Tables(msg)))
            } else {
                match classify_migration(Err(msg)) {
                    MigrationOutcome::Failed(m) => Some(Err(SchemaError::Migration(m))),
                    _ => None,
                }
            }
        },
    }
}

/// Runs the statements of `schema_sequence` in order on the database: a
/// failure to create tables, or a migration failure other than an existing
/// column, ends the run with that error; a column that exists already counts
/// as added. So this is safe to run at every start, and no column or row is
/// ever removed.
pub fn initialize(conn: &rusqlite::Connection) -> (r: Result<(), SchemaError>)
    ensures
        r is Ok || r matches Err(SchemaError::Tables(_)) || (r matches Err(SchemaError::Migration(m))
            && !is_duplicate_column(m@)),
{
    let statements = schema_statements();
    let mut i: usize = 0;
    while i < statements.len()
        invariant
            statements@ == schema_sequence(),
            i <= 7,
        decreases 7 - i,
    {
        let outcome = match run_batch(conn, statements[i]) {
            Ok(()) => Ok(()),
            Err(e) => Err(error_message(&e)),
        };
        match schema_step(i, outcome) {
            Some(result) => {
                return result;
            },
            None => {},
        }
        i = i + 1;
    }
    Ok(())
}

} // verus!
