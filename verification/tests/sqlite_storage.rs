use rusqlite::{params_from_iter, Connection};
use snippet_store::selector::{select_storage, StorageKind};
use snippet_store::sqlite_storage::{
    SqliteStorage, Statement, CREATE_TABLE, DELETE, SELECT, UPSERT,
};
use snippet_store::storage::StorageError;

fn run(conn: &Connection, statement: &Statement) -> Result<usize, StorageError> {
    conn.execute(&statement.sql, params_from_iter(statement.params.iter()))
        .map_err(|_| StorageError::WriteFailed)
}

fn read(conn: &Connection, statement: &Statement) -> Result<Option<(String, String)>, StorageError> {
    let mut prepared = conn.prepare(&statement.sql).map_err(|_| StorageError::Unavailable)?;
    let mut rows = prepared
        .query(params_from_iter(statement.params.iter()))
        .map_err(|_| StorageError::Unavailable)?;
    match rows.next().map_err(|_| StorageError::Unavailable)? {
        Some(row) => {
            let content: String = row.get(0).map_err(|_| StorageError::Unavailable)?;
            let created_at: String = row.get(1).map_err(|_| StorageError::Unavailable)?;
            Ok(Some((content, created_at)))
        }
        None => Ok(None),
    }
}

fn open() -> (SqliteStorage, Connection) {
    let store = SqliteStorage::new(String::from(":memory:"));
    let conn = Connection::open(store.path()).unwrap();
    let created = run(&conn, &store.create_table());
    assert_eq!(SqliteStorage::opened(created), Ok(()));
    (store, conn)
}

fn count(conn: &Connection) -> i64 {
    conn.query_row("SELECT COUNT(*) FROM snippets", [], |row| row.get(0)).unwrap()
}

#[test]
fn greeting_scenario_on_the_relational_store() {
    let (store, conn) = open();
    let added = run(&conn, &store.add("greeting", String::from("hello")));
    assert_eq!(SqliteStorage::added(added), Ok(()));
    let shown = SqliteStorage::found(read(&conn, &store.get("greeting"))).unwrap();
    assert!(shown.contains("hello"));
    assert!(shown.contains("[Created at:"));
    assert_eq!(SqliteStorage::deleted(run(&conn, &store.delete("greeting"))), Ok(true));
    assert_eq!(SqliteStorage::found(read(&conn, &store.get("greeting"))), None);
}

#[test]
fn relational_get_after_add_shows_content_and_a_timestamp() {
    let (store, conn) = open();
    run(&conn, &store.add("note", String::from("body"))).unwrap();
    let shown = SqliteStorage::found(read(&conn, &store.get("note"))).unwrap();
    let prefix = "body\n[Created at: ";
    assert!(shown.starts_with(prefix));
    let stamp = &shown[prefix.len()..shown.len() - 1];
    assert!(chrono::DateTime::parse_from_rfc3339(stamp).is_ok());
}

#[test]
fn relational_add_twice_keeps_one_row_with_the_second_content() {
    let (store, conn) = open();
    run(&conn, &store.add_at("n", String::from("one"), String::from("t1"))).unwrap();
    run(&conn, &store.add_at("m", String::from("other"), String::from("t0"))).unwrap();
    run(&conn, &store.add_at("n", String::from("two"), String::from("t2"))).unwrap();
    assert_eq!(count(&conn), 2);
    assert_eq!(
        SqliteStorage::found(read(&conn, &store.get("n"))),
        Some(String::from("two\n[Created at: t2]"))
    );
    assert_eq!(
        SqliteStorage::found(read(&conn, &store.get("m"))),
        Some(String::from("other\n[Created at: t0]"))
    );
}

#[test]
fn relational_delete_of_an_absent_name_changes_nothing() {
    let (store, conn) = open();
    run(&conn, &store.add_at("kept", String::from("k"), String::from("t"))).unwrap();
    assert_eq!(SqliteStorage::deleted(run(&conn, &store.delete("missing"))), Ok(false));
    assert_eq!(count(&conn), 1);
    assert_eq!(
        SqliteStorage::found(read(&conn, &store.get("kept"))),
        Some(String::from("k\n[Created at: t]"))
    );
    assert_eq!(SqliteStorage::deleted(run(&conn, &store.delete("kept"))), Ok(true));
    assert_eq!(SqliteStorage::deleted(run(&conn, &store.delete("kept"))), Ok(false));
    assert_eq!(count(&conn), 0);
}

#[test]
fn making_the_table_twice_keeps_the_rows() {
    let (store, conn) = open();
    run(&conn, &store.add_at("n", String::from("c"), String::from("t"))).unwrap();
    assert_eq!(SqliteStorage::opened(run(&conn, &store.create_table())), Ok(()));
    assert_eq!(count(&conn), 1);
}

#[test]
fn the_statements_and_their_parameters() {
    let store = SqliteStorage::new(String::from("snippets.db"));
    assert_eq!(store.path(), "snippets.db");

    let statement = store.create_table();
    assert_eq!(statement.sql, CREATE_TABLE);
    assert!(statement.params.is_empty());
    assert_eq!(
        CREATE_TABLE,
        "CREATE TABLE IF NOT EXISTS snippets (name TEXT PRIMARY KEY, content TEXT NOT NULL, created_at TEXT NOT NULL)"
    );

    let statement = store.add_at("n", String::from("c"), String::from("t"));
    assert_eq!(statement.sql, UPSERT);
    assert_eq!(
        UPSERT,
        "INSERT OR REPLACE INTO snippets (name, content, created_at) VALUES (?1, ?2, ?3)"
    );
    assert_eq!(statement.params, vec!["n", "c", "t"]);

    let statement = store.add("n", String::from("c"));
    assert_eq!(statement.sql, UPSERT);
    assert_eq!(statement.params.len(), 3);
    assert_eq!(statement.params[0], "n");
    assert_eq!(statement.params[1], "c");
    assert!(!statement.params[2].is_empty());

    let statement = store.get("n");
    assert_eq!(statement.sql, SELECT);
    assert_eq!(SELECT, "SELECT content, created_at FROM snippets WHERE name = ?1");
    assert_eq!(statement.params, vec!["n"]);

    let statement = store.delete("n");
    assert_eq!(statement.sql, DELETE);
    assert_eq!(DELETE, "DELETE FROM snippets WHERE name = ?1");
    assert_eq!(statement.params, vec!["n"]);
}

#[test]
fn what_the_answers_of_the_engine_mean() {
    assert_eq!(SqliteStorage::opened(Ok(0)), Ok(()));
    assert_eq!(SqliteStorage::opened(Err(StorageError::WriteFailed)), Err(StorageError::Unavailable));
    assert_eq!(SqliteStorage::added(Ok(1)), Ok(()));
    assert_eq!(SqliteStorage::added(Err(StorageError::Unavailable)), Err(StorageError::WriteFailed));
    assert_eq!(
        SqliteStorage::found(Ok(Some((String::from("c"), String::from("t"))))),
        Some(String::from("c\n[Created at: t]"))
    );
    assert_eq!(SqliteStorage::found(Ok(None)), None);
    assert_eq!(SqliteStorage::found(Err(StorageError::Unavailable)), None);
    assert_eq!(SqliteStorage::deleted(Ok(1)), Ok(true));
    assert_eq!(SqliteStorage::deleted(Ok(2)), Ok(true));
    assert_eq!(SqliteStorage::deleted(Ok(0)), Ok(false));
    assert_eq!(SqliteStorage::deleted(Err(StorageError::WriteFailed)), Err(StorageError::WriteFailed));
    assert_eq!(SqliteStorage::deleted(Err(StorageError::Unavailable)), Err(StorageError::WriteFailed));
}

#[test]
fn a_failing_statement_is_reported() {
    let store = SqliteStorage::new(String::from(":memory:"));
    let conn = Connection::open(store.path()).unwrap();
    // no table yet
    let added = run(&conn, &store.add("n", String::from("c")));
    assert_eq!(SqliteStorage::added(added), Err(StorageError::WriteFailed));
    assert_eq!(SqliteStorage::found(read(&conn, &store.get("n"))), None);
    assert_eq!(
        SqliteStorage::deleted(run(&conn, &store.delete("n"))),
        Err(StorageError::WriteFailed)
    );
}

#[test]
fn a_failed_delete_differs_from_a_miss() {
    let (store, conn) = open();
    let miss = SqliteStorage::deleted(run(&conn, &store.delete("missing")));
    assert_eq!(miss, Ok(false));
    conn.execute("DROP TABLE snippets", []).unwrap();
    let failed = SqliteStorage::deleted(run(&conn, &store.delete("missing")));
    assert_eq!(failed, Err(StorageError::WriteFailed));
    assert_ne!(miss, failed);
}

#[test]
fn the_selected_relational_store_opens_at_its_location() {
    let choice = select_storage("SQLITE::memory:");
    assert_eq!(choice.kind, StorageKind::Sqlite);
    let store = SqliteStorage::new(choice.location);
    assert_eq!(store.path(), ":memory:");
    assert!(Connection::open(store.path()).is_ok());
}
