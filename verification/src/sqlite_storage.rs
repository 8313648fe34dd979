//! The relational store: one table `snippets` with one row for each
//! snippet. The rows live in the database engine, which the caller drives.
//! This module decides what the engine is asked and what its answers mean:
//! each operation is a statement to run, and a reading of what came back.

use vstd::prelude::*;
use crate::clock::local_timestamp;
use crate::snippet::{render, rendered, SnippetView};
use crate::storage::{text_of, StorageError};

verus! {

/// Makes the table where it is missing. Running it again changes nothing.
pub const CREATE_TABLE: &'static str =
    "CREATE TABLE IF NOT EXISTS snippets (name TEXT PRIMARY KEY, content TEXT NOT NULL, created_at TEXT NOT NULL)";

/// Writes the row of a name over the row that is there, in one statement.
pub const UPSERT: &'static str =
    "INSERT OR REPLACE INTO snippets (name, content, created_at) VALUES (?1, ?2, ?3)";

/// Reads the row of a name: one row at most.
pub const SELECT: &'static str = "SELECT content, created_at FROM snippets WHERE name = ?1";

/// Removes the row of a name.
pub const DELETE: &'static str = "DELETE FROM snippets WHERE name = ?1";

/// A statement with the values of its numbered parameters, for the caller
/// to run.
#[derive(Debug)]
pub struct Statement {
    pub sql: String,
    pub params: Vec<String>,
}

impl DeepView for Statement {
    type V = (Seq<char>, Seq<Seq<char>>);

    open spec fn deep_view(&self) -> (Seq<char>, Seq<Seq<char>>) {
        (self.sql@, self.params.deep_view())
    }
}

/// The relational store at one database file.
#[derive(Debug)]
pub struct SqliteStorage {
    path: String,
}

impl SqliteStorage {
    /// The path of the database file.
    pub closed spec fn location(&self) -> Seq<char> {
        self.path@
    }

    pub fn new(path: String) -> (storage: Self)
        ensures
            storage.location() == path@,
    {
        SqliteStorage { path }
    }

    /// The path of the database file, which the caller opens.
    pub fn path(&self) -> (path: &str)
        ensures
            path@ == self.location(),
    {
        self.path.as_str()
    }

    /// The statement to run once the database is open.
    pub fn create_table(&self) -> (statement: Statement)
        ensures
            statement.deep_view() == (CREATE_TABLE@, Seq::<Seq<char>>::empty()),
    {
        let statement = Statement { sql: CREATE_TABLE.to_owned(), params: Vec::new() };
        assert(statement.params.deep_view() =~= Seq::empty());
        statement
    }

    /// What opening the database and making the table came to: a failure of
    /// either means that there is no store.
    pub fn opened(created: Result<usize, StorageError>) -> (ready: Result<(), StorageError>)
        ensures
            ready == (match created {
                Ok(_) => Ok::<(), StorageError>(()),
                Err(_) => Err(StorageError::Unavailable),
            }),
    {
        match created {
            Ok(_) => Ok(()),
            Err(_) => Err(StorageError::Unavailable),
        }
    }

    /// The statement that stores `content` under `name`, stamped with the
    /// local time of the call.
    pub fn add(&self, name: &str, content: String) -> (statement: Statement)
        ensures
            exists|created_at: Seq<char>|
                created_at.len() > 0 && statement.deep_view() == (
                    UPSERT@,
                    seq![name@, content@, created_at],
                ),
    {
        let created_at = local_timestamp();
        let ghost stamp = created_at@;
        let statement = self.add_at(name, content, created_at);
        assert(stamp.len() > 0 && statement.deep_view() == (
            UPSERT@,
            seq![name@, content@, stamp],
        ));
        statement
    }

    /// The statement that stores `content` under `name` with the creation
    /// time `created_at`.
    pub fn add_at(&self, name: &str, content: String, created_at: String) -> (statement: Statement)
        ensures
            statement.deep_view() == (UPSERT@, seq![name@, content@, created_at@]),
    {
        let mut params: Vec<String> = Vec::new();
        params.push(name.to_owned());
        params.push(content);
        params.push(created_at);
        assert(params.deep_view() =~= seq![name@, content@, created_at@]);
        Statement { sql: UPSERT.to_owned(), params }
    }

    /// What running the statement of `add` came to, given the number of rows
    /// it changed or its failure.
    pub fn added(affected: Result<usize, StorageError>) -> (done: Result<(), StorageError>)
        ensures
            done == (match affected {
                Ok(_) => Ok::<(), StorageError>(()),
                Err(_) => Err(StorageError::WriteFailed),
            }),
    {
        match affected {
            Ok(_) => Ok(()),
            Err(_) => Err(StorageError::WriteFailed),
        }
    }

    /// The statement that reads the snippet stored under `name`.
    pub fn get(&self, name: &str) -> (statement: Statement)
        ensures
            statement.deep_view() == (SELECT@, seq![name@]),
    {
        let mut params: Vec<String> = Vec::new();
        params.push(name.to_owned());
        assert(params.deep_view() =~= seq![name@]);
        Statement { sql: SELECT.to_owned(), params }
    }

    /// What `get` returns, given the row that the statement of `get` gave
    /// (content, then creation time), the lack of one, or its failure: the
    /// row rendered, and nothing in the other two cases.
    pub fn found(row: Result<Option<(String, String)>, StorageError>) -> (found: Option<String>)
        ensures
            text_of(found) == (match row {
                Ok(Some((content, created_at))) => Some(
                    rendered(SnippetView { content: content@, created_at: created_at@ }),
                ),
                _ => None,
            }),
    {
        match row {
            Ok(Some((content, created_at))) => Some(
                render(content.as_str(), created_at.as_str()),
            ),
            _ => None,
        }
    }

    /// The statement that removes the snippet stored under `name`.
    pub fn delete(&self, name: &str) -> (statement: Statement)
        ensures
            statement.deep_view() == (DELETE@, seq![name@]),
    {
        let mut params: Vec<String> = Vec::new();
        params.push(name.to_owned());
        assert(params.deep_view() =~= seq![name@]);
        Statement { sql: DELETE.to_owned(), params }
    }

    /// What `delete` returns, given the number of rows that the statement of
    /// `delete` removed or its failure: whether a row was removed, or the
    /// failure. A name that has no row is no failure.
    pub fn deleted(affected: Result<usize, StorageError>) -> (removed: Result<bool, StorageError>)
        ensures
            removed == (match affected {
                Ok(rows) => Ok::<bool, StorageError>(rows > 0),
                Err(_) => Err(StorageError::WriteFailed),
            }),
    {
        match affected {
            Ok(rows) => Ok(rows > 0),
            Err(_) => Err(StorageError::WriteFailed),
        }
    }
}

} // verus!
