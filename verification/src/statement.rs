//! The statements that the engine issues against its one table.

use crate::error::Error;
use crate::error::ErrorKind;
use crate::error::ErrorView;
use crate::error::Fault;
use crate::error::failure_kind;
use crate::error::seen;
use crate::key::Identifier;
use vstd::prelude::*;

verus! {

/// One statement against the table `items`, with the values that it binds.
/// Every operation of the cache is exactly one of these.
#[derive(Debug, PartialEq, Eq)]
pub enum Statement {
    /// Make the table unless it is there already.
    CreateTable,
    /// Put a row under `id`, in place of the row that may be there.
    Upsert { id: String, expires: String, data: Vec<u8> },
    /// Find the row under `id`.
    Select { id: String },
    /// Remove every row whose `expires` sorts before `before`.
    DeleteExpired { before: String },
}

/// A [`Statement`] as contracts see it.
pub enum StatementView {
    CreateTable,
    Upsert { id: Seq<char>, expires: Seq<char>, data: Seq<u8> },
    Select { id: Seq<char> },
    DeleteExpired { before: Seq<char> },
}

impl View for Statement {
    type V = StatementView;

    open spec fn view(&self) -> StatementView {
        match *self {
            Statement::CreateTable => StatementView::CreateTable,
            Statement::Upsert { id, expires, data } => StatementView::Upsert {
                id: id@,
                expires: expires@,
                data: data@,
            },
            Statement::Select { id } => StatementView::Select { id: id@ },
            Statement::DeleteExpired { before } => StatementView::DeleteExpired {
                before: before@,
            },
        }
    }
}

impl StatementView {
    /// The SQL of the statement; `?1`, `?2` and `?3` stand for its values in
    /// the order of its fields.
    pub open spec fn sql(self) -> Seq<char> {
        match self {
            StatementView::CreateTable =>
                "CREATE TABLE IF NOT EXISTS items (id TEXT PRIMARY KEY, expires TEXT NOT NULL, data BLOB NOT NULL)"@,
            StatementView::Upsert { .. } =>
                "INSERT OR REPLACE INTO items (id, expires, data) VALUES (?1, ?2, ?3)"@,
            StatementView::Select { .. } => "SELECT id, expires, data FROM items WHERE id = ?1"@,
            StatementView::DeleteExpired { .. } => "DELETE FROM items WHERE expires < ?1"@,
        }
    }
}

/// What an error says of an instant that has no text.
pub open spec fn no_text() -> Seq<char> {
    "the instant has no RFC 3339 text"@
}

/// A planned statement as contracts see it.
pub open spec fn planned(plan: Result<Statement, Error>) -> Result<StatementView, ErrorView> {
    match plan {
        Ok(statement) => Ok(statement@),
        Err(error) => Err(error@),
    }
}

/// The statement that puts `data` under `key` with the expiry text
/// `expires`; a timestamp error where the expiry has no text.
pub open spec fn upsert_plan(key: Identifier, expires: Option<String>, data: Vec<u8>) -> Result<
    StatementView,
    ErrorView,
> {
    match expires {
        None => Err(ErrorView { kind: ErrorKind::Timestamp, detail: no_text() }),
        Some(expires) => Ok(
            StatementView::Upsert { id: key.text(), expires: expires@, data: data@ },
        ),
    }
}

/// The statement that removes the rows whose expiry sorts before the text
/// `before`; a timestamp error where there is no such text.
pub open spec fn delete_plan(before: Option<String>) -> Result<StatementView, ErrorView> {
    match before {
        None => Err(ErrorView { kind: ErrorKind::Timestamp, detail: no_text() }),
        Some(before) => Ok(StatementView::DeleteExpired { before: before@ }),
    }
}

/// The outcome of a statement that yields no rows, from the driver's report.
pub open spec fn settled(setup: bool, outcome: Result<(), Fault>) -> Result<(), ErrorView> {
    match outcome {
        Ok(()) => Ok(()),
        Err(fault) => Err(
            ErrorView { kind: failure_kind(setup, fault.stage), detail: fault.detail@ },
        ),
    }
}

fn no_text_error() -> (error: Error)
    ensures
        error@ == (ErrorView { kind: ErrorKind::Timestamp, detail: no_text() }),
{
    Error::new(ErrorKind::Timestamp, String::from_str("the instant has no RFC 3339 text"))
}

impl Statement {
    /// The statement that sets up the table.
    pub fn create_table() -> (statement: Statement)
        ensures
            statement@ == StatementView::CreateTable,
    {
        Statement::CreateTable
    }

    /// The statement that puts `data` under `key`, given the text of the
    /// expiry where it has one.
    pub fn upsert(key: &Identifier, expires: Option<String>, data: Vec<u8>) -> (plan: Result<
        Statement,
        Error,
    >)
        ensures
            planned(plan) == upsert_plan(*key, expires, data),
    {
        match expires {
            None => Err(no_text_error()),
            Some(expires) => Ok(Statement::Upsert { id: key.canonical_text(), expires, data }),
        }
    }

    /// The statement that finds the row of `key`.
    pub fn select(key: &Identifier) -> (statement: Statement)
        ensures
            statement@ == (StatementView::Select { id: key.text() }),
    {
        Statement::Select { id: key.canonical_text() }
    }

    /// The statement that removes the rows that sort before `before`, given
    /// that text where there is one.
    pub fn delete_expired(before: Option<String>) -> (plan: Result<Statement, Error>)
        ensures
            planned(plan) == delete_plan(before),
    {
        match before {
            None => Err(no_text_error()),
            Some(before) => Ok(Statement::DeleteExpired { before }),
        }
    }

    /// The SQL to run.
    pub fn sql(&self) -> (text: &'static str)
        ensures
            text@ == self@.sql(),
    {
        match self {
            Statement::CreateTable =>
                "CREATE TABLE IF NOT EXISTS items (id TEXT PRIMARY KEY, expires TEXT NOT NULL, data BLOB NOT NULL)",
            Statement::Upsert { .. } =>
                "INSERT OR REPLACE INTO items (id, expires, data) VALUES (?1, ?2, ?3)",
            Statement::Select { .. } => "SELECT id, expires, data FROM items WHERE id = ?1",
            Statement::DeleteExpired { .. } => "DELETE FROM items WHERE expires < ?1",
        }
    }

    /// Whether this is the statement that sets up the table.
    pub fn is_setup(&self) -> (setup: bool)
        ensures
            setup == (self@ is CreateTable),
    {
        match self {
            Statement::CreateTable => true,
            _ => false,
        }
    }

    /// What the caller gets once a driver has run a statement that yields no
    /// rows: success where the driver reports that none of its steps failed,
    /// and else the error that its fault is for this statement.
    pub fn settle(&self, outcome: Result<(), Fault>) -> (result: Result<(), Error>)
        ensures
            seen(result) == settled(self@ is CreateTable, outcome),
    {
        match outcome {
            Ok(()) => Ok(()),
            Err(fault) => Err(Error::from_fault(self.is_setup(), fault)),
        }
    }
}

} // verus!
