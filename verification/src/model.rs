//! The data the workbench passes around: screens, editor modes, connection
//! profiles, drafts, execution results and database metadata.

use std::path::PathBuf;
use std::sync::mpsc::{Receiver, Sender};
use std::time::{Instant, SystemTime};

use vstd::prelude::*;

use crate::text::owned;

verus! {

#[verifier::external_type_specification]
#[verifier::external_body]
pub struct ExPathBuf(PathBuf);

#[verifier::external_type_specification]
#[verifier::external_body]
pub struct ExSystemTime(SystemTime);

#[verifier::external_type_specification]
#[verifier::external_body]
pub struct ExInstant(Instant);

#[verifier::external_type_specification]
#[verifier::external_body]
#[verifier::reject_recursive_types(T)]
pub struct ExReceiver<T>(Receiver<T>);

#[verifier::external_type_specification]
#[verifier::external_body]
#[verifier::reject_recursive_types(T)]
pub struct ExSender<T>(Sender<T>);

/// Trusted: `PathBuf::clone` gives an identical copy of the path.
pub assume_specification[ <PathBuf as Clone>::clone ](p: &PathBuf) -> (r: PathBuf)
    ensures
        r == *p,
;

/// Trusted: `Instant` is `Copy`; its `clone` gives back the same instant.
pub assume_specification[ <Instant as Clone>::clone ](t: &Instant) -> (r: Instant)
    ensures
        r == *t,
;

/// Trusted: `SystemTime` is `Copy`; its `clone` gives back the same time.
pub assume_specification[ <SystemTime as Clone>::clone ](t: &SystemTime) -> (r: SystemTime)
    ensures
        r == *t,
;

/// The five screens of the workbench.
#[derive(Debug, Clone, PartialEq, Eq, Structural)]
pub enum AppState {
    Init,
    QueryList,
    QueryEdit,
    QueryRunning,
    ResultView,
}

/// Modal editing modes of the SQL editor.
#[derive(Debug, Clone, Copy, PartialEq, Eq, Structural)]
pub enum EditorMode {
    Normal,
    Insert,
    Command,
}

#[derive(Debug, Clone)]
pub struct AppConfig {
    pub default_connection: Option<String>,
    pub connections: Vec<ConnectionProfile>,
}

#[derive(Debug, Clone)]
pub struct ConnectionProfile {
    pub name: String,
    pub kind: String,
    pub host: String,
    pub port: u16,
    pub username: String,
    pub password: String,
    pub database: String,
}

/// The seven fields of a connection profile as character sequences (the port as a number).
pub struct ProfileView {
    pub name: Seq<char>,
    pub kind: Seq<char>,
    pub host: Seq<char>,
    pub port: u16,
    pub username: Seq<char>,
    pub password: Seq<char>,
    pub database: Seq<char>,
}

impl View for ConnectionProfile {
    type V = ProfileView;

    open spec fn view(&self) -> ProfileView {
        ProfileView {
            name: self.name@,
            kind: self.kind@,
            host: self.host@,
            port: self.port,
            username: self.username@,
            password: self.password@,
            database: self.database@,
        }
    }
}

impl ConnectionProfile {
    /// A field-by-field copy.
    pub fn duplicate(&self) -> (r: ConnectionProfile)
        ensures
            r@ == self@,
    {
        ConnectionProfile {
            name: self.name.clone(),
            kind: self.kind.clone(),
            host: self.host.clone(),
            port: self.port,
            username: self.username.clone(),
            password: self.password.clone(),
            database: self.database.clone(),
        }
    }
}

#[derive(Debug, Clone)]
pub struct DraftEntry {
    pub file_name: String,
    pub path: PathBuf,
    pub content: String,
    pub modified_at: Option<SystemTime>,
}

#[derive(Debug, Clone, PartialEq, Eq, Structural)]
pub enum ResultKind {
    Query,
    Command,
    Error,
}

#[derive(Debug, Clone)]
pub struct ExecutionResult {
    pub kind: ResultKind,
    pub elapsed_ms: u128,
    pub columns: Vec<String>,
    pub rows: Vec<Vec<String>>,
    pub affected_rows: Option<u64>,
    pub error_message: Option<String>,
    pub truncated: bool,
}

impl ExecutionResult {
    /// A failed execution: kind `Error`, the message, no columns, rows or affected count.
    pub fn error(message: String, elapsed_ms: u128) -> (r: ExecutionResult)
        ensures
            r.kind == ResultKind::Error,
            r.elapsed_ms == elapsed_ms,
            r.columns@.len() == 0,
            r.rows@.len() == 0,
            r.affected_rows is None,
            r.error_message == Some(message),
            !r.truncated,
    {
        ExecutionResult {
            kind: ResultKind::Error,
            elapsed_ms,
            columns: Vec::new(),
            rows: Vec::new(),
            affected_rows: None,
            error_message: Some(message),
            truncated: false,
        }
    }

    /// `ExecutionResult::error` with a message given as a string slice.
    pub fn error_from(message: &str, elapsed_ms: u128) -> (r: ExecutionResult)
        ensures
            r.kind == ResultKind::Error,
            r.elapsed_ms == elapsed_ms,
            r.columns@.len() == 0,
            r.rows@.len() == 0,
            r.affected_rows is None,
            r.error_message matches Some(m) && m@ == message@,
            !r.truncated,
    {
        ExecutionResult::error(owned(message), elapsed_ms)
    }
}

#[derive(Debug, Clone)]
pub struct PendingExecution {
    pub started_at: Instant,
    pub connection_name: String,
    pub sql: String,
}

pub struct ExecutionHandle {
    pub receiver: Receiver<ExecutionResult>,
}

#[derive(Debug, Clone)]
pub struct DatabaseMetadata {
    pub tables: Vec<TableMetadata>,
}

#[derive(Debug, Clone)]
pub struct TableMetadata {
    pub name: String,
    pub columns: Vec<ColumnMetadata>,
}

#[derive(Debug, Clone)]
pub struct ColumnMetadata {
    pub name: String,
    pub data_type: String,
}

pub struct MetadataHandle {
    pub receiver: Receiver<Result<DatabaseMetadata, String>>,
}

/// The sending half of a channel, for the worker that fills an `ExecutionHandle`.
pub struct ExecutionSender {
    pub sender: Sender<ExecutionResult>,
}

/// The sending half of a channel, for the worker that fills a `MetadataHandle`.
pub struct MetadataSender {
    pub sender: Sender<Result<DatabaseMetadata, String>>,
}

} // verus!
