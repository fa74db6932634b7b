//! The SDK's error type and the mapping of Absurd's SQLSTATE signals.

use crate::text::join2;
use vstd::prelude::*;

verus! {

/// A Postgres driver error, carried through unchanged.
#[verifier::external_type_specification]
#[verifier::external_body]
pub struct ExPostgresError(tokio_postgres::Error);

/// A JSON (de)serialisation error, carried through unchanged.
#[verifier::external_type_specification]
#[verifier::external_body]
pub struct ExJsonError(serde_json::Error);

/// Terminal task state signalled by Postgres via SQLSTATE codes AB001/AB002.
#[derive(Debug, Clone, Copy, PartialEq, Eq, Structural)]
pub enum TaskStateError {
    Cancelled,
    AlreadyFailed,
}

/// Error type returned by the Absurd SDK.
#[derive(Debug)]
pub enum AbsurdError {
    Postgres(tokio_postgres::Error),
    Pool(String),
    Json(serde_json::Error),
    InvalidQueueName(String),
    TaskNotFound(String),
    TaskNotRegistered(String),
    NoTaskContext,
    InvalidTaskHeaders(String),
    Timeout(String),
    Suspended,
    TaskState(TaskStateError),
    Other(String),
}

/// The text that a driver error's `Display` writes: fixed by the error value
/// (its kind, with the parameter index or column name that some kinds hold).
pub uninterp spec fn postgres_text(err: tokio_postgres::Error) -> Seq<char>;

/// The text that a JSON error's `Display` writes: fixed by the error value
/// (its code, and the line and column it holds).
pub uninterp spec fn json_text(err: serde_json::Error) -> Seq<char>;

/// The SQLSTATE code that a driver error carries: `Some` of the code for an
/// error the server raised, `None` for an error of another kind.
pub uninterp spec fn sqlstate_of(err: tokio_postgres::Error) -> Option<Seq<char>>;

/// The text of a driver error, as its `Display` writes it
/// (`<tokio_postgres::Error as Display>::fmt` through `to_string`).
/// Claimed: the result is the text named by `postgres_text` for this error.
#[verifier::external_body]
pub(crate) fn postgres_error_text(err: &tokio_postgres::Error) -> (r: String)
    ensures
        r@ == postgres_text(*err),
{
    err.to_string()
}

/// The text of a JSON error, as its `Display` writes it
/// (`<serde_json::Error as Display>::fmt` through `to_string`).
/// Claimed: the result is the text named by `json_text` for this error.
#[verifier::external_body]
fn json_error_text(err: &serde_json::Error) -> (r: String)
    ensures
        r@ == json_text(*err),
{
    err.to_string()
}

/// The SQLSTATE code of a driver error that the server raised
/// (`Error::as_db_error`, then `DbError::code` and `SqlState::code`), or
/// `None` for errors of another kind. Claimed: the result is the code named
/// by `sqlstate_of` for this error.
#[verifier::external_body]
fn db_error_code(err: &tokio_postgres::Error) -> (r: Option<String>)
    ensures
        match r {
            Some(s) => sqlstate_of(*err) == Some(s@),
            None => sqlstate_of(*err) is None,
        },
{
    match err.as_db_error() {
        Some(db) => Some(db.code().code().to_string()),
        None => None,
    }
}

/// The state error that a SQLSTATE code signals, if any.
pub open spec fn state_error_for_code(code: Seq<char>) -> Option<TaskStateError> {
    if code == "AB001"@ {
        Some(TaskStateError::Cancelled)
    } else if code == "AB002"@ {
        Some(TaskStateError::AlreadyFailed)
    } else {
        None
    }
}

/// The state error that a SQLSTATE code signals: `AB001` is a cancelled
/// task, `AB002` one that already failed.
pub fn state_error_from_code(code: &str) -> (r: Option<TaskStateError>)
    ensures
        r == state_error_for_code(code@),
{
    proof {
        reveal_strlit("AB001");
        reveal_strlit("AB002");
    }
    if str_equal(code, "AB001") {
        Some(TaskStateError::Cancelled)
    } else if str_equal(code, "AB002") {
        Some(TaskStateError::AlreadyFailed)
    } else {
        None
    }
}

/// Whether two strings hold the same characters.
pub fn str_equal(a: &str, b: &str) -> (r: bool)
    ensures
        r == (a@ == b@),
{
    let av = crate::text::chars_of(a);
    let bv = crate::text::chars_of(b);
    if av.len() != bv.len() {
        return false;
    }
    let mut i: usize = 0;
    while i < av.len()
        invariant
            av@ == a@,
            bv@ == b@,
            av@.len() == bv@.len(),
            forall|k: int| 0 <= k < i ==> av@[k] == bv@[k],
        decreases av@.len() - i,
    {
        if av[i] != bv[i] {
            return false;
        }
        i = i + 1;
    }
    assert(av@ =~= bv@);
    true
}

/// What a driver error is classified as: the state error its SQLSTATE code
/// signals, else the driver error itself.
pub open spec fn state_error_result(err: tokio_postgres::Error) -> AbsurdError {
    match sqlstate_of(err) {
        Some(c) => match state_error_for_code(c) {
            Some(st) => AbsurdError::TaskState(st),
            None => AbsurdError::Postgres(err),
        },
        None => AbsurdError::Postgres(err),
    }
}

/// Classify a driver error: the SQLSTATE codes AB001/AB002 that the Absurd
/// schema raises become `TaskState` errors; every other error is carried,
/// unchanged, as `Postgres`.
pub fn map_state_error(err: tokio_postgres::Error) -> (r: AbsurdError)
    ensures
        r == state_error_result(err),
{
    match db_error_code(&err) {
        Some(code) => match map_sqlstate(Some(code.as_str())) {
            Some(state) => AbsurdError::TaskState(state),
            None => AbsurdError::Postgres(err),
        },
        None => AbsurdError::Postgres(err),
    }
}

/// The state error signalled by an optional SQLSTATE code: `None` when the
/// error carried no code or a code the schema does not reserve.
pub fn map_sqlstate(code: Option<&str>) -> (r: Option<TaskStateError>)
    ensures
        r == match code {
            Some(c) => state_error_for_code(c@),
            None => None,
        },
{
    match code {
        Some(c) => state_error_from_code(c),
        None => None,
    }
}

/// The message of an error whose text is fully known: every kind but the
/// driver and JSON errors, whose text comes from the outside error.
pub open spec fn known_message(e: AbsurdError) -> Option<Seq<char>> {
    match e {
        AbsurdError::Pool(s) => Some("pool: "@ + s@),
        AbsurdError::InvalidQueueName(s) => Some("invalid queue name: "@ + s@),
        AbsurdError::TaskNotFound(s) => Some("task not found: "@ + s@),
        AbsurdError::TaskNotRegistered(s) => Some("task not registered: "@ + s@),
        AbsurdError::NoTaskContext => Some(
            "no task context \u{2014} call from within a registered task"@,
        ),
        AbsurdError::InvalidTaskHeaders(s) => Some("invalid task headers: "@ + s@),
        AbsurdError::Timeout(s) => Some("timed out: "@ + s@),
        AbsurdError::Suspended => Some("task suspended"@),
        AbsurdError::TaskState(TaskStateError::Cancelled) => Some("task state: Cancelled"@),
        AbsurdError::TaskState(TaskStateError::AlreadyFailed) => Some(
            "task state: AlreadyFailed"@,
        ),
        AbsurdError::Other(s) => Some(s@),
        AbsurdError::Postgres(_) => None,
        AbsurdError::Json(_) => None,
    }
}

/// The full message of an error: the known text, or for driver and JSON
/// errors a prefix followed by the outside error's own text.
pub open spec fn full_message(e: AbsurdError) -> Seq<char> {
    match e {
        AbsurdError::Postgres(p) => "postgres: "@ + postgres_text(p),
        AbsurdError::Json(j) => "json: "@ + json_text(j),
        _ => known_message(e).unwrap(),
    }
}

impl AbsurdError {
    /// An `Other` error holding `msg`.
    pub fn other(msg: String) -> (r: AbsurdError)
        ensures
            r == AbsurdError::Other(msg),
    {
        AbsurdError::Other(msg)
    }

    /// The human-readable message of the error (what its `Display` writes).
    pub fn message(&self) -> (r: String)
        ensures
            r@ == full_message(*self),
    {
        match self {
            AbsurdError::Postgres(e) => {
                let t = postgres_error_text(e);
                join2("postgres: ", t.as_str())
            },
            AbsurdError::Pool(s) => join2("pool: ", s.as_str()),
            AbsurdError::Json(e) => {
                let t = json_error_text(e);
                join2("json: ", t.as_str())
            },
            AbsurdError::InvalidQueueName(s) => join2("invalid queue name: ", s.as_str()),
            AbsurdError::TaskNotFound(s) => join2("task not found: ", s.as_str()),
            AbsurdError::TaskNotRegistered(s) => join2("task not registered: ", s.as_str()),
            AbsurdError::NoTaskContext => String::from_str(
                "no task context \u{2014} call from within a registered task",
            ),
            AbsurdError::InvalidTaskHeaders(s) => join2("invalid task headers: ", s.as_str()),
            AbsurdError::Timeout(s) => join2("timed out: ", s.as_str()),
            AbsurdError::Suspended => String::from_str("task suspended"),
            AbsurdError::TaskState(TaskStateError::Cancelled) => String::from_str(
                "task state: Cancelled",
            ),
            AbsurdError::TaskState(TaskStateError::AlreadyFailed) => String::from_str(
                "task state: AlreadyFailed",
            ),
            AbsurdError::Other(s) => s.clone(),
        }
    }
}

} // verus!
