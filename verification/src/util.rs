//! Queue-name validation, duration rounding and database-URL resolution.

use crate::error::AbsurdError;
use crate::span::{ceil_seconds, Span};
use crate::text::{
    contains_char, contains_seq, contains_str, debug_quote, debug_quoted, has_content, join2, join3,
    trim, trimmed,
};
use vstd::prelude::*;
use vstd::utf8::encode_utf8;

verus! {

/// Maximum allowed UTF-8 byte length for queue names (so generated identifiers
/// stay within PostgreSQL's 63-byte limit).
pub const MAX_QUEUE_NAME_LENGTH: usize = 57;

/// Default queue name used by the SDK when none is specified.
pub const DEFAULT_QUEUE_NAME: &'static str = "default";

/// The character view of an optional string.
pub open spec fn opt_view(o: Option<&str>) -> Option<Seq<char>> {
    match o {
        Some(s) => Some(s@),
        None => None,
    }
}

/// The length in bytes of the UTF-8 encoding of `s`, as `str::len` gives it.
pub open spec fn byte_len(s: Seq<char>) -> usize {
    encode_utf8(s).len() as usize
}

/// The message for a queue name that is too long.
pub open spec fn too_long_message(name: Seq<char>) -> Seq<char> {
    "queue name "@ + debug_quoted(name) + " is too long (max 57 bytes)"@
}

/// Why `name` is not an acceptable queue name, or `None` when it is: a
/// queue name is non-empty and at most `MAX_QUEUE_NAME_LENGTH` bytes of
/// UTF-8.
pub open spec fn queue_name_error(name: Seq<char>) -> Option<Seq<char>> {
    if name.len() == 0 {
        Some("queue name must be provided"@)
    } else if byte_len(name) > 57 {
        Some(too_long_message(name))
    } else {
        None
    }
}

/// Whether `r` is the outcome of validating the queue name `name`: the name
/// itself when it is acceptable, else `InvalidQueueName` with the reason.
pub open spec fn validated(name: Seq<char>, r: Result<String, AbsurdError>) -> bool {
    match queue_name_error(name) {
        Some(m) => r matches Err(AbsurdError::InvalidQueueName(e)) && e@ == m,
        None => r matches Ok(s) && s@ == name,
    }
}

/// Validate a queue name. Queue names are interpolated into table identifiers,
/// so they must stay within Postgres' 63-byte identifier limit (minus the
/// schema prefix Absurd uses).
pub fn validate_queue_name(name: &str) -> (r: Result<String, AbsurdError>)
    ensures
        validated(name@, r),
{
    if name.is_empty() {
        return Err(AbsurdError::InvalidQueueName(String::from_str("queue name must be provided")));
    }
    if name.len() > MAX_QUEUE_NAME_LENGTH {
        let quoted = debug_quote(name);
        let msg = join3("queue name ", quoted.as_str(), " is too long (max 57 bytes)");
        return Err(AbsurdError::InvalidQueueName(msg));
    }
    Ok(String::from_str(name))
}

/// Whole seconds of `d`, rounded up, saturating at `i32::MAX`.
pub open spec fn rounded_seconds(d: nat) -> int {
    if ceil_seconds(d) > i32::MAX {
        i32::MAX as int
    } else {
        ceil_seconds(d) as int
    }
}

/// Convert a span to whole seconds, rounding up (saturating at `i32::MAX`).
pub fn duration_seconds(d: Span) -> (r: i32)
    ensures
        r == rounded_seconds(d@),
{
    if d.is_zero() {
        return 0;
    }
    let secs = d.as_secs();
    let nanos = d.subsec_nanos();
    if secs >= 2_147_483_647 {
        return i32::MAX;
    }
    if nanos > 0 {
        (secs + 1) as i32
    } else {
        secs as i32
    }
}

/// `d` in whole seconds (rounded up), or `fallback` when `d` is empty.
pub fn duration_seconds_or(d: Span, fallback: Span) -> (r: i32)
    ensures
        r == if d@ == 0 {
            rounded_seconds(fallback@)
        } else {
            rounded_seconds(d@)
        },
{
    if d.is_zero() {
        duration_seconds(fallback)
    } else {
        duration_seconds(d)
    }
}

/// The database URL chosen from an explicit argument, the value of
/// `ABSURD_DATABASE_URL` and the value of `PGDATABASE`, in that order.
pub open spec fn resolved_database_url(
    explicit: Option<Seq<char>>,
    absurd_url: Option<Seq<char>>,
    pgdatabase: Option<Seq<char>>,
) -> Seq<char> {
    if explicit is Some && has_content(explicit->0) {
        trimmed(explicit->0)
    } else if absurd_url is Some && has_content(absurd_url->0) {
        absurd_url->0
    } else if pgdatabase is Some && has_content(pgdatabase->0) {
        let t = trimmed(pgdatabase->0);
        if contains_seq(t, "://"@) || t.contains('=') {
            t
        } else {
            "dbname="@ + t
        }
    } else {
        "postgresql://localhost/absurd"@
    }
}

/// Resolve a database URL the way the SDK does: explicit argument, then the
/// `ABSURD_DATABASE_URL` value, then the `PGDATABASE` value, then the
/// localhost default. The environment values are read by the caller.
pub fn resolve_database_url(
    explicit: Option<&str>,
    absurd_url: Option<&str>,
    pgdatabase: Option<&str>,
) -> (r: String)
    ensures
        r@ == resolved_database_url(opt_view(explicit), opt_view(absurd_url), opt_view(pgdatabase)),
{
    if let Some(value) = explicit {
        let t = trim(value);
        if !t.is_empty() {
            return String::from_str(t);
        }
    }
    if let Some(value) = absurd_url {
        let t = trim(value);
        if !t.is_empty() {
            return String::from_str(value);
        }
    }
    if let Some(value) = pgdatabase {
        let t = trim(value);
        if !t.is_empty() {
            if contains_str(t, "://") || contains_char(t, '=') {
                return String::from_str(t);
            }
            return join2("dbname=", t);
        }
    }
    String::from_str("postgresql://localhost/absurd")
}

} // verus!
