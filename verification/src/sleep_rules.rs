//! Durable sleep: the wake time a sleeping step keeps across restarts.
//!
//! The first time a run reaches `sleep_until`, the requested wake time is
//! checkpointed as RFC 3339 text; on replay the stored text is read back, so
//! a run that restarts wakes at the time it first asked for. The run
//! suspends while the wake time is still ahead.

use crate::error::AbsurdError;
use crate::text::join2;
use vstd::prelude::*;

verus! {

/// What chrono's RFC 3339 parser makes of `s`: the instant it denotes, as
/// seconds since the Unix epoch and nanoseconds past that second, or the
/// text of the parse error.
pub uninterp spec fn rfc3339_parse(s: Seq<char>) -> Result<(i64, u32), Seq<char>>;

/// The RFC 3339 text chrono writes for the UTC instant `secs` seconds and
/// `nanos` nanoseconds past the Unix epoch, or `None` where chrono cannot
/// represent that instant.
pub uninterp spec fn rfc3339_text(secs: i64, nanos: u32) -> Option<Seq<char>>;

/// Parse RFC 3339 text (`chrono::DateTime::parse_from_rfc3339`, then
/// `with_timezone(&Utc)`, `timestamp` and `timestamp_subsec_nanos`); the
/// error is the parse error's `Display` text. Claimed: the result is what
/// `rfc3339_parse` names for `s`.
#[verifier::external_body]
fn parse_rfc3339(s: &str) -> (r: Result<(i64, u32), String>)
    ensures
        match r {
            Ok(t) => rfc3339_parse(s@) == Ok::<(i64, u32), Seq<char>>(t),
            Err(m) => rfc3339_parse(s@) == Err::<(i64, u32), Seq<char>>(m@),
        },
{
    match chrono::DateTime::parse_from_rfc3339(s) {
        Ok(t) => {
            let u = t.with_timezone(&chrono::Utc);
            Ok((u.timestamp(), u.timestamp_subsec_nanos()))
        },
        Err(e) => Err(e.to_string()),
    }
}

/// Write a UTC instant as RFC 3339 text (`DateTime::<Utc>::from_timestamp`,
/// then `to_rfc3339`). Claimed: the result is what `rfc3339_text` names for
/// the instant, `None` where `from_timestamp` cannot represent it.
#[verifier::external_body]
fn format_rfc3339(secs: i64, nanos: u32) -> (r: Option<String>)
    ensures
        match r {
            Some(t) => rfc3339_text(secs, nanos) == Some(t@),
            None => rfc3339_text(secs, nanos) is None,
        },
{
    match chrono::DateTime::<chrono::Utc>::from_timestamp(secs, nanos) {
        Some(t) => Some(t.to_rfc3339()),
        None => None,
    }
}

/// The stored checkpoint of a sleep, by its text: `None` when none is
/// stored, `Some(None)` when it is not a string.
pub open spec fn cached_text(cached: Option<Option<&str>>) -> Option<Option<Seq<char>>> {
    match cached {
        None => None,
        Some(None) => Some(None),
        Some(Some(s)) => Some(Some(s@)),
    }
}

/// What a sleep asking to wake at `wake_at` does, given its stored
/// checkpoint: with none stored, it wakes at `wake_at` and stores its text;
/// with non-empty text stored, it wakes at the instant that text denotes (or
/// fails on text it cannot read); with anything else stored, it wakes at
/// `wake_at` and stores nothing. `None` when `wake_at` cannot be written.
pub open spec fn wake_plan(cached: Option<Option<Seq<char>>>, wake_at: (i64, u32)) -> Option<
    Result<((i64, u32), Option<Seq<char>>), Seq<char>>,
> {
    match cached {
        None => match rfc3339_text(wake_at.0, wake_at.1) {
            Some(t) => Some(Ok((wake_at, Some(t)))),
            None => None,
        },
        Some(Some(s)) => if s.len() > 0 {
            match rfc3339_parse(s) {
                Ok(t) => Some(Ok((t, None))),
                Err(m) => Some(Err("invalid wake_at checkpoint: "@ + m)),
            }
        } else {
            Some(Ok((wake_at, None)))
        },
        Some(None) => Some(Ok((wake_at, None))),
    }
}

/// The view of an optional string.
pub open spec fn opt_text(s: Option<String>) -> Option<Seq<char>> {
    match s {
        Some(t) => Some(t@),
        None => None,
    }
}

/// Decide when a durable sleep wakes: the wake time and the checkpoint
/// text to store, if any, from the stored checkpoint `cached` and the
/// requested wake time `wake_at`. Stored text that does not parse is an
/// `Other` error "invalid wake_at checkpoint: " and the parser's reason.
/// `None` only when nothing is stored and chrono cannot write `wake_at`.
pub fn sleep_wake(cached: Option<Option<&str>>, wake_at: (i64, u32)) -> (r: Option<
    Result<((i64, u32), Option<String>), AbsurdError>,
>)
    ensures
        match wake_plan(cached_text(cached), wake_at) {
            None => r is None,
            Some(Ok((t, p))) => r matches Some(Ok((t2, p2))) && t2 == t && opt_text(p2) == p,
            Some(Err(m)) => r matches Some(Err(AbsurdError::Other(e))) && e@ == m,
        },
{
    match cached {
        None => match format_rfc3339(wake_at.0, wake_at.1) {
            Some(t) => Some(Ok((wake_at, Some(t)))),
            None => None,
        },
        Some(Some(s)) => {
            if !s.is_empty() {
                match parse_rfc3339(s) {
                    Ok(t) => Some(Ok((t, None))),
                    Err(m) => Some(
                        Err(AbsurdError::Other(join2("invalid wake_at checkpoint: ", m.as_str()))),
                    ),
                }
            } else {
                Some(Ok((wake_at, None)))
            }
        },
        Some(None) => Some(Ok((wake_at, None))),
    }
}

/// Whether instant `a` comes before instant `b`, each as seconds since the
/// epoch and nanoseconds past that second.
pub open spec fn instant_before(a: (i64, u32), b: (i64, u32)) -> bool {
    a.0 < b.0 || (a.0 == b.0 && a.1 < b.1)
}

/// Whether a sleep still has to wait: the run suspends exactly while `now`
/// is before the wake time `wake`.
pub fn sleep_should_suspend(now: (i64, u32), wake: (i64, u32)) -> (r: bool)
    ensures
        r == instant_before(now, wake),
{
    now.0 < wake.0 || (now.0 == wake.0 && now.1 < wake.1)
}

/// A sleep that has stored its wake time wakes at that time on every replay,
/// whatever wake time the replay asks for.
pub proof fn law_replayed_sleep_keeps_its_wake_time(
    first: (i64, u32),
    again: (i64, u32),
    text: Seq<char>,
)
    requires
        rfc3339_text(first.0, first.1) == Some(text),
        text.len() > 0,
        rfc3339_parse(text) == Ok::<(i64, u32), Seq<char>>(first),
    ensures
        wake_plan(None, first) == Some(
            Ok::<((i64, u32), Option<Seq<char>>), Seq<char>>((first, Some(text))),
        ),
        wake_plan(Some(Some(text)), again) == Some(
            Ok::<((i64, u32), Option<Seq<char>>), Seq<char>>((first, None)),
        ),
{
}

} // verus!
