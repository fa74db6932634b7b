//! The control-plane CLI's rules for connection strings and arguments.

use crate::error::str_equal;
use crate::options::{QueueDetachMode, QueueStorageMode};
use crate::text::{
    chars_of, char_is_space, contains_char, contains_seq, contains_str, has_content, is_space,
    join2, join3, occurs_at, replace_char, replaced, trim, trimmed,
};
use crate::util::opt_view;
use vstd::prelude::*;

verus! {

/// Whether a white-space-separated token of `s` starts at `i`.
pub open spec fn token_start(s: Seq<char>, i: int) -> bool {
    0 <= i < s.len() && !is_space(s[i]) && (i == 0 || is_space(s[i - 1]))
}

/// Whether some white-space-separated token of `s` begins with `p` (for a
/// `p` without white space, what `s.split_whitespace().any(|t|
/// t.starts_with(p))` answers).
pub open spec fn some_token_starts_with(s: Seq<char>, p: Seq<char>) -> bool {
    exists|i: int| token_start(s, i) && #[trigger] p.is_prefix_of(s.skip(i))
}

/// Whether a key/value connection string names its host.
pub open spec fn names_host(s: Seq<char>) -> bool {
    some_token_starts_with(s, "host="@) || some_token_starts_with(s, "hostaddr="@)
}

fn prefix_at(v: &Vec<char>, p: &Vec<char>, i: usize) -> (r: bool)
    requires
        i <= v@.len(),
    ensures
        r == p@.is_prefix_of(v@.skip(i as int)),
{
    if p.len() > v.len() - i {
        return false;
    }
    let mut j: usize = 0;
    while j < p.len()
        invariant
            i + p@.len() <= v@.len(),
            v@.len() == v.len(),
            j <= p@.len(),
            forall|k: int| 0 <= k < j ==> p@[k] == v@[i + k],
        decreases p@.len() - j,
    {
        if p[j] != v[i + j] {
            assert(v@.skip(i as int)[j as int] == v@[i + j]);
            return false;
        }
        j = j + 1;
    }
    assert forall|k: int| 0 <= k < p@.len() implies p@[k] == v@.skip(i as int)[k] by {
        assert(v@.skip(i as int)[k] == v@[i + k]);
    }
    true
}

fn has_token_with_prefix(s: &str, prefix: &str) -> (r: bool)
    ensures
        r == some_token_starts_with(s@, prefix@),
{
    let v = chars_of(s);
    let p = chars_of(prefix);
    let mut i: usize = 0;
    while i < v.len()
        invariant
            v@ == s@,
            p@ == prefix@,
            i <= v@.len(),
            forall|k: int| 0 <= k < i ==> !(token_start(s@, k) && prefix@.is_prefix_of(s@.skip(k))),
        decreases v@.len() - i,
    {
        let starts = !char_is_space(v[i]) && (i == 0 || char_is_space(v[i - 1]));
        if starts && prefix_at(&v, &p, i) {
            return true;
        }
        i = i + 1;
    }
    false
}

/// `host` made fit for the host part of a URL: each `/` becomes `%2F`.
pub fn host_url_encode(host: &str) -> (r: String)
    ensures
        r@ == replaced(host@, '/', "%2F"@),
{
    replace_char(host, '/', "%2F")
}

/// What `ensure_host` makes of `input` with `host` as the host to add.
pub open spec fn with_host(input: Seq<char>, host: Seq<char>) -> Seq<char> {
    if contains_seq(input, "://"@) {
        input
    } else if input.contains('=') {
        if names_host(input) {
            input
        } else {
            "host="@ + host + " "@ + input
        }
    } else {
        "postgresql://"@ + replaced(host, '/', "%2F"@) + "/"@ + input
    }
}

/// Make sure a connection string names a host, since the driver will not
/// fall back to the platform's default socket: a URL is kept; a key/value
/// string gets `host=` added unless it has one; a bare database name
/// becomes a URL on `host`.
pub fn ensure_host(input: &str, host: &str) -> (r: String)
    ensures
        r@ == with_host(input@, host@),
{
    if contains_str(input, "://") {
        return String::from_str(input);
    }
    if contains_char(input, '=') {
        if has_token_with_prefix(input, "host=") || has_token_with_prefix(input, "hostaddr=") {
            return String::from_str(input);
        }
        return String::from_str("host=").concat(host).concat(" ").concat(input);
    }
    let encoded = host_url_encode(host);
    String::from_str("postgresql://").concat(encoded.as_str()).concat("/").concat(input)
}

/// The database URL the CLI connects to: `--database-url`, then
/// `--database`, then `ABSURD_DATABASE_URL`, then `PGDATABASE`, then the
/// localhost default; database names get a host added.
pub open spec fn cli_database_url(
    database_url: Option<Seq<char>>,
    database: Option<Seq<char>>,
    absurd_url: Option<Seq<char>>,
    pgdatabase: Option<Seq<char>>,
    host: Seq<char>,
) -> Seq<char> {
    if database_url is Some && has_content(database_url->0) {
        database_url->0
    } else if database is Some && has_content(database->0) {
        with_host(trimmed(database->0), host)
    } else if absurd_url is Some && has_content(absurd_url->0) {
        absurd_url->0
    } else if pgdatabase is Some && has_content(pgdatabase->0) {
        with_host(trimmed(pgdatabase->0), host)
    } else {
        "postgresql://localhost/absurd"@
    }
}

/// Resolve the CLI's database URL from its arguments and the values of
/// `ABSURD_DATABASE_URL` and `PGDATABASE`, with `host` as the host to add
/// to bare database names.
pub fn resolve_db_url(
    database_url: Option<&str>,
    database: Option<&str>,
    absurd_url: Option<&str>,
    pgdatabase: Option<&str>,
    host: &str,
) -> (r: String)
    ensures
        r@ == cli_database_url(
            opt_view(database_url),
            opt_view(database),
            opt_view(absurd_url),
            opt_view(pgdatabase),
            host@,
        ),
{
    if let Some(url) = database_url {
        if !trim(url).is_empty() {
            return String::from_str(url);
        }
    }
    if let Some(db) = database {
        let t = trim(db);
        if !t.is_empty() {
            return ensure_host(t, host);
        }
    }
    if let Some(value) = absurd_url {
        if !trim(value).is_empty() {
            return String::from_str(value);
        }
    }
    if let Some(value) = pgdatabase {
        let t = trim(value);
        if !t.is_empty() {
            return ensure_host(t, host);
        }
    }
    String::from_str("postgresql://localhost/absurd")
}

/// The storage mode a `--storage-mode` argument asks for.
pub fn storage_mode_arg(arg: Option<&str>) -> (r: QueueStorageMode)
    ensures
        r == if arg matches Some(a) && a@ == "partitioned"@ {
            QueueStorageMode::Partitioned
        } else {
            QueueStorageMode::Unpartitioned
        },
{
    match arg {
        Some(a) => if str_equal(a, "partitioned") {
            QueueStorageMode::Partitioned
        } else {
            QueueStorageMode::Unpartitioned
        },
        None => QueueStorageMode::Unpartitioned,
    }
}

/// The detach mode a `--detach-mode` argument asks for.
pub fn detach_mode_arg(arg: Option<&str>) -> (r: Option<QueueDetachMode>)
    ensures
        r == if arg matches Some(a) && a@ == "empty"@ {
            Some(QueueDetachMode::Empty)
        } else if arg matches Some(a) && a@ == "none"@ {
            Some(QueueDetachMode::Never)
        } else {
            None::<QueueDetachMode>
        },
{
    match arg {
        Some(a) => if str_equal(a, "empty") {
            Some(QueueDetachMode::Empty)
        } else if str_equal(a, "none") {
            Some(QueueDetachMode::Never)
        } else {
            None
        },
        None => None,
    }
}

/// Split a `key=value` argument at its first `=`.
pub fn split_key_value(kv: &str) -> (r: Option<(String, String)>)
    ensures
        match r {
            None => !kv@.contains('='),
            Some((k, v)) => exists|i: int|
                0 <= i < kv@.len() && kv@[i] == '=' && !kv@.subrange(0, i).contains('=') && k@
                    == kv@.subrange(0, i) && v@ == kv@.subrange(i + 1, kv@.len() as int),
        },
{
    let v = chars_of(kv);
    let mut i: usize = 0;
    while i < v.len()
        invariant
            v@ == kv@,
            i <= v@.len(),
            forall|k: int| 0 <= k < i ==> v@[k] != '=',
        decreases v@.len() - i,
    {
        if v[i] == '=' {
            let key = String::from_str(kv.substring_char(0, i));
            let value = String::from_str(kv.substring_char(i + 1, v.len()));
            proof {
                assert forall|k: int| 0 <= k < i implies kv@.subrange(0, i as int)[k] != '=' by {}
            }
            return Some((key, value));
        }
        i = i + 1;
    }
    None
}

/// Whether `s` is a bare database name: neither a URL nor key/value
/// settings (no `:` and no `=`).
pub open spec fn bare_database_name(s: Seq<char>) -> bool {
    !s.contains('=') && !s.contains(':')
}

/// When `PGDATABASE` is the source the CLI falls back to, it is read as
/// `--database` would be for the same value; in particular a bare database
/// name becomes a URL on the default host, with the host's `/` encoded.
pub proof fn law_pgdatabase_reads_as_database(
    database_url: Option<Seq<char>>,
    database: Option<Seq<char>>,
    absurd_url: Option<Seq<char>>,
    value: Seq<char>,
    host: Seq<char>,
)
    requires
        !(database_url is Some && has_content(database_url->0)),
        !(database is Some && has_content(database->0)),
        !(absurd_url is Some && has_content(absurd_url->0)),
        has_content(value),
    ensures
        cli_database_url(database_url, database, absurd_url, Some(value), host)
            == cli_database_url(None, Some(value), None, None, host),
        bare_database_name(trimmed(value)) ==> cli_database_url(
            database_url,
            database,
            absurd_url,
            Some(value),
            host,
        ) == "postgresql://"@ + replaced(host, '/', "%2F"@) + "/"@ + trimmed(value),
{
    reveal_strlit("://");
    let t = trimmed(value);
    if bare_database_name(t) && contains_seq(t, "://"@) {
        let i = choose|i: int| occurs_at(t, "://"@, i);
        assert(t.subrange(i, i + 3)[0] == ':');
        assert(t[i] == ':');
    }
}

/// The sources are tried in order and the first one with content decides:
/// a `--database-url` with content is used as given whatever else is set; a
/// `--database` with content makes the environment irrelevant; with nothing
/// set the local default is used.
pub proof fn law_database_url_precedence(
    database_url: Option<Seq<char>>,
    database: Option<Seq<char>>,
    absurd_url: Option<Seq<char>>,
    pgdatabase: Option<Seq<char>>,
    other_absurd_url: Option<Seq<char>>,
    other_pgdatabase: Option<Seq<char>>,
    host: Seq<char>,
)
    ensures
        database_url is Some && has_content(database_url->0) ==> cli_database_url(
            database_url,
            database,
            absurd_url,
            pgdatabase,
            host,
        ) == database_url->0,
        database is Some && has_content(database->0) ==> cli_database_url(
            database_url,
            database,
            absurd_url,
            pgdatabase,
            host,
        ) == cli_database_url(database_url, database, other_absurd_url, other_pgdatabase, host),
        database_url is None && database is None && absurd_url is None && pgdatabase is None
            ==> cli_database_url(database_url, database, absurd_url, pgdatabase, host)
            == "postgresql://localhost/absurd"@,
{
}

} // verus!
