# absurd_sdk

Absurd runs durable workflows on Postgres: tasks decompose into idempotent
steps whose results are checkpointed, and workers claim, run, retry, sleep and
suspend tasks through SQL functions of the `absurd` schema.

This crate is the verified core of the SDK, written in Verus:

- `span` — time spans with nanosecond resolution.
- `text` — character-level string helpers (trimming, searching, decimal
  formatting) with exact specifications.
- `error` — `AbsurdError`, its messages, and the SQLSTATE codes that signal
  terminal task states.
- `util` — queue-name validation, duration rounding, database-URL resolution.
- `versions`, `migrations` — schema version ordering and the planning of
  stepwise migrations.
- `options` — option and value types, and their schema names.
- `replay` — checkpoint naming and the per-run checkpoint cache.
- `timing` — leases, heartbeat cadence and await back-off.
- `client_rules`, `run_rules`, `cli_rules` — the rules the client, the worker
  (including each turn of its claim loop and the run slots that bound the
  runs in flight) and the CLI follow.
- `sleep_rules` — the durable wake time of `sleep_until`: stored as RFC 3339
  on the first pass, read back on replay.
- `task_macro` — what the `#[task]` attribute accepts and the task builder it
  plans, over the annotated function's shape as plain data.

`app/` holds the runtime around it: the async Postgres client, the task
context, the worker loop and the `absurdctl` command-line tool. It reads the
schema and migration SQL from the directory named by `ABSURD_SQL_DIR`
(default `sql/`).
