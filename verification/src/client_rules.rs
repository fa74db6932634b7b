//! The client's rules for queues, registration, spawning and payloads.

use crate::error::{postgres_error_text, postgres_text, str_equal, AbsurdError};
use crate::text::join2;
use crate::options::{
    detach_mode_name, CancellationPolicy, QueueDetachMode, QueuePolicyOptions, RetryTaskOptions,
};
use crate::text::{debug_quote, debug_quoted};
use crate::util::{queue_name_error, validate_queue_name, validated};
use vstd::prelude::*;

verus! {

/// The queue a queue operation acts on: `queue_name`, validated, or the
/// client's own queue when `queue_name` is empty.
pub fn queue_or_default(queue_name: &str, client_queue: &str) -> (r: Result<String, AbsurdError>)
    ensures
        queue_name@.len() == 0 ==> (r matches Ok(s) && s@ == client_queue@),
        queue_name@.len() > 0 ==> validated(queue_name@, r),
{
    if queue_name.is_empty() {
        Ok(String::from_str(client_queue))
    } else {
        validate_queue_name(queue_name)
    }
}

/// The queue filter of a maintenance operation: `None` (every queue) when no
/// name or an empty one is given, else the validated name.
pub fn optional_queue(queue_name: Option<&str>) -> (r: Result<Option<String>, AbsurdError>)
    ensures
        match queue_name {
            None => r matches Ok(None),
            Some(q) => if q@.len() == 0 {
                r matches Ok(None)
            } else {
                match queue_name_error(q@) {
                    Some(m) => r matches Err(AbsurdError::InvalidQueueName(e)) && e@ == m,
                    None => r matches Ok(Some(s)) && s@ == q@,
                }
            },
        },
{
    match queue_name {
        None => Ok(None),
        Some(q) => if q.is_empty() {
            Ok(None)
        } else {
            match validate_queue_name(q) {
                Ok(s) => Ok(Some(s)),
                Err(e) => Err(e),
            }
        },
    }
}

/// The queue a task is registered under: the explicit queue, validated, or
/// the client's queue. A task needs a name.
pub fn registration_queue(task_name: &str, queue: Option<&str>, client_queue: &str) -> (r: Result<
    String,
    AbsurdError,
>)
    ensures
        task_name@.len() == 0 ==> (r matches Err(AbsurdError::Other(m)) && m@
            == "task registration requires a name"@),
        task_name@.len() > 0 ==> match queue {
            None => r matches Ok(s) && s@ == client_queue@,
            Some(q) => validated(q@, r),
        },
{
    if task_name.is_empty() {
        return Err(AbsurdError::Other(String::from_str("task registration requires a name")));
    }
    match queue {
        None => Ok(String::from_str(client_queue)),
        Some(q) => validate_queue_name(q),
    }
}

/// What a registration says about spawning a task.
#[derive(Debug, Clone)]
pub struct TaskRegistration {
    pub name: String,
    pub queue_name: String,
    pub default_max_attempts: Option<i32>,
    pub default_cancellation: Option<CancellationPolicy>,
}

/// The message when a spawn asks for another queue than the registered one.
pub open spec fn queue_mismatch_message(task: Seq<char>, queue: Seq<char>, requested: Seq<char>) -> Seq<
    char,
> {
    "task "@ + debug_quoted(task) + " is registered for queue "@ + debug_quoted(queue)
        + " but spawn requested queue "@ + debug_quoted(requested)
}

/// The queue, attempt limit and cancellation policy a spawn resolves to,
/// before the queue name is validated; `None` when the spawn is refused.
pub open spec fn spawn_target(
    registered: Option<TaskRegistration>,
    requested_queue: Option<Seq<char>>,
    requested_attempts: Option<i32>,
    requested_cancellation: Option<CancellationPolicy>,
    default_max_attempts: i32,
) -> Option<(Seq<char>, i32, Option<CancellationPolicy>)> {
    let chosen = match registered {
        Some(reg) => if requested_queue matches Some(q) && q.len() > 0 && q != reg.queue_name@ {
            None
        } else {
            Some(
                (
                    reg.queue_name@,
                    match reg.default_max_attempts {
                        Some(n) => n,
                        None => default_max_attempts,
                    },
                    reg.default_cancellation,
                ),
            )
        },
        None => match requested_queue {
            Some(q) => if q.len() > 0 {
                Some((q, default_max_attempts, None))
            } else {
                None
            },
            None => None,
        },
    };
    match chosen {
        Some((queue, attempts, cancel)) => Some(
            (
                queue,
                match requested_attempts {
                    Some(n) => n,
                    None => attempts,
                },
                match requested_cancellation {
                    Some(c) => Some(c),
                    None => cancel,
                },
            ),
        ),
        None => None,
    }
}

/// An explicit attempt limit or cancellation policy always wins, for
/// registered and unregistered tasks alike; without one, a registered task
/// takes its registered defaults (its attempt limit, else the client's) and
/// an unregistered one the client's limit and no policy. A registered task
/// always goes to its registered queue, an unregistered one to the queue
/// asked for.
pub proof fn law_spawn_overrides(
    registered: Option<TaskRegistration>,
    requested_queue: Option<Seq<char>>,
    requested_attempts: Option<i32>,
    requested_cancellation: Option<CancellationPolicy>,
    default_max_attempts: i32,
)
    ensures
        spawn_target(
            registered,
            requested_queue,
            requested_attempts,
            requested_cancellation,
            default_max_attempts,
        ) matches Some((q, a, c)) ==> {
            &&& requested_attempts matches Some(n) ==> a == n
            &&& requested_cancellation matches Some(p) ==> c == Some(p)
            &&& requested_attempts is None ==> a == match registered {
                Some(reg) => match reg.default_max_attempts {
                    Some(m) => m,
                    None => default_max_attempts,
                },
                None => default_max_attempts,
            }
            &&& requested_cancellation is None ==> c == match registered {
                Some(reg) => reg.default_cancellation,
                None => None,
            }
            &&& registered matches Some(reg) ==> q == reg.queue_name@
            &&& registered is None ==> requested_queue == Some(q)
        },
{
}

/// The character view of an optional string.
pub open spec fn opt_chars(o: Option<&str>) -> Option<Seq<char>> {
    match o {
        Some(s) => Some(s@),
        None => None,
    }
}

/// Resolve where and how a task is spawned. A registered task goes to its
/// registered queue (a different explicit queue is refused) with its
/// registered defaults; an unregistered task needs an explicit queue. An
/// explicit attempt limit or cancellation policy overrides the defaults, and
/// the queue name is validated.
pub fn resolve_spawn(
    task_name: &str,
    registered: Option<&TaskRegistration>,
    requested_queue: Option<&str>,
    requested_attempts: Option<i32>,
    requested_cancellation: Option<CancellationPolicy>,
    default_max_attempts: i32,
) -> (r: Result<(String, i32, Option<CancellationPolicy>), AbsurdError>)
    ensures
        match spawn_target(
            match registered {
                Some(reg) => Some(*reg),
                None => None,
            },
            opt_chars(requested_queue),
            requested_attempts,
            requested_cancellation,
            default_max_attempts,
        ) {
            None => match registered {
                Some(reg) => r matches Err(AbsurdError::Other(m)) && m@ == queue_mismatch_message(
                    task_name@,
                    reg.queue_name@,
                    requested_queue->0@,
                ),
                None => r matches Err(AbsurdError::TaskNotRegistered(m)) && m@ == task_name@,
            },
            Some((queue, attempts, cancel)) => match queue_name_error(queue) {
                Some(m) => r matches Err(AbsurdError::InvalidQueueName(e)) && e@ == m,
                None => r matches Ok((s, a, c)) && s@ == queue && a == attempts && c == cancel,
            },
        },
{
    let queue: String;
    let mut max_attempts = default_max_attempts;
    let mut cancellation: Option<CancellationPolicy> = None;
    match registered {
        Some(reg) => {
            if let Some(requested) = requested_queue {
                if !requested.is_empty() && !str_equal(requested, reg.queue_name.as_str()) {
                    let msg = String::from_str("task ").concat(debug_quote(task_name).as_str()).concat(
                        " is registered for queue ",
                    ).concat(debug_quote(reg.queue_name.as_str()).as_str()).concat(
                        " but spawn requested queue ",
                    ).concat(debug_quote(requested).as_str());
                    return Err(AbsurdError::Other(msg));
                }
            }
            queue = reg.queue_name.clone();
            if let Some(n) = reg.default_max_attempts {
                max_attempts = n;
            }
            cancellation = reg.default_cancellation;
        },
        None => match requested_queue {
            Some(q) => {
                if q.is_empty() {
                    return Err(AbsurdError::TaskNotRegistered(String::from_str(task_name)));
                }
                queue = String::from_str(q);
            },
            None => {
                return Err(AbsurdError::TaskNotRegistered(String::from_str(task_name)));
            },
        },
    }
    if let Some(n) = requested_attempts {
        max_attempts = n;
    }
    if let Some(c) = requested_cancellation {
        cancellation = Some(c);
    }
    match validate_queue_name(queue.as_str()) {
        Ok(validated) => Ok((validated, max_attempts, cancellation)),
        Err(e) => Err(e),
    }
}

/// A scalar value of a JSON payload field.
#[derive(Debug, Clone)]
pub enum FieldValue {
    Text(String),
    Int(i64),
    Flag(bool),
}

/// The content of a payload field value.
pub enum FieldView {
    Text(Seq<char>),
    Int(int),
    Flag(bool),
}

impl View for FieldValue {
    type V = FieldView;

    open spec fn view(&self) -> FieldView {
        match self {
            FieldValue::Text(s) => FieldView::Text(s@),
            FieldValue::Int(n) => FieldView::Int(*n as int),
            FieldValue::Flag(b) => FieldView::Flag(*b),
        }
    }
}

/// The keys and values of a run of payload fields.
pub open spec fn fields_view(v: Seq<(&'static str, FieldValue)>) -> Seq<(Seq<char>, FieldView)> {
    v.map_values(|e: (&'static str, FieldValue)| (e.0@, e.1@))
}

/// A text field, present only when the option is set.
pub open spec fn text_field(key: Seq<char>, v: Option<String>) -> Seq<(Seq<char>, FieldView)> {
    match v {
        Some(s) => seq![(key, FieldView::Text(s@))],
        None => seq![],
    }
}

/// An integer field, present only when the option is set.
pub open spec fn int_field(key: Seq<char>, v: Option<i64>) -> Seq<(Seq<char>, FieldView)> {
    match v {
        Some(n) => seq![(key, FieldView::Int(n as int))],
        None => seq![],
    }
}

/// The fields of the `set_queue_policy` payload: one per policy option
/// that is set.
pub open spec fn policy_fields(o: QueuePolicyOptions) -> Seq<(Seq<char>, FieldView)> {
    text_field("partition_lookahead"@, o.partition_lookahead) + text_field(
        "partition_lookback"@,
        o.partition_lookback,
    ) + text_field("cleanup_ttl"@, o.cleanup_ttl) + int_field(
        "cleanup_limit"@,
        match o.cleanup_limit {
            Some(n) => Some(n as i64),
            None => None,
        },
    ) + match o.detach_mode {
        Some(m) => seq![("detach_mode"@, FieldView::Text(detach_mode_name(m)))],
        None => seq![],
    } + text_field("detach_min_age"@, o.detach_min_age)
}

/// Whether `fields` carries `value` under `key`: every field with that key
/// holds that value, and some field has it exactly when a value is given.
pub open spec fn carries(fields: Seq<(Seq<char>, FieldView)>, key: Seq<char>, value: Option<FieldView>) -> bool {
    &&& forall|i: int| 0 <= i < fields.len() && (#[trigger] fields[i]).0 == key ==> value == Some(fields[i].1)
    &&& value matches Some(v) ==> exists|i: int| 0 <= i < fields.len() && fields[i] == (key, v)
}

/// A text option as the field value it gives, if set.
pub open spec fn text_value(v: Option<String>) -> Option<FieldView> {
    match v {
        Some(s) => Some(FieldView::Text(s@)),
        None => None,
    }
}

spec fn single_field(key: Seq<char>, value: Option<FieldView>) -> Seq<(Seq<char>, FieldView)> {
    match value {
        Some(v) => seq![(key, v)],
        None => seq![],
    }
}

spec fn fields_of(keys: Seq<Seq<char>>, vals: Seq<Option<FieldView>>) -> Seq<(Seq<char>, FieldView)>
    decreases keys.len(),
{
    if keys.len() == 0 || vals.len() == 0 {
        seq![]
    } else {
        fields_of(keys.drop_last(), vals.drop_last()) + single_field(keys.last(), vals.last())
    }
}

proof fn lemma_single_carries(k: Seq<char>, v: Option<FieldView>, key: Seq<char>)
    ensures
        carries(single_field(k, v), key, if k == key { v } else { None }),
{
    match v {
        Some(x) => {
            assert(single_field(k, v)[0] == (k, x));
        },
        None => {},
    }
}

proof fn lemma_carries_concat(
    a: Seq<(Seq<char>, FieldView)>,
    b: Seq<(Seq<char>, FieldView)>,
    key: Seq<char>,
    va: Option<FieldView>,
    vb: Option<FieldView>,
)
    requires
        carries(a, key, va),
        carries(b, key, vb),
        va is None || vb is None,
    ensures
        carries(a + b, key, if va is Some { va } else { vb }),
{
    let s = a + b;
    assert forall|i: int| 0 <= i < s.len() && (#[trigger] s[i]).0 == key implies (if va is Some {
        va
    } else {
        vb
    }) == Some(s[i].1) by {
        if i < a.len() {
            assert(s[i] == a[i]);
        } else {
            assert(s[i] == b[i - a.len()]);
        }
    }
    match va {
        Some(v) => {
            let i = choose|i: int| 0 <= i < a.len() && a[i] == (key, v);
            assert(s[i] == a[i]);
        },
        None => match vb {
            Some(v) => {
                let i = choose|i: int| 0 <= i < b.len() && b[i] == (key, v);
                assert(s[i + a.len()] == b[i]);
            },
            None => {},
        },
    }
}

proof fn lemma_fields_of_carries(keys: Seq<Seq<char>>, vals: Seq<Option<FieldView>>, key: Seq<char>)
    requires
        keys.len() == vals.len(),
        forall|i: int, j: int| 0 <= i < j < keys.len() ==> keys[i] != keys[j],
    ensures
        carries(
            fields_of(keys, vals),
            key,
            if exists|j: int| 0 <= j < keys.len() && keys[j] == key {
                vals[choose|j: int| 0 <= j < keys.len() && keys[j] == key]
            } else {
                None
            },
        ),
    decreases keys.len(),
{
    if keys.len() > 0 {
        let ik = keys.drop_last();
        let iv = vals.drop_last();
        let n = keys.len() - 1;
        lemma_fields_of_carries(ik, iv, key);
        let in_init = exists|j: int| 0 <= j < ik.len() && ik[j] == key;
        let va = if in_init {
            iv[choose|j: int| 0 <= j < ik.len() && ik[j] == key]
        } else {
            None
        };
        let vb = if keys.last() == key { vals.last() } else { None };
        lemma_single_carries(keys.last(), vals.last(), key);
        if keys.last() == key && in_init {
            let j = choose|j: int| 0 <= j < ik.len() && ik[j] == key;
            assert(keys[j] == keys[n]);
        }
        lemma_carries_concat(fields_of(ik, iv), single_field(keys.last(), vals.last()), key, va, vb);
        if in_init {
            let j = choose|j: int| 0 <= j < ik.len() && ik[j] == key;
            assert(keys[j] == key);
            let j2 = choose|j: int| 0 <= j < keys.len() && keys[j] == key;
            assert(j2 == j);
        } else if keys.last() == key {
            let j2 = choose|j: int| 0 <= j < keys.len() && keys[j] == key;
            if j2 < n {
                assert(ik[j2] == key);
            }
        } else {
            if exists|j: int| 0 <= j < keys.len() && keys[j] == key {
                let j2 = choose|j: int| 0 <= j < keys.len() && keys[j] == key;
                assert(ik[j2] == key);
            }
        }
    }
}

/// Each key of the policy payload carries its own option and no other: the
/// value under `partition_lookahead` is the lookahead, under
/// `partition_lookback` the lookback, and so on, and a key is present
/// exactly when its option is set.
pub proof fn law_policy_fields_by_key(o: QueuePolicyOptions)
    ensures
        carries(policy_fields(o), "partition_lookahead"@, text_value(o.partition_lookahead)),
        carries(policy_fields(o), "partition_lookback"@, text_value(o.partition_lookback)),
        carries(policy_fields(o), "cleanup_ttl"@, text_value(o.cleanup_ttl)),
        carries(
            policy_fields(o),
            "cleanup_limit"@,
            match o.cleanup_limit {
                Some(n) => Some(FieldView::Int(n as int)),
                None => None,
            },
        ),
        carries(
            policy_fields(o),
            "detach_mode"@,
            match o.detach_mode {
                Some(m) => Some(FieldView::Text(detach_mode_name(m))),
                None => None,
            },
        ),
        carries(policy_fields(o), "detach_min_age"@, text_value(o.detach_min_age)),
{
    reveal_strlit("partition_lookahead");
    reveal_strlit("partition_lookback");
    reveal_strlit("cleanup_ttl");
    reveal_strlit("cleanup_limit");
    reveal_strlit("detach_mode");
    reveal_strlit("detach_min_age");
    let keys = seq![
        "partition_lookahead"@,
        "partition_lookback"@,
        "cleanup_ttl"@,
        "cleanup_limit"@,
        "detach_mode"@,
        "detach_min_age"@,
    ];
    let vals = seq![
        text_value(o.partition_lookahead),
        text_value(o.partition_lookback),
        text_value(o.cleanup_ttl),
        match o.cleanup_limit {
            Some(n) => Some(FieldView::Int(n as int)),
            None => None,
        },
        match o.detach_mode {
            Some(m) => Some(FieldView::Text(detach_mode_name(m))),
            None => None,
        },
        text_value(o.detach_min_age),
    ];
    assert(keys[2][0] != keys[4][0]);
    assert forall|i: int, j: int| 0 <= i < j < keys.len() implies keys[i] != keys[j] by {
        if i == 2 && j == 4 {
            assert(keys[i][0] != keys[j][0]);
        } else {
            assert(keys[i].len() != keys[j].len());
        }
    }
    reveal_with_fuel(fields_of, 7);
    assert(fields_of(keys, vals) =~= policy_fields(o)) by {
        assert(keys.drop_last().drop_last().drop_last().drop_last().drop_last().drop_last()
            =~= Seq::<Seq<char>>::empty());
    }
    assert forall|k: int| 0 <= k < 6 implies carries(policy_fields(o), #[trigger] keys[k], vals[k]) by {
        lemma_fields_of_carries(keys, vals, keys[k]);
        let j2 = choose|j: int| 0 <= j < keys.len() && keys[j] == keys[k];
        assert(j2 == k);
    }
    assert(carries(policy_fields(o), keys[0], vals[0]));
    assert(carries(policy_fields(o), keys[1], vals[1]));
    assert(carries(policy_fields(o), keys[2], vals[2]));
    assert(carries(policy_fields(o), keys[3], vals[3]));
    assert(carries(policy_fields(o), keys[4], vals[4]));
    assert(carries(policy_fields(o), keys[5], vals[5]));
}

fn push_text(out: &mut Vec<(&'static str, FieldValue)>, key: &'static str, v: &Option<String>)
    ensures
        fields_view(final(out)@) == fields_view(old(out)@) + text_field(key@, *v),
{
    let ghost before = out@;
    if let Some(s) = v {
        out.push((key, FieldValue::Text(s.clone())));
        assert(fields_view(out@) =~= fields_view(before) + text_field(key@, *v));
    } else {
        assert(fields_view(out@) =~= fields_view(before) + text_field(key@, *v));
    }
}

fn push_int(out: &mut Vec<(&'static str, FieldValue)>, key: &'static str, v: Option<i64>)
    ensures
        fields_view(final(out)@) == fields_view(old(out)@) + int_field(key@, v),
{
    let ghost before = out@;
    if let Some(n) = v {
        out.push((key, FieldValue::Int(n)));
        assert(fields_view(out@) =~= fields_view(before) + int_field(key@, v));
    } else {
        assert(fields_view(out@) =~= fields_view(before) + int_field(key@, v));
    }
}

/// The fields of the `set_queue_policy` payload for `o`. An empty result
/// means there is nothing to update.
pub fn queue_policy_fields(o: &QueuePolicyOptions) -> (r: Vec<(&'static str, FieldValue)>)
    ensures
        fields_view(r@) == policy_fields(*o),
{
    let mut out: Vec<(&'static str, FieldValue)> = Vec::new();
    assert(fields_view(out@) =~= seq![]);
    push_text(&mut out, "partition_lookahead", &o.partition_lookahead);
    push_text(&mut out, "partition_lookback", &o.partition_lookback);
    push_text(&mut out, "cleanup_ttl", &o.cleanup_ttl);
    let limit: Option<i64> = match o.cleanup_limit {
        Some(n) => Some(n as i64),
        None => None,
    };
    push_int(&mut out, "cleanup_limit", limit);
    let ghost before = out@;
    if let Some(m) = o.detach_mode {
        out.push(("detach_mode", FieldValue::Text(String::from_str(m.as_str()))));
    }
    assert(fields_view(out@) =~= fields_view(before) + match o.detach_mode {
        Some(m) => seq![("detach_mode"@, FieldView::Text(detach_mode_name(m)))],
        None => seq![],
    });
    push_text(&mut out, "detach_min_age", &o.detach_min_age);
    assert(fields_view(out@) =~= policy_fields(*o));
    out
}

/// The fields of the `retry_task` payload: the attempt limit when given,
/// and `spawn_new` when asked for.
pub open spec fn retry_fields(o: RetryTaskOptions) -> Seq<(Seq<char>, FieldView)> {
    int_field(
        "max_attempts"@,
        match o.max_attempts {
            Some(n) => Some(n as i64),
            None => None,
        },
    ) + if o.spawn_new {
        seq![("spawn_new"@, FieldView::Flag(true))]
    } else {
        seq![]
    }
}

/// The fields of the `retry_task` payload for `o`.
pub fn retry_task_fields(o: &RetryTaskOptions) -> (r: Vec<(&'static str, FieldValue)>)
    ensures
        fields_view(r@) == retry_fields(*o),
{
    let mut out: Vec<(&'static str, FieldValue)> = Vec::new();
    assert(fields_view(out@) =~= seq![]);
    let attempts: Option<i64> = match o.max_attempts {
        Some(n) => Some(n as i64),
        None => None,
    };
    push_int(&mut out, "max_attempts", attempts);
    let ghost before = out@;
    if o.spawn_new {
        out.push(("spawn_new", FieldValue::Flag(true)));
    }
    assert(fields_view(out@) =~= retry_fields(*o));
    out
}

/// Which parts of a spawn's options go into the `spawn_task` payload.
#[derive(Debug, Clone)]
pub struct SpawnFields {
    /// The attempt limit, kept only when it is set and not zero.
    pub max_attempts: Option<i32>,
    /// Whether the headers go in: they are set and not empty.
    pub include_headers: bool,
    /// Whether the retry strategy goes in.
    pub include_retry_strategy: bool,
    /// The fields of the cancellation object; empty means no object.
    pub cancellation: Vec<(&'static str, FieldValue)>,
    /// The idempotency key, kept only when it is set and not empty.
    pub idempotency_key: Option<String>,
}

/// The fields of a cancellation policy that are set.
pub open spec fn cancellation_fields(c: Option<CancellationPolicy>) -> Seq<(Seq<char>, FieldView)> {
    match c {
        Some(p) => int_field("max_duration"@, p.max_duration) + int_field(
            "max_delay"@,
            p.max_delay,
        ),
        None => seq![],
    }
}

/// Decide which parts of a spawn's options go into the `spawn_task`
/// payload: unset, zero or empty options are left out.
pub fn spawn_fields(
    max_attempts: Option<i32>,
    header_count: Option<usize>,
    has_retry_strategy: bool,
    cancellation: Option<CancellationPolicy>,
    idempotency_key: Option<&str>,
) -> (r: SpawnFields)
    ensures
        r.max_attempts == match max_attempts {
            Some(n) => if n != 0 {
                Some(n)
            } else {
                None
            },
            None => None,
        },
        r.include_headers == (header_count matches Some(n) && n > 0),
        r.include_retry_strategy == has_retry_strategy,
        fields_view(r.cancellation@) == cancellation_fields(cancellation),
        match idempotency_key {
            Some(k) => if k@.len() > 0 {
                r.idempotency_key matches Some(s) && s@ == k@
            } else {
                r.idempotency_key is None
            },
            None => r.idempotency_key is None,
        },
{
    let attempts = match max_attempts {
        Some(n) => if n != 0 {
            Some(n)
        } else {
            None
        },
        None => None,
    };
    let include_headers = match header_count {
        Some(n) => n > 0,
        None => false,
    };
    let mut cancel: Vec<(&'static str, FieldValue)> = Vec::new();
    assert(fields_view(cancel@) =~= seq![]);
    if let Some(p) = cancellation {
        push_int(&mut cancel, "max_duration", p.max_duration);
        push_int(&mut cancel, "max_delay", p.max_delay);
    }
    let key = match idempotency_key {
        Some(k) => if !k.is_empty() {
            Some(String::from_str(k))
        } else {
            None
        },
        None => None,
    };
    SpawnFields {
        max_attempts: attempts,
        include_headers,
        include_retry_strategy: has_retry_strategy,
        cancellation: cancel,
        idempotency_key: key,
    }
}

/// An event needs a name.
pub fn check_event_name(event_name: &str) -> (r: Result<(), AbsurdError>)
    ensures
        event_name@.len() == 0 ==> (r matches Err(AbsurdError::Other(m)) && m@
            == "event name must be a non-empty string"@),
        event_name@.len() > 0 ==> r is Ok,
{
    if event_name.is_empty() {
        Err(AbsurdError::Other(String::from_str("event name must be a non-empty string")))
    } else {
        Ok(())
    }
}

/// A policy update sends nothing exactly when no policy option is set.
pub proof fn law_empty_policy_update(o: QueuePolicyOptions)
    ensures
        policy_fields(o).len() == 0 <==> (o.partition_lookahead is None && o.partition_lookback is None
            && o.cleanup_ttl is None && o.cleanup_limit is None && o.detach_mode is None
            && o.detach_min_age is None),
{
}

/// The queue and default attempt limit a client is built with: the given
/// queue (or `default`), validated, and the given limit (or 5).
pub fn client_settings(queue_name: Option<&str>, default_max_attempts: Option<i32>) -> (r: Result<
    (String, i32),
    AbsurdError,
>)
    ensures
        ({
            let q = match queue_name {
                Some(q) => q@,
                None => "default"@,
            };
            match queue_name_error(q) {
                Some(m) => r matches Err(AbsurdError::InvalidQueueName(e)) && e@ == m,
                None => r matches Ok((s, n)) && s@ == q && n == match default_max_attempts {
                    Some(n) => n,
                    None => 5,
                },
            }
        }),
{
    let q = match queue_name {
        Some(q) => q,
        None => crate::util::DEFAULT_QUEUE_NAME,
    };
    let queue = validate_queue_name(q)?;
    let attempts = match default_max_attempts {
        Some(n) => n,
        None => 5,
    };
    Ok((queue, attempts))
}

/// A parsed Postgres connection configuration, carried through to the pool.
#[verifier::external_type_specification]
#[verifier::external_body]
pub struct ExPgConfig(tokio_postgres::Config);

/// What the driver makes of connection string `dsn`: the configuration it
/// denotes, or the text of the parse error. Parsing depends on the string
/// alone.
pub uninterp spec fn pg_config_parse(dsn: Seq<char>) -> Result<tokio_postgres::Config, Seq<char>>;

/// Parse a connection string (URL or key-value form) with the driver's
/// `<tokio_postgres::Config as FromStr>::from_str`. Claimed: a parsed
/// configuration is the one `pg_config_parse` names for `dsn`, and an
/// error's text is the refusal it names.
#[verifier::external_body]
fn parse_pg_config(dsn: &str) -> (r: Result<tokio_postgres::Config, tokio_postgres::Error>)
    ensures
        match r {
            Ok(c) => pg_config_parse(dsn@) == Ok::<tokio_postgres::Config, Seq<char>>(c),
            Err(e) => pg_config_parse(dsn@) == Err::<tokio_postgres::Config, Seq<char>>(
                postgres_text(e),
            ),
        },
{
    dsn.parse::<tokio_postgres::Config>()
}

/// The connection configuration the driver parses from database URL `dsn`;
/// a URL the driver refuses is an `Other` error "invalid database URL: " followed by the
/// driver's reason.
pub fn database_config(dsn: &str) -> (r: Result<tokio_postgres::Config, AbsurdError>)
    ensures
        match pg_config_parse(dsn@) {
            Ok(c) => r matches Ok(rc) && rc == c,
            Err(t) => r matches Err(AbsurdError::Other(m)) && m@ == "invalid database URL: "@ + t,
        },
{
    match parse_pg_config(dsn) {
        Ok(c) => Ok(c),
        Err(e) => {
            let text = postgres_error_text(&e);
            Err(AbsurdError::Other(join2("invalid database URL: ", text.as_str())))
        },
    }
}

} // verus!
