//! Stepwise schema migrations.
//!
//! The bundled migrations form a directed graph of `from -> to` edges;
//! `resolve` walks it to produce the sequence of migrations that takes the
//! database from its recorded version to the target.

use crate::error::{str_equal, AbsurdError};
use crate::versions::{is_newer, version_order};
use vstd::prelude::*;

verus! {

/// One bundled migration step, named by its SQL file.
#[derive(Debug, Clone, Copy)]
pub struct Migration {
    pub from: &'static str,
    pub to: &'static str,
    pub filename: &'static str,
}

/// The text of a migration step.
pub struct MigrationView {
    pub from: Seq<char>,
    pub to: Seq<char>,
    pub filename: Seq<char>,
}

impl View for Migration {
    type V = MigrationView;

    open spec fn view(&self) -> MigrationView {
        MigrationView { from: self.from@, to: self.to@, filename: self.filename@ }
    }
}

/// The character views of a run of strings.
pub open spec fn str_views(v: Seq<&str>) -> Seq<Seq<char>> {
    v.map_values(|s: &str| s@)
}

/// The views of a table of migrations.
pub open spec fn views_of(t: Seq<Migration>) -> Seq<MigrationView> {
    t.map_values(|m: Migration| m@)
}

/// The version the bundled schema represents (matches
/// `absurd.get_schema_version`).
pub const TARGET_VERSION: &'static str = "main";

/// The bundled migration steps, in lexical filename order.
pub open spec fn bundled_steps() -> Seq<MigrationView> {
    seq![
        MigrationView { from: "0.0.3"@, to: "0.0.4"@, filename: "0.0.3-0.0.4.sql"@ },
        MigrationView { from: "0.0.4"@, to: "0.0.5"@, filename: "0.0.4-0.0.5.sql"@ },
        MigrationView { from: "0.0.5"@, to: "0.0.6"@, filename: "0.0.5-0.0.6.sql"@ },
        MigrationView { from: "0.0.6"@, to: "0.0.7"@, filename: "0.0.6-0.0.7.sql"@ },
        MigrationView { from: "0.0.8"@, to: "0.1.0"@, filename: "0.0.8-0.1.0.sql"@ },
        MigrationView { from: "0.1.0"@, to: "0.1.1"@, filename: "0.1.0-0.1.1.sql"@ },
        MigrationView { from: "0.1.1"@, to: "0.2.0"@, filename: "0.1.1-0.2.0.sql"@ },
        MigrationView { from: "0.2.0"@, to: "0.3.0"@, filename: "0.2.0-0.3.0.sql"@ },
        MigrationView { from: "0.3.0"@, to: "main"@, filename: "0.3.0-main.sql"@ },
    ]
}

fn step(from: &'static str, to: &'static str, filename: &'static str) -> (m: Migration)
    ensures
        m@ == (MigrationView { from: from@, to: to@, filename: filename@ }),
{
    Migration { from, to, filename }
}

/// All bundled migrations, in lexical filename order. The schema target is
/// always `main`.
pub fn bundled_migrations() -> (r: Vec<Migration>)
    ensures
        views_of(r@) =~= bundled_steps(),
{
    let mut v: Vec<Migration> = Vec::new();
    v.push(step("0.0.3", "0.0.4", "0.0.3-0.0.4.sql"));
    v.push(step("0.0.4", "0.0.5", "0.0.4-0.0.5.sql"));
    v.push(step("0.0.5", "0.0.6", "0.0.5-0.0.6.sql"));
    v.push(step("0.0.6", "0.0.7", "0.0.6-0.0.7.sql"));
    v.push(step("0.0.8", "0.1.0", "0.0.8-0.1.0.sql"));
    v.push(step("0.1.0", "0.1.1", "0.1.0-0.1.1.sql"));
    v.push(step("0.1.1", "0.2.0", "0.1.1-0.2.0.sql"));
    v.push(step("0.2.0", "0.3.0", "0.2.0-0.3.0.sql"));
    v.push(step("0.3.0", "main", "0.3.0-main.sql"));
    v
}

/// The index of the first step at or after `k` that starts at `cursor`.
pub open spec fn first_step_from(table: Seq<MigrationView>, cursor: Seq<char>, k: int) -> Option<
    int,
>
    decreases table.len() - k,
{
    if k < 0 || k >= table.len() {
        None
    } else if table[k].from == cursor {
        Some(k)
    } else {
        first_step_from(table, cursor, k + 1)
    }
}

/// Why a walk through the migration graph stopped short of its target.
pub enum WalkStop {
    /// The walk came back to a version it had already left.
    Cycle,
    /// No step leaves this version.
    NoPath(Seq<char>),
}

/// The walk from `cursor` to `target`, always taking the first step that
/// leaves the current version. `visited` holds the versions already left;
/// `fuel` bounds the length of the walk.
pub open spec fn walk(
    table: Seq<MigrationView>,
    cursor: Seq<char>,
    target: Seq<char>,
    visited: Seq<Seq<char>>,
    fuel: nat,
) -> Result<Seq<MigrationView>, WalkStop>
    decreases fuel,
{
    if cursor == target {
        Ok(seq![])
    } else if visited.contains(cursor) {
        Err(WalkStop::Cycle)
    } else {
        match first_step_from(table, cursor, 0) {
            None => Err(WalkStop::NoPath(cursor)),
            Some(k) => if fuel == 0 {
                Err(WalkStop::Cycle)
            } else {
                match walk(table, table[k].to, target, visited.push(cursor), (fuel - 1) as nat) {
                    Ok(rest) => Ok(seq![table[k]] + rest),
                    Err(e) => Err(e),
                }
            },
        }
    }
}

/// The walk from `current` to `target` through `table`, from scratch.
pub open spec fn migration_path(table: Seq<MigrationView>, current: Seq<char>, target: Seq<char>) -> Result<
    Seq<MigrationView>,
    WalkStop,
> {
    walk(table, current, target, seq![], (table.len() + 1) as nat)
}

/// A walk's outcome with `pre` walked first.
pub open spec fn prefixed(pre: Seq<MigrationView>, r: Result<Seq<MigrationView>, WalkStop>) -> Result<
    Seq<MigrationView>,
    WalkStop,
> {
    match r {
        Ok(rest) => Ok(pre + rest),
        Err(e) => Err(e),
    }
}

/// The message when the current schema is newer than the target.
pub open spec fn downgrade_message(current: Seq<char>, target: Seq<char>) -> Seq<char> {
    "current schema "@ + current + " is newer than target "@ + target
        + "; refusing to downgrade"@
}

/// The message when the walk comes back to a version it already left.
pub open spec fn cycle_message(current: Seq<char>, target: Seq<char>) -> Seq<char> {
    "cycle detected while resolving migrations from "@ + current + " to "@ + target
}

/// The message when no step leaves the version `cursor`.
pub open spec fn no_path_message(cursor: Seq<char>, target: Seq<char>) -> Seq<char> {
    "no bundled migration path from "@ + cursor + " to "@ + target
}

/// What `resolve` answers for `current` and `target` over `table`.
pub open spec fn resolution(table: Seq<MigrationView>, current: &str, target: &str) -> Result<
    Seq<MigrationView>,
    Seq<char>,
> {
    if current@ == target@ {
        Ok(seq![])
    } else if version_order(current, target) == 1 {
        Err(downgrade_message(current@, target@))
    } else {
        match migration_path(table, current@, target@) {
            Ok(steps) => Ok(steps),
            Err(WalkStop::Cycle) => Err(cycle_message(current@, target@)),
            Err(WalkStop::NoPath(c)) => Err(no_path_message(c, target@)),
        }
    }
}

/// Whether `r` is the answer `want` of `resolution`: the same steps, or an
/// `Other` error with the same message.
pub open spec fn answers(r: Result<Vec<Migration>, AbsurdError>, want: Result<Seq<MigrationView>, Seq<char>>) -> bool {
    match want {
        Ok(steps) => r matches Ok(v) && views_of(v@) == steps,
        Err(msg) => r matches Err(AbsurdError::Other(m)) && m@ == msg,
    }
}

fn join_four(a: &str, b: &str, c: &str, d: &str) -> (r: String)
    ensures
        r@ == a@ + b@ + c@ + d@,
{
    String::from_str(a).concat(b).concat(c).concat(d)
}

fn first_step_index(table: &Vec<Migration>, cursor: &str) -> (r: Option<usize>)
    ensures
        match r {
            Some(k) => first_step_from(views_of(table@), cursor@, 0) == Some(k as int) && k
                < table@.len(),
            None => first_step_from(views_of(table@), cursor@, 0) is None,
        },
{
    let ghost t = views_of(table@);
    let mut k: usize = 0;
    while k < table.len()
        invariant
            t == views_of(table@),
            k <= table@.len(),
            first_step_from(t, cursor@, 0) == first_step_from(t, cursor@, k as int),
        decreases table@.len() - k,
    {
        if str_equal(table[k].from, cursor) {
            return Some(k);
        }
        k = k + 1;
    }
    None
}

fn seen(attempted: &Vec<&str>, cursor: &str) -> (r: bool)
    ensures
        r == str_views(attempted@).contains(cursor@),
{
    let ghost vis = str_views(attempted@);
    let mut i: usize = 0;
    while i < attempted.len()
        invariant
            vis == str_views(attempted@),
            i <= attempted@.len(),
            forall|j: int| 0 <= j < i ==> vis[j] != cursor@,
        decreases attempted@.len() - i,
    {
        if str_equal(attempted[i], cursor) {
            assert(vis[i as int] == cursor@);
            return true;
        }
        i = i + 1;
    }
    false
}

proof fn lemma_first_step_from_found(table: Seq<MigrationView>, cursor: Seq<char>, k: int)
    requires
        0 <= k,
    ensures
        first_step_from(table, cursor, k) matches Some(i) ==> k <= i < table.len() && table[i].from
            == cursor,
    decreases table.len() - k,
{
    if k < table.len() && table[k].from != cursor {
        lemma_first_step_from_found(table, cursor, k + 1);
    }
}

/// A run of distinct versions, each of which some step leaves, is no longer
/// than the table.
proof fn lemma_visited_bounded(table: Seq<MigrationView>, vis: Seq<Seq<char>>)
    requires
        vis.no_duplicates(),
        forall|i: int|
            0 <= i < vis.len() ==> exists|j: int| 0 <= j < table.len() && table[j].from == #[trigger] vis[i],
    ensures
        vis.len() <= table.len(),
{
    let froms = table.map_values(|m: MigrationView| m.from);
    vis.unique_seq_to_set();
    froms.lemma_cardinality_of_set();
    assert(vis.to_set().subset_of(froms.to_set())) by {
        assert forall|x: Seq<char>| vis.to_set().contains(x) implies froms.to_set().contains(x) by {
            let i = choose|i: int| 0 <= i < vis.len() && vis[i] == x;
            let j = choose|j: int| 0 <= j < table.len() && table[j].from == #[trigger] vis[i];
            assert(froms[j] == x);
        }
    }
    vstd::set_lib::lemma_len_subset(vis.to_set(), froms.to_set());
}

/// Walk from `current` to `target` through `table`, taking the first step
/// out of each version, and fail on a cycle or a dead end.
fn walk_table(table: &Vec<Migration>, current: &str, target: &str) -> (r: Result<
    Vec<Migration>,
    AbsurdError,
>)
    ensures
        match migration_path(views_of(table@), current@, target@) {
            Ok(steps) => r matches Ok(v) && views_of(v@) == steps,
            Err(WalkStop::Cycle) => r matches Err(AbsurdError::Other(m)) && m@ == cycle_message(
                current@,
                target@,
            ),
            Err(WalkStop::NoPath(c)) => r matches Err(AbsurdError::Other(m)) && m@
                == no_path_message(c, target@),
        },
{
    let ghost t = views_of(table@);
    let ghost total = (t.len() + 1) as nat;
    let mut steps: Vec<Migration> = Vec::new();
    let mut cursor: &str = current;
    let mut attempted: Vec<&str> = Vec::new();
    proof {
        assert(views_of(steps@) =~= seq![]);
        assert(str_views(attempted@) =~= seq![]);
        match migration_path(t, current@, target@) {
            Ok(rest) => assert(seq![] + rest =~= rest),
            Err(_) => {},
        }
    }
    while !str_equal(cursor, target)
        invariant
            t == views_of(table@),
            total == t.len() + 1,
            attempted@.len() <= t.len(),
            str_views(attempted@).no_duplicates(),
            forall|i: int|
                0 <= i < attempted@.len() ==> exists|j: int|
                    0 <= j < t.len() && t[j].from == #[trigger] str_views(attempted@)[i],
            migration_path(t, current@, target@) == prefixed(
                views_of(steps@),
                walk(t, cursor@, target@, str_views(attempted@), (total - attempted@.len()) as nat),
            ),
        decreases t.len() - attempted@.len(),
    {
        let ghost vis = str_views(attempted@);
        if seen(&attempted, cursor) {
            let msg = join_four(
                "cycle detected while resolving migrations from ",
                current,
                " to ",
                target,
            );
            return Err(AbsurdError::Other(msg));
        }
        let k = match first_step_index(table, cursor) {
            Some(k) => k,
            None => {
                let msg = join_four("no bundled migration path from ", cursor, " to ", target);
                return Err(AbsurdError::Other(msg));
            },
        };
        proof {
            lemma_first_step_from_found(t, cursor@, 0);
            let vis2 = vis.push(cursor@);
            assert(vis2.no_duplicates()) by {
                assert forall|a: int, b: int|
                    0 <= a < vis2.len() && 0 <= b < vis2.len() && a != b implies vis2[a]
                    != vis2[b] by {
                    if a < vis.len() && b < vis.len() {
                    } else if a == vis.len() {
                        assert(vis2[b] == vis[b]);
                    } else {
                        assert(vis2[a] == vis[a]);
                    }
                }
            }
            assert forall|i: int| 0 <= i < vis2.len() implies exists|j: int|
                0 <= j < t.len() && t[j].from == #[trigger] vis2[i] by {
                if i < vis.len() {
                    assert(vis2[i] == vis[i]);
                } else {
                    assert(t[k as int].from == vis2[i]);
                }
            }
            lemma_visited_bounded(t, vis2);
        }
        let m = table[k];
        let ghost before = steps@;
        let ghost fuel = (total - attempted@.len()) as nat;
        proof {
            assert(fuel > 0);
            let inner = walk(t, t[k as int].to, target@, vis.push(cursor@), (fuel - 1) as nat);
            assert(walk(t, cursor@, target@, vis, fuel) == prefixed(seq![t[k as int]], inner));
            match inner {
                Ok(rest) => {
                    assert(views_of(before) + (seq![t[k as int]] + rest) =~= views_of(before).push(
                        t[k as int],
                    ) + rest);
                },
                Err(_) => {},
            }
        }
        attempted.push(cursor);
        steps.push(m);
        proof {
            assert(str_views(attempted@) =~= vis.push(cursor@));
            assert(views_of(steps@) =~= views_of(before).push(t[k as int]));
        }
        cursor = m.to;
    }
    Ok(steps)
}

/// Resolve a forward path from `current` to `target` through `table`.
pub fn resolve_with(table: &Vec<Migration>, current: &str, target: &str) -> (r: Result<
    Vec<Migration>,
    AbsurdError,
>)
    ensures
        answers(r, resolution(views_of(table@), current, target)),
{
    if str_equal(current, target) {
        let r: Vec<Migration> = Vec::new();
        assert(views_of(r@) =~= seq![]);
        return Ok(r);
    }
    if is_newer(current, target) {
        let msg = String::from_str("current schema ").concat(current).concat(
            " is newer than target ",
        ).concat(target).concat("; refusing to downgrade");
        return Err(AbsurdError::Other(msg));
    }
    walk_table(table, current, target)
}

/// Resolve a forward path from `current` to `target` through the bundled
/// migrations. `main` is the highest version; numbered versions are ordered
/// by major.minor.patch.
pub fn resolve(current: &str, target: &str) -> (r: Result<Vec<Migration>, AbsurdError>)
    ensures
        answers(r, resolution(bundled_steps(), current, target)),
{
    let table = bundled_migrations();
    resolve_with(&table, current, target)
}

/// Whether `steps` is a chain of table steps from `current` to `target`:
/// it starts at `current`, each step starts where the previous one ended,
/// and it ends at `target`.
pub open spec fn is_chain(
    table: Seq<MigrationView>,
    steps: Seq<MigrationView>,
    current: Seq<char>,
    target: Seq<char>,
) -> bool {
    &&& steps.len() == 0 ==> current == target
    &&& steps.len() > 0 ==> steps[0].from == current && steps.last().to == target
    &&& forall|i: int| 0 <= i < steps.len() - 1 ==> #[trigger] steps[i].to == steps[i + 1].from
    &&& forall|i: int| 0 <= i < steps.len() ==> table.contains(#[trigger] steps[i])
}

proof fn lemma_walk_is_chain(
    table: Seq<MigrationView>,
    cursor: Seq<char>,
    target: Seq<char>,
    visited: Seq<Seq<char>>,
    fuel: nat,
)
    ensures
        walk(table, cursor, target, visited, fuel) matches Ok(steps) ==> is_chain(
            table,
            steps,
            cursor,
            target,
        ),
    decreases fuel,
{
    if cursor != target && !visited.contains(cursor) {
        match first_step_from(table, cursor, 0) {
            None => {},
            Some(k) => {
                if fuel > 0 {
                    lemma_first_step_from_found(table, cursor, 0);
                    let inner = walk(table, table[k].to, target, visited.push(cursor), (fuel - 1) as nat);
                    lemma_walk_is_chain(table, table[k].to, target, visited.push(cursor), (fuel - 1) as nat);
                    match inner {
                        Ok(rest) => {
                            let steps = seq![table[k]] + rest;
                            assert(table.contains(steps[0]));
                            assert forall|i: int| 0 <= i < steps.len() - 1 implies #[trigger] steps[i].to
                                == steps[i + 1].from by {
                                if i > 0 {
                                    assert(steps[i] == rest[i - 1]);
                                    assert(rest[i - 1].to == rest[i].from);
                                }
                            }
                            assert forall|i: int| 0 <= i < steps.len() implies table.contains(
                                #[trigger] steps[i],
                            ) by {
                                if i > 0 {
                                    assert(steps[i] == rest[i - 1]);
                                }
                            }
                            if rest.len() > 0 {
                                assert(steps.last() == rest.last());
                            }
                        },
                        Err(_) => {},
                    }
                }
            },
        }
    }
}

/// Every path that `resolve` returns is a chain of bundled steps that starts
/// at the current version and ends at the target; when the two are equal the
/// path is empty.
pub proof fn law_resolved_path_is_chain(table: Seq<MigrationView>, current: &str, target: &str)
    ensures
        resolution(table, current, target) matches Ok(steps) ==> is_chain(
            table,
            steps,
            current@,
            target@,
        ),
{
    lemma_walk_is_chain(table, current@, target@, seq![], (table.len() + 1) as nat);
}

/// A schema already at the target needs no migration, and a schema newer
/// than the target is never migrated backwards.
pub proof fn law_no_downgrade(table: Seq<MigrationView>, current: &str, target: &str)
    ensures
        current@ == target@ ==> resolution(table, current, target) == Ok::<
            Seq<MigrationView>,
            Seq<char>,
        >(seq![]),
        current@ != target@ && version_order(current, target) == 1 ==> resolution(
            table,
            current,
            target,
        ) == Err::<Seq<MigrationView>, Seq<char>>(downgrade_message(current@, target@)),
{
}

/// Whether the path `steps` leaves no version twice and reaches `target`
/// only with its last step.
pub open spec fn is_simple_path(steps: Seq<MigrationView>, target: Seq<char>) -> bool {
    &&& forall|i: int, j: int|
        0 <= i < j < steps.len() ==> #[trigger] steps[i].from != #[trigger] steps[j].from
    &&& forall|i: int| 0 <= i < steps.len() - 1 ==> #[trigger] steps[i].to != target
}

proof fn lemma_walk_is_simple(
    table: Seq<MigrationView>,
    cursor: Seq<char>,
    target: Seq<char>,
    visited: Seq<Seq<char>>,
    fuel: nat,
)
    ensures
        walk(table, cursor, target, visited, fuel) matches Ok(steps) ==> {
            &&& is_simple_path(steps, target)
            &&& forall|i: int| 0 <= i < steps.len() ==> !visited.contains(#[trigger] steps[i].from)
            &&& steps.len() > 0 ==> cursor != target && steps[0].from == cursor
        },
    decreases fuel,
{
    if cursor != target && !visited.contains(cursor) {
        match first_step_from(table, cursor, 0) {
            None => {},
            Some(k) => {
                if fuel > 0 {
                    lemma_first_step_from_found(table, cursor, 0);
                    let vis = visited.push(cursor);
                    let inner = walk(table, table[k].to, target, vis, (fuel - 1) as nat);
                    lemma_walk_is_simple(table, table[k].to, target, vis, (fuel - 1) as nat);
                    match inner {
                        Ok(rest) => {
                            let steps = seq![table[k]] + rest;
                            assert forall|i: int| 0 <= i < rest.len() implies rest[i].from
                                != cursor && !visited.contains(rest[i].from) by {
                                assert(!vis.contains(rest[i].from));
                                assert(vis[visited.len() as int] == cursor);
                                if visited.contains(rest[i].from) {
                                    let j = choose|j: int|
                                        0 <= j < visited.len() && visited[j] == rest[i].from;
                                    assert(vis[j] == rest[i].from);
                                }
                            }
                            assert forall|i: int, j: int|
                                0 <= i < j < steps.len() implies #[trigger] steps[i].from
                                != #[trigger] steps[j].from by {
                                assert(steps[j] == rest[j - 1]);
                                if i > 0 {
                                    assert(steps[i] == rest[i - 1]);
                                }
                            }
                            assert forall|i: int| 0 <= i < steps.len() - 1 implies #[trigger] steps[i].to
                                != target by {
                                if i > 0 {
                                    assert(steps[i] == rest[i - 1]);
                                }
                            }
                            assert forall|i: int| 0 <= i < steps.len() implies !visited.contains(
                                #[trigger] steps[i].from,
                            ) by {
                                if i > 0 {
                                    assert(steps[i] == rest[i - 1]);
                                }
                            }
                        },
                        Err(_) => {},
                    }
                }
            },
        }
    }
}

/// A path that `resolve` returns never leaves a version twice, and reaches
/// the target only with its last step.
pub proof fn law_resolved_path_is_simple(table: Seq<MigrationView>, current: &str, target: &str)
    ensures
        resolution(table, current, target) matches Ok(steps) ==> is_simple_path(steps, target@),
{
    lemma_walk_is_simple(table, current@, target@, seq![], (table.len() + 1) as nat);
}

/// `resolve` answers with the downgrade refusal exactly when the two
/// versions differ and the current one is the newer; no other failure
/// carries that message.
pub proof fn law_downgrade_refusal_only_when_newer(
    table: Seq<MigrationView>,
    current: &str,
    target: &str,
)
    ensures
        resolution(table, current, target) == Err::<Seq<MigrationView>, Seq<char>>(
            downgrade_message(current@, target@),
        ) <==> (current@ != target@ && version_order(current, target) == 1),
{
    reveal_strlit("current schema ");
    reveal_strlit("cycle detected while resolving migrations from ");
    reveal_strlit("no bundled migration path from ");
    let d = downgrade_message(current@, target@);
    assert(d[0] == 'c' && d[1] == 'u');
    match migration_path(table, current@, target@) {
        Err(WalkStop::Cycle) => {
            let m = cycle_message(current@, target@);
            assert(m[1] == 'y');
        },
        Err(WalkStop::NoPath(c)) => {
            let m = no_path_message(c, target@);
            assert(m[0] == 'n');
        },
        Ok(_) => {},
    }
}

} // verus!
