//! The decisions of the `#[task]` attribute: which functions it accepts,
//! and the task definition it builds for them.
//!
//! The attribute reads an `async fn name(params: P) -> Result<R, E>` and
//! emits a sibling builder `name_task()` for a task named `name` (or the
//! `name = "..."` argument), on the `queue` and with the `max_attempts`
//! given. Parsing the Rust tokens and printing the builder belong to the
//! macro crate; here the function's shape is plain data, and what the
//! attribute decides from it is a function with a contract.

use crate::error::str_equal;
use crate::text::{debug_quote, debug_quoted, join2};
use vstd::prelude::*;

verus! {

/// A generic argument of a path segment: a type (by its text), or anything
/// else (a lifetime, a constant, an associated-type binding).
#[derive(Debug, Clone)]
pub enum GenericArgShape {
    Type(String),
    Other,
}

/// The arguments after a path segment's identifier.
#[derive(Debug, Clone)]
pub enum PathArgsShape {
    /// No arguments: `Result`.
    Bare,
    /// Parenthesised arguments: `Fn(A) -> B`.
    Parenthesized,
    /// Angle-bracketed arguments: `Result<T, E>`.
    AngleBracketed(Vec<GenericArgShape>),
}

/// One segment of a type path: its identifier and its arguments.
#[derive(Debug, Clone)]
pub struct SegmentShape {
    pub ident: String,
    pub args: PathArgsShape,
}

/// The declared return type of the function.
#[derive(Debug, Clone)]
pub enum ReturnShape {
    /// No `->` at all.
    Default,
    /// A type that is not a path (a tuple, a reference, `impl Trait`, ...).
    NonPath,
    /// A path type, segment by segment.
    Path(Vec<SegmentShape>),
}

/// One parameter of the function.
#[derive(Debug, Clone)]
pub enum ParamShape {
    /// `self`, `&self` or `&mut self`.
    Receiver,
    /// `pattern: type`; `ident_or_wild` tells whether the pattern is a plain
    /// identifier or `_`.
    Typed { ident_or_wild: bool, ty: String },
}

/// What the attribute reads of the annotated function.
#[derive(Debug, Clone)]
pub struct TaskFnShape {
    pub fn_name: String,
    pub is_async: bool,
    pub params: Vec<ParamShape>,
    pub ret: ReturnShape,
}

/// What the attribute builds: the builder function's name and what it wires
/// up.
#[derive(Debug, Clone)]
pub struct TaskPlan {
    /// The task name used on the wire.
    pub task_name: String,
    /// The name of the emitted builder function.
    pub builder_name: String,
    /// Whether the builder is declared `pub`: always, as the attribute's
    /// documentation promises (`pub fn <name>_task`).
    pub builder_public: bool,
    /// The task's parameter type.
    pub param_ty: String,
    /// The task's result type: the `T` of `Result<T, _>`.
    pub ok_ty: String,
    /// The queue the builder puts the task on, if any.
    pub queue: Option<String>,
    /// The attempt limit the builder sets, if any.
    pub max_attempts: Option<i64>,
}

/// An argument of the attribute, by its key.
#[derive(Debug, Clone, Copy, PartialEq, Eq, Structural)]
pub enum TaskArgKey {
    Name,
    Queue,
    MaxAttempts,
}

/// The text of the first type argument among `args`, if any.
pub open spec fn first_type_arg(args: Seq<GenericArgShape>) -> Option<Seq<char>>
    decreases args.len(),
{
    if args.len() == 0 {
        None
    } else {
        match args[0] {
            GenericArgShape::Type(t) => Some(t@),
            GenericArgShape::Other => first_type_arg(args.drop_first()),
        }
    }
}

/// What the attribute makes of a return type: the `T` of `Result<T, _>`, or
/// the message of the compile error it reports.
pub open spec fn result_ok_outcome(ret: ReturnShape) -> Result<Seq<char>, Seq<char>> {
    match ret {
        ReturnShape::Default => Err("#[absurd::task] requires a Result return type"@),
        ReturnShape::NonPath => Err("expected a Result<T, _> return type"@),
        ReturnShape::Path(segments) => if segments@.len() == 0 {
            Err("expected a Result<T, _> return type"@)
        } else if segments@.last().ident@ != "Result"@ {
            Err("expected the return type to be Result<T, _> (e.g. absurd_sdk::Result<T>)"@)
        } else {
            match segments@.last().args {
                PathArgsShape::AngleBracketed(args) => match first_type_arg(args@) {
                    Some(t) => Ok(t),
                    None => Err("Result must have at least one type parameter"@),
                },
                _ => Err("Result must have a generic parameter (Result<T> or Result<T, E>)"@),
            }
        },
    }
}

/// A result of strings, by the strings' views.
pub open spec fn text_outcome(r: Result<String, String>) -> Result<Seq<char>, Seq<char>> {
    match r {
        Ok(s) => Ok(s@),
        Err(m) => Err(m@),
    }
}

fn first_type_arg_of(args: &Vec<GenericArgShape>) -> (r: Option<String>)
    ensures
        match r {
            Some(t) => first_type_arg(args@) == Some(t@),
            None => first_type_arg(args@) is None,
        },
{
    let mut i: usize = 0;
    assert(args@.subrange(0, args@.len() as int) =~= args@);
    while i < args.len()
        invariant
            i <= args@.len(),
            first_type_arg(args@) == first_type_arg(args@.subrange(i as int, args@.len() as int)),
        decreases args@.len() - i,
    {
        let ghost rest = args@.subrange(i as int, args@.len() as int);
        assert(rest[0] == args@[i as int]);
        assert(rest.drop_first() =~= args@.subrange(i + 1, args@.len() as int));
        match &args[i] {
            GenericArgShape::Type(t) => {
                return Some(t.clone());
            },
            GenericArgShape::Other => {},
        }
        i = i + 1;
    }
    assert(args@.subrange(i as int, args@.len() as int) =~= Seq::<GenericArgShape>::empty());
    None
}

/// Pull `T` out of a `Result<T, _>` return type, or say why the return type
/// is refused.
pub fn result_ok_arg(ret: &ReturnShape) -> (r: Result<String, String>)
    ensures
        text_outcome(r) == result_ok_outcome(*ret),
{
    match ret {
        ReturnShape::Default => Err(
            String::from_str("#[absurd::task] requires a Result return type"),
        ),
        ReturnShape::NonPath => Err(String::from_str("expected a Result<T, _> return type")),
        ReturnShape::Path(segments) => {
            if segments.len() == 0 {
                return Err(String::from_str("expected a Result<T, _> return type"));
            }
            let last = &segments[segments.len() - 1];
            if !str_equal(last.ident.as_str(), "Result") {
                return Err(
                    String::from_str(
                        "expected the return type to be Result<T, _> (e.g. absurd_sdk::Result<T>)",
                    ),
                );
            }
            match &last.args {
                PathArgsShape::AngleBracketed(args) => match first_type_arg_of(args) {
                    Some(t) => Ok(t),
                    None => Err(String::from_str("Result must have at least one type parameter")),
                },
                _ => Err(
                    String::from_str(
                        "Result must have a generic parameter (Result<T> or Result<T, E>)",
                    ),
                ),
            }
        },
    }
}

/// The task name: the `name` argument if given, else the function's name.
pub open spec fn plan_task_name(name: Option<String>, fn_name: String) -> Seq<char> {
    match name {
        Some(n) => n@,
        None => fn_name@,
    }
}

/// Why the attribute refuses a function, if it does: the first of its
/// constraints that the function breaks, or the return type's refusal.
pub open spec fn task_refusal(f: TaskFnShape) -> Option<Seq<char>> {
    if !f.is_async {
        Some("#[absurd::task] requires an async fn"@)
    } else if f.params@.len() != 1 {
        Some("#[absurd::task] expects exactly one parameter (the task params)"@)
    } else {
        match f.params@[0] {
            ParamShape::Receiver => Some("#[absurd::task] does not support self parameters"@),
            ParamShape::Typed { ident_or_wild, ty } => if !ident_or_wild {
                Some("#[absurd::task] parameter must be a plain identifier"@)
            } else {
                match result_ok_outcome(f.ret) {
                    Ok(_) => None,
                    Err(m) => Some(m),
                }
            },
        }
    }
}

/// Decide what the attribute does with function `f` and its arguments
/// `name`, `queue` and `max_attempts`: refuse it with a compile error
/// message, or plan a public builder named after the function with `_task`, for the
/// task named `name` (else the function's name), with the function's
/// parameter type and the `T` of its `Result<T, _>`, on `queue` and with
/// `max_attempts` as given.
pub fn task_plan(
    name: Option<String>,
    queue: Option<String>,
    max_attempts: Option<i64>,
    f: &TaskFnShape,
) -> (r: Result<TaskPlan, String>)
    ensures
        match task_refusal(*f) {
            Some(m) => r matches Err(e) && e@ == m,
            None => r matches Ok(plan) && {
                &&& plan.task_name@ == plan_task_name(name, f.fn_name)
                &&& plan.builder_name@ == f.fn_name@ + "_task"@
                &&& plan.builder_public
                &&& f.params@[0] matches ParamShape::Typed { ty, .. } && plan.param_ty@ == ty@
                &&& result_ok_outcome(f.ret) == Ok::<Seq<char>, Seq<char>>(plan.ok_ty@)
                &&& plan.queue == queue
                &&& plan.max_attempts == max_attempts
            },
        },
{
    if !f.is_async {
        return Err(String::from_str("#[absurd::task] requires an async fn"));
    }
    if f.params.len() != 1 {
        return Err(
            String::from_str("#[absurd::task] expects exactly one parameter (the task params)"),
        );
    }
    let param_ty = match &f.params[0] {
        ParamShape::Receiver => {
            return Err(String::from_str("#[absurd::task] does not support self parameters"));
        },
        ParamShape::Typed { ident_or_wild, ty } => {
            if !*ident_or_wild {
                return Err(
                    String::from_str("#[absurd::task] parameter must be a plain identifier"),
                );
            }
            ty.clone()
        },
    };
    let ok_ty = match result_ok_arg(&f.ret) {
        Ok(t) => t,
        Err(m) => {
            return Err(m);
        },
    };
    let task_name = match name {
        Some(n) => n,
        None => f.fn_name.clone(),
    };
    let builder_name = join2(f.fn_name.as_str(), "_task");
    Ok(TaskPlan { task_name, builder_name, builder_public: true, param_ty, ok_ty, queue, max_attempts })
}

/// The message for an attribute argument with an unknown key.
pub open spec fn unknown_arg_message(key: Seq<char>) -> Seq<char> {
    "unknown #[task] argument "@ + debug_quoted(key)
}

/// Which attribute argument `key` names: `name`, `queue` or `max_attempts`;
/// any other key is refused with a message that quotes it.
pub fn task_arg_key(key: &str) -> (r: Result<TaskArgKey, String>)
    ensures
        key@ == "name"@ ==> r == Ok::<TaskArgKey, String>(TaskArgKey::Name),
        key@ == "queue"@ ==> r == Ok::<TaskArgKey, String>(TaskArgKey::Queue),
        key@ == "max_attempts"@ ==> r == Ok::<TaskArgKey, String>(TaskArgKey::MaxAttempts),
        key@ != "name"@ && key@ != "queue"@ && key@ != "max_attempts"@ ==> (r matches Err(m)
            && m@ == unknown_arg_message(key@)),
{
    proof {
        reveal_strlit("name");
        reveal_strlit("queue");
        reveal_strlit("max_attempts");
        assert("queue"@.len() != "name"@.len());
        assert("max_attempts"@.len() != "name"@.len());
        assert("max_attempts"@.len() != "queue"@.len());
    }
    if str_equal(key, "name") {
        Ok(TaskArgKey::Name)
    } else if str_equal(key, "queue") {
        Ok(TaskArgKey::Queue)
    } else if str_equal(key, "max_attempts") {
        Ok(TaskArgKey::MaxAttempts)
    } else {
        let quoted = debug_quote(key);
        Err(join2("unknown #[task] argument ", quoted.as_str()))
    }
}

} // verus!
