use absurd_sdk::task_macro::{
    result_ok_arg, task_arg_key, task_plan, GenericArgShape, ParamShape, PathArgsShape,
    ReturnShape, SegmentShape, TaskArgKey, TaskFnShape,
};

fn seg(ident: &str, args: PathArgsShape) -> SegmentShape {
    SegmentShape { ident: ident.to_string(), args }
}

fn result_of(args: Vec<GenericArgShape>) -> ReturnShape {
    ReturnShape::Path(vec![
        seg("absurd_sdk", PathArgsShape::Bare),
        seg("Result", PathArgsShape::AngleBracketed(args)),
    ])
}

fn ty(t: &str) -> GenericArgShape {
    GenericArgShape::Type(t.to_string())
}

fn greet_fn() -> TaskFnShape {
    TaskFnShape {
        fn_name: "greet".to_string(),
        is_async: true,
        params: vec![ParamShape::Typed { ident_or_wild: true, ty: "Params".to_string() }],
        ret: result_of(vec![ty("Output")]),
    }
}

#[test]
fn greet_example_is_planned() {
    let plan = task_plan(
        Some("greet".to_string()),
        Some("default".to_string()),
        Some(5),
        &greet_fn(),
    )
    .unwrap();
    assert_eq!(plan.task_name, "greet");
    assert_eq!(plan.builder_name, "greet_task");
    assert!(plan.builder_public);
    assert_eq!(plan.param_ty, "Params");
    assert_eq!(plan.ok_ty, "Output");
    assert_eq!(plan.queue, Some("default".to_string()));
    assert_eq!(plan.max_attempts, Some(5));
}

#[test]
fn task_name_defaults_to_the_function_name() {
    let mut f = greet_fn();
    f.fn_name = "send_email".to_string();
    let plan = task_plan(None, None, None, &f).unwrap();
    assert_eq!(plan.task_name, "send_email");
    assert_eq!(plan.builder_name, "send_email_task");
    assert_eq!(plan.queue, None);
    assert_eq!(plan.max_attempts, None);
    let named = task_plan(Some("email".to_string()), None, None, &f).unwrap();
    assert_eq!(named.task_name, "email");
    assert_eq!(named.builder_name, "send_email_task");
}

#[test]
fn wildcard_parameter_is_accepted() {
    let mut f = greet_fn();
    f.params = vec![ParamShape::Typed { ident_or_wild: true, ty: "()".to_string() }];
    assert_eq!(task_plan(None, None, None, &f).unwrap().param_ty, "()");
}

#[test]
fn sync_function_is_refused() {
    let mut f = greet_fn();
    f.is_async = false;
    assert_eq!(
        task_plan(None, None, None, &f).unwrap_err(),
        "#[absurd::task] requires an async fn"
    );
}

#[test]
fn parameter_count_must_be_one() {
    let mut f = greet_fn();
    f.params = vec![];
    let msg = "#[absurd::task] expects exactly one parameter (the task params)";
    assert_eq!(task_plan(None, None, None, &f).unwrap_err(), msg);
    f.params = vec![
        ParamShape::Typed { ident_or_wild: true, ty: "A".to_string() },
        ParamShape::Typed { ident_or_wild: true, ty: "B".to_string() },
    ];
    assert_eq!(task_plan(None, None, None, &f).unwrap_err(), msg);
}

#[test]
fn self_parameter_is_refused() {
    let mut f = greet_fn();
    f.params = vec![ParamShape::Receiver];
    assert_eq!(
        task_plan(None, None, None, &f).unwrap_err(),
        "#[absurd::task] does not support self parameters"
    );
}

#[test]
fn pattern_parameter_is_refused() {
    let mut f = greet_fn();
    f.params = vec![ParamShape::Typed { ident_or_wild: false, ty: "(A, B)".to_string() }];
    assert_eq!(
        task_plan(None, None, None, &f).unwrap_err(),
        "#[absurd::task] parameter must be a plain identifier"
    );
}

#[test]
fn return_type_errors_pass_through() {
    let mut f = greet_fn();
    f.ret = ReturnShape::Default;
    assert_eq!(
        task_plan(None, None, None, &f).unwrap_err(),
        "#[absurd::task] requires a Result return type"
    );
}

#[test]
fn result_ok_arg_takes_the_first_type_argument() {
    assert_eq!(result_ok_arg(&result_of(vec![ty("u32"), ty("MyError")])).unwrap(), "u32");
    assert_eq!(
        result_ok_arg(&result_of(vec![GenericArgShape::Other, ty("String")])).unwrap(),
        "String"
    );
    let bare = ReturnShape::Path(vec![seg("Result", PathArgsShape::AngleBracketed(vec![ty("T")]))]);
    assert_eq!(result_ok_arg(&bare).unwrap(), "T");
}

#[test]
fn result_ok_arg_errors() {
    assert_eq!(
        result_ok_arg(&ReturnShape::Default).unwrap_err(),
        "#[absurd::task] requires a Result return type"
    );
    assert_eq!(
        result_ok_arg(&ReturnShape::NonPath).unwrap_err(),
        "expected a Result<T, _> return type"
    );
    assert_eq!(
        result_ok_arg(&ReturnShape::Path(vec![])).unwrap_err(),
        "expected a Result<T, _> return type"
    );
    let option = ReturnShape::Path(vec![seg("Option", PathArgsShape::AngleBracketed(vec![ty("T")]))]);
    assert_eq!(
        result_ok_arg(&option).unwrap_err(),
        "expected the return type to be Result<T, _> (e.g. absurd_sdk::Result<T>)"
    );
    let bare = ReturnShape::Path(vec![seg("Result", PathArgsShape::Bare)]);
    assert_eq!(
        result_ok_arg(&bare).unwrap_err(),
        "Result must have a generic parameter (Result<T> or Result<T, E>)"
    );
    let paren = ReturnShape::Path(vec![seg("Result", PathArgsShape::Parenthesized)]);
    assert_eq!(
        result_ok_arg(&paren).unwrap_err(),
        "Result must have a generic parameter (Result<T> or Result<T, E>)"
    );
    assert_eq!(
        result_ok_arg(&result_of(vec![GenericArgShape::Other])).unwrap_err(),
        "Result must have at least one type parameter"
    );
}

#[test]
fn attribute_keys() {
    assert_eq!(task_arg_key("name").unwrap(), TaskArgKey::Name);
    assert_eq!(task_arg_key("queue").unwrap(), TaskArgKey::Queue);
    assert_eq!(task_arg_key("max_attempts").unwrap(), TaskArgKey::MaxAttempts);
    assert_eq!(task_arg_key("retries").unwrap_err(), "unknown #[task] argument \"retries\"");
}
