use vikar::{Context, Value};

fn obj(fields: &[(&str, Value)]) -> Value {
    Value::Object(
        fields
            .iter()
            .map(|(k, v)| (k.to_string(), clone_value(v)))
            .collect(),
    )
}

fn clone_value(v: &Value) -> Value {
    v.duplicate()
}

#[test]
fn register_then_render() {
    let mut ctx = Context::with_env(Vec::new());
    ctx.register("logs", obj(&[("stdout", Value::Str("all good".to_string()))]));
    assert_eq!(
        ctx.render("Summary: {{ logs.stdout }}").unwrap(),
        "Summary: all good"
    );
}

#[test]
fn register_overwrites_previous_value() {
    let mut ctx = Context::with_env(Vec::new());
    ctx.register("x", Value::Int(1));
    ctx.register("x", Value::Int(2));
    assert_eq!(ctx.get("x"), Some(&Value::Int(2)));
}

#[test]
fn eval_bool_accepts_bare_expression() {
    let mut ctx = Context::with_env(Vec::new());
    ctx.register("done", Value::Bool(true));
    assert!(ctx.eval_bool("done").unwrap());
    assert!(ctx.eval_bool("done == true").unwrap());
}

#[test]
fn eval_bool_tolerates_double_brace_wrapping() {
    let mut ctx = Context::with_env(Vec::new());
    ctx.register("done", Value::Bool(true));
    assert!(ctx.eval_bool("{{ done }}").unwrap());
}

#[test]
fn eval_bool_is_defined_check() {
    let ctx = Context::with_env(Vec::new());
    assert!(!ctx.eval_bool("missing is defined").unwrap());
}

#[test]
fn env_lookup_uses_injected_map_not_real_process_env() {
    let env = vec![("MY_KEY".to_string(), "secret".to_string())];
    let ctx = Context::with_env(env);
    assert_eq!(ctx.env("MY_KEY"), Some("secret"));
    assert_eq!(ctx.env("NOT_SET"), None);
}

#[test]
fn env_later_entry_wins() {
    let env = vec![
        ("K".to_string(), "first".to_string()),
        ("K".to_string(), "second".to_string()),
    ];
    let ctx = Context::with_env(env);
    assert_eq!(ctx.env("K"), Some("second"));
}

#[test]
fn register_keeps_other_names() {
    let mut ctx = Context::with_env(Vec::new());
    ctx.register("a", Value::Int(1));
    ctx.register("b", Value::Int(2));
    ctx.register("a", Value::Int(3));
    assert_eq!(ctx.get("a"), Some(&Value::Int(3)));
    assert_eq!(ctx.get("b"), Some(&Value::Int(2)));
    assert_eq!(ctx.get("c"), None);
    // Overwriting keeps the first registration's place.
    assert_eq!(ctx.as_json(), "{\"a\":3,\"b\":2}");
}

#[test]
fn as_json_encodes_every_kind_of_value() {
    let mut ctx = Context::with_env(Vec::new());
    ctx.register("n", Value::Null);
    ctx.register("t", Value::Bool(true));
    ctx.register("f", Value::Bool(false));
    ctx.register("i", Value::Int(-42));
    ctx.register("s", Value::Str("a\"b\\c\nd\te\u{1}".to_string()));
    ctx.register(
        "arr",
        Value::Array(vec![Value::Int(1), Value::Str("x".to_string()), Value::Array(vec![])]),
    );
    ctx.register("o", obj(&[("k", Value::Object(vec![]))]));
    assert_eq!(
        ctx.as_json(),
        "{\"n\":null,\"t\":true,\"f\":false,\"i\":-42,\"s\":\"a\\\"b\\\\c\\nd\\te\\u0001\",\"arr\":[1,\"x\",[]],\"o\":{\"k\":{}}}"
    );
}

#[test]
fn as_json_of_empty_context() {
    let ctx = Context::default();
    assert_eq!(ctx.as_json(), "{}");
}

#[test]
fn render_sees_nested_values_and_escapes_round_trip() {
    let mut ctx = Context::with_env(Vec::new());
    ctx.register("msg", Value::Str("quote \" and \\ slash".to_string()));
    ctx.register("n", Value::Int(7));
    assert_eq!(
        ctx.render("{{ msg }} / {{ n + 1 }}").unwrap(),
        "quote \" and \\ slash / 8"
    );
}

#[test]
fn render_without_placeholders_is_identity() {
    let ctx = Context::with_env(Vec::new());
    assert_eq!(ctx.render("echo hi").unwrap(), "echo hi");
}

#[test]
fn render_reports_template_errors() {
    let ctx = Context::with_env(Vec::new());
    let err = ctx.render("{{ unclosed").unwrap_err();
    assert!(err.message().starts_with("template error: "));
}

#[test]
fn eval_bool_truthiness_and_errors() {
    let mut ctx = Context::with_env(Vec::new());
    ctx.register("count", Value::Int(0));
    ctx.register("word", Value::Str("yes".to_string()));
    assert!(!ctx.eval_bool("count").unwrap());
    assert!(ctx.eval_bool("word").unwrap());
    assert!(ctx.eval_bool("  {{count == 0}}  ").unwrap());
    assert!(ctx.eval_bool("count ==").is_err());
}

#[test]
fn duplicate_is_a_deep_copy() {
    let v = obj(&[("a", Value::Array(vec![Value::Int(1), Value::Null]))]);
    assert_eq!(v.duplicate(), v);
}

#[test]
fn registrations_leave_each_name_once_with_its_last_value() {
    let mut ctx = Context::with_env(vec![("HOME".to_string(), "/home/me".to_string())]);
    ctx.register("a", Value::Int(1));
    ctx.register("b", Value::Str("two".to_string()));
    ctx.register("a", Value::Int(3));
    assert_eq!(ctx.as_json(), "{\"a\":3,\"b\":\"two\"}");
    assert_eq!(ctx.env("HOME"), Some("/home/me"));
}

#[test]
fn render_accepts_deeply_nested_values() {
    let mut v = Value::Int(1);
    for _ in 0..300 {
        v = Value::Array(vec![v]);
    }
    let mut ctx = Context::with_env(Vec::new());
    ctx.register("deep", v);
    assert_eq!(ctx.render("{{ deep | length }}").unwrap(), "1");
    assert_eq!(ctx.eval_bool("deep").unwrap(), true);
}

#[test]
fn clone_keeps_variables_and_environment() {
    let mut ctx = Context::with_env(vec![("K".to_string(), "v".to_string())]);
    ctx.register("a", obj(&[("b", Value::Array(vec![Value::Int(1)]))]));
    let copy = ctx.clone();
    ctx.register("a", Value::Null);
    assert_eq!(copy.as_json(), "{\"a\":{\"b\":[1]}}");
    assert_eq!(copy.env("K"), Some("v"));
    assert_eq!(ctx.as_json(), "{\"a\":null}");
    let v = Value::Array(vec![Value::Str("x".into())]);
    assert_eq!(v.clone(), v);
}
