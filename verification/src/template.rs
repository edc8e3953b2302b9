//! The bridge to the template engine (minijinja). Every `{{ ... }}` string
//! and every `until:` condition is evaluated here, against the context's
//! variables handed over as one JSON object.
use serde::Deserialize;
use vstd::prelude::*;

verus! {

/// What `minijinja::Environment::new().render_str(template, ctx)` yields
/// when `ctx` is the JSON object whose text is `context_json`: the rendered
/// text, or the text of the error it fails with.
pub uninterp spec fn rendered(template: Seq<char>, context_json: Seq<char>) -> Result<
    Seq<char>,
    Seq<char>,
>;

/// What compiling `expr` with `Environment::compile_expression`, evaluating
/// it against the JSON object whose text is `context_json`, and taking
/// `Value::is_true` of the result yields; or the text of the error that
/// compiling or evaluating fails with.
pub uninterp spec fn expression_truth(expr: Seq<char>, context_json: Seq<char>) -> Result<
    bool,
    Seq<char>,
>;

/// Calls `minijinja::Environment::render_str` with a fresh default
/// environment. The context text is first turned into a
/// `serde_json::Value` (`serde_json::Deserializer` with its nesting limit
/// lifted, so any value the library encodes is taken whole). The contract
/// names the outcome, text or error text, as `rendered`.
#[verifier::external_body]
pub(crate) fn render_str(template: &str, context_json: &str) -> (r: Result<String, String>)
    ensures
        match r {
            Ok(s) => rendered(template@, context_json@) == Ok::<Seq<char>, Seq<char>>(s@),
            Err(e) => rendered(template@, context_json@) == Err::<Seq<char>, Seq<char>>(e@),
        },
{
    let mut de = serde_json::Deserializer::from_str(context_json);
    de.disable_recursion_limit();
    let ctx = match serde_json::Value::deserialize(&mut de) {
        Ok(v) => v,
        Err(e) => return Err(e.to_string()),
    };
    match minijinja::Environment::new().render_str(template, ctx) {
        Ok(s) => Ok(s),
        Err(e) => Err(e.to_string()),
    }
}

/// Calls `minijinja::Environment::compile_expression`, then
/// `Expression::eval` and `Value::is_true`, with a fresh default
/// environment; the context text is turned into a `serde_json::Value` as
/// for [`render_str`]. The contract names the outcome, truth or error
/// text, as `expression_truth`.
#[verifier::external_body]
pub(crate) fn eval_expression(expr: &str, context_json: &str) -> (r: Result<bool, String>)
    ensures
        match r {
            Ok(b) => expression_truth(expr@, context_json@) == Ok::<bool, Seq<char>>(b),
            Err(e) => expression_truth(expr@, context_json@) == Err::<bool, Seq<char>>(e@),
        },
{
    let mut de = serde_json::Deserializer::from_str(context_json);
    de.disable_recursion_limit();
    let ctx = match serde_json::Value::deserialize(&mut de) {
        Ok(v) => v,
        Err(e) => return Err(e.to_string()),
    };
    let env = minijinja::Environment::new();
    let compiled = match env.compile_expression(expr) {
        Ok(x) => x,
        Err(e) => return Err(e.to_string()),
    };
    match compiled.eval(ctx) {
        Ok(v) => Ok(v.is_true()),
        Err(e) => Err(e.to_string()),
    }
}

} // verus!
