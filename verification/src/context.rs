//! The shared state that flows between tasks: registered variables and an
//! injected environment.
use vstd::prelude::*;

use crate::error::TemplateError;
use crate::template::{eval_expression, expression_truth, render_str, rendered};
use crate::text::{chars_of, string_of, trim, trim_back, trim_chars, trim_front};
use crate::value::{json_fields, json_string, json_text, push_json, push_json_string, Value, ValueView};

verus! {

/// `es` has an entry named `k`.
pub open spec fn has_key<V>(es: Seq<(Seq<char>, V)>, k: Seq<char>) -> bool {
    exists|i: int| 0 <= i < es.len() && (#[trigger] es[i]).0 == k
}

/// The position of an entry named `k` (the only one, when names are distinct).
pub open spec fn key_pos<V>(es: Seq<(Seq<char>, V)>, k: Seq<char>) -> int {
    choose|i: int| 0 <= i < es.len() && (#[trigger] es[i]).0 == k
}

/// The value stored under `k`, if any.
pub open spec fn lookup<V>(es: Seq<(Seq<char>, V)>, k: Seq<char>) -> Option<V> {
    if has_key(es, k) {
        Some(es[key_pos(es, k)].1)
    } else {
        None
    }
}

/// `es` with `k` bound to `v`: an existing entry is overwritten in place,
/// a new name is appended.
pub open spec fn put<V>(es: Seq<(Seq<char>, V)>, k: Seq<char>, v: V) -> Seq<(Seq<char>, V)> {
    if has_key(es, k) {
        es.update(key_pos(es, k), (k, v))
    } else {
        es.push((k, v))
    }
}

/// No name occurs twice.
pub open spec fn distinct_keys<V>(es: Seq<(Seq<char>, V)>) -> bool {
    forall|i: int, j: int| 0 <= i < j < es.len() ==> (#[trigger] es[i]).0 != (#[trigger] es[j]).0
}

/// The map built by binding each pair in turn (a later pair wins).
pub open spec fn from_pairs<V>(s: Seq<(Seq<char>, V)>) -> Seq<(Seq<char>, V)>
    decreases s.len(),
{
    if s.len() == 0 {
        Seq::empty()
    } else {
        put(from_pairs(s.drop_last()), s.last().0, s.last().1)
    }
}

/// Binding a name keeps the names distinct, and changes what that name
/// (and only that name) looks up to.
pub proof fn lemma_put<V>(es: Seq<(Seq<char>, V)>, k: Seq<char>, v: V)
    requires
        distinct_keys(es),
    ensures
        distinct_keys(put(es, k, v)),
        forall|k2: Seq<char>|
            #[trigger] lookup(put(es, k, v), k2) == if k2 == k {
                Some(v)
            } else {
                lookup(es, k2)
            },
{
    let r = put(es, k, v);
    if has_key(es, k) {
        let p = key_pos(es, k);
        assert forall|k2: Seq<char>|
            #[trigger] lookup(r, k2) == if k2 == k {
                Some(v)
            } else {
                lookup(es, k2)
            } by {
            if k2 == k {
                assert(r[p].0 == k);
                assert(has_key(r, k2));
            } else {
                if has_key(es, k2) {
                    let q = key_pos(es, k2);
                    assert(r[q] == es[q]);
                    assert(has_key(r, k2));
                } else {
                    if has_key(r, k2) {
                        let q = key_pos(r, k2);
                        assert(es[q].0 == k2);
                    }
                }
            }
        }
    } else {
        assert forall|k2: Seq<char>|
            #[trigger] lookup(r, k2) == if k2 == k {
                Some(v)
            } else {
                lookup(es, k2)
            } by {
            if k2 == k {
                assert(r[es.len() as int].0 == k);
                assert(has_key(r, k2));
            } else {
                if has_key(es, k2) {
                    let q = key_pos(es, k2);
                    assert(r[q] == es[q]);
                    assert(has_key(r, k2));
                } else {
                    if has_key(r, k2) {
                        let q = key_pos(r, k2);
                        assert(es[q].0 == k2);
                    }
                }
            }
        }
    }
}

proof fn lemma_from_pairs_distinct<V>(s: Seq<(Seq<char>, V)>)
    ensures
        distinct_keys(from_pairs(s)),
    decreases s.len(),
{
    if s.len() > 0 {
        lemma_from_pairs_distinct(s.drop_last());
        lemma_put(from_pairs(s.drop_last()), s.last().0, s.last().1);
    }
}

/// The value that the last pair named `k` in `s` carries, if any pair is
/// named `k`.
pub open spec fn last_value<V>(s: Seq<(Seq<char>, V)>, k: Seq<char>) -> Option<V>
    decreases s.len(),
{
    if s.len() == 0 {
        None
    } else if s.last().0 == k {
        Some(s.last().1)
    } else {
        last_value(s.drop_last(), k)
    }
}

/// Registering the pairs of `s` one after another, from no variables (as
/// `Context::with_env` starts, and as `Context::register` binds one name at
/// a time), leaves exactly the names of `s`, once each, each holding the
/// value of its last registration; one more registration is one more pair,
/// so a run of them is followed pair by pair. The JSON object that
/// templates see is the object text of these entries; the environment is
/// not in it.
pub proof fn law_registrations<V>(s: Seq<(Seq<char>, V)>)
    ensures
        distinct_keys(from_pairs(s)),
        forall|p: (Seq<char>, V)| #[trigger]
            from_pairs(s.push(p)) == put(from_pairs(s), p.0, p.1),
        forall|k: Seq<char>| #[trigger] lookup(from_pairs(s), k) == last_value(s, k),
        forall|k: Seq<char>|
            #[trigger] has_key(from_pairs(s), k) <==> exists|i: int|
                0 <= i < s.len() && (#[trigger] s[i]).0 == k,
    decreases s.len(),
{
    lemma_from_pairs_distinct(s);
    assert forall|p: (Seq<char>, V)| #[trigger]
        from_pairs(s.push(p)) == put(from_pairs(s), p.0, p.1) by {
        assert(s.push(p).drop_last() == s);
    }
    if s.len() > 0 {
        let p = s.drop_last();
        law_registrations(p);
        lemma_put(from_pairs(p), s.last().0, s.last().1);
        assert forall|k: Seq<char>|
            #[trigger] has_key(from_pairs(s), k) <==> exists|i: int|
                0 <= i < s.len() && (#[trigger] s[i]).0 == k by {
            let found = lookup(from_pairs(s), k);
            if has_key(from_pairs(s), k) {
                if k == s.last().0 {
                    assert(s[s.len() - 1].0 == k);
                } else {
                    assert(lookup(from_pairs(p), k) is Some);
                    assert(has_key(from_pairs(p), k));
                    let i = choose|i: int| 0 <= i < p.len() && (#[trigger] p[i]).0 == k;
                    assert(s[i] == p[i]);
                }
            } else {
                assert(found is None);
                if exists|i: int| 0 <= i < s.len() && (#[trigger] s[i]).0 == k {
                    let i = choose|i: int| 0 <= i < s.len() && (#[trigger] s[i]).0 == k;
                    if i < s.len() - 1 {
                        assert(p[i] == s[i]);
                        assert(has_key(from_pairs(p), k));
                        assert(lookup(from_pairs(p), k) is Some);
                    }
                }
            }
        }
    }
}

/// `bare_expr`: how a condition is read. Surrounding whitespace is
/// trimmed; if what is left starts with `{{` and ends with `}}` (as two
/// separate pairs), those are stripped and the inside trimmed again.
pub open spec fn bare_expr(e: Seq<char>) -> Seq<char> {
    let t = trim(e);
    if brace_wrapped(t) {
        trim(t.subrange(2, t.len() - 2))
    } else {
        t
    }
}

/// `t` starts with `{{` and ends with `}}`, the two pairs not overlapping.
pub open spec fn brace_wrapped(t: Seq<char>) -> bool {
    t.len() >= 4 && t[0] == '{' && t[1] == '{' && t[t.len() - 2] == '}' && t[t.len() - 1] == '}'
}

/// `{{ }}` around a condition is optional: wrapping an expression in one
/// pair of double braces reads as the same bare expression (unless the
/// expression, trimmed, is already wrapped in braces itself).
pub proof fn law_braces_optional(e: Seq<char>)
    requires
        !brace_wrapped(trim(e)),
    ensures
        bare_expr(seq!['{', '{'] + e + seq!['}', '}']) == bare_expr(e),
{
    let w = seq!['{', '{'] + e + seq!['}', '}'];
    assert(!crate::text::is_ws(w[0]));
    assert(trim_front(w) == w);
    assert(w.last() == '}');
    assert(trim_back(w) == w);
    assert(w.subrange(2, w.len() - 2) =~= e);
}

/// The JSON object text of a list of named values.
pub open spec fn object_json(es: Seq<(Seq<char>, ValueView)>) -> Seq<char> {
    json_text(ValueView::Object(es))
}

/// Shared state that flows between tasks in a playbook.
///
/// Flat (one global namespace: every `register:` writes into it),
/// overwrite-on-register (a name registered twice keeps its latest value,
/// which is what a loop body wants), and single-threaded (it is threaded
/// through the execution by `&mut`).
#[derive(Debug)]
pub struct Context {
    vars: Vec<(String, Value)>,
    env: Vec<(String, String)>,
}

impl Context {
    #[verifier::type_invariant]
    spec fn names_distinct(self) -> bool {
        &&& distinct_keys(self.entries())
        &&& distinct_keys(self.env_entries())
    }

    /// The registered variables, in registration order of their first
    /// registration.
    pub closed spec fn entries(self) -> Seq<(Seq<char>, ValueView)> {
        self.vars@.map_values(|p: (String, Value)| (p.0@, p.1@))
    }

    /// The environment seen by playbooks.
    pub closed spec fn env_entries(self) -> Seq<(Seq<char>, Seq<char>)> {
        self.env@.map_values(|p: (String, String)| (p.0@, p.1@))
    }

    /// The context as the template engine sees it: one JSON object.
    pub open spec fn context_json(self) -> Seq<char> {
        object_json(self.entries())
    }

    /// The value registered under `k`, if any.
    pub open spec fn var(self, k: Seq<char>) -> Option<ValueView> {
        lookup(self.entries(), k)
    }

    /// An empty context with an explicit, injected environment. A name
    /// given twice keeps its later value.
    pub fn with_env(env: Vec<(String, String)>) -> (c: Context)
        ensures
            c.entries().len() == 0,
            c.env_entries() == from_pairs(env@.map_values(|p: (String, String)| (p.0@, p.1@))),
    {
        let ghost pairs = env@.map_values(|p: (String, String)| (p.0@, p.1@));
        let mut out: Vec<(String, String)> = Vec::new();
        let n = env.len();
        proof {
            assert(pairs.take(0) =~= Seq::<(Seq<char>, Seq<char>)>::empty());
        }
        for i in 0..n
            invariant
                n == env@.len(),
                pairs == env@.map_values(|p: (String, String)| (p.0@, p.1@)),
                out@.map_values(|p: (String, String)| (p.0@, p.1@)) == from_pairs(
                    pairs.take(i as int),
                ),
        {
            proof {
                lemma_from_pairs_distinct(pairs.take(i as int));
            }
            let k = env[i].0.clone();
            let v = env[i].1.clone();
            put_pair(&mut out, k, v);
            assert(pairs.take(i + 1).drop_last() == pairs.take(i as int));
        }
        proof {
            assert(pairs.take(n as int) == pairs);
            lemma_from_pairs_distinct(pairs);
        }
        Context { vars: Vec::new(), env: out }
    }

    /// Store `value` under `name`, overwriting any existing value. This is
    /// what a task's `register:` key writes into.
    pub fn register(&mut self, name: &str, value: Value)
        ensures
            final(self).entries() == put(old(self).entries(), name@, value@),
            final(self).env_entries() == old(self).env_entries(),
            forall|k: Seq<char>| #[trigger]
                final(self).var(k) == if k == name@ {
                    Some(value@)
                } else {
                    old(self).var(k)
                },
    {
        proof {
            use_type_invariant(&*self);
            lemma_put(self.entries(), name@, value@);
        }
        let key = String::from_str(name);
        let mut vars: Vec<(String, Value)> = Vec::new();
        std::mem::swap(&mut vars, &mut self.vars);
        put_pair(&mut vars, key, value);
        self.vars = vars;
    }

    /// Look up a previously registered value by name.
    pub fn get(&self, name: &str) -> (r: Option<&Value>)
        ensures
            match r {
                Some(v) => self.var(name@) == Some(v@),
                None => self.var(name@) is None,
            },
    {
        proof {
            use_type_invariant(self);
        }
        match position_of(&self.vars, name) {
            Some(i) => {
                proof {
                    let es = self.entries();
                    assert(es[i as int].0 == name@);
                    let p = key_pos(es, name@);
                    assert(es[p].0 == name@);
                }
                Some(&self.vars[i].1)
            },
            None => {
                proof {
                    let es = self.entries();
                    if has_key(es, name@) {
                        let p = key_pos(es, name@);
                        assert(self.vars@[p].0@ == name@);
                    }
                }
                None
            },
        }
    }

    /// Look up an environment variable by name (e.g. for `api_key_env:`).
    pub fn env(&self, name: &str) -> (r: Option<&str>)
        ensures
            match r {
                Some(s) => lookup(self.env_entries(), name@) == Some(s@),
                None => lookup(self.env_entries(), name@) is None,
            },
    {
        proof {
            use_type_invariant(self);
        }
        match position_of(&self.env, name) {
            Some(i) => {
                proof {
                    let es = self.env_entries();
                    assert(es[i as int].0 == name@);
                    let p = key_pos(es, name@);
                    assert(es[p].0 == name@);
                }
                Some(self.env[i].1.as_str())
            },
            None => {
                proof {
                    let es = self.env_entries();
                    if has_key(es, name@) {
                        let p = key_pos(es, name@);
                        assert(self.env@[p].0@ == name@);
                    }
                }
                None
            },
        }
    }

    /// The context's variables as one JSON object text, in registration
    /// order.
    pub fn as_json(&self) -> (r: String)
        ensures
            r@ == self.context_json(),
    {
        let mut out: Vec<char> = Vec::new();
        out.push('{');
        let n = self.vars.len();
        let ghost es = self.entries();
        for i in 0..n
            invariant
                n == self.vars@.len(),
                es == self.entries(),
                out@ == seq!['{'] + json_fields(es.take(i as int)),
        {
            let ghost before = out@;
            let ghost prev = es.take(i as int);
            assert(es.take(i + 1).drop_last() == prev);
            if i > 0 {
                out.push(',');
            }
            push_json_string(self.vars[i].0.as_str(), &mut out);
            out.push(':');
            push_json(&self.vars[i].1, &mut out);
            proof {
                let cur = es.take(i + 1);
                assert(cur.last() == es[i as int]);
                if i == 0 {
                    assert(out@ == before + json_fields(cur));
                } else {
                    assert(out@ == before + seq![','] + json_string(es[i as int].0) + seq![
                        ':',
                    ] + json_text(es[i as int].1));
                }
            }
        }
        assert(es.take(n as int) == es);
        out.push('}');
        string_of(&out)
    }

    /// Render a `{{ ... }}` template string against the current variables.
    /// This is the single seam every task kind resolves templates through.
    pub fn render(&self, template: &str) -> (r: Result<String, TemplateError>)
        ensures
            match r {
                Ok(s) => rendered(template@, self.context_json()) == Ok::<Seq<char>, Seq<char>>(s@),
                Err(e) => rendered(template@, self.context_json()) == Err::<Seq<char>, Seq<char>>(
                    e.message@,
                ),
            },
    {
        let json = self.as_json();
        match render_str(template, json.as_str()) {
            Ok(s) => Ok(s),
            Err(message) => Err(TemplateError { message }),
        }
    }

    /// Evaluate a boolean expression (an `until:` condition), coercing a
    /// non-boolean result by the template engine's truthiness. The
    /// expression is bare (`done == true`), but `{{ ... }}` wrapping is
    /// tolerated and stripped (see [`bare_expr`]).
    pub fn eval_bool(&self, expr: &str) -> (r: Result<bool, TemplateError>)
        ensures
            match r {
                Ok(b) => expression_truth(bare_expr(expr@), self.context_json()) == Ok::<
                    bool,
                    Seq<char>,
                >(b),
                Err(e) => expression_truth(bare_expr(expr@), self.context_json()) == Err::<
                    bool,
                    Seq<char>,
                >(e.message@),
            },
    {
        let cs = chars_of(expr);
        let bare = bare_chars(&cs);
        let bare_text = string_of(&bare);
        let json = self.as_json();
        match eval_expression(bare_text.as_str(), json.as_str()) {
            Ok(b) => Ok(b),
            Err(message) => Err(TemplateError { message }),
        }
    }
}

impl Clone for Context {
    /// A copy holding the same variables and the same environment.
    fn clone(&self) -> (c: Context)
        ensures
            c.entries() == self.entries(),
            c.env_entries() == self.env_entries(),
    {
        proof {
            use_type_invariant(self);
        }
        let mut vars: Vec<(String, Value)> = Vec::new();
        let n = self.vars.len();
        for i in 0..n
            invariant
                n == self.vars@.len(),
                vars@.map_values(|p: (String, Value)| (p.0@, p.1@)) == self.entries().take(
                    i as int,
                ),
        {
            let k = self.vars[i].0.clone();
            let v = self.vars[i].1.duplicate();
            assert(k@ == self.vars@[i as int].0@);
            assert(self.entries()[i as int] == (k@, v@));
            let ghost before = vars@.map_values(|p: (String, Value)| (p.0@, p.1@));
            let ghost pair = (k@, v@);
            vars.push((k, v));
            assert(vars@.map_values(|p: (String, Value)| (p.0@, p.1@)) =~= before.push(pair));
            assert(self.entries().take(i + 1) =~= self.entries().take(i as int).push(pair));
        }
        let mut env: Vec<(String, String)> = Vec::new();
        let m = self.env.len();
        for i in 0..m
            invariant
                m == self.env@.len(),
                env@.map_values(|p: (String, String)| (p.0@, p.1@)) == self.env_entries().take(
                    i as int,
                ),
        {
            let k = self.env[i].0.clone();
            let v = self.env[i].1.clone();
            assert(k@ == self.env@[i as int].0@ && v@ == self.env@[i as int].1@);
            assert(self.env_entries()[i as int] == (k@, v@));
            let ghost before = env@.map_values(|p: (String, String)| (p.0@, p.1@));
            let ghost pair = (k@, v@);
            env.push((k, v));
            assert(env@.map_values(|p: (String, String)| (p.0@, p.1@)) =~= before.push(pair));
            assert(self.env_entries().take(i + 1) =~= self.env_entries().take(i as int).push(pair));
        }
        proof {
            assert(self.entries().take(n as int) == self.entries());
            assert(self.env_entries().take(m as int) == self.env_entries());
        }
        Context { vars, env }
    }
}

impl Default for Context {
    /// An empty context with an empty environment.
    fn default() -> (c: Context)
        ensures
            c.entries().len() == 0,
            c.env_entries().len() == 0,
    {
        Context { vars: Vec::new(), env: Vec::new() }
    }
}

/// [`bare_expr`] on characters.
fn bare_chars(e: &Vec<char>) -> (r: Vec<char>)
    ensures
        r@ == bare_expr(e@),
{
    let t = trim_chars(e);
    let n = t.len();
    if n >= 4 && t[0] == '{' && t[1] == '{' && t[n - 2] == '}' && t[n - 1] == '}' {
        assert(brace_wrapped(t@));
        let mut inner: Vec<char> = Vec::new();
        let mut p: usize = 2;
        while p < n - 2
            invariant
                2 <= p <= n - 2,
                n == t@.len(),
                n >= 4,
                inner@ == t@.subrange(2, p as int),
            decreases n - 2 - p,
        {
            inner.push(t[p]);
            p = p + 1;
        }
        trim_chars(&inner)
    } else {
        t
    }
}

/// The first position whose name is `key`.
fn position_of<V>(es: &Vec<(String, V)>, key: &str) -> (r: Option<usize>)
    ensures
        match r {
            Some(i) => i < es@.len() && es@[i as int].0@ == key@,
            None => forall|j: int| 0 <= j < es@.len() ==> (#[trigger] es@[j]).0@ != key@,
        },
{
    let k = String::from_str(key);
    let n = es.len();
    for i in 0..n
        invariant
            n == es@.len(),
            k@ == key@,
            forall|j: int| 0 <= j < i ==> (#[trigger] es@[j]).0@ != key@,
    {
        if es[i].0 == k {
            return Some(i);
        }
    }
    None
}

/// Binds `k` to `v` in a list of named values, as [`put`] does.
fn put_pair<V: View>(es: &mut Vec<(String, V)>, k: String, v: V)
    requires
        distinct_keys(old(es)@.map_values(|p: (String, V)| (p.0@, p.1@))),
    ensures
        final(es)@.map_values(|p: (String, V)| (p.0@, p.1@)) == put(
            old(es)@.map_values(|p: (String, V)| (p.0@, p.1@)),
            k@,
            v@,
        ),
{
    let ghost before = es@.map_values(|p: (String, V)| (p.0@, p.1@));
    let ghost kv = k@;
    let ghost vv = v@;
    match position_of(es, k.as_str()) {
        Some(i) => {
            proof {
                assert(before[i as int].0 == kv);
                let p = key_pos(before, kv);
                assert(before[p].0 == kv);
                assert(has_key(before, kv));
            }
            es.set(i, (k, v));
            assert(es@.map_values(|p: (String, V)| (p.0@, p.1@)) =~= before.update(
                i as int,
                (kv, vv),
            ));
        },
        None => {
            proof {
                if has_key(before, kv) {
                    let p = key_pos(before, kv);
                    assert(before[p].0 == kv);
                }
            }
            es.push((k, v));
            assert(es@.map_values(|p: (String, V)| (p.0@, p.1@)) =~= before.push((kv, vv)));
        },
    }
}

} // verus!
