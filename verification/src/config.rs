//! The playbook schema: models, tasks, and cross-reference validation.
//! Pure data; turning a validated playbook into something runnable is the
//! job of [`crate::runner::compile_tasks`].
use vstd::prelude::*;

use crate::error::ConfigError;

verus! {

broadcast use vstd::std_specs::vec::axiom_vec_index_decreases;

/// One entry under `models:` in a playbook, tagged on `kind`.
#[derive(Debug, PartialEq)]
pub enum ModelConfig {
    /// Anthropic's native API.
    Anthropic { model: String, api_key_env: String, base_url: Option<String> },
    /// Anything speaking the OpenAI chat-completions schema.
    OpenaiCompatible { model: String, base_url: String, api_key_env: Option<String> },
    /// A local Ollama server, via its native `/api/chat` endpoint.
    Ollama { model: String, base_url: String },
    /// A deterministic, offline model that echoes the prompt after `prefix`.
    Mock { prefix: String },
}

/// One entry under `tasks:` in a playbook, tagged on `kind`.
#[derive(Debug)]
pub enum TaskConfig {
    /// Calls an LLM; `model` must name an entry under `models:`.
    Ask { name: Option<String>, model: String, prompt: String, register: Option<String> },
    /// Runs a shell command. `allow_agent_output` must be set for a
    /// command whose template interpolates anything.
    Run {
        name: Option<String>,
        command: String,
        register: Option<String>,
        allow_agent_output: bool,
    },
    /// Repeats `tasks` until `condition` is true or `max_iterations` runs
    /// have happened.
    Until { name: Option<String>, condition: String, max_iterations: u32, tasks: Vec<TaskConfig> },
}

/// A parsed (not yet validated) playbook: named models and the ordered
/// top-level tasks.
#[derive(Debug)]
pub struct Playbook {
    pub models: Vec<(String, ModelConfig)>,
    pub tasks: Vec<TaskConfig>,
}

/// The prefix a `kind: mock` model gets when none is given.
pub fn default_mock_prefix() -> (r: String)
    ensures
        r@ == "[mock] "@,
{
    String::from_str("[mock] ")
}

/// The base URL a `kind: ollama` model gets when none is given.
pub fn default_ollama_base_url() -> (r: String)
    ensures
        r@ == "http://localhost:11434"@,
{
    String::from_str("http://localhost:11434")
}

/// The `max_iterations` an `until` task gets when none is given.
pub fn default_max_iterations() -> (r: u32)
    ensures
        r == 10,
{
    10
}

/// A declared name, or the fallback.
pub open spec fn name_or(name: Option<String>, fallback: Seq<char>) -> Seq<char> {
    match name {
        Some(n) => n@,
        None => fallback,
    }
}

/// The task's declared `name:`, or its kind (`ask`, `run`, `until`).
pub open spec fn display_name_of(t: TaskConfig) -> Seq<char> {
    match t {
        TaskConfig::Ask { name, .. } => name_or(name, "ask"@),
        TaskConfig::Run { name, .. } => name_or(name, "run"@),
        TaskConfig::Until { name, .. } => name_or(name, "until"@),
    }
}

/// The names declared in a list of named entries.
pub open spec fn key_set<V>(es: Seq<(String, V)>) -> Set<Seq<char>> {
    Set::new(|k: Seq<char>| exists|i: int| 0 <= i < es.len() && (#[trigger] es[i]).0@ == k)
}

/// The first model name, in playbook order (an `until` block's own tasks
/// coming where the block stands), that an `ask` task refers to and that
/// is not in `known`.
pub open spec fn first_unknown(tasks: Seq<TaskConfig>, known: Set<Seq<char>>) -> Option<Seq<char>>
    decreases tasks,
{
    if tasks.len() == 0 {
        None
    } else {
        match first_unknown(tasks.drop_last(), known) {
            Some(m) => Some(m),
            None => unknown_in(tasks.last(), known),
        }
    }
}

/// [`first_unknown`] within one task.
pub open spec fn unknown_in(t: TaskConfig, known: Set<Seq<char>>) -> Option<Seq<char>>
    decreases t,
{
    match t {
        TaskConfig::Ask { model, .. } => if known.contains(model@) {
            None
        } else {
            Some(model@)
        },
        TaskConfig::Run { .. } => None,
        TaskConfig::Until { tasks, .. } => first_unknown(tasks@, known),
    }
}

/// Whether `name` is declared in `es`.
pub fn has_name<V>(es: &Vec<(String, V)>, name: &String) -> (b: bool)
    ensures
        b == key_set(es@).contains(name@),
{
    let n = es.len();
    for i in 0..n
        invariant
            n == es@.len(),
            forall|j: int| 0 <= j < i ==> (#[trigger] es@[j]).0@ != name@,
    {
        if es[i].0 == *name {
            assert(es@[i as int].0@ == name@);
            return true;
        }
    }
    false
}

impl TaskConfig {
    /// The task's declared `name:`, or a stable fallback derived from its
    /// kind.
    pub fn display_name(&self) -> (r: String)
        ensures
            r@ == display_name_of(*self),
    {
        match self {
            TaskConfig::Ask { name, .. } => match name {
                Some(n) => n.clone(),
                None => String::from_str("ask"),
            },
            TaskConfig::Run { name, .. } => match name {
                Some(n) => n.clone(),
                None => String::from_str("run"),
            },
            TaskConfig::Until { name, .. } => match name {
                Some(n) => n.clone(),
                None => String::from_str("until"),
            },
        }
    }
}

impl Playbook {
    /// Check that every `model:` a task refers to (including tasks nested
    /// inside `until` blocks) is declared under `models:`. Fails on the
    /// first one that is not.
    pub fn validate(&self) -> (r: Result<(), ConfigError>)
        ensures
            match r {
                Ok(()) => first_unknown(self.tasks@, key_set(self.models@)) is None,
                Err(e) => first_unknown(self.tasks@, key_set(self.models@)) matches Some(m)
                    && e matches ConfigError::UnknownModel { name } && name@ == m,
            },
    {
        Self::validate_tasks(&self.tasks, &self.models)
    }

    fn validate_tasks(tasks: &Vec<TaskConfig>, models: &Vec<(String, ModelConfig)>) -> (r: Result<
        (),
        ConfigError,
    >)
        ensures
            match r {
                Ok(()) => first_unknown(tasks@, key_set(models@)) is None,
                Err(e) => first_unknown(tasks@, key_set(models@)) matches Some(m)
                    && e matches ConfigError::UnknownModel { name } && name@ == m,
            },
        decreases tasks,
    {
        let ghost known = key_set(models@);
        let n = tasks.len();
        for i in 0..n
            invariant
                n == tasks@.len(),
                known == key_set(models@),
                first_unknown(tasks@.take(i as int), known) is None,
        {
            assert(tasks@.take(i + 1).drop_last() == tasks@.take(i as int));
            assert(tasks@.take(i + 1).last() == tasks@[i as int]);
            match &tasks[i] {
                TaskConfig::Ask { model, .. } => {
                    if !has_name(models, model) {
                        proof {
                            assert(unknown_in(tasks@[i as int], known) == Some(model@));
                            assert(first_unknown(tasks@.take(i + 1), known) == Some(model@));
                            lemma_first_unknown_prefix(tasks@, i as int + 1, known);
                        }
                        return Err(ConfigError::UnknownModel { name: model.clone() });
                    }
                },
                TaskConfig::Run { .. } => {},
                TaskConfig::Until { tasks: inner, .. } => {
                    proof {
                        assert(decreases_to!(*tasks => tasks@[i as int]->Until_tasks));
                    }
                    match Self::validate_tasks(inner, models) {
                        Ok(()) => {},
                        Err(e) => {
                            proof {
                                lemma_first_unknown_prefix(tasks@, i as int + 1, known);
                            }
                            return Err(e);
                        },
                    }
                },
            }
        }
        assert(tasks@.take(n as int) == tasks@);
        Ok(())
    }
}

/// An unknown name found in a prefix is the first unknown name overall.
pub proof fn lemma_first_unknown_prefix(tasks: Seq<TaskConfig>, k: int, known: Set<Seq<char>>)
    requires
        0 <= k <= tasks.len(),
        first_unknown(tasks.take(k), known) is Some,
    ensures
        first_unknown(tasks, known) == first_unknown(tasks.take(k), known),
    decreases tasks.len() - k,
{
    if k < tasks.len() {
        assert(tasks.drop_last().take(k) == tasks.take(k));
        lemma_first_unknown_prefix(tasks.drop_last(), k, known);
    } else {
        assert(tasks.take(k) == tasks);
    }
}

/// Validating a list made of two parts is validating the first part and,
/// when that finds every model declared, the second: the first unknown name
/// of `a + b` is that of `a`, or else that of `b`; an empty list has none.
pub proof fn law_first_unknown_concat(a: Seq<TaskConfig>, b: Seq<TaskConfig>, known: Set<Seq<char>>)
    ensures
        first_unknown(Seq::<TaskConfig>::empty(), known) is None,
        first_unknown(a + b, known) == match first_unknown(a, known) {
            Some(m) => Some(m),
            None => first_unknown(b, known),
        },
    decreases b.len(),
{
    if b.len() == 0 {
        assert(a + b == a);
    } else {
        law_first_unknown_concat(a, b.drop_last(), known);
        assert((a + b).drop_last() == a + b.drop_last());
        assert((a + b).last() == b.last());
    }
}

/// A name is known exactly when it is declared at some position of the
/// list, the first or any later one.
pub proof fn law_declared_names_known<V>(es: Seq<(String, V)>)
    ensures
        forall|i: int| 0 <= i < es.len() ==> key_set(es).contains(#[trigger] es[i].0@),
        forall|k: Seq<char>|
            #[trigger] key_set(es).contains(k) ==> exists|i: int| 0 <= i < es.len() && es[i].0@ == k,
{
    assert forall|i: int| 0 <= i < es.len() implies key_set(es).contains(#[trigger] es[i].0@) by {
        assert(es[i].0@ == es[i].0@);
    }
}

/// A task is shown by its declared `name:` when it has one, and by its
/// kind otherwise.
pub proof fn law_display_name(t: TaskConfig)
    ensures
        t matches TaskConfig::Ask { name: Some(n), .. } ==> display_name_of(t) == n@,
        t matches TaskConfig::Run { name: Some(n), .. } ==> display_name_of(t) == n@,
        t matches TaskConfig::Until { name: Some(n), .. } ==> display_name_of(t) == n@,
        t matches TaskConfig::Ask { name: None, .. } ==> display_name_of(t) == "ask"@,
        t matches TaskConfig::Run { name: None, .. } ==> display_name_of(t) == "run"@,
        t matches TaskConfig::Until { name: None, .. } ==> display_name_of(t) == "until"@,
{
}

} // verus!
