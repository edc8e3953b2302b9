//! Runnable tasks, the compiler from configuration to tasks, and the
//! engine that walks a plan step by step.
use vstd::prelude::*;

use crate::config::{display_name_of, first_unknown, has_name, key_set, unknown_in, TaskConfig};
use crate::error::CompileError;
use crate::models::BuiltModel;
use crate::value::{Value, ValueView};

verus! {

broadcast use vstd::std_specs::vec::axiom_vec_index_decreases;

/// The view of an optional name.
pub open spec fn opt_view(o: Option<String>) -> Option<Seq<char>> {
    match o {
        Some(s) => Some(s@),
        None => None,
    }
}

/// The result of executing one task. `value` is structured so later tasks
/// can address fields (`{{ name.field }}`); `raw_text` keeps the plain
/// output for display.
#[derive(Debug)]
pub struct TaskOutput {
    pub value: Value,
    pub raw_text: Option<String>,
}

impl TaskOutput {
    /// A task that produced plain text: the value is that text.
    pub fn text(text: String) -> (r: TaskOutput)
        ensures
            r.value@ == ValueView::Str(text@),
            r.raw_text == Some(text),
    {
        let value = Value::Str(text.clone());
        TaskOutput { value, raw_text: Some(text) }
    }

    /// A task with no meaningful output (a loop wrapper).
    pub fn none() -> (r: TaskOutput)
        ensures
            r.value@ == ValueView::Null,
            r.raw_text is None,
    {
        TaskOutput { value: Value::Null, raw_text: None }
    }
}

/// The `kind: ask` task: renders its prompt and asks the named model.
#[derive(Debug)]
pub struct AskTask {
    pub name: String,
    pub model: String,
    pub prompt_template: String,
    pub register: Option<String>,
}

impl AskTask {
    pub fn new(name: String, model: String, prompt_template: String, register: Option<String>) -> (r:
        AskTask)
        ensures
            r.name == name,
            r.model == model,
            r.prompt_template == prompt_template,
            r.register == register,
    {
        AskTask { name, model, prompt_template, register }
    }
}

/// The `kind: run` task: renders its command and runs it in a shell.
///
/// Deny by default: a command whose rendered text differs from its
/// template (something was interpolated) is refused unless
/// `allow_agent_output` is set.
#[derive(Debug)]
pub struct RunTask {
    pub name: String,
    pub command_template: String,
    pub register: Option<String>,
    pub allow_agent_output: bool,
}

impl RunTask {
    pub fn new(
        name: String,
        command_template: String,
        register: Option<String>,
        allow_agent_output: bool,
    ) -> (r: RunTask)
        ensures
            r.name == name,
            r.command_template == command_template,
            r.register == register,
            r.allow_agent_output == allow_agent_output,
    {
        RunTask { name, command_template, register, allow_agent_output }
    }
}

/// The `kind: until` task: runs its body against the same context until
/// its condition holds, at most `max_iterations` times.
#[derive(Debug)]
pub struct UntilTask {
    pub name: String,
    pub condition: String,
    pub max_iterations: u32,
    pub body: Runner,
}

impl UntilTask {
    pub fn new(name: String, condition: String, max_iterations: u32, body_tasks: Vec<Task>) -> (r:
        UntilTask)
        ensures
            r.name == name,
            r.condition == condition,
            r.max_iterations == max_iterations,
            r.body.tasks == body_tasks,
    {
        UntilTask { name, condition, max_iterations, body: Runner::new(body_tasks) }
    }
}

/// A runnable task.
#[derive(Debug)]
pub enum Task {
    Ask(AskTask),
    Run(RunTask),
    Until(UntilTask),
}

/// The name of a task.
pub open spec fn task_name(t: Task) -> Seq<char> {
    match t {
        Task::Ask(a) => a.name@,
        Task::Run(r) => r.name@,
        Task::Until(u) => u.name@,
    }
}

impl Task {
    /// The name shown for the task in progress output and errors.
    pub fn name(&self) -> (r: &str)
        ensures
            r@ == task_name(*self),
    {
        match self {
            Task::Ask(a) => a.name.as_str(),
            Task::Run(r) => r.name.as_str(),
            Task::Until(u) => u.name.as_str(),
        }
    }
}

/// A linear list of tasks, run in order against one context, stopping at
/// the first error.
#[derive(Debug)]
pub struct Runner {
    pub tasks: Vec<Task>,
}

impl Runner {
    pub fn new(tasks: Vec<Task>) -> (r: Runner)
        ensures
            r.tasks == tasks,
    {
        Runner { tasks }
    }
}

/// `t` is the runnable form of `c`: same kind, the display name of `c`, the
/// same texts and settings, and (for `until`) a body compiled from the
/// nested tasks.
pub open spec fn compiled_from(t: Task, c: TaskConfig) -> bool
    decreases c,
{
    match (t, c) {
        (Task::Ask(a), TaskConfig::Ask { model, prompt, register, .. }) => a.name@
            == display_name_of(c) && a.model@ == model@ && a.prompt_template@ == prompt@
            && opt_view(a.register) == opt_view(register),
        (Task::Run(r), TaskConfig::Run { command, register, allow_agent_output, .. }) => r.name@
            == display_name_of(c) && r.command_template@ == command@ && opt_view(r.register)
            == opt_view(register) && r.allow_agent_output == allow_agent_output,
        (Task::Until(u), TaskConfig::Until { condition, max_iterations, tasks, .. }) => u.name@
            == display_name_of(c) && u.condition@ == condition@ && u.max_iterations
            == max_iterations && compiled_list(u.body.tasks@, tasks@),
        _ => false,
    }
}

/// Each task of `ts` is the runnable form of the configuration at the same
/// position of `cs`.
pub open spec fn compiled_list(ts: Seq<Task>, cs: Seq<TaskConfig>) -> bool
    decreases cs,
{
    ts.len() == cs.len() && (cs.len() == 0 || (compiled_list(ts.drop_last(), cs.drop_last())
        && compiled_from(ts.last(), cs.last())))
}

fn clone_opt(o: &Option<String>) -> (r: Option<String>)
    ensures
        opt_view(r) == opt_view(*o),
{
    match o {
        Some(s) => Some(s.clone()),
        None => None,
    }
}

/// Turn a playbook's task list into runnable tasks, resolving each `ask`
/// task's model against the built models. Fails on the first model name,
/// in playbook order, that is not among them.
pub fn compile_tasks(configs: &Vec<TaskConfig>, models: &Vec<(String, BuiltModel)>) -> (r: Result<
    Vec<Task>,
    CompileError,
>)
    ensures
        match r {
            Ok(ts) => first_unknown(configs@, key_set(models@)) is None && compiled_list(
                ts@,
                configs@,
            ),
            Err(CompileError::UnknownModel { name }) => first_unknown(
                configs@,
                key_set(models@),
            ) == Some(name@),
        },
    decreases configs,
{
    let ghost known = key_set(models@);
    let mut out: Vec<Task> = Vec::new();
    let n = configs.len();
    assert(configs@.take(0) =~= Seq::<TaskConfig>::empty());
    for i in 0..n
        invariant
            n == configs@.len(),
            known == key_set(models@),
            first_unknown(configs@.take(i as int), known) is None,
            compiled_list(out@, configs@.take(i as int)),
    {
        let ghost prefix = configs@.take(i as int);
        assert(configs@.take(i + 1).drop_last() == prefix);
        assert(configs@.take(i + 1).last() == configs@[i as int]);
        let config = &configs[i];
        let task = match compile_task(config, models) {
            Ok(t) => t,
            Err(e) => {
                proof {
                    crate::config::lemma_first_unknown_prefix(configs@, i as int + 1, known);
                }
                return Err(e);
            },
        };
        let ghost before = out@;
        out.push(task);
        assert(out@.drop_last() == before);
    }
    assert(configs@.take(n as int) == configs@);
    Ok(out)
}

fn compile_task(config: &TaskConfig, models: &Vec<(String, BuiltModel)>) -> (r: Result<
    Task,
    CompileError,
>)
    ensures
        match r {
            Ok(t) => unknown_in(*config, key_set(models@)) is None && compiled_from(t, *config),
            Err(CompileError::UnknownModel { name }) => unknown_in(*config, key_set(models@))
                == Some(name@),
        },
    decreases config,
{
    let name = config.display_name();
    match config {
        TaskConfig::Ask { model, prompt, register, .. } => {
            if !has_name(models, model) {
                return Err(CompileError::UnknownModel { name: model.clone() });
            }
            Ok(Task::Ask(AskTask::new(name, model.clone(), prompt.clone(), clone_opt(register))))
        },
        TaskConfig::Run { command, register, allow_agent_output, .. } => Ok(
            Task::Run(RunTask::new(name, command.clone(), clone_opt(register), *allow_agent_output)),
        ),
        TaskConfig::Until { condition, max_iterations, tasks, .. } => {
            let body = compile_tasks(tasks, models)?;
            Ok(Task::Until(UntilTask::new(name, condition.clone(), *max_iterations, body)))
        },
    }
}

/// Validation checks what compilation needs: building the models keeps
/// the declared names (see [`crate::models::build_models`]), so the first
/// unknown model name that validation reports is exactly the one that
/// compilation would; a playbook that validates compiles.
pub proof fn law_validated_playbook_compiles(
    tasks: Seq<TaskConfig>,
    declared: Seq<(String, crate::config::ModelConfig)>,
    built: Seq<(String, BuiltModel)>,
)
    requires
        key_set(built) == key_set(declared),
        first_unknown(tasks, key_set(declared)) is None,
    ensures
        first_unknown(tasks, key_set(built)) is None,
{
}

} // verus!
