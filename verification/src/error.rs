//! The error types of the library, each with the message it displays.
use vstd::prelude::*;

verus! {

fn join3(a: &str, b: &str, c: &str) -> (r: String)
    ensures
        r@ == a@ + b@ + c@,
{
    let mut s = String::new();
    s.append(a);
    s.append(b);
    s.append(c);
    s
}

fn join4(a: &str, b: &str, c: &str, d: &str) -> (r: String)
    ensures
        r@ == a@ + b@ + c@ + d@,
{
    let mut s = String::new();
    s.append(a);
    s.append(b);
    s.append(c);
    s.append(d);
    s
}

/// An error from rendering a `{{ template }}` string (or evaluating a
/// condition) against a [`crate::Context`]. `message` is the template
/// engine's own description.
#[derive(Debug, PartialEq)]
pub struct TemplateError {
    pub message: String,
}

impl TemplateError {
    /// The text this error displays.
    pub fn message(&self) -> (r: String)
        ensures
            r@ == "template error: "@ + self.message@,
    {
        crate::text::concat("template error: ", self.message.as_str())
    }
}

/// An error from a single model completion call.
#[derive(Debug, PartialEq)]
pub enum ModelError {
    Request { model: String, message: String },
    Response { model: String, message: String },
}

/// The text a [`ModelError`] displays.
pub open spec fn model_error_text(e: ModelError) -> Seq<char> {
    match e {
        ModelError::Request { model, message } => "model '"@ + model@ + "' request failed: "@
            + message@,
        ModelError::Response { model, message } => "model '"@ + model@
            + "' returned a response Vikar could not parse: "@ + message@,
    }
}

impl ModelError {
    /// The text this error displays.
    pub fn message(&self) -> (r: String)
        ensures
            r@ == model_error_text(*self),
    {
        match self {
            ModelError::Request { model, message } => join3(
                "model '",
                model.as_str(),
                &crate::text::concat("' request failed: ", message.as_str()),
            ),
            ModelError::Response { model, message } => join3(
                "model '",
                model.as_str(),
                &crate::text::concat(
                    "' returned a response Vikar could not parse: ",
                    message.as_str(),
                ),
            ),
        }
    }
}

/// An error from executing a single task. A small, closed set: task kinds
/// map their failures onto these variants.
#[derive(Debug, PartialEq)]
pub enum StepError {
    Failed { task: String, message: String },
    Template { task: String, source: TemplateError },
    Model { task: String, source: ModelError },
    Timeout { task: String },
}

/// The text a [`StepError`] displays.
pub open spec fn step_error_text(e: StepError) -> Seq<char> {
    match e {
        StepError::Failed { task, message } => "task '"@ + task@ + "' failed: "@ + message@,
        StepError::Template { task, source } => "task '"@ + task@ + "' template error: "@ + (
        "template error: "@ + source.message@),
        StepError::Model { task, source } => "task '"@ + task@ + "' model error: "@
            + model_error_text(source),
        StepError::Timeout { task } => "task '"@ + task@ + "' timed out"@,
    }
}

impl StepError {
    /// The name of the task that failed.
    pub fn task(&self) -> (r: &String)
        ensures
            r == match self {
                StepError::Failed { task, .. } => task,
                StepError::Template { task, .. } => task,
                StepError::Model { task, .. } => task,
                StepError::Timeout { task } => task,
            },
    {
        match self {
            StepError::Failed { task, .. } => task,
            StepError::Template { task, .. } => task,
            StepError::Model { task, .. } => task,
            StepError::Timeout { task } => task,
        }
    }

    /// The text this error displays.
    pub fn message(&self) -> (r: String)
        ensures
            r@ == step_error_text(*self),
    {
        match self {
            StepError::Failed { task, message } => join4(
                "task '",
                task.as_str(),
                "' failed: ",
                message.as_str()
            ),
            StepError::Template { task, source } => {
                let inner = source.message();
                join4("task '", task.as_str(), "' template error: ", inner.as_str())
            },
            StepError::Model { task, source } => {
                let inner = source.message();
                join4("task '", task.as_str(), "' model error: ", inner.as_str())
            },
            StepError::Timeout { task } => join3("task '", task.as_str(), "' timed out"),
        }
    }
}

/// An error from running a whole plan: the first step error met.
#[derive(Debug, PartialEq)]
pub enum RunError {
    Step(StepError),
}

impl RunError {
    /// The text this error displays (that of the step error).
    pub fn message(&self) -> (r: String)
        ensures
            match self {
                RunError::Step(e) => r@ == step_error_text(*e),
            },
    {
        match self {
            RunError::Step(e) => e.message(),
        }
    }
}

/// An error from loading or checking a playbook.
#[derive(Debug, PartialEq)]
pub enum ConfigError {
    Io { path: String, message: String },
    Parse { message: String },
    UnknownModel { name: String },
}

impl ConfigError {
    /// The text this error displays.
    pub fn message(&self) -> (r: String)
        ensures
            r@ == match self {
                ConfigError::Io { path, message } => "could not read playbook at "@ + path@
                    + ": "@ + message@,
                ConfigError::Parse { message } => "could not parse playbook YAML: "@
                    + message@,
                ConfigError::UnknownModel { name } => "task refers to unknown model '"@
                    + name@ + "' (not declared under `models:`)"@,
            },
    {
        match self {
            ConfigError::Io { path, message } => join4(
                "could not read playbook at ",
                path.as_str(),
                ": ",
                message.as_str()
            ),
            ConfigError::Parse { message } => crate::text::concat(
                "could not parse playbook YAML: ",
                message.as_str(),
            ),
            ConfigError::UnknownModel { name } => join3(
                "task refers to unknown model '",
                name.as_str(),
                "' (not declared under `models:`)",
            ),
        }
    }
}

} // verus!

verus! {

/// An error from turning `models:` entries into usable models.
#[derive(Debug, PartialEq)]
pub enum BuildError {
    /// The environment variable that the model's `api_key_env:` names is
    /// not set.
    MissingEnv { model: String, var: String },
}

impl BuildError {
    /// The text this error displays.
    pub fn message(&self) -> (r: String)
        ensures
            match self {
                BuildError::MissingEnv { model, var } => r@ == "model '"@ + model@
                    + "': environment variable `"@ + var@ + "` is not set"@,
            },
    {
        match self {
            BuildError::MissingEnv { model, var } => {
                let head = join3("model '", model.as_str(), "': environment variable `");
                join3(head.as_str(), var.as_str(), "` is not set")
            },
        }
    }
}

} // verus!

verus! {

/// An error from compiling a playbook's tasks into runnable ones.
#[derive(Debug, PartialEq)]
pub enum CompileError {
    /// An `ask` task names a model that was not built.
    UnknownModel { name: String },
}

impl CompileError {
    /// The text this error displays.
    pub fn message(&self) -> (r: String)
        ensures
            match self {
                CompileError::UnknownModel { name } => r@ == "unknown model '"@ + name@
                    + "' (validate() should have caught this)"@,
            },
    {
        match self {
            CompileError::UnknownModel { name } => join3(
                "unknown model '",
                name.as_str(),
                "' (validate() should have caught this)",
            ),
        }
    }
}

} // verus!
