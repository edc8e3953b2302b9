//! Vikar: a playbook runner that mixes LLM calls, shell commands and loops,
//! declared as data. This crate holds the playbook schema and its
//! validation, the shared context and its JSON view, the bridge to the
//! template engine, the built-in model providers' pure parts, the compiler
//! from configuration to runnable tasks, and the engine that walks a plan
//! one transition at a time.
use vstd::prelude::*;

pub mod text;
pub mod value;
pub mod template;
pub mod error;
pub mod context;
pub mod config;
pub mod models;
pub mod runner;
pub mod exec;
pub mod plan;
pub mod progress;

pub use config::{
    default_max_iterations, default_mock_prefix, default_ollama_base_url, ModelConfig, Playbook,
    TaskConfig,
};
pub use context::Context;
pub use error::{BuildError, CompileError, ConfigError, ModelError, RunError, StepError, TemplateError};
pub use exec::{Action, Execution, Frame, Phase, ShellOutcome};
pub use models::{
    anthropic_version, MAX_TOKENS,
    build_models, AnthropicModel, BuiltModel, CompletionRequest, CompletionResponse, ContentBlock,
    MockModel, OllamaModel, OpenAiCompatibleModel,
};
pub use plan::{plan_lines, plan_report, task_kind_line, task_plan_line};
pub use runner::{compile_tasks, AskTask, RunTask, Runner, Task, TaskOutput, UntilTask};
pub use value::Value;

verus! {

} // verus!
