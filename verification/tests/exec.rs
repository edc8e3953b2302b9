use vikar::{
    compile_tasks, Action, BuiltModel, CompileError, CompletionRequest, Context, Execution,
    MockModel, ModelError, Phase, Runner, ShellOutcome, StepError, Task, TaskConfig, Value,
};

fn models() -> Vec<(String, BuiltModel)> {
    vec![(
        "demo".to_string(),
        BuiltModel::Mock(MockModel::new("demo".into(), "[mock] ".into())),
    )]
}

fn run_cfg(command: &str, register: Option<&str>, allow: bool) -> TaskConfig {
    TaskConfig::Run {
        name: None,
        command: command.to_string(),
        register: register.map(|s| s.to_string()),
        allow_agent_output: allow,
    }
}

fn plan(configs: Vec<TaskConfig>) -> Execution {
    let tasks = compile_tasks(&configs, &models()).unwrap();
    Execution::new(Runner::new(tasks))
}

fn ok_shell(stdout: &str) -> ShellOutcome {
    ShellOutcome::exited(stdout, "", 0)
}

/// Drives a run to its end, answering every shell command with `shell`
/// and every model question with the mock model; returns the final action
/// and the commands that were asked for.
fn drive(
    exec: &mut Execution,
    ctx: &mut Context,
    shell: &dyn Fn(&str) -> ShellOutcome,
) -> (Action, Vec<String>) {
    let mock = MockModel::new("demo".into(), "[mock] ".into());
    let mut commands = Vec::new();
    let mut action = exec.step(ctx);
    for _ in 0..1000 {
        action = match action {
            Action::RunShell { command, .. } => {
                commands.push(command.clone());
                exec.shell_finished(ctx, shell(&command))
            }
            Action::AskModel { prompt, .. } => {
                exec.model_finished(ctx, mock.complete(CompletionRequest { prompt }))
            }
            Action::Continue | Action::Completed(_) => exec.step(ctx),
            done => return (done, commands),
        };
    }
    panic!("run did not end");
}

#[test]
fn interpolated_command_is_refused_without_opt_in() {
    let mut exec = plan(vec![run_cfg("echo {{ 1 + 1 }}", None, false)]);
    let ctx = Context::with_env(vec![]);
    match exec.step(&ctx) {
        Action::Failed(StepError::Failed { task, message }) => {
            assert_eq!(task, "run");
            let expected = format!(
                "{}{}",
                "command contains interpolated variables; set `allow_agent_output: true` on this ",
                "task to permit it"
            );
            assert_eq!(message, expected);
        }
        other => panic!("unexpected {other:?}"),
    }
    assert_eq!(exec.phase(), Phase::Failed);
}

#[test]
fn interpolated_command_runs_with_opt_in_and_registers_output() {
    let mut exec = plan(vec![run_cfg("echo {{ 1 + 1 }}", Some("out"), true)]);
    let mut ctx = Context::with_env(vec![]);
    match exec.step(&ctx) {
        Action::RunShell { task, command } => {
            assert_eq!(task, "run");
            assert_eq!(command, "echo 2");
        }
        other => panic!("unexpected {other:?}"),
    }
    assert_eq!(exec.phase(), Phase::AwaitingShell);
    match exec.shell_finished(&mut ctx, ShellOutcome::exited("2\n", " warn \n", 0)) {
        Action::Completed(out) => assert_eq!(out.raw_text.as_deref(), Some("2")),
        other => panic!("unexpected {other:?}"),
    }
    assert_eq!(
        ctx.get("out"),
        Some(&Value::Object(vec![
            ("stdout".into(), Value::Str("2".into())),
            ("stderr".into(), Value::Str(" warn".into())),
            ("status".into(), Value::Int(0)),
        ]))
    );
    assert!(matches!(exec.step(&ctx), Action::Finished));
    assert_eq!(exec.phase(), Phase::Finished);
}

#[test]
fn literal_command_needs_no_opt_in() {
    let mut exec = plan(vec![run_cfg("echo hi", None, false)]);
    let mut ctx = Context::with_env(vec![]);
    let (end, commands) = drive(&mut exec, &mut ctx, &|_| ok_shell("hi"));
    assert!(matches!(end, Action::Finished));
    assert_eq!(commands, vec!["echo hi".to_string()]);
}

#[test]
fn later_tasks_see_registered_values() {
    let mut exec = plan(vec![
        TaskConfig::Ask {
            name: Some("greet".into()),
            model: "demo".into(),
            prompt: "Hello".into(),
            register: Some("greeting".into()),
        },
        run_cfg("echo '{{ greeting }}'", None, true),
    ]);
    let mut ctx = Context::with_env(vec![]);
    let (end, commands) = drive(&mut exec, &mut ctx, &|_| ok_shell(""));
    assert!(matches!(end, Action::Finished));
    assert_eq!(commands, vec!["echo '[mock] Hello'".to_string()]);
    assert_eq!(ctx.get("greeting"), Some(&Value::Str("[mock] Hello".into())));
}

#[test]
fn failing_command_stops_the_run() {
    let mut exec = plan(vec![run_cfg("false", None, false), run_cfg("echo never", None, false)]);
    let mut ctx = Context::with_env(vec![]);
    let (end, commands) = drive(&mut exec, &mut ctx, &|_| ShellOutcome::exited("", "oops\n", 3));
    match end {
        Action::Failed(e) => {
            assert_eq!(
                e,
                StepError::Failed {
                    task: "run".into(),
                    message: "command exited with status 3: oops".into()
                }
            );
            assert_eq!(e.message(), "task 'run' failed: command exited with status 3: oops");
        }
        other => panic!("unexpected {other:?}"),
    }
    assert_eq!(commands, vec!["false".to_string()]);
    assert_eq!(exec.phase(), Phase::Failed);
}

#[test]
fn negative_status_is_reported() {
    let mut exec = plan(vec![run_cfg("sleep 100", None, false)]);
    let mut ctx = Context::with_env(vec![]);
    let (end, _) = drive(&mut exec, &mut ctx, &|_| ShellOutcome::exited("", "", -1));
    match end {
        Action::Failed(StepError::Failed { message, .. }) => {
            assert_eq!(message, "command exited with status -1: ")
        }
        other => panic!("unexpected {other:?}"),
    }
}

#[test]
fn spawn_failure_fails_the_task() {
    let mut exec = plan(vec![run_cfg("x", None, false)]);
    let mut ctx = Context::with_env(vec![]);
    let (end, _) = drive(&mut exec, &mut ctx, &|_| ShellOutcome::SpawnFailed {
        message: "no sh".into(),
    });
    match end {
        Action::Failed(StepError::Failed { message, .. }) => {
            assert_eq!(message, "failed to spawn command: no sh")
        }
        other => panic!("unexpected {other:?}"),
    }
}

#[test]
fn until_stops_when_condition_holds() {
    let mut exec = plan(vec![TaskConfig::Until {
        name: Some("wait".into()),
        condition: "{{ r.stdout == 'ready' }}".into(),
        max_iterations: 5,
        tasks: vec![run_cfg("poll", Some("r"), false)],
    }]);
    let mut ctx = Context::with_env(vec![]);
    let calls = std::cell::Cell::new(0);
    let (end, commands) = drive(&mut exec, &mut ctx, &|_| {
        calls.set(calls.get() + 1);
        if calls.get() == 3 {
            ok_shell("ready")
        } else {
            ok_shell("busy")
        }
    });
    assert!(matches!(end, Action::Finished));
    assert_eq!(commands.len(), 3);
}

#[test]
fn until_fails_after_max_iterations() {
    let mut exec = plan(vec![TaskConfig::Until {
        name: None,
        condition: "r.status == 1".into(),
        max_iterations: 2,
        tasks: vec![run_cfg("true", Some("r"), false)],
    }]);
    let mut ctx = Context::with_env(vec![]);
    let (end, commands) = drive(&mut exec, &mut ctx, &|_| ok_shell(""));
    match end {
        Action::Failed(StepError::Failed { task, message }) => {
            assert_eq!(task, "until");
            assert_eq!(message, "condition `r.status == 1` not met after 2 iteration(s)");
        }
        other => panic!("unexpected {other:?}"),
    }
    assert_eq!(commands.len(), 2);
}

#[test]
fn until_with_zero_iterations_never_runs_its_body() {
    let mut exec = plan(vec![TaskConfig::Until {
        name: None,
        condition: "true".into(),
        max_iterations: 0,
        tasks: vec![run_cfg("true", None, false)],
    }]);
    let mut ctx = Context::with_env(vec![]);
    let (end, commands) = drive(&mut exec, &mut ctx, &|_| ok_shell(""));
    match end {
        Action::Failed(StepError::Failed { message, .. }) => {
            assert_eq!(message, "condition `true` not met after 0 iteration(s)")
        }
        other => panic!("unexpected {other:?}"),
    }
    assert!(commands.is_empty());
}

#[test]
fn nested_loops_share_the_context() {
    let mut exec = plan(vec![
        TaskConfig::Until {
            name: None,
            condition: "true".into(),
            max_iterations: 3,
            tasks: vec![TaskConfig::Until {
                name: None,
                condition: "inner.stdout == 'x'".into(),
                max_iterations: 3,
                tasks: vec![run_cfg("a", Some("inner"), false)],
            }],
        },
        run_cfg("echo {{ inner.stdout }}", None, true),
    ]);
    let mut ctx = Context::with_env(vec![]);
    let (end, commands) = drive(&mut exec, &mut ctx, &|_| ok_shell("x"));
    assert!(matches!(end, Action::Finished));
    assert_eq!(commands, vec!["a".to_string(), "echo x".to_string()]);
}

#[test]
fn condition_errors_are_template_errors() {
    let mut exec = plan(vec![TaskConfig::Until {
        name: Some("loop".into()),
        condition: "1 +".into(),
        max_iterations: 2,
        tasks: vec![],
    }]);
    let mut ctx = Context::with_env(vec![]);
    let (end, _) = drive(&mut exec, &mut ctx, &|_| ok_shell(""));
    match end {
        Action::Failed(StepError::Template { task, .. }) => assert_eq!(task, "loop"),
        other => panic!("unexpected {other:?}"),
    }
}

#[test]
fn prompt_template_errors_fail_the_ask_task() {
    let mut exec = plan(vec![TaskConfig::Ask {
        name: None,
        model: "demo".into(),
        prompt: "{{ broken".into(),
        register: None,
    }]);
    let ctx = Context::with_env(vec![]);
    match exec.step(&ctx) {
        Action::Failed(StepError::Template { task, source }) => {
            assert_eq!(task, "ask");
            assert!(source.message().starts_with("template error: "));
        }
        other => panic!("unexpected {other:?}"),
    }
}

#[test]
fn model_errors_fail_the_ask_task() {
    let mut exec = plan(vec![TaskConfig::Ask {
        name: None,
        model: "demo".into(),
        prompt: "hi".into(),
        register: Some("x".into()),
    }]);
    let mut ctx = Context::with_env(vec![]);
    match exec.step(&ctx) {
        Action::AskModel { model, prompt, .. } => {
            assert_eq!(model, "demo");
            assert_eq!(prompt, "hi");
        }
        other => panic!("unexpected {other:?}"),
    }
    let err = ModelError::Request {
        model: "demo".into(),
        message: "down".into(),
    };
    match exec.model_finished(&mut ctx, Err(err)) {
        Action::Failed(e) => {
            assert_eq!(e.message(), "task 'ask' model error: model 'demo' request failed: down")
        }
        other => panic!("unexpected {other:?}"),
    }
    assert_eq!(ctx.get("x"), None);
}

#[test]
fn compile_rejects_unbuilt_models() {
    let configs = vec![TaskConfig::Ask {
        name: None,
        model: "ghost".into(),
        prompt: "hi".into(),
        register: None,
    }];
    let err = compile_tasks(&configs, &models()).unwrap_err();
    assert_eq!(
        err,
        CompileError::UnknownModel {
            name: "ghost".into()
        }
    );
    assert_eq!(
        err.message(),
        "unknown model 'ghost' (validate() should have caught this)"
    );
}

#[test]
fn compile_keeps_structure_and_names() {
    let configs = vec![TaskConfig::Until {
        name: Some("loop".into()),
        condition: "c".into(),
        max_iterations: 4,
        tasks: vec![run_cfg("ls", Some("files"), true)],
    }];
    let tasks = compile_tasks(&configs, &models()).unwrap();
    assert_eq!(tasks.len(), 1);
    assert_eq!(tasks[0].name(), "loop");
    match &tasks[0] {
        Task::Until(u) => {
            assert_eq!(u.max_iterations, 4);
            assert_eq!(u.body.tasks.len(), 1);
            match &u.body.tasks[0] {
                Task::Run(r) => {
                    assert_eq!(r.name, "run");
                    assert_eq!(r.command_template, "ls");
                    assert_eq!(r.register.as_deref(), Some("files"));
                    assert!(r.allow_agent_output);
                }
                other => panic!("unexpected {other:?}"),
            }
        }
        other => panic!("unexpected {other:?}"),
    }
}

#[test]
fn shell_outcome_trims_trailing_whitespace() {
    match ShellOutcome::exited("  out \n\t", "err\r\n", 0) {
        ShellOutcome::Exited { stdout, stderr, status } => {
            assert_eq!(stdout, "  out");
            assert_eq!(stderr, "err");
            assert_eq!(status, 0);
        }
        other => panic!("unexpected {other:?}"),
    }
}

#[test]
fn step_error_messages() {
    let e = StepError::Timeout { task: "t".into() };
    assert_eq!(e.message(), "task 't' timed out");
    let e = StepError::Template {
        task: "t".into(),
        source: vikar::TemplateError {
            message: "bad".into(),
        },
    };
    assert_eq!(e.message(), "task 't' template error: template error: bad");
    let r = vikar::RunError::Step(StepError::Failed {
        task: "t".into(),
        message: "m".into(),
    });
    assert_eq!(r.message(), "task 't' failed: m");
}

#[test]
fn validated_playbook_builds_and_compiles() {
    let playbook = vikar::Playbook {
        models: vec![(
            "demo".to_string(),
            vikar::ModelConfig::Mock {
                prefix: "[mock] ".into(),
            },
        )],
        tasks: vec![
            TaskConfig::Ask {
                name: None,
                model: "demo".into(),
                prompt: "hi".into(),
                register: None,
            },
            TaskConfig::Until {
                name: None,
                condition: "true".into(),
                max_iterations: 2,
                tasks: vec![TaskConfig::Ask {
                    name: None,
                    model: "demo".into(),
                    prompt: "again".into(),
                    register: None,
                }],
            },
        ],
    };
    assert!(playbook.validate().is_ok());
    let env = Context::with_env(vec![]);
    let built = vikar::build_models(&playbook.models, &env).unwrap();
    let tasks = compile_tasks(&playbook.tasks, &built).unwrap();
    assert_eq!(tasks.len(), 2);
    let mut exec = Execution::new(Runner::new(tasks));
    let mut ctx = Context::with_env(vec![]);
    let (end, _) = drive(&mut exec, &mut ctx, &|_| ok_shell(""));
    assert!(matches!(end, Action::Finished));
}

#[test]
fn registering_a_task_output_keeps_every_other_name() {
    let mut exec = plan(vec![run_cfg("true", Some("out"), false)]);
    let mut ctx = Context::with_env(vec![("HOME".to_string(), "/h".to_string())]);
    ctx.register("keep", Value::Int(5));
    ctx.register("out", Value::Null);
    assert!(matches!(exec.step(&ctx), Action::RunShell { .. }));
    match exec.shell_finished(&mut ctx, ShellOutcome::exited("x", "", 0)) {
        Action::Completed(out) => assert_eq!(ctx.get("out"), Some(&out.value)),
        other => panic!("unexpected {other:?}"),
    }
    assert_eq!(ctx.get("keep"), Some(&Value::Int(5)));
    assert_eq!(ctx.env("HOME"), Some("/h"));
}
