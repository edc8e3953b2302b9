use vikar::{
    default_max_iterations, default_mock_prefix, default_ollama_base_url, ConfigError,
    ModelConfig, Playbook, TaskConfig,
};

fn mock_models() -> Vec<(String, ModelConfig)> {
    vec![(
        "demo".to_string(),
        ModelConfig::Mock {
            prefix: default_mock_prefix(),
        },
    )]
}

fn ask(model: &str) -> TaskConfig {
    TaskConfig::Ask {
        name: None,
        model: model.to_string(),
        prompt: "hi".to_string(),
        register: None,
    }
}

fn run(command: &str) -> TaskConfig {
    TaskConfig::Run {
        name: None,
        command: command.to_string(),
        register: None,
        allow_agent_output: false,
    }
}

#[test]
fn minimal_playbook_validates() {
    let pb = Playbook {
        models: mock_models(),
        tasks: vec![run("echo hi")],
    };
    assert_eq!(pb.tasks.len(), 1);
    assert!(pb.validate().is_ok());
}

#[test]
fn validate_rejects_unknown_model() {
    let pb = Playbook {
        models: mock_models(),
        tasks: vec![ask("typo")],
    };
    let err = pb.validate().unwrap_err();
    assert!(matches!(err, ConfigError::UnknownModel { name } if name == "typo"));
}

#[test]
fn validate_recurses_into_until_tasks() {
    let pb = Playbook {
        models: mock_models(),
        tasks: vec![TaskConfig::Until {
            name: None,
            condition: "true".to_string(),
            max_iterations: default_max_iterations(),
            tasks: vec![ask("typo")],
        }],
    };
    assert!(pb.validate().is_err());
}

#[test]
fn defaults_are_the_documented_ones() {
    assert_eq!(default_mock_prefix(), "[mock] ");
    assert_eq!(default_ollama_base_url(), "http://localhost:11434");
    assert_eq!(default_max_iterations(), 10);
}

#[test]
fn validate_reports_the_first_unknown_model_in_order() {
    let pb = Playbook {
        models: mock_models(),
        tasks: vec![
            ask("demo"),
            TaskConfig::Until {
                name: None,
                condition: "true".to_string(),
                max_iterations: 3,
                tasks: vec![run("true"), ask("first")],
            },
            ask("second"),
        ],
    };
    assert_eq!(
        pb.validate().unwrap_err(),
        ConfigError::UnknownModel {
            name: "first".to_string()
        }
    );
}

#[test]
fn display_name_falls_back_to_kind() {
    assert_eq!(ask("demo").display_name(), "ask");
    assert_eq!(run("true").display_name(), "run");
    let until = TaskConfig::Until {
        name: None,
        condition: "c".to_string(),
        max_iterations: 1,
        tasks: vec![],
    };
    assert_eq!(until.display_name(), "until");
    let named = TaskConfig::Run {
        name: Some("build".to_string()),
        command: "make".to_string(),
        register: None,
        allow_agent_output: false,
    };
    assert_eq!(named.display_name(), "build");
}

#[test]
fn config_error_messages() {
    assert_eq!(
        ConfigError::UnknownModel {
            name: "typo".to_string()
        }
        .message(),
        "task refers to unknown model 'typo' (not declared under `models:`)"
    );
    assert_eq!(
        ConfigError::Parse {
            message: "bad".to_string()
        }
        .message(),
        "could not parse playbook YAML: bad"
    );
    assert_eq!(
        ConfigError::Io {
            path: "p.yaml".to_string(),
            message: "missing".to_string()
        }
        .message(),
        "could not read playbook at p.yaml: missing"
    );
}

#[test]
fn validating_two_parts_is_validating_each_in_turn() {
    let part_a = || vec![ask("demo"), ask("first"), run("true")];
    let part_b = || vec![run("true"), ask("second")];
    let validate = |tasks: Vec<TaskConfig>| {
        Playbook {
            models: mock_models(),
            tasks,
        }
        .validate()
    };
    let mut ab = part_a();
    ab.extend(part_b());
    assert_eq!(
        validate(ab),
        Err(ConfigError::UnknownModel {
            name: "first".to_string()
        })
    );
    let mut ok_then_b = vec![ask("demo")];
    ok_then_b.extend(part_b());
    assert_eq!(
        validate(ok_then_b),
        Err(ConfigError::UnknownModel {
            name: "second".to_string()
        })
    );
    assert_eq!(validate(vec![]), Ok(()));
}
