use vikar::{plan_lines, plan_report, task_kind_line, task_plan_line, ModelConfig, Playbook, TaskConfig};

fn sample() -> Vec<TaskConfig> {
    vec![
        TaskConfig::Run {
            name: Some("fetch_status".into()),
            command: "kubectl get pods".into(),
            register: Some("failures".into()),
            allow_agent_output: false,
        },
        TaskConfig::Until {
            name: None,
            condition: "done".into(),
            max_iterations: 3,
            tasks: vec![TaskConfig::Ask {
                name: None,
                model: "main-model".into(),
                prompt: "Summarize".into(),
                register: None,
            }],
        },
    ]
}

#[test]
fn kind_lines_describe_each_task() {
    let tasks = sample();
    assert_eq!(
        task_kind_line(&tasks[0]),
        "[run]   name=fetch_status command=`kubectl get pods` register=failures"
    );
    assert_eq!(
        task_kind_line(&tasks[1]),
        "[until] name=until condition=`done` max_iterations=3 (1 nested task(s))"
    );
    if let TaskConfig::Until { tasks: inner, .. } = &tasks[1] {
        assert_eq!(
            task_kind_line(&inner[0]),
            "[ask]   name=ask model=main-model register=-"
        );
    }
}

#[test]
fn plan_entry_indents_and_numbers() {
    assert_eq!(task_plan_line("x", 1, 1), "  1. x");
    assert_eq!(task_plan_line("y", 2, 12), "    12. y");
}

#[test]
fn plan_lists_nested_tasks_one_level_deeper() {
    let lines = plan_lines(&sample());
    assert_eq!(
        lines,
        vec![
            "  1. [run]   name=fetch_status command=`kubectl get pods` register=failures".to_string(),
            "  2. [until] name=until condition=`done` max_iterations=3 (1 nested task(s))".to_string(),
            "    1. [ask]   name=ask model=main-model register=-".to_string(),
        ]
    );
}

#[test]
fn plan_report_lists_models_and_tasks() {
    let playbook = Playbook {
        models: vec![
            ("a".to_string(), ModelConfig::Mock { prefix: "".into() }),
            ("b".to_string(), ModelConfig::Mock { prefix: "".into() }),
        ],
        tasks: sample(),
    };
    let report = plan_report("pb.yaml", &playbook);
    assert_eq!(report[0], "Playbook: pb.yaml");
    assert_eq!(report[1], "Models declared: a, b");
    assert_eq!(report[2], "Tasks (2):");
    assert_eq!(report.len(), 8);
    assert_eq!(report[6], "");
    assert_eq!(report[7], "Playbook is valid. Run with `vikar play pb.yaml`.");
}

#[test]
fn plan_report_without_models() {
    let playbook = Playbook {
        models: vec![],
        tasks: vec![],
    };
    assert_eq!(
        plan_report("x.yaml", &playbook),
        vec![
            "Playbook: x.yaml".to_string(),
            "Models declared: (none)".to_string(),
            "Tasks (0):".to_string(),
            "".to_string(),
            "Playbook is valid. Run with `vikar play x.yaml`.".to_string(),
        ]
    );
}
