use vikar::{
    anthropic_version, build_models, AnthropicModel, BuildError, BuiltModel, CompletionRequest, ContentBlock,
    Context, MockModel, ModelConfig, ModelError, OllamaModel, OpenAiCompatibleModel,
};

#[test]
fn mock_model_echoes_with_prefix() {
    let m = MockModel::new("demo".to_string(), "[demo model] ".to_string());
    let resp = m
        .complete(CompletionRequest {
            prompt: "Hello from Vikar!".to_string(),
        })
        .unwrap();
    assert_eq!(resp.text, "[demo model] Hello from Vikar!");
    assert_eq!(m.name(), "demo");
}

#[test]
fn anthropic_defaults_base_url() {
    let m = AnthropicModel::new("c".into(), "sonnet".into(), "k".into(), None);
    assert_eq!(m.base_url, "https://api.anthropic.com");
    assert_eq!(m.messages_url(), "https://api.anthropic.com/v1/messages");
    let m = AnthropicModel::new("c".into(), "sonnet".into(), "k".into(), Some("http://proxy/".into()));
    assert_eq!(m.messages_url(), "http://proxy//v1/messages");
}

#[test]
fn ollama_and_openai_urls_drop_trailing_slashes() {
    let o = OllamaModel::new("o".into(), "llama".into(), "http://localhost:11434//".into());
    assert_eq!(o.chat_url(), "http://localhost:11434/api/chat");
    let p = OpenAiCompatibleModel::new("p".into(), "gpt".into(), "https://x/v1/".into(), None);
    assert_eq!(p.completions_url(), "https://x/v1/chat/completions");
    let q = OpenAiCompatibleModel::new("q".into(), "gpt".into(), "https://x/v1".into(), None);
    assert_eq!(q.completions_url(), "https://x/v1/chat/completions");
}

#[test]
fn anthropic_reply_text_joins_text_blocks_only() {
    let blocks = vec![
        ContentBlock { kind: "text".into(), text: "Hello, ".into() },
        ContentBlock { kind: "tool_use".into(), text: "ignored".into() },
        ContentBlock { kind: "text".into(), text: "world".into() },
    ];
    assert_eq!(AnthropicModel::response_text(&blocks), "Hello, world");
    assert_eq!(AnthropicModel::response_text(&vec![]), "");
}

#[test]
fn openai_reply_text_is_first_choice_or_empty() {
    assert_eq!(
        OpenAiCompatibleModel::response_text(&vec!["one".to_string(), "two".to_string()]),
        "one"
    );
    assert_eq!(OpenAiCompatibleModel::response_text(&vec![]), "");
}

#[test]
fn build_models_reads_keys_from_the_environment() {
    let env = Context::with_env(vec![("ANTHROPIC_API_KEY".into(), "sk-1".into())]);
    let configs = vec![
        (
            "sonnet".to_string(),
            ModelConfig::Anthropic {
                model: "sonnet-4".into(),
                api_key_env: "ANTHROPIC_API_KEY".into(),
                base_url: None,
            },
        ),
        (
            "local".to_string(),
            ModelConfig::OpenaiCompatible {
                model: "m".into(),
                base_url: "http://localhost:8000/v1".into(),
                api_key_env: None,
            },
        ),
        (
            "demo".to_string(),
            ModelConfig::Mock {
                prefix: "[mock] ".into(),
            },
        ),
    ];
    let built = build_models(&configs, &env).unwrap();
    assert_eq!(built.len(), 3);
    assert_eq!(built[0].0, "sonnet");
    match &built[0].1 {
        BuiltModel::Anthropic(m) => {
            assert_eq!(m.api_key, "sk-1");
            assert_eq!(m.base_url, "https://api.anthropic.com");
            assert_eq!(m.model, "sonnet-4");
        }
        other => panic!("unexpected {other:?}"),
    }
    match &built[1].1 {
        BuiltModel::OpenaiCompatible(m) => assert_eq!(m.api_key, None),
        other => panic!("unexpected {other:?}"),
    }
    assert_eq!(built[2].1.name(), "demo");
}

#[test]
fn build_models_fails_on_missing_key() {
    let env = Context::with_env(vec![]);
    let configs = vec![(
        "nemotron".to_string(),
        ModelConfig::OpenaiCompatible {
            model: "m".into(),
            base_url: "https://integrate.api.nvidia.com/v1".into(),
            api_key_env: Some("NVIDIA_API_KEY".into()),
        },
    )];
    let err = build_models(&configs, &env).unwrap_err();
    assert_eq!(
        err,
        BuildError::MissingEnv {
            model: "nemotron".into(),
            var: "NVIDIA_API_KEY".into()
        }
    );
    assert_eq!(
        err.message(),
        "model 'nemotron': environment variable `NVIDIA_API_KEY` is not set"
    );
}

#[test]
fn model_error_messages() {
    let e = ModelError::Request {
        model: "m".into(),
        message: "boom".into(),
    };
    assert_eq!(e.message(), "model 'm' request failed: boom");
    let e = ModelError::Response {
        model: "m".into(),
        message: "bad json".into(),
    };
    assert_eq!(
        e.message(),
        "model 'm' returned a response Vikar could not parse: bad json"
    );
}

#[test]
fn request_bodies_hold_model_and_one_user_turn() {
    let a = AnthropicModel::new("c".into(), "sonnet".into(), "k".into(), None);
    assert_eq!(
        a.request_body("say \"hi\"").to_json(),
        "{\"model\":\"sonnet\",\"max_tokens\":4096,\"messages\":[{\"role\":\"user\",\"content\":\"say \\\"hi\\\"\"}]}"
    );
    assert_eq!(anthropic_version(), "2023-06-01");
    let p = OpenAiCompatibleModel::new("p".into(), "gpt".into(), "https://x/v1".into(), None);
    assert_eq!(
        p.request_body("q").to_json(),
        "{\"model\":\"gpt\",\"messages\":[{\"role\":\"user\",\"content\":\"q\"}]}"
    );
    let o = OllamaModel::new("o".into(), "llama".into(), "http://localhost:11434".into());
    assert_eq!(
        o.request_body("q").to_json(),
        "{\"model\":\"llama\",\"messages\":[{\"role\":\"user\",\"content\":\"q\"}],\"stream\":false}"
    );
}
