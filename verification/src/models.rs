//! Model providers: the configuration each built-in provider is made from,
//! the offline mock model, and the pure parts of the HTTP providers (where
//! a request goes, and how a reply's text is put together).
use vstd::prelude::*;

use crate::config::{key_set, ModelConfig};
use crate::context::{lookup, Context};
use crate::error::{BuildError, ModelError};
use crate::text::{chars_of, concat, strip_trailing, strip_trailing_chars, string_of};
use crate::value::{Value, ValueView};

verus! {

/// A single request to a model: one prompt in.
#[derive(Debug)]
pub struct CompletionRequest {
    pub prompt: String,
}

/// A single response from a model: one completion out.
#[derive(Debug)]
pub struct CompletionResponse {
    pub text: String,
}

/// A deterministic, offline model: echoes the prompt back after a prefix.
#[derive(Debug)]
pub struct MockModel {
    pub name: String,
    pub prefix: String,
}

impl MockModel {
    pub fn new(name: String, prefix: String) -> (r: MockModel)
        ensures
            r.name == name,
            r.prefix == prefix,
    {
        MockModel { name, prefix }
    }

    /// The prompt, after the prefix. Never fails.
    pub fn complete(&self, req: CompletionRequest) -> (r: Result<CompletionResponse, ModelError>)
        ensures
            r matches Ok(resp) && resp.text@ == self.prefix@ + req.prompt@,
    {
        Ok(CompletionResponse { text: concat(self.prefix.as_str(), req.prompt.as_str()) })
    }

    /// The name this model is declared under.
    pub fn name(&self) -> (r: &str)
        ensures
            r@ == self.name@,
    {
        self.name.as_str()
    }
}

/// The `messages` list of a chat request: one user turn holding `prompt`.
pub open spec fn user_turn(prompt: Seq<char>) -> ValueView {
    ValueView::Array(
        seq![ValueView::Object(seq![("role"@, ValueView::Str("user"@)), ("content"@, ValueView::Str(prompt))])],
    )
}

/// The most tokens an Anthropic reply may hold.
pub const MAX_TOKENS: u32 = 4096;

/// The Anthropic API version requests are made against.
pub fn anthropic_version() -> (r: &'static str)
    ensures
        r@ == "2023-06-01"@,
{
    proof {
        reveal_strlit("2023-06-01");
    }
    "2023-06-01"
}

fn str_value(s: &str) -> (v: Value)
    ensures
        v@ == ValueView::Str(s@),
{
    Value::Str(String::from_str(s))
}

/// Appends the member `name: v` to a list of JSON object members.
fn push_field(fields: &mut Vec<(String, Value)>, name: &str, v: Value)
    ensures
        crate::value::fields_view(final(fields)@) == crate::value::fields_view(old(fields)@).push(
            (name@, v@),
        ),
{
    fields.push((String::from_str(name), v));
    assert(fields@.drop_last() == old(fields)@);
}

/// [`user_turn`], built.
fn user_turn_value(prompt: &str) -> (v: Value)
    ensures
        v@ == user_turn(prompt@),
{
    let mut turn: Vec<(String, Value)> = Vec::new();
    assert(crate::value::fields_view(turn@) =~= Seq::empty());
    push_field(&mut turn, "role", str_value("user"));
    push_field(&mut turn, "content", str_value(prompt));
    let ghost members = crate::value::fields_view(turn@);
    assert(members =~= seq![("role"@, ValueView::Str("user"@)), ("content"@, ValueView::Str(prompt@))]);
    let obj = Value::Object(turn);
    assert(obj@ == ValueView::Object(members));
    let mut items: Vec<Value> = Vec::new();
    items.push(obj);
    assert(items@.drop_last() =~= Seq::<Value>::empty());
    assert(crate::value::items_view(Seq::<Value>::empty()) =~= Seq::<ValueView>::empty());
    assert(crate::value::items_view(items@) =~= seq![obj@]);
    Value::Array(items)
}

/// Where Anthropic's API is reached when no `base_url:` is given.
pub open spec fn anthropic_default_base() -> Seq<char> {
    "https://api.anthropic.com"@
}

/// Anthropic's native Messages API: what a request needs.
#[derive(Debug)]
pub struct AnthropicModel {
    pub name: String,
    pub model: String,
    pub api_key: String,
    pub base_url: String,
}

/// One block of an Anthropic reply's `content`.
#[derive(Debug)]
pub struct ContentBlock {
    pub kind: String,
    pub text: String,
}

/// The text of the `text` blocks, in order, joined with nothing between.
pub open spec fn text_of_blocks(blocks: Seq<ContentBlock>) -> Seq<char>
    decreases blocks.len(),
{
    if blocks.len() == 0 {
        Seq::empty()
    } else {
        text_of_blocks(blocks.drop_last()) + if blocks.last().kind@ == "text"@ {
            blocks.last().text@
        } else {
            Seq::empty()
        }
    }
}

impl AnthropicModel {
    pub fn new(name: String, model: String, api_key: String, base_url: Option<String>) -> (r:
        AnthropicModel)
        ensures
            r.name == name,
            r.model == model,
            r.api_key == api_key,
            r.base_url@ == match base_url {
                Some(b) => b@,
                None => anthropic_default_base(),
            },
    {
        let base_url = match base_url {
            Some(b) => b,
            None => String::from_str("https://api.anthropic.com"),
        };
        AnthropicModel { name, model, api_key, base_url }
    }

    /// The JSON body a completion request posts: the model, the token
    /// limit and one user turn holding the prompt.
    pub fn request_body(&self, prompt: &str) -> (v: Value)
        ensures
            v@ == ValueView::Object(
                seq![
                    ("model"@, ValueView::Str(self.model@)),
                    ("max_tokens"@, ValueView::Int(MAX_TOKENS as int)),
                    ("messages"@, user_turn(prompt@)),
                ],
            ),
    {
        let mut fields: Vec<(String, Value)> = Vec::new();
        assert(crate::value::fields_view(fields@) =~= Seq::empty());
        let model = Value::Str(self.model.clone());
        assert(model@ == ValueView::Str(self.model@));
        push_field(&mut fields, "model", model);
        push_field(&mut fields, "max_tokens", Value::Int(MAX_TOKENS as i64));
        push_field(&mut fields, "messages", user_turn_value(prompt));
        let ghost members = crate::value::fields_view(fields@);
        assert(members =~= seq![
                ("model"@, ValueView::Str(self.model@)),
                ("max_tokens"@, ValueView::Int(MAX_TOKENS as int)),
                ("messages"@, user_turn(prompt@)),
            ]);
        let body = Value::Object(fields);
        assert(body@ == ValueView::Object(members));
        body
    }

    /// The endpoint a completion is posted to.
    pub fn messages_url(&self) -> (r: String)
        ensures
            r@ == self.base_url@ + "/v1/messages"@,
    {
        concat(self.base_url.as_str(), "/v1/messages")
    }

    /// The completion text of a reply: its `text` blocks, concatenated.
    pub fn response_text(blocks: &Vec<ContentBlock>) -> (r: String)
        ensures
            r@ == text_of_blocks(blocks@),
    {
        let text_kind = String::from_str("text");
        let mut out = String::new();
        let n = blocks.len();
        for i in 0..n
            invariant
                n == blocks@.len(),
                text_kind@ == "text"@,
                out@ == text_of_blocks(blocks@.take(i as int)),
        {
            assert(blocks@.take(i + 1).drop_last() == blocks@.take(i as int));
            if blocks[i].kind == text_kind {
                out.append(blocks[i].text.as_str());
            } else {
                assert(out@ + Seq::<char>::empty() == out@);
            }
        }
        assert(blocks@.take(n as int) == blocks@);
        out
    }
}

/// An OpenAI-compatible chat-completions endpoint: what a request needs.
#[derive(Debug)]
pub struct OpenAiCompatibleModel {
    pub name: String,
    pub model: String,
    pub base_url: String,
    pub api_key: Option<String>,
}

impl OpenAiCompatibleModel {
    pub fn new(name: String, model: String, base_url: String, api_key: Option<String>) -> (r:
        OpenAiCompatibleModel)
        ensures
            r.name == name,
            r.model == model,
            r.base_url == base_url,
            r.api_key == api_key,
    {
        OpenAiCompatibleModel { name, model, base_url, api_key }
    }

    /// The JSON body a completion request posts: the model and one user
    /// turn holding the prompt.
    pub fn request_body(&self, prompt: &str) -> (v: Value)
        ensures
            v@ == ValueView::Object(
                seq![("model"@, ValueView::Str(self.model@)), ("messages"@, user_turn(prompt@))],
            ),
    {
        let mut fields: Vec<(String, Value)> = Vec::new();
        assert(crate::value::fields_view(fields@) =~= Seq::empty());
        let model = Value::Str(self.model.clone());
        assert(model@ == ValueView::Str(self.model@));
        push_field(&mut fields, "model", model);
        push_field(&mut fields, "messages", user_turn_value(prompt));
        let ghost members = crate::value::fields_view(fields@);
        assert(members =~= seq![("model"@, ValueView::Str(self.model@)), ("messages"@, user_turn(prompt@))]);
        let body = Value::Object(fields);
        assert(body@ == ValueView::Object(members));
        body
    }

    /// The endpoint a completion is posted to: the base URL without its
    /// trailing slashes, then `/chat/completions`.
    pub fn completions_url(&self) -> (r: String)
        ensures
            r@ == strip_trailing(self.base_url@, '/') + "/chat/completions"@,
    {
        let base = string_of(&strip_trailing_chars(&chars_of(self.base_url.as_str()), '/'));
        concat(base.as_str(), "/chat/completions")
    }

    /// The completion text of a reply: the first choice's message content,
    /// or nothing when there is no choice.
    pub fn response_text(contents: &Vec<String>) -> (r: String)
        ensures
            r@ == if contents@.len() > 0 {
                contents@[0]@
            } else {
                Seq::empty()
            },
    {
        if contents.len() > 0 {
            contents[0].clone()
        } else {
            String::new()
        }
    }
}

/// A local Ollama server's native chat API: what a request needs.
#[derive(Debug)]
pub struct OllamaModel {
    pub name: String,
    pub model: String,
    pub base_url: String,
}

impl OllamaModel {
    pub fn new(name: String, model: String, base_url: String) -> (r: OllamaModel)
        ensures
            r.name == name,
            r.model == model,
            r.base_url == base_url,
    {
        OllamaModel { name, model, base_url }
    }

    /// The JSON body a completion request posts: the model, one user turn
    /// holding the prompt, and `stream: false` (one reply object, not a
    /// stream of them).
    pub fn request_body(&self, prompt: &str) -> (v: Value)
        ensures
            v@ == ValueView::Object(
                seq![
                    ("model"@, ValueView::Str(self.model@)),
                    ("messages"@, user_turn(prompt@)),
                    ("stream"@, ValueView::Bool(false)),
                ],
            ),
    {
        let mut fields: Vec<(String, Value)> = Vec::new();
        assert(crate::value::fields_view(fields@) =~= Seq::empty());
        let model = Value::Str(self.model.clone());
        assert(model@ == ValueView::Str(self.model@));
        push_field(&mut fields, "model", model);
        push_field(&mut fields, "messages", user_turn_value(prompt));
        push_field(&mut fields, "stream", Value::Bool(false));
        let ghost members = crate::value::fields_view(fields@);
        assert(members =~= seq![
                ("model"@, ValueView::Str(self.model@)),
                ("messages"@, user_turn(prompt@)),
                ("stream"@, ValueView::Bool(false)),
            ]);
        let body = Value::Object(fields);
        assert(body@ == ValueView::Object(members));
        body
    }

    /// The endpoint a completion is posted to: the base URL without its
    /// trailing slashes, then `/api/chat`.
    pub fn chat_url(&self) -> (r: String)
        ensures
            r@ == strip_trailing(self.base_url@, '/') + "/api/chat"@,
    {
        let base = string_of(&strip_trailing_chars(&chars_of(self.base_url.as_str()), '/'));
        concat(base.as_str(), "/api/chat")
    }
}

/// A `models:` entry made usable.
#[derive(Debug)]
pub enum BuiltModel {
    Anthropic(AnthropicModel),
    OpenaiCompatible(OpenAiCompatibleModel),
    Ollama(OllamaModel),
    Mock(MockModel),
}

impl BuiltModel {
    /// The name the model is declared under.
    pub fn name(&self) -> (r: &str)
        ensures
            r@ == match self {
                BuiltModel::Anthropic(m) => m.name@,
                BuiltModel::OpenaiCompatible(m) => m.name@,
                BuiltModel::Ollama(m) => m.name@,
                BuiltModel::Mock(m) => m.name@,
            },
    {
        match self {
            BuiltModel::Anthropic(m) => m.name.as_str(),
            BuiltModel::OpenaiCompatible(m) => m.name.as_str(),
            BuiltModel::Ollama(m) => m.name.as_str(),
            BuiltModel::Mock(m) => m.name.as_str(),
        }
    }
}

/// The environment variable a model's configuration needs, if any.
pub open spec fn needed_env(c: ModelConfig) -> Option<Seq<char>> {
    match c {
        ModelConfig::Anthropic { api_key_env, .. } => Some(api_key_env@),
        ModelConfig::OpenaiCompatible { api_key_env, .. } => match api_key_env {
            Some(v) => Some(v@),
            None => None,
        },
        _ => None,
    }
}

/// The configuration can be built: the variable it needs, if any, is set.
pub open spec fn buildable(c: ModelConfig, env: Seq<(Seq<char>, Seq<char>)>) -> bool {
    match needed_env(c) {
        Some(v) => lookup(env, v) is Some,
        None => true,
    }
}

/// `b` is what the configuration `c`, declared as `name`, builds to
/// against the environment `env`.
pub open spec fn built_from(
    b: BuiltModel,
    name: Seq<char>,
    c: ModelConfig,
    env: Seq<(Seq<char>, Seq<char>)>,
) -> bool {
    match (b, c) {
        (
            BuiltModel::Anthropic(m),
            ModelConfig::Anthropic { model, api_key_env, base_url },
        ) => m.name@ == name && m.model@ == model@ && lookup(env, api_key_env@) == Some(
            m.api_key@,
        ) && m.base_url@ == match base_url {
            Some(u) => u@,
            None => anthropic_default_base(),
        },
        (
            BuiltModel::OpenaiCompatible(m),
            ModelConfig::OpenaiCompatible { model, base_url, api_key_env },
        ) => m.name@ == name && m.model@ == model@ && m.base_url@ == base_url@ && match api_key_env {
            Some(v) => m.api_key matches Some(k) && lookup(env, v@) == Some(k@),
            None => m.api_key is None,
        },
        (BuiltModel::Ollama(m), ModelConfig::Ollama { model, base_url }) => m.name@ == name
            && m.model@ == model@ && m.base_url@ == base_url@,
        (BuiltModel::Mock(m), ModelConfig::Mock { prefix }) => m.name@ == name && m.prefix@
            == prefix@,
        _ => false,
    }
}

fn build_model(name: &String, config: &ModelConfig, env: &Context) -> (r: Result<
    BuiltModel,
    BuildError,
>)
    ensures
        match r {
            Ok(b) => buildable(*config, env.env_entries()) && built_from(
                b,
                name@,
                *config,
                env.env_entries(),
            ),
            Err(BuildError::MissingEnv { model, var }) => !buildable(*config, env.env_entries())
                && model@ == name@ && needed_env(*config) == Some(var@),
        },
{
    match config {
        ModelConfig::Anthropic { model, api_key_env, base_url } => {
            match env.env(api_key_env.as_str()) {
                Some(key) => Ok(
                    BuiltModel::Anthropic(
                        AnthropicModel::new(
                            name.clone(),
                            model.clone(),
                            String::from_str(key),
                            match base_url {
                                Some(b) => Some(b.clone()),
                                None => None,
                            },
                        ),
                    ),
                ),
                None => Err(
                    BuildError::MissingEnv { model: name.clone(), var: api_key_env.clone() },
                ),
            }
        },
        ModelConfig::OpenaiCompatible { model, base_url, api_key_env } => {
            let api_key = match api_key_env {
                Some(v) => match env.env(v.as_str()) {
                    Some(key) => Some(String::from_str(key)),
                    None => {
                        return Err(BuildError::MissingEnv { model: name.clone(), var: v.clone() });
                    },
                },
                None => None,
            };
            Ok(
                BuiltModel::OpenaiCompatible(
                    OpenAiCompatibleModel::new(name.clone(), model.clone(), base_url.clone(), api_key),
                ),
            )
        },
        ModelConfig::Ollama { model, base_url } => Ok(
            BuiltModel::Ollama(OllamaModel::new(name.clone(), model.clone(), base_url.clone())),
        ),
        ModelConfig::Mock { prefix } => Ok(
            BuiltModel::Mock(MockModel::new(name.clone(), prefix.clone())),
        ),
    }
}

/// Build every `models:` entry into a usable model, under the same name,
/// in the same order. API keys are read from the context's environment.
/// Fails on the first entry whose key variable is not set.
pub fn build_models(configs: &Vec<(String, ModelConfig)>, env: &Context) -> (r: Result<
    Vec<(String, BuiltModel)>,
    BuildError,
>)
    ensures
        match r {
            Ok(out) => {
                &&& forall|i: int|
                    0 <= i < configs@.len() ==> buildable(
                        #[trigger] configs@[i].1,
                        env.env_entries(),
                    )
                &&& out@.len() == configs@.len()
                &&& forall|i: int|
                    0 <= i < out@.len() ==> (#[trigger] out@[i]).0@ == configs@[i].0@ && built_from(
                        out@[i].1,
                        configs@[i].0@,
                        configs@[i].1,
                        env.env_entries(),
                    )
                &&& key_set(out@) == key_set(configs@)
            },
            Err(BuildError::MissingEnv { model, var }) => exists|i: int|
                0 <= i < configs@.len() && !buildable(#[trigger] configs@[i].1, env.env_entries())
                    && (forall|j: int|
                    0 <= j < i ==> buildable(#[trigger] configs@[j].1, env.env_entries()))
                    && model@ == configs@[i].0@ && needed_env(configs@[i].1) == Some(var@),
        },
{
    let mut out: Vec<(String, BuiltModel)> = Vec::new();
    let n = configs.len();
    for i in 0..n
        invariant
            n == configs@.len(),
            out@.len() == i,
            forall|j: int|
                0 <= j < i ==> buildable(#[trigger] configs@[j].1, env.env_entries()),
            forall|j: int|
                0 <= j < i ==> (#[trigger] out@[j]).0@ == configs@[j].0@ && built_from(
                    out@[j].1,
                    configs@[j].0@,
                    configs@[j].1,
                    env.env_entries(),
                ),
    {
        match build_model(&configs[i].0, &configs[i].1, env) {
            Ok(b) => {
                out.push((configs[i].0.clone(), b));
            },
            Err(e) => {
                return Err(e);
            },
        }
    }
    proof {
        assert forall|k: Seq<char>| key_set(out@).contains(k) == key_set(configs@).contains(k) by {
            if key_set(out@).contains(k) {
                let i = choose|i: int| 0 <= i < out@.len() && (#[trigger] out@[i]).0@ == k;
                assert(configs@[i].0@ == k);
            }
            if key_set(configs@).contains(k) {
                let i = choose|i: int| 0 <= i < configs@.len() && (#[trigger] configs@[i]).0@ == k;
                assert(out@[i].0@ == k);
            }
        }
        assert(key_set(out@) =~= key_set(configs@));
    }
    Ok(out)
}

/// A model built from a `models:` entry is of the entry's kind, carries the
/// declared name, and talks to the entry's model id at the entry's base URL
/// (the model id sent in every request is the configuration's, whatever
/// the entry is named); an API key comes from the environment variable the
/// entry names.
pub proof fn law_built_model_follows_config(
    b: BuiltModel,
    name: Seq<char>,
    c: ModelConfig,
    env: Seq<(Seq<char>, Seq<char>)>,
)
    requires
        built_from(b, name, c, env),
    ensures
        name == match b {
            BuiltModel::Anthropic(m) => m.name@,
            BuiltModel::OpenaiCompatible(m) => m.name@,
            BuiltModel::Ollama(m) => m.name@,
            BuiltModel::Mock(m) => m.name@,
        },
        c matches ModelConfig::Anthropic { model, api_key_env, .. } ==> b matches BuiltModel::Anthropic(m)
            && m.model@ == model@ && lookup(env, api_key_env@) == Some(m.api_key@),
        c matches ModelConfig::OpenaiCompatible { model, base_url, api_key_env } ==> b matches BuiltModel::OpenaiCompatible(m)
            && m.model@ == model@ && m.base_url@ == base_url@ && (api_key_env is None
            <==> m.api_key is None),
        c matches ModelConfig::Ollama { model, base_url } ==> b matches BuiltModel::Ollama(m)
            && m.model@ == model@ && m.base_url@ == base_url@,
        c matches ModelConfig::Mock { prefix } ==> b matches BuiltModel::Mock(m) && m.prefix@
            == prefix@,
{
}

} // verus!
