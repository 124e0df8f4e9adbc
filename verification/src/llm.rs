//! Requests to the language model.
use crate::config::StagehandConfig;
use crate::json::{
    member_of, models, whole_number, with_member, Json, JsonNumber, JsonObject, JsonValue, Members,
};
use crate::a11y::text_map;
use crate::prompts::{
    action_list, build_extract_system_prompt, build_extract_user_prompt, build_observe_system_prompt,
    build_observe_user_message, effective_observe_instruction, extract_parts,
    DEFAULT_OBSERVE_INSTRUCTION, OBSERVE_SYSTEM_HEAD, OBSERVE_SYSTEM_TAIL, SUPPORTED_ACTIONS,
};
use crate::table::Table;
use crate::text::{blank, decimal, is_blank, joined, opt_view, str_views, u64_text};
use crate::types::a11y::opt_json;
use crate::types::page::{ExtractOptions, ObserveOptions};
use vstd::prelude::*;
use vstd::string::*;

verus! {

/// Why a request to the language model failed.
#[derive(Debug, PartialEq, Eq)]
pub enum StagehandLlmError {
    MissingApiKey,
    MissingDefaultModel,
    InvalidRequest(String),
    OpenAi(String),
}

impl StagehandLlmError {
    /// The error as text.
    pub open spec fn text(self) -> Seq<char> {
        match self {
            StagehandLlmError::MissingApiKey =>
                "missing OpenAI API key; set MODEL_API_KEY or OPENAI_API_KEY"@,
            StagehandLlmError::MissingDefaultModel => "missing default model configuration"@,
            StagehandLlmError::InvalidRequest(why) => "invalid chat completion request: "@ + why@,
            StagehandLlmError::OpenAi(message) => message@,
        }
    }

    /// Gives the error as text.
    pub fn message(&self) -> (out: String)
        ensures
            out@ == self.text(),
    {
        match self {
            StagehandLlmError::MissingApiKey =>
                "missing OpenAI API key; set MODEL_API_KEY or OPENAI_API_KEY".to_owned(),
            StagehandLlmError::MissingDefaultModel =>
                "missing default model configuration".to_owned(),
            StagehandLlmError::InvalidRequest(why) => {
                let mut out = "invalid chat completion request: ".to_owned();
                out.append(why.as_str());
                out
            },
            StagehandLlmError::OpenAi(message) => message.clone(),
        }
    }
}

/// What a request to the language model may say beyond its messages. Numbers that
/// need not be whole are given as JSON numbers, and what has a form of its own as
/// JSON.
#[derive(Clone, Debug, PartialEq)]
pub struct ChatCompletionOptions {
    pub model: Option<String>,
    pub store: Option<bool>,
    pub reasoning_effort: Option<JsonValue>,
    pub metadata: Option<JsonValue>,
    pub frequency_penalty: Option<JsonNumber>,
    pub logit_bias: Option<JsonObject>,
    pub logprobs: Option<bool>,
    pub top_logprobs: Option<u8>,
    pub max_tokens: Option<u32>,
    pub max_completion_tokens: Option<u32>,
    pub n: Option<u8>,
    pub modalities: Option<JsonValue>,
    pub prediction: Option<JsonValue>,
    pub audio: Option<JsonValue>,
    pub presence_penalty: Option<JsonNumber>,
    pub response_format: Option<JsonValue>,
    pub seed: Option<i64>,
    pub service_tier: Option<JsonValue>,
    pub stop: Option<JsonValue>,
    pub stream: Option<bool>,
    pub stream_options: Option<JsonValue>,
    pub temperature: Option<JsonNumber>,
    pub top_p: Option<JsonNumber>,
    pub tools: Option<JsonValue>,
    pub tool_choice: Option<JsonValue>,
    pub parallel_tool_calls: Option<bool>,
    pub user: Option<String>,
    pub web_search_options: Option<JsonValue>,
    pub function_call: Option<JsonValue>,
    pub functions: Option<JsonValue>,
}

/// Options that say nothing.
pub open spec fn no_options() -> ChatCompletionOptions {
    ChatCompletionOptions {
        model: None,
        store: None,
        reasoning_effort: None,
        metadata: None,
        frequency_penalty: None,
        logit_bias: None,
        logprobs: None,
        top_logprobs: None,
        max_tokens: None,
        max_completion_tokens: None,
        n: None,
        modalities: None,
        prediction: None,
        audio: None,
        presence_penalty: None,
        response_format: None,
        seed: None,
        service_tier: None,
        stop: None,
        stream: None,
        stream_options: None,
        temperature: None,
        top_p: None,
        tools: None,
        tool_choice: None,
        parallel_tool_calls: None,
        user: None,
        web_search_options: None,
        function_call: None,
        functions: None,
    }
}

impl Default for ChatCompletionOptions {
    fn default() -> (out: Self)
        ensures
            out == no_options(),
    {
        ChatCompletionOptions {
            model: None,
            store: None,
            reasoning_effort: None,
            metadata: None,
            frequency_penalty: None,
            logit_bias: None,
            logprobs: None,
            top_logprobs: None,
            max_tokens: None,
            max_completion_tokens: None,
            n: None,
            modalities: None,
            prediction: None,
            audio: None,
            presence_penalty: None,
            response_format: None,
            seed: None,
            service_tier: None,
            stop: None,
            stream: None,
            stream_options: None,
            temperature: None,
            top_p: None,
            tools: None,
            tool_choice: None,
            parallel_tool_calls: None,
            user: None,
            web_search_options: None,
            function_call: None,
            functions: None,
        }
    }
}

/// A flag that may be absent, as JSON.
pub open spec fn flag_json(flag: Option<bool>) -> Option<Json> {
    match flag {
        Some(flag) => Some(Json::Bool(flag)),
        None => None,
    }
}

/// A number that may be absent, as JSON.
pub open spec fn plain_number(number: Option<JsonNumber>) -> Option<Json> {
    match number {
        Some(number) => Some(Json::Number(number)),
        None => None,
    }
}

/// A count that may be absent, as JSON.
pub open spec fn count_json(count: Option<u64>) -> Option<Json> {
    match count {
        Some(count) => Some(Json::Number(JsonNumber::Unsigned(count))),
        None => None,
    }
}

/// A whole number that may be absent, as JSON.
pub open spec fn whole_json(number: Option<i64>) -> Option<Json> {
    match number {
        Some(number) => Some(Json::Number(whole_number(number))),
        None => None,
    }
}

/// A text that may be absent, as JSON.
pub open spec fn text_json(text: Option<Seq<char>>) -> Option<Json> {
    match text {
        Some(text) => Some(Json::Text(text)),
        None => None,
    }
}

/// An object that may be absent, as JSON.
pub open spec fn object_json(object: Option<JsonObject>) -> Option<Json> {
    match object {
        Some(object) => Some(Json::Members(object@)),
        None => None,
    }
}

/// A request with one more member, where there is something to say.
pub open spec fn with_said(request: Members, key: Seq<char>, value: Option<Json>) -> Members {
    match value {
        Some(value) => with_member(request, key, value),
        None => request,
    }
}

/// A request with what says how the model works.
pub open spec fn with_model_options(request: Members, options: ChatCompletionOptions) -> Members {
    let r1 = with_said(request, "store"@, flag_json(options.store));
    let r2 = with_said(r1, "reasoning_effort"@, opt_json(options.reasoning_effort));
    let r3 = with_said(r2, "metadata"@, opt_json(options.metadata));
    let r4 = with_said(r3, "frequency_penalty"@, plain_number(options.frequency_penalty));
    let r5 = with_said(r4, "logit_bias"@, object_json(options.logit_bias));
    let r6 = with_said(r5, "logprobs"@, flag_json(options.logprobs));
    let r7 = with_said(r6, "top_logprobs"@, count_json(match options.top_logprobs { Some(n) => Some(n as u64), None => None }));
    let r8 = with_said(r7, "max_tokens"@, count_json(match options.max_tokens { Some(n) => Some(n as u64), None => None }));
    let r9 = with_said(r8, "max_completion_tokens"@, count_json(match options.max_completion_tokens { Some(n) => Some(n as u64), None => None }));
    with_said(r9, "n"@, count_json(match options.n { Some(n) => Some(n as u64), None => None }))
}

/// A request with what says how the answer looks.
pub open spec fn with_output_options(request: Members, options: ChatCompletionOptions) -> Members {
    let r1 = with_said(request, "modalities"@, opt_json(options.modalities));
    let r2 = with_said(r1, "prediction"@, opt_json(options.prediction));
    let r3 = with_said(r2, "audio"@, opt_json(options.audio));
    let r4 = with_said(r3, "presence_penalty"@, plain_number(options.presence_penalty));
    let r5 = with_said(r4, "response_format"@, opt_json(options.response_format));
    let r6 = with_said(r5, "seed"@, whole_json(options.seed));
    let r7 = with_said(r6, "service_tier"@, opt_json(options.service_tier));
    let r8 = with_said(r7, "stop"@, opt_json(options.stop));
    let r9 = with_said(r8, "stream"@, flag_json(options.stream));
    with_said(r9, "stream_options"@, opt_json(options.stream_options))
}

/// A request with what says how words are chosen and which tools there are.
pub open spec fn with_tool_options(request: Members, options: ChatCompletionOptions) -> Members {
    let r1 = with_said(request, "temperature"@, plain_number(options.temperature));
    let r2 = with_said(r1, "top_p"@, plain_number(options.top_p));
    let r3 = with_said(r2, "tools"@, opt_json(options.tools));
    let r4 = with_said(r3, "tool_choice"@, opt_json(options.tool_choice));
    let r5 = with_said(r4, "parallel_tool_calls"@, flag_json(options.parallel_tool_calls));
    let r6 = with_said(r5, "user"@, text_json(opt_view(options.user)));
    let r7 = with_said(r6, "web_search_options"@, opt_json(options.web_search_options));
    let r8 = with_said(r7, "function_call"@, opt_json(options.function_call));
    with_said(r8, "functions"@, opt_json(options.functions))
}

/// Puts a member into a request, where there is something to say.
pub fn say(request: &mut JsonObject, key: &str, value: Option<JsonValue>)
    ensures
        final(request)@ == with_said(old(request)@, key@, opt_json(value)),
{
    if let Some(value) = value {
        request.insert(key, value);
    }
}

/// Gives a flag that may be absent as JSON.
pub fn flag_value(flag: Option<bool>) -> (out: Option<JsonValue>)
    ensures
        opt_json(out) == flag_json(flag),
{
    match flag {
        Some(flag) => Some(JsonValue::boolean(flag)),
        None => None,
    }
}

fn number_value(number: Option<JsonNumber>) -> (out: Option<JsonValue>)
    ensures
        opt_json(out) == plain_number(number),
{
    broadcast use JsonValue::lemma_model;

    match number {
        Some(number) => Some(JsonValue::Number(number)),
        None => None,
    }
}

/// Gives a count that may be absent as JSON.
pub fn count_value(count: Option<u64>) -> (out: Option<JsonValue>)
    ensures
        opt_json(out) == count_json(count),
{
    match count {
        Some(count) => Some(JsonValue::unsigned(count)),
        None => None,
    }
}

fn whole_value(number: Option<i64>) -> (out: Option<JsonValue>)
    ensures
        opt_json(out) == whole_json(number),
{
    match number {
        Some(number) => Some(JsonValue::signed(number)),
        None => None,
    }
}

/// Gives a text that may be absent as JSON.
pub fn text_value(text: &Option<String>) -> (out: Option<JsonValue>)
    ensures
        opt_json(out) == text_json(opt_view(*text)),
{
    match text {
        Some(text) => Some(JsonValue::text(text.as_str())),
        None => None,
    }
}

fn object_value(object: Option<JsonObject>) -> (out: Option<JsonValue>)
    ensures
        opt_json(out) == object_json(object),
{
    match object {
        Some(object) => Some(JsonValue::object(object)),
        None => None,
    }
}

/// A request with all that its options say, each under its own name.
pub open spec fn with_options(request: Members, options: ChatCompletionOptions) -> Members {
    with_tool_options(with_output_options(with_model_options(request, options), options), options)
}

/// Puts all that the options say into a request.
pub fn apply_options(request: JsonObject, options: ChatCompletionOptions) -> (out: JsonObject)
    ensures
        out@ == with_options(request@, options),
{
    let mut request = request;
    let ghost r0 = request@;
    say(&mut request, "store", flag_value(options.store));
    say(&mut request, "reasoning_effort", options.reasoning_effort);
    say(&mut request, "metadata", options.metadata);
    say(&mut request, "frequency_penalty", number_value(options.frequency_penalty));
    say(&mut request, "logit_bias", object_value(options.logit_bias));
    say(&mut request, "logprobs", flag_value(options.logprobs));
    say(&mut request, "top_logprobs", count_value(match options.top_logprobs { Some(n) => Some(n as u64), None => None }));
    say(&mut request, "max_tokens", count_value(match options.max_tokens { Some(n) => Some(n as u64), None => None }));
    say(&mut request, "max_completion_tokens", count_value(match options.max_completion_tokens { Some(n) => Some(n as u64), None => None }));
    say(&mut request, "n", count_value(match options.n { Some(n) => Some(n as u64), None => None }));
    let ghost r1 = request@;
    assert(r1 == with_model_options(r0, options));
    say(&mut request, "modalities", options.modalities);
    say(&mut request, "prediction", options.prediction);
    say(&mut request, "audio", options.audio);
    say(&mut request, "presence_penalty", number_value(options.presence_penalty));
    say(&mut request, "response_format", options.response_format);
    say(&mut request, "seed", whole_value(options.seed));
    say(&mut request, "service_tier", options.service_tier);
    say(&mut request, "stop", options.stop);
    say(&mut request, "stream", flag_value(options.stream));
    say(&mut request, "stream_options", options.stream_options);
    let ghost r2 = request@;
    assert(r2 == with_output_options(r1, options));
    say(&mut request, "temperature", number_value(options.temperature));
    say(&mut request, "top_p", number_value(options.top_p));
    say(&mut request, "tools", options.tools);
    say(&mut request, "tool_choice", options.tool_choice);
    say(&mut request, "parallel_tool_calls", flag_value(options.parallel_tool_calls));
    say(&mut request, "user", text_value(&options.user));
    say(&mut request, "web_search_options", options.web_search_options);
    say(&mut request, "function_call", options.function_call);
    say(&mut request, "functions", options.functions);
    let ghost r3 = request@;
    assert(r3 == with_tool_options(r2, options));
    request
}

/// A request to the language model.
pub open spec fn request_of(
    model: Seq<char>,
    messages: Seq<Json>,
    options: ChatCompletionOptions,
) -> Members {
    with_options(
        with_member(
            with_member(Members::empty(), "model"@, Json::Text(model)),
            "messages"@,
            Json::List(messages),
        ),
        options,
    )
}

/// The client of the language model.
#[derive(Debug)]
pub struct StagehandLlmClient<P> {
    provider: P,
    default_model: String,
}

impl<P> StagehandLlmClient<P> {
    /// The model that is asked unless a request names one.
    pub closed spec fn preset(&self) -> Seq<char> {
        self.default_model@
    }

    /// What reaches the model.
    pub closed spec fn engine(&self) -> P {
        self.provider
    }

    /// A client with the given model and what reaches it.
    pub fn new(default_model: &str, provider: P) -> (out: Self)
        ensures
            out.preset() == default_model@,
            out.engine() == provider,
    {
        StagehandLlmClient { provider, default_model: default_model.to_owned() }
    }

    /// The model that is asked unless a request names one.
    pub fn default_model(&self) -> (out: &str)
        ensures
            out@ == self.preset(),
    {
        self.default_model.as_str()
    }

    /// What reaches the model.
    pub fn provider(&self) -> (out: &P)
        ensures
            *out == self.engine(),
    {
        &self.provider
    }

    /// Makes a request: for the model that the options name, or else for the preset
    /// one. It may not be blank.
    pub fn build_request(&self, messages: Vec<JsonValue>, options: ChatCompletionOptions) -> (out:
        Result<JsonObject, StagehandLlmError>)
        ensures
            ({
                let model = match opt_view(options.model) {
                    Some(model) => model,
                    None => self.preset(),
                };
                match out {
                    Ok(request) => !is_blank(model) && request@ == request_of(
                        model,
                        models(messages@),
                        options,
                    ),
                    Err(error) => is_blank(model) && error
                        == StagehandLlmError::MissingDefaultModel,
                }
            }),
    {
        let model = match &options.model {
            Some(model) => model.clone(),
            None => self.default_model.clone(),
        };
        if blank(model.as_str()) {
            return Err(StagehandLlmError::MissingDefaultModel);
        }
        let mut request = JsonObject::new();
        request.insert("model", JsonValue::text(model.as_str()));
        request.insert("messages", JsonValue::array(messages));
        Ok(apply_options(request, options))
    }

    /// Finds the model for a request that is already made: the one it names, unless
    /// that is blank.
    pub fn request_model(&self, model: &str) -> (out: Result<String, StagehandLlmError>)
        ensures
            match out {
                Ok(chosen) => if is_blank(model@) {
                    !is_blank(self.preset()) && chosen@ == self.preset()
                } else {
                    chosen@ == model@
                },
                Err(error) => is_blank(model@) && is_blank(self.preset()) && error
                    == StagehandLlmError::MissingDefaultModel,
            },
    {
        if !blank(model) {
            return Ok(model.to_owned());
        }
        if blank(self.default_model.as_str()) {
            return Err(StagehandLlmError::MissingDefaultModel);
        }
        Ok(self.default_model.clone())
    }
}

/// What the log says when a request is sent.
pub fn request_sent_line(model: &str, function: Option<&str>) -> (out: String)
    ensures
        out@ == "[llm][debug] Sending chat completion request to model="@ + model@ + " function="@ + (
        match function {
            Some(name) => name@,
            None => "n/a"@,
        }),
{
    let mut out = "[llm][debug] Sending chat completion request to model=".to_owned();
    out.append(model);
    out.append(" function=");
    match function {
        Some(name) => out.append(name),
        None => out.append("n/a"),
    }
    out
}

/// What the log says when a request was answered.
pub fn request_answered_line(model: &str, duration_ms: u64) -> (out: String)
    ensures
        out@ == "[llm][debug] Chat completion succeeded: model="@ + model@ + " duration="@ + decimal(
            duration_ms as nat,
        ) + "ms"@,
{
    let mut out = "[llm][debug] Chat completion succeeded: model=".to_owned();
    out.append(model);
    out.append(" duration=");
    let duration = u64_text(duration_ms);
    out.append(duration.as_str());
    out.append("ms");
    out
}

/// What the log says when a request failed.
pub fn request_failed_line(model: &str, why: &str) -> (out: String)
    ensures
        out@ == "[llm][error] Chat completion failed for model="@ + model@ + ": "@ + why@,
{
    let mut out = "[llm][error] Chat completion failed for model=".to_owned();
    out.append(model);
    out.append(": ");
    out.append(why);
    out
}

/// How the language model is reached.
#[derive(Debug, PartialEq, Eq)]
pub struct OpenAiSettings {
    pub api_key: String,
    pub api_base: Option<String>,
    pub org_id: Option<String>,
    pub project_id: Option<String>,
}

/// The text under the first of some keys that has one.
pub open spec fn first_text(options: Members, keys: Seq<Seq<char>>) -> Option<Seq<char>>
    decreases keys.len(),
{
    if keys.len() == 0 {
        None
    } else {
        match member_of(options, keys[0]) {
            Some(Json::Text(text)) => Some(text),
            _ => first_text(options, keys.skip(1)),
        }
    }
}

/// Reads the text under the first of some keys that has one.
pub fn extract_string(options: &JsonObject, keys: &[&str]) -> (out: Option<String>)
    ensures
        opt_view(out) == first_text(options@, str_views(keys@)),
{
    let ghost all = str_views(keys@);
    let mut i: usize = 0;
    assert(all.skip(0) =~= all);
    while i < keys.len()
        invariant
            i <= keys.len(),
            all == str_views(keys@),
            first_text(options@, all) == first_text(options@, all.skip(i as int)),
        decreases keys.len() - i,
    {
        assert(all.skip(i as int)[0] == keys@[i as int]@);
        if let Some(value) = options.get(keys[i]) {
            if let Some(text) = value.as_str() {
                return Some(text.clone());
            }
        }
        assert(all.skip(i as int).skip(1) =~= all.skip(i + 1));
        i += 1;
    }
    assert(all.skip(i as int).len() == 0);
    None
}

/// The key for the language model: the configured one, or else one from the
/// environment.
pub open spec fn model_key(configured: Option<Seq<char>>, env: Map<Seq<char>, Seq<char>>) -> Option<
    Seq<char>,
> {
    match configured {
        Some(key) => Some(key),
        None => if env.dom().contains("MODEL_API_KEY"@) {
            Some(env["MODEL_API_KEY"@])
        } else if env.dom().contains("OPENAI_API_KEY"@) {
            Some(env["OPENAI_API_KEY"@])
        } else {
            None
        },
    }
}

/// The text that an option for the model gives, under any of its names.
pub open spec fn model_option(options: Option<Members>, keys: Seq<Seq<char>>) -> Option<Seq<char>> {
    match options {
        Some(options) => first_text(options, keys),
        None => None,
    }
}

/// Finds how the language model is reached.
pub fn openai_settings(config: &StagehandConfig, env: &Table<String>) -> (out: Result<
    OpenAiSettings,
    StagehandLlmError,
>)
    ensures
        match out {
            Ok(settings) => {
                &&& model_key(config@.model_api_key, text_map(env@)) == Some(settings.api_key@)
                &&& opt_view(settings.api_base) == model_option(
                    config@.model_client_options,
                    seq!["api_base"@, "apiBase"@, "base_url"@, "baseURL"@],
                )
                &&& opt_view(settings.org_id) == model_option(
                    config@.model_client_options,
                    seq!["organization"@, "org_id"@, "orgId"@],
                )
                &&& opt_view(settings.project_id) == model_option(
                    config@.model_client_options,
                    seq!["project"@, "project_id"@, "projectId"@],
                )
            },
            Err(error) => {
                &&& model_key(config@.model_api_key, text_map(env@)) is None
                &&& error == StagehandLlmError::MissingApiKey
            },
        },
{
    assert(text_map(env@).dom() =~= env@.dom());
    let api_key = match &config.model_api_key {
        Some(key) => key.clone(),
        None => match env.get("MODEL_API_KEY") {
            Some(key) => key.clone(),
            None => match env.get("OPENAI_API_KEY") {
                Some(key) => key.clone(),
                None => return Err(StagehandLlmError::MissingApiKey),
            },
        },
    };
    let mut settings = OpenAiSettings { api_key, api_base: None, org_id: None, project_id: None };
    if let Some(options) = &config.model_client_options {
        let bases = ["api_base", "apiBase", "base_url", "baseURL"];
        let orgs = ["organization", "org_id", "orgId"];
        let projects = ["project", "project_id", "projectId"];
        assert(str_views(bases@) =~= seq!["api_base"@, "apiBase"@, "base_url"@, "baseURL"@]);
        assert(str_views(orgs@) =~= seq!["organization"@, "org_id"@, "orgId"@]);
        assert(str_views(projects@) =~= seq!["project"@, "project_id"@, "projectId"@]);
        settings.api_base = extract_string(options, &bases);
        settings.org_id = extract_string(options, &orgs);
        settings.project_id = extract_string(options, &projects);
    }
    Ok(settings)
}

/// The form that the answer of the language model is to have.
#[derive(Debug, PartialEq)]
pub enum ReplyFormat {
    /// An object.
    JsonObject,
    /// A value that a schema describes.
    JsonSchema { name: String, schema: JsonValue, strict: bool },
}

/// The form of an answer, as JSON.
pub open spec fn format_json(name: Seq<char>, schema: Json, strict: bool) -> Json {
    let inner = with_member(
        with_member(
            with_member(Members::empty(), "name"@, Json::Text(name)),
            "schema"@,
            schema,
        ),
        "strict"@,
        Json::Bool(strict),
    );
    Json::Members(
        with_member(
            with_member(Members::empty(), "type"@, Json::Text("json_schema"@)),
            "json_schema"@,
            Json::Members(inner),
        ),
    )
}

/// The form of an answer that is any object, as JSON.
pub open spec fn object_format_json() -> Json {
    Json::Members(with_member(Members::empty(), "type"@, Json::Text("json_object"@)))
}

impl ReplyFormat {
    /// The form as JSON.
    pub fn to_json(self) -> (out: JsonValue)
        ensures
            out@ == (match self {
                ReplyFormat::JsonObject => object_format_json(),
                ReplyFormat::JsonSchema { name, schema, strict } => format_json(
                    name@,
                    schema@,
                    strict,
                ),
            }),
    {
        let mut out = JsonObject::new();
        match self {
            ReplyFormat::JsonObject => {
                out.insert("type", JsonValue::text("json_object"));
            },
            ReplyFormat::JsonSchema { name, schema, strict } => {
                let mut inner = JsonObject::new();
                inner.insert("name", JsonValue::text(name.as_str()));
                inner.insert("schema", schema);
                inner.insert("strict", JsonValue::boolean(strict));
                out.insert("type", JsonValue::text("json_schema"));
                out.insert("json_schema", JsonValue::object(inner));
            },
        }
        JsonValue::object(out)
    }
}

/// A schema that only says of which kind a value is.
pub open spec fn kind_schema(kind: Seq<char>) -> Members {
    with_member(Members::empty(), "type"@, Json::Text(kind))
}

/// The schema of an object that has the given members and no others.
pub open spec fn closed_schema(properties: Members, required: Seq<Json>) -> Members {
    with_member(
        with_member(
            with_member(kind_schema("object"@), "properties"@, Json::Members(properties)),
            "required"@,
            Json::List(required),
        ),
        "additionalProperties"@,
        Json::Bool(false),
    )
}

/// The schema of a list.
pub open spec fn list_schema(items: Members) -> Members {
    with_member(kind_schema("array"@), "items"@, Json::Members(items))
}

/// The schema of the elements that the language model names.
pub open spec fn observe_schema() -> Members {
    let p1 = with_member(
        Members::empty(),
        "element_id"@,
        Json::Members(kind_schema("integer"@)),
    );
    let p2 = with_member(p1, "description"@, Json::Members(kind_schema("string"@)));
    let p3 = with_member(p2, "method"@, Json::Members(kind_schema("string"@)));
    let p4 = with_member(
        p3,
        "arguments"@,
        Json::Members(list_schema(kind_schema("string"@))),
    );
    let element = closed_schema(
        p4,
        seq![
            Json::Text("element_id"@),
            Json::Text("description"@),
            Json::Text("method"@),
            Json::Text("arguments"@),
        ],
    );
    closed_schema(
        with_member(Members::empty(), "elements"@, Json::Members(list_schema(element))),
        seq![Json::Text("elements"@)],
    )
}

/// Makes a schema that only says of which kind a value is.
pub fn make_kind(kind: &str) -> (out: JsonObject)
    ensures
        out@ == kind_schema(kind@),
{
    let mut out = JsonObject::new();
    out.insert("type", JsonValue::text(kind));
    out
}

fn make_closed(properties: JsonObject, required: Vec<JsonValue>) -> (out: JsonObject)
    ensures
        out@ == closed_schema(properties@, models(required@)),
{
    let mut out = make_kind("object");
    out.insert("properties", JsonValue::object(properties));
    out.insert("required", JsonValue::array(required));
    out.insert("additionalProperties", JsonValue::boolean(false));
    out
}

/// Makes the schema of a list.
pub fn make_list(items: JsonObject) -> (out: JsonObject)
    ensures
        out@ == list_schema(items@),
{
    let mut out = make_kind("array");
    out.insert("items", JsonValue::object(items));
    out
}

/// The form of an answer that names elements.
pub fn observe_response_format() -> (out: ReplyFormat)
    ensures
        out matches ReplyFormat::JsonSchema { name, schema, strict } && name@ == "observe_inference"@
            && schema@ == Json::Members(observe_schema()) && !strict,
{
    let mut properties = JsonObject::new();
    properties.insert("element_id", JsonValue::object(make_kind("integer")));
    properties.insert("description", JsonValue::object(make_kind("string")));
    properties.insert("method", JsonValue::object(make_kind("string")));
    properties.insert("arguments", JsonValue::object(make_list(make_kind("string"))));
    let mut required: Vec<JsonValue> = Vec::new();
    required.push(JsonValue::text("element_id"));
    required.push(JsonValue::text("description"));
    required.push(JsonValue::text("method"));
    required.push(JsonValue::text("arguments"));
    assert(models(required@) =~= seq![
        Json::Text("element_id"@),
        Json::Text("description"@),
        Json::Text("method"@),
        Json::Text("arguments"@),
    ]);
    let element = make_closed(properties, required);
    let mut outer = JsonObject::new();
    outer.insert("elements", JsonValue::object(make_list(element)));
    let mut names: Vec<JsonValue> = Vec::new();
    names.push(JsonValue::text("elements"));
    assert(models(names@) =~= seq![Json::Text("elements"@)]);
    ReplyFormat::JsonSchema {
        name: "observe_inference".to_owned(),
        schema: JsonValue::object(make_closed(outer, names)),
        strict: false,
    }
}

/// The form of an answer for a schema, where one is given.
pub fn build_extract_response_format(schema: Option<&JsonValue>) -> (out: Option<ReplyFormat>)
    ensures
        match (out, schema) {
            (Some(ReplyFormat::JsonSchema { name, schema: asked, strict }), Some(schema)) => {
                &&& name@ == "extraction_schema"@
                &&& asked@ == schema@
                &&& !strict
            },
            (None, None) => true,
            _ => false,
        },
{
    match schema {
        Some(schema) => Some(
            ReplyFormat::JsonSchema {
                name: "extraction_schema".to_owned(),
                schema: schema.copy(),
                strict: false,
            },
        ),
        None => None,
    }
}

/// A message to the language model.
pub open spec fn message_json(role: Seq<char>, content: Seq<char>) -> Json {
    Json::Members(
        with_member(
            with_member(Members::empty(), "role"@, Json::Text(role)),
            "content"@,
            Json::Text(content),
        ),
    )
}

fn make_message(role: &str, content: &str) -> (out: JsonValue)
    ensures
        out@ == message_json(role@, content@),
{
    let mut out = JsonObject::new();
    out.insert("role", JsonValue::text(role));
    out.insert("content", JsonValue::text(content));
    JsonValue::object(out)
}

/// What is asked of the language model for an operation.
#[derive(Debug, PartialEq)]
pub struct ChatPlan {
    pub messages: Vec<JsonValue>,
    pub options: ChatCompletionOptions,
    /// The operation, as it is reported with the usage.
    pub function: &'static str,
    /// What the log says at the start.
    pub announcement: String,
}

/// What to look for: the instruction, unless it is blank.
pub open spec fn observe_task(instruction: Seq<char>) -> Seq<char> {
    if is_blank(instruction) {
        DEFAULT_OBSERVE_INSTRUCTION@
    } else {
        instruction
    }
}

/// Plans how elements are looked for in a page, given as a tree in text.
pub fn plan_observe(options: ObserveOptions, tree: &str, from_act: bool, temperature: JsonNumber) -> (out:
    ChatPlan)
    ensures
        models(out.messages@) == seq![
            message_json(
                "system"@,
                OBSERVE_SYSTEM_HEAD@ + action_list(SUPPORTED_ACTIONS@) + OBSERVE_SYSTEM_TAIL@,
            ),
            message_json(
                "user"@,
                "instruction: "@ + observe_task(options.instruction@) + "\nAccessibility Tree: "@
                    + tree@,
            ),
        ],
        out.options == (ChatCompletionOptions {
            model: options.model_name,
            metadata: options.model_client_options,
            response_format: out.options.response_format,
            temperature: Some(temperature),
            ..no_options()
        }),
        opt_json(out.options.response_format) == Some(
            format_json("observe_inference"@, Json::Members(observe_schema()), false),
        ),
        out.function@ == (if from_act {
            "ACT"@
        } else {
            "OBSERVE"@
        }),
        out.announcement@ == "Starting observation for task: '"@ + observe_task(
            options.instruction@,
        ) + "'"@,
{
    let instruction = effective_observe_instruction(Some(options.instruction.as_str())).to_owned();
    let system = build_observe_system_prompt(None);
    proof {
        assert(system@ =~= OBSERVE_SYSTEM_HEAD@ + action_list(SUPPORTED_ACTIONS@)
            + OBSERVE_SYSTEM_TAIL@);
    }
    let user = build_observe_user_message(instruction.as_str(), tree);
    let mut messages: Vec<JsonValue> = Vec::new();
    messages.push(make_message("system", system.as_str()));
    messages.push(make_message("user", user.as_str()));
    assert(models(messages@) =~= seq![
        message_json("system"@, system@),
        message_json("user"@, user@),
    ]);
    let mut announcement = "Starting observation for task: '".to_owned();
    announcement.append(instruction.as_str());
    announcement.append("'");
    let mut chat = ChatCompletionOptions::default();
    chat.model = options.model_name;
    chat.metadata = options.model_client_options;
    chat.temperature = Some(temperature);
    chat.response_format = Some(observe_response_format().to_json());
    ChatPlan {
        messages,
        options: chat,
        function: if from_act {
            "ACT"
        } else {
            "OBSERVE"
        },
        announcement,
    }
}

/// The form that extracted data is asked for in.
pub open spec fn extract_format(schema: Option<Json>) -> Json {
    match schema {
        Some(schema) => format_json("extraction_schema"@, schema, false),
        None => object_format_json(),
    }
}

/// Plans how data is extracted from a page, given as a tree in text.
pub fn plan_extract(options: ExtractOptions, tree: &str, temperature: JsonNumber) -> (out: ChatPlan)
    ensures
        models(out.messages@) == seq![
            message_json(
                "system"@,
                joined(extract_parts(options.use_text_extract == Some(true), None), "\n\n"@),
            ),
            message_json(
                "user"@,
                "Instruction: "@ + options.instruction@ + "\nDOM+accessibility tree: "@ + tree@,
            ),
        ],
        out.options == (ChatCompletionOptions {
            model: options.model_name,
            metadata: options.model_client_options,
            response_format: out.options.response_format,
            temperature: Some(temperature),
            ..no_options()
        }),
        opt_json(out.options.response_format) == Some(
            extract_format(opt_json(options.schema_definition)),
        ),
        out.function@ == "EXTRACT"@,
        out.announcement@ == "Starting extraction with instruction: '"@ + options.instruction@ + "'"@,
{
    let from_text: bool = match options.use_text_extract {
        Some(flag) => flag,
        None => false,
    };
    let system = build_extract_system_prompt(from_text, None);
    let user = build_extract_user_prompt(options.instruction.as_str(), tree);
    let mut messages: Vec<JsonValue> = Vec::new();
    messages.push(make_message("system", system.as_str()));
    messages.push(make_message("user", user.as_str()));
    assert(models(messages@) =~= seq![
        message_json("system"@, system@),
        message_json("user"@, user@),
    ]);
    let mut announcement = "Starting extraction with instruction: '".to_owned();
    announcement.append(options.instruction.as_str());
    announcement.append("'");
    let schema = match &options.schema_definition {
        Some(schema) => Some(schema),
        None => None,
    };
    let format = match build_extract_response_format(schema) {
        Some(format) => format,
        None => ReplyFormat::JsonObject,
    };
    let mut chat = ChatCompletionOptions::default();
    chat.model = options.model_name;
    chat.metadata = options.model_client_options;
    chat.temperature = Some(temperature);
    chat.response_format = Some(format.to_json());
    ChatPlan { messages, options: chat, function: "EXTRACT", announcement }
}

/// Options that say nothing add nothing to a request.
pub proof fn law_empty_options_add_nothing(request: Members)
    ensures
        with_options(request, no_options()) == request,
{
}

} // verus!
