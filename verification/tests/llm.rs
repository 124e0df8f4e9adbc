use stagehand::config::{ModelName, StagehandConfig};
use stagehand::json::{JsonNumber, JsonObject, JsonValue};
use stagehand::llm::{
    extract_string, observe_response_format, openai_settings, plan_extract, plan_observe,
    request_answered_line, request_failed_line, request_sent_line, ChatCompletionOptions,
    ReplyFormat, StagehandLlmClient, StagehandLlmError,
};
use stagehand::prompts::{
    build_act_observe_prompt, build_extract_system_prompt, build_extract_user_prompt,
    build_observe_system_prompt, build_observe_user_message, build_user_instructions_string,
    effective_observe_instruction, DEFAULT_OBSERVE_INSTRUCTION, SUPPORTED_ACTIONS,
};
use stagehand::table::Table;
use stagehand::types::llm::{ChatMessage, ChatMessageContent, ChatRole};
use stagehand::types::page::{ExtractOptions, ObserveOptions};

fn json(text: &str) -> JsonValue {
    JsonValue::parse(text).expect("valid JSON")
}

fn object(text: &str) -> JsonObject {
    json(text).as_object().expect("an object").copy()
}

fn sample_messages() -> Vec<JsonValue> {
    vec![
        json(r#"{"role": "system", "content": "You are Stagehand."}"#),
        json(r#"{"role": "user", "content": "Say hello."}"#),
    ]
}

fn tenth() -> JsonNumber {
    match json("0.1") {
        JsonValue::Number(number) => number,
        _ => panic!("expected a number"),
    }
}

#[test]
fn build_request_uses_default_model() {
    let client = StagehandLlmClient::new("gpt-4o", ());

    let request = client
        .build_request(sample_messages(), ChatCompletionOptions::default())
        .expect("build request");

    assert_eq!(request.get("model"), Some(&JsonValue::text("gpt-4o")));
    assert_eq!(request.get("messages").unwrap().as_array().unwrap().len(), 2);
    assert_eq!(request.len(), 2);
    assert_eq!(client.default_model(), "gpt-4o");
    assert_eq!(*client.provider(), ());
}

#[test]
fn blank_models_are_refused() {
    let client = StagehandLlmClient::new("  ", 1);
    assert_eq!(
        client.build_request(vec![], ChatCompletionOptions::default()),
        Err(StagehandLlmError::MissingDefaultModel)
    );
    assert_eq!(client.request_model(""), Err(StagehandLlmError::MissingDefaultModel));
    assert_eq!(client.request_model("m"), Ok("m".to_string()));
    let preset = StagehandLlmClient::new("preset", 1);
    assert_eq!(preset.request_model(" "), Ok("preset".to_string()));
    let mut options = ChatCompletionOptions::default();
    options.model = Some("".to_string());
    assert!(preset.build_request(vec![], options).is_err());
}

#[test]
fn every_option_has_its_place() {
    let mut options = ChatCompletionOptions::default();
    options.model = Some("m".to_string());
    options.store = Some(true);
    options.reasoning_effort = Some(json(r#""low""#));
    options.metadata = Some(json(r#"{"k": 1}"#));
    options.frequency_penalty = Some(tenth());
    options.logit_bias = Some(object(r#"{"5": 1}"#));
    options.logprobs = Some(false);
    options.top_logprobs = Some(2);
    options.max_tokens = Some(3);
    options.max_completion_tokens = Some(4);
    options.n = Some(5);
    options.modalities = Some(json(r#"["text"]"#));
    options.prediction = Some(json("1"));
    options.audio = Some(json("2"));
    options.presence_penalty = Some(tenth());
    options.response_format = Some(ReplyFormat::JsonObject.to_json());
    options.seed = Some(-6);
    options.service_tier = Some(json("3"));
    options.stop = Some(json("4"));
    options.stream = Some(false);
    options.stream_options = Some(json("5"));
    options.temperature = Some(tenth());
    options.top_p = Some(tenth());
    options.tools = Some(json("[]"));
    options.tool_choice = Some(json("6"));
    options.parallel_tool_calls = Some(true);
    options.user = Some("u".to_string());
    options.web_search_options = Some(json("7"));
    options.function_call = Some(json("8"));
    options.functions = Some(json("[]"));
    let request = StagehandLlmClient::new("preset", ()).build_request(vec![], options).unwrap();
    assert_eq!(
        JsonValue::object(request),
        json(
            r#"{"model": "m", "messages": [], "store": true, "reasoning_effort": "low",
                "metadata": {"k": 1}, "frequency_penalty": 0.1, "logit_bias": {"5": 1},
                "logprobs": false, "top_logprobs": 2, "max_tokens": 3, "max_completion_tokens": 4,
                "n": 5, "modalities": ["text"], "prediction": 1, "audio": 2,
                "presence_penalty": 0.1, "response_format": {"type": "json_object"}, "seed": -6,
                "service_tier": 3, "stop": 4, "stream": false, "stream_options": 5,
                "temperature": 0.1, "top_p": 0.1, "tools": [], "tool_choice": 6,
                "parallel_tool_calls": true, "user": "u", "web_search_options": 7,
                "function_call": 8, "functions": []}"#
        )
    );
}

#[test]
fn requests_are_logged() {
    assert_eq!(
        request_sent_line("m", None),
        "[llm][debug] Sending chat completion request to model=m function=n/a"
    );
    assert!(request_sent_line("m", Some("ACT")).ends_with(" function=ACT"));
    assert_eq!(
        request_answered_line("m", 12),
        "[llm][debug] Chat completion succeeded: model=m duration=12ms"
    );
    assert_eq!(
        request_failed_line("m", "e"),
        "[llm][error] Chat completion failed for model=m: e"
    );
}

#[test]
fn model_is_reached_by_settings() {
    let mut config = StagehandConfig::default();
    let mut env: Table<String> = Table::new();
    assert_eq!(openai_settings(&config, &env), Err(StagehandLlmError::MissingApiKey));
    env.insert("OPENAI_API_KEY", "second".to_string());
    assert_eq!(openai_settings(&config, &env).unwrap().api_key, "second");
    env.insert("MODEL_API_KEY", "first".to_string());
    assert_eq!(openai_settings(&config, &env).unwrap().api_key, "first");
    config.model_api_key = Some("own".to_string());
    config.model_client_options =
        Some(object(r#"{"baseURL": "b", "apiBase": 1, "orgId": "o", "project": "p"}"#));
    let settings = openai_settings(&config, &env).unwrap();
    assert_eq!(settings.api_key, "own");
    assert_eq!(settings.api_base.as_deref(), Some("b"));
    assert_eq!(settings.org_id.as_deref(), Some("o"));
    assert_eq!(settings.project_id.as_deref(), Some("p"));
    assert_eq!(extract_string(&object(r#"{"b": "x"}"#), &["a", "b"]).as_deref(), Some("x"));
    assert_eq!(extract_string(&object(r#"{"b": 1}"#), &["a", "b"]), None);
}

#[test]
fn observation_plan() {
    let options = ObserveOptions {
        instruction: " ".to_string(),
        model_name: Some("m".to_string()),
        draw_overlay: None,
        dom_settle_timeout_ms: None,
        model_client_options: Some(json(r#"{"k": 1}"#)),
    };
    let plan = plan_observe(options, "[1] tree", false, tenth());
    assert_eq!(plan.function, "OBSERVE");
    assert_eq!(plan.messages.len(), 2);
    assert_eq!(plan.messages[0].get("role"), Some(&JsonValue::text("system")));
    assert_eq!(
        plan.messages[1].get("content"),
        Some(&JsonValue::text(&format!(
            "instruction: {DEFAULT_OBSERVE_INSTRUCTION}\nAccessibility Tree: [1] tree"
        )))
    );
    assert_eq!(plan.options.model.as_deref(), Some("m"));
    assert_eq!(plan.options.metadata, Some(json(r#"{"k": 1}"#)));
    assert_eq!(plan.options.temperature, Some(tenth()));
    let format = plan.options.response_format.unwrap();
    assert_eq!(
        format.get("json_schema").unwrap().get("name"),
        Some(&JsonValue::text("observe_inference"))
    );
    assert!(plan.announcement.starts_with("Starting observation for task: '"));
    match observe_response_format() {
        ReplyFormat::JsonSchema { schema, strict, .. } => {
            assert!(!strict);
            assert_eq!(
                schema,
                json(
                    r#"{"type": "object",
                        "properties": {"elements": {"type": "array", "items": {
                            "type": "object",
                            "properties": {
                                "element_id": {"type": "integer"},
                                "description": {"type": "string"},
                                "method": {"type": "string"},
                                "arguments": {"type": "array", "items": {"type": "string"}}
                            },
                            "required": ["element_id", "description", "method", "arguments"],
                            "additionalProperties": false
                        }}},
                        "required": ["elements"],
                        "additionalProperties": false}"#
                )
            );
        }
        other => panic!("unexpected format: {:?}", other),
    }
}

#[test]
fn extraction_plan() {
    let options = |schema: Option<JsonValue>| ExtractOptions {
        instruction: "get it".to_string(),
        model_name: None,
        selector: None,
        schema_definition: schema,
        use_text_extract: Some(true),
        dom_settle_timeout_ms: None,
        model_client_options: None,
    };
    let plan = plan_extract(options(None), "tree", tenth());
    assert_eq!(plan.function, "EXTRACT");
    assert_eq!(plan.announcement, "Starting extraction with instruction: 'get it'");
    assert_eq!(plan.options.response_format, Some(json(r#"{"type": "json_object"}"#)));
    let plan = plan_extract(options(Some(json(r#"{"type": "array"}"#))), "tree", tenth());
    assert_eq!(
        plan.options.response_format,
        Some(json(
            r#"{"type": "json_schema", "json_schema":
                {"name": "extraction_schema", "schema": {"type": "array"}, "strict": false}}"#
        ))
    );
    assert_eq!(
        plan.messages[1].get("content"),
        Some(&JsonValue::text("Instruction: get it\nDOM+accessibility tree: tree"))
    );
}

#[test]
fn prompts_hold_what_they_are_given() {
    assert_eq!(build_user_instructions_string(Some("  ")), None);
    assert!(build_user_instructions_string(Some(" be kind ")).unwrap().ends_with("be kind"));
    assert!(build_observe_system_prompt(Some("be kind")).contains("be kind"));
    assert!(build_observe_system_prompt(None).contains(&SUPPORTED_ACTIONS.join(", ")));
    assert_eq!(
        build_observe_user_message("find", "tree"),
        "instruction: find\nAccessibility Tree: tree"
    );
    let from_text = build_extract_system_prompt(true, None);
    assert!(from_text.contains("text-rendered webpage"));
    assert!(!from_text.contains("DOM+accessibility tree elements"));
    assert!(!from_text.contains("ONLY the IDs of the link elements"));
    let from_dom = build_extract_system_prompt(false, None);
    assert!(!from_dom.contains("text-rendered webpage"));
    assert!(from_dom.contains("DOM+accessibility tree elements"));
    assert!(from_dom.contains("ONLY the IDs of the link elements"));
    assert_eq!(build_extract_system_prompt(true, Some(" \n")), from_text);
    let with_wishes = build_extract_system_prompt(false, Some(" be kind\n"));
    assert!(with_wishes.starts_with(&from_dom));
    assert!(with_wishes.ends_with("User Instructions:\nbe kind"));
    assert_eq!(
        build_extract_user_prompt("find", "tree"),
        "Instruction: find\nDOM+accessibility tree: tree"
    );
    let mut variables = Table::new();
    variables.insert("name", "value".to_string());
    let prompt = build_act_observe_prompt("press", &["click", "fill"], Some(&variables));
    assert!(prompt.contains("press") && prompt.contains("click, fill"));
    assert!(prompt.ends_with("\n\nAvailable variables:\n- %name%: value"));
    assert!(!build_act_observe_prompt("press", &["click"], None).contains("variables:"));
    assert_eq!(effective_observe_instruction(None), DEFAULT_OBSERVE_INSTRUCTION);
    assert_eq!(effective_observe_instruction(Some("x")), "x");
}

#[test]
fn errors_of_the_model() {
    assert_eq!(
        StagehandLlmError::MissingDefaultModel.message(),
        "missing default model configuration"
    );
    assert_eq!(
        StagehandLlmError::InvalidRequest("x".to_string()).message(),
        "invalid chat completion request: x"
    );
    assert_eq!(StagehandLlmError::OpenAi("x".to_string()).message(), "x");
}

#[test]
fn text_messages() {
    let message = ChatMessage { role: ChatRole::User, content: ChatMessageContent::text("Hello") };
    assert_eq!(message.content, ChatMessageContent::Text("Hello".to_string()));
    assert_eq!(ModelName::Gpt4o.to_text(), "gpt-4o");
}
