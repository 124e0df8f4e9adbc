use stagehand::client::{
    base_headers, build_execute_headers, create_session, default_session_params, execute_api,
    fetch_replay_metrics, handle_metrics_payload, handle_stream_message, lookup_base_url,
    open_context, prepare_execute_payload, prepare_session_create_params, replay_from_parsed,
    replay_from_response, replay_url, session_from_parsed, session_from_response, stream_line_data,
    ApiSessionState, ApiStream, HttpResponse, LineOutcome, MetricsUpdate, ReplayStep, SessionStep,
    StagehandClient, StagehandClientError, StreamEffect, MAX_SSE_LINE_LENGTH,
};
use stagehand::config::{Environment, StagehandConfig, Verbosity};
use stagehand::context::AdapterCall;
use stagehand::dom_scripts;
use stagehand::json::{JsonObject, JsonValue};
use stagehand::llm::StagehandLlmError;
use stagehand::logging::{external_log_line, LogTarget};
use stagehand::metrics::StagehandFunctionName;
use stagehand::page::{
    act_payload, action_line, cdp_command, cdp_domain, extract_payload, find_metadata,
    map_accessibility_error, map_client_error, method_name, observe_payload, observed_values,
    place_of, record_metrics, resolve_result_value, AccessibilityError, CdpCommand, CdpDomain,
    Operation, Place,
};
use stagehand::stagehand::{require_active_page, StagehandError};
use stagehand::table::Table;
use stagehand::types::page::{ActOptions, ExtractOptions, ObserveOptions};

fn json(text: &str) -> JsonValue {
    JsonValue::parse(text).expect("valid JSON")
}

fn object(text: &str) -> JsonObject {
    json(text).as_object().expect("an object").copy()
}

fn client(config: StagehandConfig, external_logger: bool) -> StagehandClient<()> {
    StagehandClient::new(
        config,
        (),
        dom_scripts::stagehand_dom_script(),
        external_logger,
        Ok("/work/downloads".to_string()),
    )
    .expect("client")
}

fn api_config() -> StagehandConfig {
    let mut config = StagehandConfig::default();
    config.env = Environment::Local;
    config.use_api = true;
    config.api_key = Some("bb-key".into());
    config.project_id = Some("proj-1".into());
    config.model_api_key = Some("model-key".into());
    config.api_url = "https://example.com".into();
    config
}

#[test]
fn log_helpers_delegate_to_adapter() {
    let client = client(StagehandConfig::default(), false);

    let debug = client.log_debug("now", "message", "test");
    let error = client.log_error("now", "failure", "test");

    assert_eq!(
        debug.adapter,
        AdapterCall::LogDebug { message: "message".to_string(), category: "test".to_string() }
    );
    assert_eq!(
        error.adapter,
        AdapterCall::LogError { message: "failure".to_string(), category: "test".to_string() }
    );
}

#[test]
fn log_helpers_use_config_logger() {
    let client = client(StagehandConfig::default(), true);
    assert_eq!(client.logger().target(), LogTarget::External);

    let logs: Vec<String> = client
        .log_error("now", "failure", "test")
        .record
        .iter()
        .map(external_log_line)
        .collect();
    assert_eq!(logs.len(), 1);
    assert!(logs[0].contains("failure"));
    assert!(logs[0].contains("ERROR"));
}

#[test]
fn stagehand_page_act_calls_remote_api() {
    let config = api_config();
    let mut requests: Vec<(String, JsonValue)> = Vec::new();

    let start = create_session(&config, "now", "0.1.0").expect("session request");
    requests.push((start.url, start.body));
    let response = HttpResponse {
        status: 200,
        body: r#"{"success":true,"data":{"sessionId":"sess-1"}}"#.to_string(),
    };
    let session_id = session_from_response(&response).expect("session");

    let options = ActOptions {
        action: "click".into(),
        variables: None,
        model_name: None,
        dom_settle_timeout_ms: None,
        timeout_ms: None,
        model_client_options: None,
    };
    let payload = act_payload(&options, &None);
    let request = execute_api(&config, &session_id, "act", &payload, "now").expect("act request");
    requests.push((request.url, request.body));

    let mut stream = ApiStream::new();
    let log = stream.on_line(
        r#"data: {"type":"log","data":{"message":{"message":"Act completed","level":1,"category":"act"}}}"#,
    );
    assert!(matches!(log, LineOutcome::Message(StreamEffect::Log(_))));
    stream.on_line(
        r#"data: {"type":"system","data":{"status":"finished","result":{"success":true,"action":"click","message":"ok","metadata":{"promptTokens":10,"completionTokens":5,"inferenceTimeMs":120}}}}"#,
    );
    let response = stream.finish().expect("act result");
    let result = resolve_result_value(&response);
    assert_eq!(result.get("success").and_then(JsonValue::as_bool), Some(true));
    assert_eq!(result.get("action"), Some(&JsonValue::text("click")));

    let mut client = client(StagehandConfig::default(), false);
    let update = record_metrics(&response, StagehandFunctionName::Act).expect("usage");
    assert!(client.update_metrics(update));
    let metrics = client.metrics();
    assert_eq!(metrics.act_prompt_tokens, 10);
    assert_eq!(metrics.act_completion_tokens, 5);
    assert_eq!(metrics.act_inference_time_ms, 120);

    assert_eq!(requests.len(), 2);
    assert!(requests[0].0.ends_with("/sessions/start"));
    assert!(requests[1].0.ends_with("/sessions/sess-1/act"));
    assert!(requests[1].1.to_text().contains("\"action\":\"click\""));
}

#[test]
fn fetch_replay_metrics_aggregates_usage() {
    let config = api_config();
    assert_eq!(
        fetch_replay_metrics(&config),
        Ok(ReplayStep::Ask { api_key: "bb-key".to_string(), project_id: "proj-1".to_string() })
    );
    let session = session_from_response(&HttpResponse {
        status: 200,
        body: r#"{"success":true,"data":{"sessionId":"sess-2"}}"#.to_string(),
    })
    .expect("session");
    let response = HttpResponse {
        status: 200,
        body: r#"{"success":true,"data":{"pages":[{"actions":[{"method":"act","tokenUsage":{"inputTokens":4,"outputTokens":2,"timeMs":50}},{"method":"observe","tokenUsage":{"inputTokens":1,"outputTokens":1,"timeMs":20}}]}]}}"#.to_string(),
    };
    let metrics = replay_from_response(&response).expect("metrics").expect("counts that fit");
    assert_eq!(metrics.act_prompt_tokens, 4);
    assert_eq!(metrics.act_completion_tokens, 2);
    assert_eq!(metrics.observe_prompt_tokens, 1);
    assert_eq!(metrics.observe_completion_tokens, 1);
    assert_eq!(metrics.total_prompt_tokens, 5);
    assert_eq!(metrics.total_completion_tokens, 3);
    assert_eq!(metrics.total_inference_time_ms, 70);

    let get_requests = vec![replay_url(&config, &session)];
    assert_eq!(get_requests.len(), 1);
    assert!(get_requests[0].ends_with("/sessions/sess-2/replay"));
}

#[test]
fn replay_failures() {
    let answer = |status: u16, body: &str| {
        replay_from_response(&HttpResponse { status, body: body.to_string() })
    };
    assert_eq!(
        answer(500, "oh").unwrap_err().message(),
        "stagehand API error: failed to fetch replay metrics: status 500: oh"
    );
    assert_eq!(
        answer(200, r#"{"success":false,"error":"why"}"#).unwrap_err().message(),
        "stagehand API error: why"
    );
    assert_eq!(
        answer(200, "{}").unwrap_err(),
        StagehandClientError::Api("Unknown error".to_string())
    );
    assert!(matches!(answer(200, "{"), Err(StagehandClientError::Json(_))));
    let none = replay_from_parsed(&json(r#"{"success": true}"#)).unwrap().unwrap();
    assert_eq!(none.total_prompt_tokens, 0);
    let mut config = StagehandConfig::default();
    assert_eq!(
        fetch_replay_metrics(&config).unwrap_err().message(),
        "stagehand API error: browserbase API key is required"
    );
    config.api_key = Some("k".to_string());
    assert_eq!(
        fetch_replay_metrics(&config).unwrap_err().message(),
        "stagehand API error: browserbase project id is required"
    );
    config.use_api = false;
    assert_eq!(fetch_replay_metrics(&config), Ok(ReplayStep::Local));
}

#[test]
fn session_request() {
    let mut config = api_config();
    config.api_url = "https://example.com//".to_string();
    config.system_prompt = Some("be kind".to_string());
    config.model_client_options = Some(object(r#"{"apiKey": "k"}"#));
    config.browserbase_session_create_params = Some(object(r#"{"api_timeout": 5, "region": "r"}"#));
    let request = create_session(&config, "2024", "9.9").unwrap();
    assert_eq!(request.url, "https://example.com/sessions/start");
    assert_eq!(
        request.body.to_text(),
        r#"{"actTimeoutMs":null,"browserbaseSessionCreateParams":{"projectId":"proj-1","region":"r","timeout":5},"browserbaseSessionId":null,"domSettleTimeoutMs":3000,"experimental":false,"modelClientOptions":{"apiKey":"k"},"modelName":"gpt-4o","selfHeal":true,"systemPrompt":"be kind","verbose":1,"waitForCaptchaSolves":false}"#
    );
    let headers: Vec<(String, String)> = request
        .headers
        .iter()
        .map(|header| (header.name.to_string(), header.value.clone()))
        .collect();
    let pair = |name: &str, value: &str| (name.to_string(), value.to_string());
    assert_eq!(
        headers,
        vec![
            pair("content-type", "application/json"),
            pair("x-bb-api-key", "bb-key"),
            pair("x-bb-project-id", "proj-1"),
            pair("x-sent-at", "2024"),
            pair("x-model-api-key", "model-key"),
            pair("x-language", "rust"),
            pair("x-sdk-version", "9.9"),
        ]
    );
}

#[test]
fn session_request_needs_its_keys() {
    let why = |config: &StagehandConfig| create_session(config, "t", "v").unwrap_err().message();
    let mut config = api_config();
    config.model_api_key = None;
    assert_eq!(why(&config), "stagehand API error: model API key is required");
    config.project_id = None;
    assert_eq!(why(&config), "stagehand API error: browserbase project id is required");
    config.api_key = None;
    assert_eq!(why(&config), "stagehand API error: browserbase API key is required");
    let mut config = api_config();
    config.model_api_key = Some("a\nb".to_string());
    assert_eq!(why(&config), "stagehand API error: failed to parse header value");
}

#[test]
fn header_values() {
    assert!(base_headers("key\twith tab", "\u{e9}", "now").is_ok());
    assert!(base_headers("line\nbreak", "p", "now").is_err());
    assert!(base_headers("k", "\u{7f}", "now").is_err());
    assert!(base_headers("k", "p", "\r").is_err());
    let mut config = api_config();
    let headers = build_execute_headers(&config, "t").unwrap();
    assert_eq!(headers.len(), 7);
    assert_eq!(headers[4].name, "x-model-api-key");
    assert_eq!(headers[6].value, "keep-alive");
    config.model_api_key = None;
    assert_eq!(build_execute_headers(&config, "t").unwrap().len(), 6);
    config.project_id = None;
    assert!(build_execute_headers(&config, "t").is_err());
}

#[test]
fn session_answers() {
    let answer = |status: u16, body: &str| {
        session_from_response(&HttpResponse { status, body: body.to_string() })
    };
    assert_eq!(
        answer(403, "no").unwrap_err().message(),
        "stagehand API error: session start failed with status 403: no"
    );
    assert!(matches!(answer(200, "x"), Err(StagehandClientError::Json(_))));
    assert_eq!(
        session_from_parsed(&json(r#"{"data": {}}"#)).unwrap_err().message(),
        "stagehand API error: session response missing sessionId"
    );
}

#[test]
fn sessions_are_used_again() {
    let mut config = StagehandConfig::default();
    let mut state = ApiSessionState::new();
    assert_eq!(state.ensure_session(&config), Ok(SessionStep::Create));
    state.session_created("made");
    assert_eq!(state.ensure_session(&config), Ok(SessionStep::Known("made".to_string())));
    config.browserbase_session_id = Some("given".to_string());
    assert_eq!(state.ensure_session(&config), Ok(SessionStep::Known("given".to_string())));
    assert_eq!(state.session_id.as_deref(), Some("made"));
    state.shutdown();
    assert_eq!(state.ensure_session(&config), Ok(SessionStep::Known("given".to_string())));
    assert_eq!(state.session_id.as_deref(), Some("given"));
    config.use_api = false;
    assert_eq!(
        state.ensure_session(&config).unwrap_err().message(),
        "operation unsupported: Stagehand API usage is disabled in this configuration"
    );
}

#[test]
fn client_keeps_its_session() {
    let mut client = client(StagehandConfig::default(), false);
    assert!(client.use_api());
    assert_eq!(client.ensure_session(), Ok(SessionStep::Create));
    client.session_created("s");
    assert_eq!(client.ensure_session(), Ok(SessionStep::Known("s".to_string())));
    client.shutdown();
    assert_eq!(client.ensure_session(), Ok(SessionStep::Create));
    assert_eq!(client.dom_script(), dom_scripts::STAGEHAND_DOM_SCRIPT);
    assert_eq!(client.config().verbose, Verbosity::Medium);
    assert_eq!(*client.browser().runtime(), ());
    let default =
        StagehandClient::new_with_default_dom_script(StagehandConfig::default(), 3, false, Ok("d".to_string()))
            .unwrap();
    assert_eq!(default.dom_script(), dom_scripts::STAGEHAND_DOM_SCRIPT);
    assert!(default.log_debug("t", "m", "c").record.is_none());
}

#[test]
fn session_parameters() {
    assert_eq!(
        default_session_params().to_text(),
        r#"{"browserSettings":{"blockAds":true,"viewport":{"height":768,"width":1024}}}"#
    );
    assert_eq!(
        prepare_session_create_params(&json(r#"{"api_timeout": 1, "timeout": 2}"#)),
        json(r#"{"timeout": 1}"#)
    );
    assert_eq!(prepare_session_create_params(&json("[1]")), json("[1]"));
}

#[test]
fn model_addresses() {
    let payload = object(r#"{"api_base": "p2"}"#);
    let config = object(r#"{"baseURL": "c1"}"#);
    assert_eq!(lookup_base_url(Some(&payload), Some(&config)).as_deref(), Some("p2"));
    let empty = object(r#"{"baseURL": ""}"#);
    assert_eq!(lookup_base_url(Some(&empty), Some(&config)).as_deref(), Some("c1"));
    assert_eq!(lookup_base_url(None, Some(&object(r#"{"api_base": 1}"#))), None);
    let first = object(r#"{"baseURL": "p1", "api_base": "p2"}"#);
    assert_eq!(lookup_base_url(Some(&first), Some(&config)).as_deref(), Some("p1"));
}

#[test]
fn payloads_are_prepared() {
    let mut config = StagehandConfig::default();
    assert_eq!(
        prepare_execute_payload(&config, &json(r#"{"model_name": "m"}"#)),
        json(r#"{"modelName": "m"}"#)
    );
    config.model_client_options = Some(object(r#"{"api_base": "https://base"}"#));
    assert_eq!(
        prepare_execute_payload(&config, &json(r#"{"action": "a"}"#)),
        json(r#"{"action": "a", "modelClientOptions": {"baseURL": "https://base"}}"#)
    );
    assert_eq!(
        prepare_execute_payload(&config, &json(r#"{"modelClientOptions": {"api_base": "own", "k": 1}}"#)),
        json(r#"{"modelClientOptions": {"baseURL": "own", "k": 1}}"#)
    );
    assert_eq!(
        prepare_execute_payload(&config, &json(r#"{"modelClientOptions": 5}"#)),
        json(r#"{"modelClientOptions": 5}"#)
    );
}

#[test]
fn stream_lines() {
    assert_eq!(stream_line_data("  "), None);
    assert_eq!(stream_line_data(": comment"), None);
    assert_eq!(stream_line_data("data: {}\r").as_deref(), Some("{}"));
    assert_eq!(stream_line_data("[1]").as_deref(), Some("[1]"));
    assert_eq!(MAX_SSE_LINE_LENGTH, 1_048_576);
    let mut stream = ApiStream::new();
    assert_eq!(stream.on_line(""), LineOutcome::Skipped);
    match stream.on_line("data: {oops") {
        LineOutcome::Unreadable(text) => {
            assert!(text.starts_with("Could not parse SSE line: {oops (key must be a string"), "{text}");
        }
        other => panic!("unexpected outcome: {:?}", other),
    }
    assert_eq!(
        stream.finish().unwrap_err().message(),
        "stagehand API error: API stream finished without a result"
    );
}

#[test]
fn last_result_of_a_stream_counts() {
    let mut stream = ApiStream::new();
    for n in ["1", "2"] {
        let line = format!(r#"{{"type":"system","data":{{"status":"finished","result":{n}}}}}"#);
        stream.on_line(&line);
    }
    stream.on_message(&json(r#"{"type":"system","data":{"status":"finished"}}"#));
    assert_eq!(stream.finish(), Ok(json("2")));
}

#[test]
fn stream_messages() {
    assert_eq!(handle_stream_message(&json("{}")), StreamEffect::Nothing);
    assert_eq!(
        handle_stream_message(&json(r#"{"type": "ping"}"#)),
        StreamEffect::Unhandled {
            kind: "ping".to_string(),
            message: json(r#"{"type": "ping"}"#),
        }
    );
    assert_eq!(
        handle_stream_message(&json(r#"{"type": "system", "data": {"status": "error"}}"#)),
        StreamEffect::Failed {
            reason: "Unknown error".to_string(),
            data: json(r#"{"status": "error"}"#),
        }
    );
    assert_eq!(
        handle_stream_message(&json(r#"{"type": "system", "data": {"status": "running"}}"#)),
        StreamEffect::Nothing
    );
    assert_eq!(
        handle_stream_message(&json(r#"{"type": "log", "data": 5}"#)),
        StreamEffect::Log(json("5"))
    );
    let update = MetricsUpdate {
        function: Some(StagehandFunctionName::Observe),
        prompt_tokens: 1,
        completion_tokens: 0,
        inference_time_ms: 0,
    };
    assert_eq!(
        handle_stream_message(&json(
            r#"{"type": "metrics", "data": {"functionName": "OBSERVE", "promptTokens": 1}}"#
        )),
        StreamEffect::Metrics(update)
    );
    assert_eq!(handle_metrics_payload(&json(r#"{"function": "other"}"#)), None);
    assert_eq!(handle_metrics_payload(&json(r#"{"promptTokens": 1}"#)), None);
    let other = handle_metrics_payload(&json(r#"{"function": "x", "promptTokens": 2}"#)).unwrap();
    assert_eq!(other.function, None);
    assert_eq!(other.prompt_tokens, 2);
}

#[test]
fn contexts_are_opened_once() {
    let mut context = open_context(None, "script");
    context.register_page("p", None);
    let context = open_context(Some(context), "other");
    assert_eq!(context.page_ids(), vec!["p".to_string()]);
}

#[test]
fn places_of_operations() {
    assert_eq!(place_of(Operation::Act, true, true), Ok(Place::Remote));
    assert_eq!(place_of(Operation::Extract, false, true), Ok(Place::Local));
    assert_eq!(
        place_of(Operation::Navigate, true, true).unwrap_err().message(),
        "operation unsupported: remote navigation not yet implemented"
    );
    for (operation, name) in [
        (Operation::Act, "local act handler unsupported for this runtime"),
        (Operation::Navigate, "local navigation unsupported for this runtime"),
        (Operation::Observe, "local observe handler unsupported for this runtime"),
        (Operation::Extract, "local extract handler unsupported for this runtime"),
    ] {
        assert_eq!(
            place_of(operation, false, false),
            Err(StagehandClientError::Unsupported(name))
        );
    }
    assert_eq!(method_name(Operation::Observe), "observe");
}

#[test]
fn remote_payloads() {
    let mut variables = Table::new();
    variables.insert("b", "2".to_string());
    variables.insert("a", "1".to_string());
    let options = ActOptions {
        action: "x".to_string(),
        variables: Some(variables),
        model_name: Some("m".to_string()),
        dom_settle_timeout_ms: Some(1),
        timeout_ms: Some(2),
        model_client_options: Some(json("{}")),
    };
    assert_eq!(
        act_payload(&options, &Some("f".to_string())).to_text(),
        r#"{"action":"x","domSettleTimeoutMs":1,"frameId":"f","modelClientOptions":{},"modelName":"m","timeoutMs":2,"variables":{"a":"1","b":"2"}}"#
    );
    let options = ObserveOptions {
        instruction: "i".to_string(),
        model_name: None,
        draw_overlay: Some(true),
        dom_settle_timeout_ms: None,
        model_client_options: None,
    };
    assert_eq!(
        observe_payload(&options, &None).to_text(),
        r#"{"drawOverlay":true,"instruction":"i"}"#
    );
    let options = ExtractOptions {
        instruction: "i".to_string(),
        model_name: None,
        selector: Some("s".to_string()),
        schema_definition: Some(json("1")),
        use_text_extract: Some(false),
        dom_settle_timeout_ms: None,
        model_client_options: None,
    };
    assert_eq!(
        extract_payload(&options, &None).to_text(),
        r#"{"instruction":"i","schemaDefinition":1,"selector":"s","useTextExtract":false}"#
    );
}

#[test]
fn results_are_unwrapped() {
    assert_eq!(resolve_result_value(&json(r#"{"data": 1, "result": 2}"#)), json("2"));
    assert_eq!(resolve_result_value(&json(r#"{"data": 1, "elements": 3}"#)), json("1"));
    assert_eq!(resolve_result_value(&json(r#"{"elements": 3}"#)), json("3"));
    assert_eq!(resolve_result_value(&json("7")), json("7"));
    assert_eq!(find_metadata(&json(r#"{"result": {"metadata": 5}}"#)), Some(&json("5")));
    assert_eq!(
        record_metrics(&json(r#"{"metadata": {"promptTokens": 1}}"#), StagehandFunctionName::Act),
        None
    );
    assert_eq!(observed_values(&json("[1, 2]")).len(), 2);
    assert_eq!(observed_values(&json("{}")), vec![json("{}")]);
    assert!(observed_values(&json("null")).is_empty());
}

#[test]
fn protocol_commands() {
    assert_eq!(cdp_domain("DOM"), Ok(CdpDomain::Dom));
    assert_eq!(cdp_domain("Network"), Ok(CdpDomain::Network));
    assert_eq!(cdp_domain("Page"), Ok(CdpDomain::Page));
    assert_eq!(cdp_domain("Accessibility"), Ok(CdpDomain::Accessibility));
    assert_eq!(
        cdp_domain("Log"),
        Err(StagehandClientError::Unsupported("unsupported CDP domain"))
    );
    assert_eq!(
        cdp_command("DOM.resolveNode", Some(json(r#"{"backendNodeId": 5}"#))),
        Ok(CdpCommand::ResolveNode(5))
    );
    assert_eq!(
        cdp_command("Accessibility.getFullAXTree", None),
        Ok(CdpCommand::GetFullAxTree(None))
    );
    assert_eq!(
        cdp_command("Runtime.evaluate", Some(json("{}"))),
        Ok(CdpCommand::Evaluate(json("{}")))
    );
    for (method, params, why) in [
        ("DOM.resolveNode", None, "backendNodeId required for DOM.resolveNode"),
        ("DOM.resolveNode", Some(json("{}")), "backendNodeId required"),
        ("Runtime.callFunctionOn", None, "Runtime.callFunctionOn requires params"),
        ("Runtime.evaluate", None, "Runtime.evaluate requires params"),
        ("DOM.describeNode", None, "DOM.describeNode requires params"),
        ("Other.method", None, "unsupported CDP method"),
    ] {
        assert_eq!(cdp_command(method, params), Err(StagehandClientError::Unsupported(why)));
    }
}

#[test]
fn errors_as_text() {
    assert_eq!(
        map_client_error(StagehandClientError::Cdp("c".to_string())).message(),
        "CDP operation failed: c"
    );
    assert_eq!(
        map_client_error(StagehandClientError::Json("j".to_string())).message(),
        "serialization error: j"
    );
    assert_eq!(
        map_client_error(StagehandClientError::Http("h".to_string())).message(),
        "unexpected response: http error: h"
    );
    assert_eq!(
        map_accessibility_error(&AccessibilityError::Evaluation("e".to_string())).message(),
        "cdp error: evaluation failed: e"
    );
    assert_eq!(
        StagehandClientError::Llm(StagehandLlmError::MissingApiKey).message(),
        "missing OpenAI API key; set MODEL_API_KEY or OPENAI_API_KEY"
    );
    assert_eq!(
        StagehandError::Client(StagehandClientError::Json("j".to_string())).message(),
        "j"
    );
    assert_eq!(action_line(&None, None), "Executed local action via click");
    assert_eq!(
        action_line(&Some("fill".to_string()), Some("e")),
        "Failed to execute fill: e"
    );
}

#[test]
fn stagehand_page_without_active_returns_error() {
    match require_active_page(None) {
        Err(StagehandClientError::Unsupported(msg)) => {
            assert_eq!(msg, "no active page; open a page first")
        }
        Ok(_) => panic!("expected an error when no page is active"),
        Err(other) => panic!("unexpected error: {:?}", other),
    }
    assert_eq!(require_active_page(Some("p".to_string())), Ok("p".to_string()));
}
