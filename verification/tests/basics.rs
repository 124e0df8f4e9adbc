use stagehand::json::{JsonNumber, JsonObject, JsonValue};
use stagehand::quickstart::{
    act_request, api_key_client_options, build_browserbase_config, build_local_config,
    extract_request, extraction_line, observation_line, observe_request, resolve_model_key,
    verbosity_from_count,
};
use stagehand::config::{Environment, StagehandConfig, Verbosity};
use stagehand::client::StagehandClientError;
use stagehand::scripts::{
    action_script, build_xpath_script, ensure_xpath, overlay_script, parse_action, ActionKind,
};
use stagehand::table::Table;
use stagehand::text::{
    collapse_white_space, contains, eq_ignore_case, join, parse_i64, parse_unsigned, replace,
    strip_prefix, text_less, trim, trim_end_char, trim_start_char, i64_text, NumberError,
};
use stagehand::types::page::ObserveResult;

fn json(text: &str) -> JsonValue {
    JsonValue::parse(text).expect("valid JSON")
}

#[test]
fn json_text_round_trip() {
    for text in [
        "null",
        "true",
        "18446744073709551615",
        "-9223372036854775808",
        "0.5",
        r#""a\"\\\n\u0001é""#,
        r#"[1,[2],{}]"#,
        r#"{"a":{"b":null},"c":""}"#,
    ] {
        assert_eq!(json(text).to_text(), text);
        assert_eq!(json(text).copy(), json(text));
    }
    assert!(JsonValue::parse("{").unwrap_err().starts_with("EOF while parsing"));
}

#[test]
fn json_numbers() {
    assert_eq!(json("5"), JsonValue::Number(JsonNumber::Unsigned(5)));
    assert_eq!(json("-5"), JsonValue::Number(JsonNumber::Negative(-5)));
    assert!(matches!(json("5.5"), JsonValue::Number(JsonNumber::Other(_))));
    assert_eq!(json("5").as_i64(), Some(5));
    assert_eq!(json("-5").as_u64(), None);
    assert_eq!(json("9223372036854775808").as_i64(), None);
    assert_eq!(json("5.5").as_i64(), None);
}

#[test]
fn json_objects_keep_their_order() {
    let mut object = JsonObject::new();
    object.insert("b", JsonValue::unsigned(1));
    object.insert("a", JsonValue::unsigned(2));
    object.insert("b", JsonValue::unsigned(3));
    assert_eq!(object.len(), 2);
    assert_eq!(object.key_at(0), "a");
    assert_eq!(object.get("b"), Some(&JsonValue::unsigned(3)));
    object.remove("b");
    assert_eq!(object.get("b"), None);
    assert!(object.contains_key("a") && !object.is_empty());
    assert!(json("null").is_null() && !json("0").is_null());
}

#[test]
fn tables_keep_their_order() {
    let mut table = Table::new();
    table.insert("x", 1);
    table.insert("a", 2);
    table.insert("x", 3);
    assert_eq!(table.keys(), vec!["x".to_string(), "a".to_string()]);
    assert_eq!(table.get("x"), Some(&3));
    assert_eq!(table.remove("x"), Some(3));
    assert_eq!(table.remove("x"), None);
    assert_eq!((table.len(), table.is_empty()), (1, false));
    table.clear();
    assert!(table.is_empty());
}

#[test]
fn texts_are_handled() {
    assert_eq!(trim(" \u{a0}a b\t"), "a b");
    assert_eq!(replace("aXbX", "X", "--"), "a--b--");
    assert!(contains("abc", "bc") && !contains("abc", "cb"));
    assert!(eq_ignore_case("ABc", "abC") && !eq_ignore_case("é", "É"));
    assert_eq!(strip_prefix("xpath=/a", "xpath=").as_deref(), Some("/a"));
    assert_eq!(trim_end_char("a//", '/'), "a");
    assert_eq!(trim_start_char("//a", '/'), "a");
    assert_eq!(join(&vec!["a".to_string(), "b".to_string()], ", "), "a, b");
    assert_eq!(collapse_white_space(" a  b "), "a b");
    assert_eq!(i64_text(-12), "-12");
    assert!(text_less("a", "b") && text_less("a", "aa") && !text_less("b", "a"));
}

#[test]
fn numbers_are_read() {
    assert_eq!(parse_i64("-12"), Ok(-12));
    assert_eq!(parse_i64("+7"), Ok(7));
    assert_eq!(parse_i64(""), Err(NumberError::Empty));
    assert_eq!(parse_i64("1x"), Err(NumberError::InvalidDigit));
    assert_eq!(parse_i64("9223372036854775808"), Err(NumberError::PosOverflow));
    assert_eq!(parse_i64("-9223372036854775809"), Err(NumberError::NegOverflow));
    assert_eq!(parse_unsigned("255", 255), Ok(255));
    assert_eq!(parse_unsigned("256", 255), Err(NumberError::PosOverflow));
    assert_eq!(parse_unsigned("-1", 255), Err(NumberError::InvalidDigit));
    assert_eq!(NumberError::Empty.message(), "cannot parse integer from empty string");
    assert_eq!(NumberError::NegOverflow.message(), "number too small to fit in target type");
}

fn found(method: Option<&str>, selector: &str, argument: Option<&str>) -> ObserveResult {
    ObserveResult {
        selector: selector.to_string(),
        description: String::new(),
        backend_node_id: None,
        method: method.map(|method| method.to_string()),
        arguments: argument.map(|argument| vec![argument.to_string()]),
    }
}

#[test]
fn action_names() {
    for (name, kind) in [
        ("click", ActionKind::Click),
        (" ScrollIntoView ", ActionKind::ScrollIntoView),
        ("mouse.wheel", ActionKind::ScrollTo),
        ("nextChunk", ActionKind::NextChunk),
        ("prevChunk", ActionKind::PrevChunk),
        ("type", ActionKind::Fill),
        ("press", ActionKind::Press),
        ("selectOptionFromDropdown", ActionKind::SelectOption),
        ("not-supported", ActionKind::NotSupported),
        ("dance", ActionKind::Unknown),
    ] {
        assert_eq!(parse_action(&Some(name.to_string())), kind);
    }
    assert_eq!(parse_action(&None), ActionKind::Click);
}

#[test]
fn action_scripts() {
    let script = action_script(&found(Some("fill"), "xpath=//a[@b=\"c\"]", Some("it's \"x\""))).unwrap();
    assert!(script.contains(r#""//a[@b=\"c\"]""#), "{script}");
    assert!(script.contains(r#""it's \"x\"""#), "{script}");
    let why = |result: ObserveResult| action_script(&result).unwrap_err();
    assert_eq!(
        why(found(None, "#id", None)),
        StagehandClientError::Unsupported("local handlers currently require xpath selectors")
    );
    assert_eq!(
        why(found(Some("not-supported"), "xpath=/a", None)),
        StagehandClientError::Unsupported("ObserveResult method is not supported in local mode")
    );
    assert_eq!(
        why(found(Some("dance"), "xpath=/a", None)),
        StagehandClientError::Unsupported("local observe result method not supported")
    );
    assert_eq!(ensure_xpath("xpath=/a"), Ok("/a".to_string()));
    assert!(build_xpath_script("/a", "return 1;").unwrap().contains("return 1;"));
    assert!(overlay_script("[]").ends_with("[]);"));
}

fn env(pairs: &[(&str, &str)]) -> Table<String> {
    let mut table = Table::new();
    for (key, value) in pairs {
        table.insert(key, value.to_string());
    }
    table
}

#[test]
fn quickstart_in_the_cloud() {
    let base = StagehandConfig::default;
    let build = |vars: &Table<String>| build_browserbase_config(base(), Verbosity::Detailed, vars);
    assert_eq!(
        build(&env(&[])).unwrap_err(),
        "BROWSERBASE_API_KEY environment variable must be set"
    );
    assert_eq!(
        build(&env(&[("BROWSERBASE_API_KEY", "k"), ("BROWSERBASE_PROJECT_ID", " ")])).unwrap_err(),
        "BROWSERBASE_PROJECT_ID environment variable cannot be empty"
    );
    let keys = [("BROWSERBASE_API_KEY", "k"), ("BROWSERBASE_PROJECT_ID", "p")];
    assert_eq!(
        build(&env(&keys)).unwrap_err(),
        "MODEL_API_KEY or OPENAI_API_KEY must be set"
    );
    let mut vars = env(&keys);
    vars.insert("OPENAI_API_KEY", "m".to_string());
    vars.insert("BROWSERBASE_SESSION_ID", "s".to_string());
    let config = build(&vars).unwrap();
    assert_eq!(config.env, Environment::Browserbase);
    assert_eq!(config.model_api_key.as_deref(), Some("m"));
    assert_eq!(config.model_client_options, Some(api_key_client_options("m")));
    assert_eq!(config.browserbase_session_id.as_deref(), Some("s"));
    assert!(!config.use_rich_logging);
    assert_eq!(resolve_model_key(&vars), Ok("m".to_string()));
}

#[test]
fn quickstart_on_this_machine() {
    let vars = env(&[("STAGEHAND_CHROME_BIN", "/chrome"), ("MODEL_API_KEY", "m")]);
    let config =
        build_local_config(StagehandConfig::default(), Verbosity::Medium, true, &vars).unwrap();
    assert_eq!(config.env, Environment::Local);
    assert!(!config.use_api && !config.headless);
    assert_eq!(
        config.local_browser_launch_options.get("chromeExecutable"),
        Some(&JsonValue::text("/chrome"))
    );
    assert_eq!(
        config.local_browser_launch_options.get("headless"),
        Some(&JsonValue::boolean(false))
    );
    let missing = build_local_config(StagehandConfig::default(), Verbosity::Medium, true, &env(&[]));
    assert_eq!(missing.unwrap_err(), "STAGEHAND_CHROME_BIN environment variable must be set");
    assert_eq!(verbosity_from_count(0), Verbosity::Medium);
    assert_eq!(verbosity_from_count(3), Verbosity::Detailed);
}

#[test]
fn quickstart_requests_and_reports() {
    let request = extract_request("get");
    assert_eq!(request.model_name.as_deref(), Some("gpt-4o"));
    assert_eq!(
        request.schema_definition,
        Some(json(
            r#"{"type": "object",
                "properties": {"companies": {"type": "array", "items": {
                    "type": "object",
                    "properties": {"name": {"type": "string"}, "description": {"type": "string"}},
                    "required": ["name", "description"]
                }}},
                "required": ["companies"]}"#
        ))
    );
    assert_eq!(observe_request("look").draw_overlay, Some(false));
    assert_eq!(act_request("do").action, "do");
    assert_eq!(
        extraction_line(Some(&json(r#"{ "a": 1 }"#))).as_deref(),
        Some(r#"Extraction result: {"a":1}"#)
    );
    assert_eq!(extraction_line(None), None);
    assert_eq!(observation_line(&vec![]), None);
    assert_eq!(
        observation_line(&vec![found(None, "s", None)]).as_deref(),
        Some("Observe result:  via unknown")
    );
}
