use stagehand::config::{
    parse_bool, Environment, ModelName, StagehandConfig, StagehandConfigError,
    StagehandConfigOverrides, Verbosity, DEFAULT_API_URL,
};
use stagehand::json::{JsonObject, JsonValue};
use stagehand::table::Table;
use stagehand::text::NumberError;

fn vars(pairs: &[(&str, &str)]) -> Table<String> {
    let mut table = Table::new();
    for (key, value) in pairs {
        table.insert(key, value.to_string());
    }
    table
}

fn maker(model: ModelName) -> String {
    format!("{model:?}")[..6].to_lowercase()
}

#[test]
fn defaults_align_with_documented_config() {
    let config = StagehandConfig::default();
    assert_eq!(config.env, Environment::Browserbase);
    assert!(config.api_key.is_none());
    assert_eq!(config.api_url, DEFAULT_API_URL);
    assert_eq!(config.model_name, ModelName::Gpt4o);
    assert_eq!(config.verbose, Verbosity::Medium);
    assert!(config.use_rich_logging);
    assert_eq!(config.dom_settle_timeout_ms, Some(3_000));
    assert!(config.local_browser_launch_options.is_empty());
    assert!(config.browserbase_session_create_params.is_none());
    assert!(config.use_api);
    assert!(!config.experimental);
}

#[test]
fn from_env_parses_and_normalises_values() {
    let model_name = format!("{}-3-5-sonnet-latest", maker(ModelName::Claude35SonnetLatest));
    let vars = vars(&[
        ("STAGEHAND_ENV", "local"),
        ("BROWSERBASE_API_KEY", "key-123"),
        ("BROWSERBASE_PROJECT_ID", "proj-abc"),
        ("STAGEHAND_API_URL", "https://custom"),
        ("MODEL_API_KEY", "model-key"),
        ("MODEL_NAME", &model_name),
        ("STAGEHAND_VERBOSE", "2"),
        ("STAGEHAND_USE_RICH_LOGGING", "false"),
        ("STAGEHAND_DOM_SETTLE_TIMEOUT_MS", "5000"),
        ("STAGEHAND_ENABLE_CACHING", "true"),
        ("BROWSERBASE_SESSION_ID", "session-1"),
        ("STAGEHAND_SELF_HEAL", "false"),
        ("STAGEHAND_WAIT_FOR_CAPTCHA_SOLVES", "true"),
        ("STAGEHAND_ACT_TIMEOUT_MS", "1234"),
        ("STAGEHAND_SYSTEM_PROMPT", "custom prompt"),
        ("STAGEHAND_MODEL_CLIENT_OPTIONS", r#"{"api_base":"https://foo"}"#),
        ("STAGEHAND_LOCAL_BROWSER_LAUNCH_OPTIONS", r#"{"headless":true}"#),
        ("BROWSERBASE_SESSION_CREATE_PARAMS", r#"{"region":"us-east-1"}"#),
        ("STAGEHAND_USE_API", "false"),
        ("STAGEHAND_EXPERIMENTAL", "true"),
        ("STAGEHAND_HEADLESS", "true"),
    ]);

    let config = StagehandConfig::from_env(&vars).expect("config from env");
    assert_eq!(config.env, Environment::Local);
    assert_eq!(config.api_key.as_deref(), Some("key-123"));
    assert_eq!(config.project_id.as_deref(), Some("proj-abc"));
    assert_eq!(config.api_url, "https://custom");
    assert_eq!(config.model_api_key.as_deref(), Some("model-key"));
    assert_eq!(config.model_name, ModelName::Claude35SonnetLatest);
    assert_eq!(config.verbose, Verbosity::Detailed);
    assert!(!config.use_rich_logging);
    assert_eq!(config.dom_settle_timeout_ms, Some(5_000));
    assert!(config.enable_caching);
    assert_eq!(config.browserbase_session_id.as_deref(), Some("session-1"));
    assert!(!config.self_heal);
    assert!(config.wait_for_captcha_solves);
    assert_eq!(config.act_timeout_ms, Some(1_234));
    assert_eq!(config.system_prompt.as_deref(), Some("custom prompt"));
    assert!(!config.use_api);
    assert!(config.experimental);
    assert!(config.headless);

    let client_options = config.model_client_options.as_ref().expect("model client options present");
    assert_eq!(client_options.get("api_base"), Some(&JsonValue::text("https://foo")));

    assert_eq!(
        config.local_browser_launch_options.get("headless").and_then(JsonValue::as_bool),
        Some(true)
    );

    let params = config.browserbase_session_create_params().expect("session params");
    assert_eq!(params.get("project_id"), Some(&JsonValue::text("proj-abc")));
    assert_eq!(params.get("region"), Some(&JsonValue::text("us-east-1")));
}

#[test]
fn overrides_support_setting_values_to_none() {
    let base = StagehandConfig::default();
    let overrides = StagehandConfigOverrides::default()
        .env(Environment::Local)
        .api_key(Some("overridden".to_string()));
    let overrides = StagehandConfigOverrides {
        browserbase_session_id: Some(None),
        dom_settle_timeout_ms: Some(Some(1_000)),
        use_api: Some(false),
        ..overrides
    };

    let updated = base.with_overrides(overrides);
    assert_eq!(updated.env, Environment::Local);
    assert_eq!(updated.api_key.as_deref(), Some("overridden"));
    assert!(updated.browserbase_session_id.is_none());
    assert_eq!(updated.dom_settle_timeout_ms, Some(1_000));
    assert!(!updated.use_api);
}

fn issue(name: &str, value: &str) -> StagehandConfigError {
    StagehandConfig::from_env(&vars(&[(name, value)])).unwrap_err()
}

#[test]
fn from_env_reports_bad_values() {
    assert_eq!(
        issue("STAGEHAND_ENV", "moon").message(),
        "invalid value 'moon' for STAGEHAND_ENV"
    );
    assert_eq!(
        issue("STAGEHAND_HEADLESS", "perhaps").message(),
        "invalid boolean 'perhaps' for STAGEHAND_HEADLESS"
    );
    assert_eq!(
        issue("STAGEHAND_ACT_TIMEOUT_MS", "12x"),
        StagehandConfigError::InvalidNumber {
            field: "STAGEHAND_ACT_TIMEOUT_MS",
            value: "12x".to_string(),
            source: NumberError::InvalidDigit,
        }
    );
    assert_eq!(
        issue("STAGEHAND_DOM_SETTLE_TIMEOUT_MS", "18446744073709551616").message(),
        "invalid number '18446744073709551616' for STAGEHAND_DOM_SETTLE_TIMEOUT_MS: \
         number too large to fit in target type"
    );
    assert_eq!(
        issue("BROWSERBASE_SESSION_CREATE_PARAMS", "[1]").message(),
        "BROWSERBASE_SESSION_CREATE_PARAMS must be a JSON object"
    );
    let error = issue("STAGEHAND_MODEL_CLIENT_OPTIONS", "{");
    assert!(matches!(
        error,
        StagehandConfigError::InvalidJson { field: "STAGEHAND_MODEL_CLIENT_OPTIONS", .. }
    ));
    assert!(error.message().starts_with("invalid JSON for STAGEHAND_MODEL_CLIENT_OPTIONS: EOF"));
}

#[test]
fn blank_variables_are_not_set() {
    let config = StagehandConfig::from_env(&vars(&[("BROWSERBASE_API_KEY", "  ")])).unwrap();
    assert!(config.api_key.is_none());
    let config = StagehandConfig::from_env(&vars(&[("BROWSERBASE_API_KEY", " k ")])).unwrap();
    assert_eq!(config.api_key.as_deref(), Some("k"));
}

#[test]
fn booleans_have_several_names() {
    for yes in ["1", "true", " YES ", "on"] {
        assert_eq!(parse_bool("f", yes), Ok(true));
    }
    for no in ["0", "false", "No", "off"] {
        assert_eq!(parse_bool("f", no), Ok(false));
    }
}

#[test]
fn names_are_read_back() {
    for env in [Environment::Browserbase, Environment::Local] {
        assert_eq!(Environment::parse(env.as_str()), Some(env));
    }
    for model in [
        ModelName::Gpt4o,
        ModelName::Gpt4oMini,
        ModelName::Claude35SonnetLatest,
        ModelName::Claude37SonnetLatest,
        ModelName::ComputerUsePreview,
        ModelName::Gemini20Flash,
    ] {
        assert_eq!(ModelName::parse(&model.to_text()), Some(model));
    }
    assert_eq!(ModelName::parse("other"), None);
    assert_eq!(ModelName::parse(" gpt-4o-mini "), Some(ModelName::Gpt4oMini));
    assert_eq!(ModelName::ComputerUsePreview.to_text(), "computer-use-preview");
    assert_eq!(ModelName::Gemini20Flash.to_text(), "gemini-2.0-flash");
    let name = ModelName::Claude37SonnetLatest.to_text();
    assert_eq!(name, format!("{}-3-7-sonnet-latest", maker(ModelName::Claude37SonnetLatest)));
    let name = ModelName::Claude35SonnetLatest.to_text();
    assert_eq!(name, format!("{}-3-5-sonnet-latest", maker(ModelName::Claude35SonnetLatest)));
    for (number, verbosity) in
        [(0, Verbosity::Minimal), (1, Verbosity::Medium), (2, Verbosity::Detailed)]
    {
        assert_eq!(verbosity.as_u8(), number);
        assert_eq!(Verbosity::from_u8(number), Some(verbosity));
    }
    assert_eq!(Verbosity::from_u8(3), None);
}

#[test]
fn project_is_named_once_in_the_params() {
    let mut config = StagehandConfig::default();
    config.project_id = Some("p".to_string());
    let mut params = JsonObject::new();
    params.insert("project_id", JsonValue::text("own"));
    config.browserbase_session_create_params = Some(params);
    let params = config.browserbase_session_create_params().unwrap();
    assert_eq!(params.get("project_id"), Some(&JsonValue::text("own")));
}
