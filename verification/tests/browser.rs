use stagehand::browser::{
    default_browserbase_params, read_launch_overrides, read_params, read_viewport, session_body,
    BrowserConnectionSpec, BrowserError, BrowserManager, BrowserPlan, BrowserRuntimeError,
    BrowserbaseSessionCreateParams, BrowserbaseSessionStrategy, LocalLaunchStrategy,
    StagehandBrowser, Viewport,
};
use stagehand::config::{Environment, StagehandConfig};
use stagehand::json::{JsonObject, JsonValue};
use stagehand::merge::merge_json_objects;

fn json(text: &str) -> JsonValue {
    JsonValue::parse(text).expect("valid JSON")
}

fn object(text: &str) -> JsonObject {
    json(text).as_object().expect("an object").copy()
}

fn downloads() -> Result<String, String> {
    Ok("/work/downloads".to_string())
}

#[test]
fn browserbase_defaults_include_project_and_viewport() {
    let mut config = StagehandConfig::default();
    config.project_id = Some("proj-123".to_string());
    let spec = BrowserConnectionSpec::from_config(&config, downloads()).unwrap();
    match spec {
        BrowserConnectionSpec::Browserbase(conn) => {
            assert!(conn.session_id.is_none());
            let params = conn.create_params.expect("create params");
            assert_eq!(params.project_id.as_deref(), Some("proj-123"));
            assert_eq!(params.browser_settings.viewport.width, 1288);
            assert_eq!(params.browser_settings.viewport.height, 711);
        }
        BrowserConnectionSpec::Local(_) => panic!("expected browserbase"),
    }
}

#[test]
fn local_connection_parses_overrides() {
    let mut config = StagehandConfig::default();
    config.env = Environment::Local;
    let mut local_opts = JsonObject::new();
    local_opts.insert("headless", JsonValue::Bool(true));
    local_opts.insert("downloads_path", JsonValue::text("/tmp/downloads"));
    local_opts.insert("args", JsonValue::Array(vec![JsonValue::text("--foo")]));
    local_opts.insert("viewport", json(r#"{"width": 1024, "height": 768}"#));
    local_opts.insert(
        "cookies",
        JsonValue::Array(vec![json(r#"{"name": "auth", "value": "123"}"#)]),
    );
    config.local_browser_launch_options = local_opts;

    let spec = BrowserConnectionSpec::from_config(&config, downloads()).unwrap();
    match spec {
        BrowserConnectionSpec::Local(conn) => {
            assert!(conn.cdp_url.is_none());
            assert_eq!(conn.launch_options.headless, true);
            assert_eq!(conn.launch_options.args, vec!["--foo".to_string()]);
            assert_eq!(conn.launch_options.viewport, Viewport { width: 1024, height: 768 });
            assert_eq!(conn.downloads_path, "/tmp/downloads");
            assert!(conn.cookies.is_some());
        }
        BrowserConnectionSpec::Browserbase(_) => panic!("expected local"),
    }
}

#[test]
fn browser_manager_plan_for_existing_session() {
    let mut config = StagehandConfig::default();
    config.browserbase_session_id = Some("session-123".to_string());
    config.api_key = Some("api-key".to_string());
    config.project_id = Some("proj-1".to_string());

    let manager = BrowserManager::new(config, downloads()).expect("manager");
    match manager.plan() {
        BrowserPlan::Browserbase(plan) => {
            assert_eq!(plan.api_key.as_deref(), Some("api-key"));
            assert_eq!(plan.project_id.as_deref(), Some("proj-1"));
            match plan.strategy {
                BrowserbaseSessionStrategy::UseExisting { session_id } => {
                    assert_eq!(session_id, "session-123");
                }
                _ => panic!("expected use existing strategy"),
            }
        }
        _ => panic!("expected browserbase plan"),
    }
}

#[test]
fn browser_manager_plan_for_local_launch() {
    let mut config = StagehandConfig::default();
    config.env = Environment::Local;
    config.headless = true;

    let manager = BrowserManager::new(config, downloads()).expect("manager");
    match manager.plan() {
        BrowserPlan::Local(plan) => match plan.strategy {
            LocalLaunchStrategy::LaunchPersistent { user_data_dir } => {
                assert!(user_data_dir.is_none());
                assert!(plan.cookies.is_none());
                assert!(plan.launch_options.headless);
            }
            _ => panic!("expected launch strategy"),
        },
        _ => panic!("expected local plan"),
    }
}

#[test]
fn local_env_disables_use_api() {
    let mut config = StagehandConfig::default();
    config.env = Environment::Local;
    config.use_api = true;

    let browser = StagehandBrowser::new(config, (), downloads()).expect("browser");
    assert!(!browser.config().use_api);
}

#[test]
fn non_us_west_region_disables_use_api() {
    let mut config = StagehandConfig::default();
    config.api_key = Some("key".into());
    config.project_id = Some("proj".into());
    let mut params = JsonObject::new();
    params.insert("region", JsonValue::text("eu-central-1"));
    config.browserbase_session_create_params = Some(params);

    let browser = StagehandBrowser::new(config, (), downloads()).expect("browser");
    assert!(!browser.config().use_api);
}

#[test]
fn served_region_keeps_use_api() {
    for region in ["us-west-2", "US-West-2"] {
        let mut config = StagehandConfig::default();
        let mut params = JsonObject::new();
        params.insert("region", JsonValue::text(region));
        config.browserbase_session_create_params = Some(params);
        let browser = StagehandBrowser::new(config, 7u8, downloads()).expect("browser");
        assert!(browser.config().use_api);
        assert_eq!(*browser.runtime(), 7);
        assert_eq!(browser.manager().config().env, Environment::Browserbase);
    }
}

#[test]
fn plan_chosen_by_environment_and_session() {
    let browser = StagehandBrowser::new(StagehandConfig::default(), (), downloads()).unwrap();
    match browser.plan() {
        BrowserPlan::Browserbase(plan) => match plan.strategy {
            BrowserbaseSessionStrategy::CreateNew { params } => {
                assert_eq!(params.browser_settings.viewport.width, 1288);
            }
            _ => panic!("expected a new session"),
        },
        _ => panic!("expected browserbase plan"),
    }

    let mut config = StagehandConfig::default();
    config.env = Environment::Local;
    config.local_browser_launch_options =
        object(r#"{"cdpUrl": "ws://host", "headers": {"a": "b"}}"#);
    let browser = StagehandBrowser::new(config, (), downloads()).unwrap();
    match browser.plan() {
        BrowserPlan::Local(plan) => match plan.strategy {
            LocalLaunchStrategy::AttachCdp { url, headers } => {
                assert_eq!(url, "ws://host");
                assert_eq!(headers, Some(object(r#"{"a": "b"}"#)));
            }
            _ => panic!("expected attach"),
        },
        _ => panic!("expected local plan"),
    }
}

#[test]
fn local_defaults() {
    let mut config = StagehandConfig::default();
    config.env = Environment::Local;
    config.headless = false;
    match BrowserConnectionSpec::from_config(&config, downloads()).unwrap() {
        BrowserConnectionSpec::Local(conn) => {
            assert_eq!(conn.downloads_path, "/work/downloads");
            assert_eq!(conn.launch_options.locale, "en-US");
            assert_eq!(conn.launch_options.timezone_id, "America/New_York");
            assert_eq!(
                conn.launch_options.args,
                vec!["--disable-blink-features=AutomationControlled".to_string()]
            );
            assert!(conn.launch_options.accept_downloads);
            assert!(conn.launch_options.bypass_csp);
            assert!(conn.launch_options.ignore_https_errors);
            assert!(!conn.launch_options.headless);
            assert!(conn.chrome_executable.is_none());
        }
        _ => panic!("expected local"),
    }
}

#[test]
fn unknown_downloads_directory_is_an_error() {
    let mut config = StagehandConfig::default();
    config.env = Environment::Local;
    let error =
        BrowserConnectionSpec::from_config(&config, Err("no directory".to_string())).unwrap_err();
    assert_eq!(error, BrowserError::DownloadsPath { source: "no directory".to_string() });
    assert_eq!(error.message(), "failed to determine downloads directory: no directory");

    config.local_browser_launch_options = object(r#"{"downloadsPath": "/d"}"#);
    assert!(BrowserConnectionSpec::from_config(&config, Err("no directory".to_string())).is_ok());
}

#[test]
fn launch_options_are_checked_in_order() {
    let issue = |text: &str| read_launch_overrides(&object(text)).unwrap_err();
    assert_eq!(issue(r#"{"headless": "yes"}"#), BrowserError::InvalidLocalOptions { field: "headless" });
    assert_eq!(
        issue(r#"{"cdpUrl": "a", "cdp_url": "b"}"#),
        BrowserError::InvalidLocalOptions { field: "cdp_url" }
    );
    assert_eq!(
        issue(r#"{"viewport": [1], "args": [1]}"#),
        BrowserError::InvalidLocalOptions { field: "args" }
    );
    assert_eq!(
        issue(r#"{"headers": []}"#).message(),
        "failed to parse local browser launch options: headers"
    );
    let read = read_launch_overrides(&object(
        r#"{"cdp_url": null, "userDataDir": "u", "acceptDownloads": false, "other": 1,
            "viewport": [3, 4], "proxy": {"server": "s"}, "timezone_id": "UTC"}"#,
    ))
    .unwrap();
    assert_eq!(read.cdp_url, None);
    assert_eq!(read.user_data_dir.as_deref(), Some("u"));
    assert_eq!(read.accept_downloads, Some(false));
    assert_eq!(read.viewport, Some(Viewport { width: 3, height: 4 }));
    assert_eq!(read.proxy, Some(object(r#"{"server": "s"}"#)));
    assert_eq!(read.timezone_id.as_deref(), Some("UTC"));
}

#[test]
fn viewport_forms() {
    let size = Some(Viewport { width: 1, height: 2 });
    assert_eq!(read_viewport(&json(r#"{"width": 1, "height": 2, "scale": 3}"#)), size);
    assert_eq!(read_viewport(&json("[1, 2]")), size);
    assert_eq!(read_viewport(&json("[1, 2, 3]")), None);
    assert_eq!(read_viewport(&json(r#"{"width": 1}"#)), None);
    assert_eq!(read_viewport(&json(r#"{"width": 1, "height": 4294967296}"#)), None);
    assert_eq!(read_viewport(&json(r#"{"width": -1, "height": 2}"#)), None);
    assert_eq!(read_viewport(&json("null")), None);
}

#[test]
fn session_params_are_checked() {
    let issue = |text: &str| read_params(&object(text)).unwrap_err();
    assert_eq!(
        issue(r#"{"project_id": 1}"#),
        BrowserError::InvalidBrowserbaseParams { field: "project_id" }
    );
    assert_eq!(
        issue(r#"{"browser_settings": 1}"#),
        BrowserError::InvalidBrowserbaseParams { field: "browser_settings" }
    );
    assert_eq!(
        issue(r#"{"browser_settings": {"viewport": null}}"#).message(),
        "failed to parse Browserbase session parameters: viewport"
    );
}

#[test]
fn session_params_read_back() {
    let params = read_params(&object(
        r#"{"project_id": "p", "region": "r",
            "browser_settings": {"viewport": {"width": 5, "height": 6}, "blockAds": true}}"#,
    ))
    .unwrap();
    assert_eq!(params.extra, object(r#"{"region": "r"}"#));
    assert_eq!(params.browser_settings.extra, object(r#"{"blockAds": true}"#));
    let body = session_body(&params);
    assert_eq!(read_params(&body).unwrap(), params);
    assert_eq!(
        JsonValue::object(session_body(&BrowserbaseSessionCreateParams::default())).to_text(),
        r#"{"browser_settings":{"viewport":{"height":711,"width":1288}},"project_id":null}"#
    );
}

#[test]
fn configured_params_are_laid_over_the_defaults() {
    let base = default_browserbase_params(&Some("p".to_string()));
    let merged = merge_json_objects(
        base,
        &object(r#"{"browser_settings": {"viewport": {"width": 9}, "blockAds": true}, "keep": 1}"#),
    );
    assert_eq!(
        JsonValue::object(merged).to_text(),
        r#"{"browser_settings":{"blockAds":true,"viewport":{"height":711,"width":9}},"keep":1,"project_id":"p"}"#
    );
    let same = merge_json_objects(object(r#"{"a": {"b": 1}}"#), &JsonObject::new());
    assert_eq!(same, object(r#"{"a": {"b": 1}}"#));
    let replaced = merge_json_objects(object(r#"{"a": {"b": 1}}"#), &object(r#"{"a": 2}"#));
    assert_eq!(replaced, object(r#"{"a": 2}"#));
}

#[test]
fn existing_session_without_params_creates_none() {
    let mut config = StagehandConfig::default();
    config.browserbase_session_id = Some("s".to_string());
    match BrowserConnectionSpec::from_config(&config, downloads()).unwrap() {
        BrowserConnectionSpec::Browserbase(conn) => assert!(conn.create_params.is_none()),
        _ => panic!("expected browserbase"),
    }
    config.browserbase_session_create_params = Some(object(r#"{"region": "r"}"#));
    match BrowserConnectionSpec::from_config(&config, downloads()).unwrap() {
        BrowserConnectionSpec::Browserbase(conn) => assert!(conn.create_params.is_some()),
        _ => panic!("expected browserbase"),
    }
}

#[test]
fn runtime_errors_as_text() {
    assert_eq!(
        BrowserRuntimeError::Message("m".to_string()).message(),
        "browser runtime error: m"
    );
    assert_eq!(
        BrowserRuntimeError::NotInitialized.message(),
        "browser runtime not initialized"
    );
    assert_eq!(
        BrowserRuntimeError::Unsupported("f".to_string()).message(),
        "browser runtime feature unsupported: f"
    );
}
