use stagehand::browser::{
    BrowserRuntimeError, BrowserbasePlan, BrowserbaseSessionCreateParams,
    BrowserbaseSessionStrategy, LocalLaunchOptions, LocalLaunchStrategy, LocalPlan,
    RuntimeTargetEvent, Viewport,
};
use stagehand::json::JsonValue;
use stagehand::runtime::{
    accept_session, begin_connect, build_config, endpoint, ensure_browser_alive,
    handle_session_response, AliveAction, BrowserbaseRuntimeState, BrowserbaseSessionInfo,
    BrowserbaseSessionResponse, ConnectStep, SessionReply, SessionRequest, TargetRegistry,
    DEFAULT_BROWSERBASE_API_URL,
};

fn new_session_plan(api_key: Option<&str>) -> BrowserbasePlan {
    BrowserbasePlan {
        api_key: api_key.map(|key| key.to_string()),
        project_id: None,
        strategy: BrowserbaseSessionStrategy::CreateNew {
            params: BrowserbaseSessionCreateParams::default(),
        },
    }
}

fn existing_plan() -> BrowserbasePlan {
    BrowserbasePlan {
        api_key: Some("key".to_string()),
        project_id: Some("proj".to_string()),
        strategy: BrowserbaseSessionStrategy::UseExisting { session_id: "s-1".to_string() },
    }
}

fn info(status: Option<&str>) -> BrowserbaseSessionInfo {
    BrowserbaseSessionInfo {
        id: "s-1".to_string(),
        status: status.map(|status| status.to_string()),
        connect_url: "ws://example".to_string(),
    }
}

#[test]
fn connect_browserbase_requires_api_key() {
    let plan = new_session_plan(None);
    let err = begin_connect(&plan, false, DEFAULT_BROWSERBASE_API_URL)
        .expect_err("should fail without API key");
    assert!(err.message().contains("Browserbase API key is required to connect to Browserbase"));
    assert_eq!(begin_connect(&plan, true, "b"), Ok(ConnectStep::Connected));
}

#[test]
fn browserbase_session_info_running_detection() {
    let mut info = BrowserbaseSessionInfo {
        id: "sess-123".into(),
        status: Some("RUNNING".into()),
        connect_url: "ws://example".into(),
    };
    assert!(info.is_running());
    info.status = Some("stopped".into());
    assert!(!info.is_running());
    info.status = None;
    assert!(!info.is_running());
}

#[test]
fn browserbase_session_info_requires_connect_url() {
    let response = BrowserbaseSessionResponse {
        id: "sess-456".into(),
        status: Some("RUNNING".into()),
        connect_url: None,
    };
    let err = BrowserbaseSessionInfo::try_from(response).expect_err("should error");
    assert!(err.message().contains("did not include a connect URL"));
}

#[test]
fn endpoints_are_joined_by_one_slash() {
    assert_eq!(endpoint("https://host/v1//", "//sessions"), "https://host/v1/sessions");
    assert_eq!(endpoint("https://host", "sessions/1"), "https://host/sessions/1");
}

#[test]
fn requests_for_sessions() {
    match begin_connect(&existing_plan(), false, "https://host/").unwrap() {
        ConnectStep::Retrieve { url, api_key, request } => {
            assert_eq!(url, "https://host/sessions/s-1");
            assert_eq!(api_key, "key");
            assert_eq!(request, SessionRequest::Retrieve("s-1".to_string()));
        }
        other => panic!("unexpected step: {:?}", other),
    }
    match begin_connect(&new_session_plan(Some("k")), false, "https://host").unwrap() {
        ConnectStep::Create { url, body, request, .. } => {
            assert_eq!(url, "https://host/sessions");
            assert_eq!(request, SessionRequest::Create);
            assert_eq!(
                JsonValue::object(body).to_text(),
                r#"{"browser_settings":{"viewport":{"height":711,"width":1288}},"project_id":null}"#
            );
        }
        other => panic!("unexpected step: {:?}", other),
    }
}

#[test]
fn replies_of_the_service() {
    let retrieve = SessionRequest::Retrieve("s".to_string());
    let text = |reply: SessionReply, request: &SessionRequest| {
        handle_session_response(reply, request).unwrap_err().message()
    };
    assert_eq!(
        text(SessionReply::Unreadable("bad".to_string()), &retrieve),
        "browser runtime error: failed to parse Browserbase response while attempting to retrieve session s: bad"
    );
    assert_eq!(
        text(
            SessionReply::Refused { status: "404 Not Found".to_string(), body: None },
            &SessionRequest::Create
        ),
        "browser runtime error: Browserbase API call to create session failed (404 Not Found): <unavailable>"
    );
    assert_eq!(
        text(
            SessionReply::Refused { status: "500".to_string(), body: Some("oh".to_string()) },
            &retrieve
        ),
        "browser runtime error: Browserbase API call to retrieve session s failed (500): oh"
    );
    assert_eq!(
        text(SessionReply::Unreachable("down".to_string()), &retrieve),
        "browser runtime error: Browserbase session retrieval failed: down"
    );
    assert_eq!(
        text(SessionReply::Unreachable("down".to_string()), &SessionRequest::Create),
        "browser runtime error: Browserbase session creation failed: down"
    );
    let described = BrowserbaseSessionResponse {
        id: "s".to_string(),
        status: None,
        connect_url: Some("ws".to_string()),
    };
    let info = handle_session_response(SessionReply::Described(described), &retrieve).unwrap();
    assert_eq!(info.connect_url, "ws");
}

#[test]
fn asked_for_session_has_to_run() {
    let plan = existing_plan();
    let state = accept_session(&plan, "key".to_string(), &info(Some("Running"))).unwrap();
    assert_eq!(state.session_id, "s-1");
    assert_eq!(state.project_id.as_deref(), Some("proj"));
    let why = accept_session(&plan, "key".to_string(), &info(Some("DONE"))).unwrap_err();
    assert_eq!(
        why.message(),
        "browser runtime error: Browserbase session s-1 is not running (status: DONE)"
    );
    let why = accept_session(&plan, "key".to_string(), &info(None)).unwrap_err();
    assert!(why.message().contains("(status: UNKNOWN)"));
    let new = new_session_plan(Some("key"));
    assert!(accept_session(&new, "key".to_string(), &info(None)).is_ok());
}

fn state(id: &str) -> BrowserbaseRuntimeState {
    BrowserbaseRuntimeState {
        session_id: id.to_string(),
        connect_url: "ws".to_string(),
        api_key: "k".to_string(),
        project_id: None,
    }
}

#[test]
fn silent_browser_is_reconnected() {
    let lost = || Some(Err(BrowserRuntimeError::Message("gone".to_string())));
    assert_eq!(ensure_browser_alive(Some(Ok(())), &None, &Some(state("a"))), AliveAction::Ready);
    assert_eq!(
        ensure_browser_alive(lost(), &Some(state("a")), &Some(state("b"))),
        AliveAction::Reconnect(state("a"))
    );
    assert_eq!(
        ensure_browser_alive(lost(), &None, &Some(state("b"))),
        AliveAction::Reconnect(state("b"))
    );
    assert_eq!(
        ensure_browser_alive(lost(), &None, &None),
        AliveAction::Fail(BrowserRuntimeError::Message("gone".to_string()))
    );
    assert_eq!(
        ensure_browser_alive(None, &None, &Some(state("b"))),
        AliveAction::Reconnect(state("b"))
    );
    assert_eq!(
        ensure_browser_alive(None, &None, &None),
        AliveAction::Fail(BrowserRuntimeError::NotInitialized)
    );
}

fn local_plan(locale: &str, timezone: &str, strategy: LocalLaunchStrategy) -> LocalPlan {
    LocalPlan {
        strategy,
        launch_options: LocalLaunchOptions {
            headless: true,
            accept_downloads: true,
            args: vec!["--a".to_string()],
            viewport: Viewport { width: 10, height: 20 },
            locale: locale.to_string(),
            timezone_id: timezone.to_string(),
            bypass_csp: true,
            proxy: None,
            ignore_https_errors: false,
        },
        downloads_path: "d".to_string(),
        cookies: None,
        chrome_executable: Some("chrome".to_string()),
    }
}

#[test]
fn launch_settings() {
    let launch = LocalLaunchStrategy::LaunchPersistent { user_data_dir: Some("u".to_string()) };
    let settings = build_config(&local_plan("en-US", "UTC", launch));
    assert_eq!(settings.args, vec!["--a", "--lang=en-US", "--timezone=UTC"]);
    assert!(!settings.is_landscape && !settings.with_head && settings.respect_https_errors);
    assert_eq!(settings.user_data_dir.as_deref(), Some("u"));
    assert_eq!(settings.chrome_executable.as_deref(), Some("chrome"));
    let attach = LocalLaunchStrategy::AttachCdp { url: "ws".to_string(), headers: None };
    let settings = build_config(&local_plan("", "", attach));
    assert_eq!(settings.args, vec!["--a"]);
    assert_eq!(settings.user_data_dir, None);
}

#[test]
fn pages_come_and_go() {
    let mut registry: TargetRegistry<u8> = TargetRegistry::new();
    assert!(TargetRegistry::<u8>::is_page("page"));
    assert!(!TargetRegistry::<u8>::is_page("worker"));
    registry.add_existing("a", 1);
    registry.add_existing("a", 2);
    assert_eq!(registry.page("a"), Some(&1));
    assert_eq!(
        registry.add_opened("b", 3),
        RuntimeTargetEvent::Attached { target_id: "b".to_string() }
    );
    assert_eq!(
        registry.attached("c", "sess", 4),
        RuntimeTargetEvent::Attached { target_id: "c".to_string() }
    );
    assert_eq!(registry.list_pages(), vec!["a", "b", "c"]);
    assert_eq!(
        registry.detached("sess"),
        Some(RuntimeTargetEvent::Detached { target_id: "c".to_string() })
    );
    assert_eq!(registry.page("c"), None);
    assert_eq!(registry.detached("sess"), None);
    let events = registry.refresh(&vec!["b".to_string(), "new".to_string()]);
    assert_eq!(events, vec![RuntimeTargetEvent::Detached { target_id: "a".to_string() }]);
    assert_eq!(registry.list_pages(), vec!["b"]);
    registry.clear();
    assert!(registry.list_pages().is_empty());
}
