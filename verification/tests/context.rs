use stagehand::context::{
    AdapterCall, DomScriptStep, StagehandAdapterError, StagehandContext, StagehandContextError,
};

fn new_context(dom_script: &str) -> StagehandContext {
    StagehandContext::new(dom_script)
}

#[test]
fn register_page_is_idempotent() {
    let mut context = new_context("script");
    context.register_page("page-1", Some("frame-a".into()));
    context.register_page("page-1", Some("frame-b".into()));

    let page = context.page("page-1").unwrap();
    assert_eq!(page.id(), "page-1");
    assert_eq!(page.frame_id(), Some("frame-b"));
}

#[test]
fn ensure_dom_script_injects_once() {
    let mut context = new_context("script");
    context.register_page("page-1", None);

    let first = context.ensure_dom_script("page-1").expect("first injection");
    assert_eq!(first, DomScriptStep::Inject("script".to_string()));
    let call = context.finish_dom_script("page-1", Ok(())).expect("first injection");
    assert_eq!(
        call,
        AdapterCall::LogDebug {
            message: "Injected DOM script into page-1".to_string(),
            category: "context".to_string(),
        }
    );
    let second = context.ensure_dom_script("page-1").expect("second injection");
    assert_eq!(second, DomScriptStep::AlreadyInjected);
    assert!(context.page("page-1").unwrap().dom_script_injected());
}

#[test]
fn ensure_dom_script_propagates_failures() {
    let mut context = new_context("script");
    context.register_page("page-1", None);

    let failure = StagehandAdapterError::Message("failed for page-1".to_string());
    let err = context.finish_dom_script("page-1", Err(failure)).expect_err("should fail");
    assert_eq!(err.message(), "failed to inject DOM script for 'page-1'");
    match err {
        StagehandContextError::ScriptInjection { page_id, source } => {
            assert_eq!(page_id, "page-1");
            assert_eq!(source.message(), "failed for page-1");
        }
        _ => panic!("unexpected error variant"),
    }
}

#[test]
fn set_active_page_notifies_adapter() {
    let mut context = new_context("script");
    context.register_page("page-1", None);
    let calls = context.set_active_page("page-1").expect("set active");

    let active: Vec<&AdapterCall> =
        calls.iter().filter(|call| matches!(call, AdapterCall::NotifyActivePage(_))).collect();
    assert_eq!(active, vec![&AdapterCall::NotifyActivePage("page-1".to_string())]);
    assert_eq!(context.active_page().unwrap().id(), "page-1");
}

#[test]
fn update_frame_id_updates_page() {
    let mut context = new_context("script");
    context.register_page("page-1", None);
    context.update_frame_id("page-1", "frame-xyz").expect("update frame");

    let page = context.page("page-1").unwrap();
    assert_eq!(page.frame_id(), Some("frame-xyz"));
}

#[test]
fn register_page_tracks_frame_index() {
    let mut context = new_context("script");
    let page_id = "page-1".to_string();

    context.register_page(&page_id, Some("frame-1".into()));
    assert_eq!(
        context.page_by_frame_id("frame-1").map(|page| page.id().to_string()),
        Some(page_id.clone())
    );

    context.register_page(&page_id, Some("frame-2".into()));
    assert!(context.page_by_frame_id("frame-1").is_none());
    assert_eq!(
        context.page_by_frame_id("frame-2").map(|page| page.id().to_string()),
        Some(page_id.clone())
    );
}

#[test]
fn register_and_update_frame_id_refreshes_mapping() {
    let mut context = new_context("script");
    let page_id = "page-1".to_string();

    context.register_page(&page_id, None);
    context.register_frame_id(&page_id, "frame-1").expect("register frame");
    assert_eq!(
        context.page_by_frame_id("frame-1").map(|page| page.id().to_string()),
        Some(page_id.clone())
    );

    context.update_frame_id(&page_id, "frame-2").expect("update frame");
    assert!(context.page_by_frame_id("frame-1").is_none());
    assert_eq!(
        context.page_by_frame_id("frame-2").map(|page| page.id().to_string()),
        Some(page_id.clone())
    );
}

#[test]
fn unregister_frame_id_clears_mapping_and_page_state() {
    let mut context = new_context("script");
    let page_id = "page-1".to_string();

    context.register_page(&page_id, Some("frame-3".into()));
    assert!(context.unregister_frame_id("frame-3"));
    assert!(context.page_by_frame_id("frame-3").is_none());
    let page = context.page(&page_id).expect("page present");
    assert!(page.frame_id().is_none());

    assert!(!context.unregister_frame_id("frame-3"));
}

#[test]
fn remove_page_drops_state_and_active_marker() {
    let mut context = new_context("script");
    let page_id = "page-1".to_string();

    context.register_page(&page_id, Some("frame-9".into()));
    context.set_active_page(&page_id).expect("set active page succeeds");

    assert!(context.remove_page(&page_id));
    assert!(context.page(&page_id).is_none());
    assert!(context.page_by_frame_id("frame-9").is_none());
    assert!(context.active_page().is_none());
    assert!(!context.remove_page(&page_id));
}

#[test]
fn ensure_dom_script_requires_registered_page() {
    let mut context = new_context("script");
    let err = context.ensure_dom_script("missing").expect_err("missing page");
    assert!(matches!(err, StagehandContextError::PageNotFound(_)));
    assert_eq!(err.message(), "page 'missing' is not registered");
    assert!(matches!(
        context.finish_dom_script("missing", Ok(())),
        Err(StagehandContextError::PageNotFound(_))
    ));
    assert!(context.set_active_page("missing").is_err());
    assert!(context.update_frame_id("missing", "f").is_err());
}

#[test]
fn pages_are_listed_in_order() {
    let mut context = new_context("script");
    for id in ["b", "a", "c"] {
        context.register_page(id, None);
    }
    context.remove_page("a");
    assert_eq!(context.page_ids(), vec!["b".to_string(), "c".to_string()]);
    assert_eq!(context.active_page_id(), None);
    assert_eq!(context.frame_id_for("b"), None);
    context.register_frame_id("b", "f").unwrap();
    assert_eq!(context.frame_id_for("b").as_deref(), Some("f"));
}

#[test]
fn a_frame_moves_to_the_page_that_shows_it_last() {
    let mut context = new_context("script");
    context.register_page("one", Some("f".into()));
    context.register_page("two", Some("f".into()));
    assert_eq!(context.page_by_frame_id("f").unwrap().id(), "two");
}
