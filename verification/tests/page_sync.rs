use stagehand::browser::{BrowserRuntimeError, RuntimeTargetEvent};
use stagehand::client::StagehandClientError;
use stagehand::context::{
    AdapterCall, StagehandAdapterError, StagehandContext, StagehandContextError,
};
use stagehand::page_sync::{
    ensure_frame_registered, frame_reply, runtime_main_frame_id_for, PageSync, SyncStep,
};

fn texts(list: &[&str]) -> Vec<String> {
    list.iter().map(|text| text.to_string()).collect()
}

fn attached(id: &str) -> RuntimeTargetEvent {
    RuntimeTargetEvent::Attached { target_id: id.to_string() }
}

fn detached(id: &str) -> RuntimeTargetEvent {
    RuntimeTargetEvent::Detached { target_id: id.to_string() }
}

/// Does all the work, putting the script into each page that needs it.
fn finish(sync: &mut PageSync, context: &mut StagehandContext) -> (Vec<String>, Vec<AdapterCall>) {
    let mut pages = Vec::new();
    let mut calls = Vec::new();
    loop {
        match sync.next(context, &mut calls) {
            SyncStep::Inject { page_id, script } => {
                assert_eq!(script, "script");
                pages.push(page_id);
                sync.injected(context, Ok(()), &mut calls).expect("injection");
            }
            SyncStep::Done => return (pages, calls),
        }
    }
}

#[test]
fn ensure_initialized_registers_existing_pages() {
    let mut context = StagehandContext::new("script");
    let mut sync = PageSync::for_start(&texts(&["existing"]));
    let (pages, _) = finish(&mut sync, &mut context);
    assert!(pages.contains(&"existing".to_string()));
    assert!(context.page("existing").is_some());
    assert!(context.active_page().is_some());
    assert_eq!(sync.next_frame(), None);
}

#[test]
fn ensure_page_ready_initializes_browserbase_runtime_once() {
    let mut context = StagehandContext::new("script");
    let (first, _) = finish(&mut PageSync::for_start(&texts(&["page-1"])), &mut context);
    let (second, _) = finish(&mut PageSync::for_start(&texts(&["page-1"])), &mut context);
    assert_eq!(first, texts(&["page-1"]));
    assert!(second.is_empty());
}

#[test]
fn new_pages_become_active() {
    let mut context = StagehandContext::new("script");
    let mut sync = PageSync::for_events(vec![attached("a"), attached("b")]);
    let (pages, calls) = finish(&mut sync, &mut context);
    assert_eq!(pages, texts(&["a", "b"]));
    assert_eq!(context.active_page_id().as_deref(), Some("b"));
    assert_eq!(
        calls.iter().filter(|call| matches!(call, AdapterCall::NotifyActivePage(_))).count(),
        2
    );
    assert_eq!(sync.next_frame().as_deref(), Some("a"));
    assert_eq!(sync.next_frame().as_deref(), Some("b"));
    assert_eq!(sync.next_frame(), None);

    let (pages, _) = finish(&mut PageSync::for_events(vec![detached("b")]), &mut context);
    assert!(pages.is_empty());
    assert_eq!(context.active_page_id().as_deref(), Some("a"));
    finish(&mut PageSync::for_events(vec![detached("a"), detached("x")]), &mut context);
    assert_eq!(context.active_page_id(), None);
}

#[test]
fn listing_decides_which_pages_there_are() {
    let mut context = StagehandContext::new("script");
    for id in ["a", "b"] {
        context.register_page(id, None);
    }
    context.set_active_page("a").unwrap();
    let listed = texts(&["b", "c"]);
    let mut sync = PageSync::for_listing(&mut context, &listed);
    let (pages, _) = finish(&mut sync, &mut context);
    assert_eq!(pages, texts(&["c"]));
    assert_eq!(context.page_ids(), listed);
    assert_eq!(context.active_page_id().as_deref(), Some("c"));
    assert_eq!(sync.next_frame().as_deref(), Some("c"));
    assert_eq!(sync.next_frame(), None);
}

#[test]
fn failed_injection_stops_the_work() {
    let mut context = StagehandContext::new("script");
    let mut sync = PageSync::for_start(&texts(&["a", "b"]));
    let mut calls = Vec::new();
    assert!(matches!(sync.next(&mut context, &mut calls), SyncStep::Inject { .. }));
    let failure = StagehandAdapterError::Message("no".to_string());
    let error = sync.injected(&mut context, Err(failure), &mut calls).unwrap_err();
    assert!(matches!(error, StagehandContextError::ScriptInjection { .. }));
    assert!(calls.is_empty());
    assert!(context.page("b").is_none());
}

#[test]
fn frames_are_noted() {
    let mut context = StagehandContext::new("script");
    context.register_page("p", None);
    assert_eq!(frame_reply(&mut context, "p", Ok(Some("f".to_string()))), None);
    assert_eq!(context.frame_id_for("p").as_deref(), Some("f"));
    assert_eq!(frame_reply(&mut context, "p", Ok(None)), None);
    assert_eq!(context.frame_id_for("p").as_deref(), Some("f"));
    let unsupported = BrowserRuntimeError::Unsupported("frames".to_string());
    assert_eq!(frame_reply(&mut context, "p", Err(unsupported)), None);
    let broken = BrowserRuntimeError::Message("m".to_string());
    assert_eq!(
        frame_reply(&mut context, "p", Err(broken)).as_deref(),
        Some("Skipping frame registration for p: browser runtime error: m")
    );
    assert_eq!(frame_reply(&mut context, "unknown", Ok(Some("g".to_string()))), None);
    assert!(context.page_by_frame_id("g").is_none());
}

#[test]
fn frame_of_a_page_is_ensured() {
    let mut context = StagehandContext::new("script");
    context.register_page("p", None);
    let broken = || Err(BrowserRuntimeError::Message("m".to_string()));
    assert_eq!(
        ensure_frame_registered(&mut context, "p", Some("given".to_string()), broken()),
        Ok(())
    );
    assert_eq!(context.frame_id_for("p").as_deref(), Some("given"));
    assert_eq!(
        ensure_frame_registered(&mut context, "p", None, broken()),
        Err(StagehandClientError::Browser(BrowserRuntimeError::Message("m".to_string())))
    );
    assert_eq!(
        ensure_frame_registered(&mut context, "p", None, Ok(Some("named".to_string()))),
        Ok(())
    );
    assert_eq!(context.frame_id_for("p").as_deref(), Some("named"));
    assert_eq!(
        runtime_main_frame_id_for(Err(BrowserRuntimeError::NotInitialized)),
        Ok(None)
    );
}

#[test]
fn remove_page_clears_context_state() {
    let mut context = StagehandContext::new("script");
    finish(&mut PageSync::for_start(&texts(&["page-1"])), &mut context);
    context.register_page("page-1", Some("frame-1".to_string()));
    context.set_active_page("page-1").unwrap();
    assert!(context.page_by_frame_id("frame-1").is_some());

    assert!(context.remove_page("page-1"));
    assert!(context.page("page-1").is_none());
    assert!(context.page_by_frame_id("frame-1").is_none());
    assert!(context.active_page().is_none());
    assert!(!context.remove_page("page-1"));
}

#[test]
fn stagehand_open_page_tracks_active_page() {
    let mut context = StagehandContext::new("script");
    let mut sync = PageSync::for_events(vec![attached("page-0")]);
    let (pages, _) = finish(&mut sync, &mut context);
    assert_eq!(pages, texts(&["page-0"]));
    context.set_active_page("page-0").unwrap();
    assert_eq!(context.active_page_id().as_deref(), Some("page-0"));
    assert_eq!(context.page("page-0").map(|page| page.id().as_str()), Some("page-0"));
}

#[test]
fn registered_frames_are_found() {
    let mut context = StagehandContext::new("script");
    context.register_page("a", Some("f".to_string()));
    context.register_page("b", Some("f".to_string()));
    assert_eq!(context.page_by_frame_id("f").map(|page| page.id().as_str()), Some("b"));
    context.register_page("b", Some("g".to_string()));
    assert_eq!(context.page_by_frame_id("f"), None);
    assert_eq!(context.page_by_frame_id("g").map(|page| page.id().as_str()), Some("b"));
}
