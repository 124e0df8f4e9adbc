use stagehand::json::JsonValue;
use stagehand::logging::LogLevel;
use stagehand::settle::{
    settle_timeout_ms, DomSettle, DomSettledEvent, RequestKind, SettleInput, SettleStep,
    DEFAULT_SETTLE_TIMEOUT_MS, QUIET_WINDOW_MS, STALL_THRESHOLD_MS,
};

fn sent(id: &str, kind: RequestKind, frame: Option<&str>) -> DomSettledEvent {
    DomSettledEvent::RequestWillBeSent {
        request_id: id.to_string(),
        url: format!("https://{id}"),
        kind,
        frame_id: frame.map(|frame| frame.to_string()),
    }
}

#[test]
fn a_quiet_page_has_settled() {
    let mut notes = Vec::new();
    let mut watch = DomSettle::new(100);
    assert_eq!(watch.quiet_deadline_ms(), Some(100 + QUIET_WINDOW_MS));
    assert_eq!(watch.step(SettleInput::QuietElapsed, 600, &mut notes), SettleStep::Settled);
}

#[test]
fn requests_keep_a_page_busy() {
    let mut notes = Vec::new();
    let mut watch = DomSettle::new(0);
    watch.step(SettleInput::Event(sent("r", RequestKind::Other, None)), 10, &mut notes);
    assert_eq!(watch.quiet_deadline_ms(), None);
    assert_eq!(
        watch.step(SettleInput::TimedOut, 20, &mut notes),
        SettleStep::TimedOut { inflight: 1 }
    );
    assert_eq!(notes.len(), 1);
    assert_eq!(notes[0].message, "DOM settle timeout reached with 1 inflight requests");
    let loaded = DomSettledEvent::LoadingFinished("r".to_string());
    let step = watch.step(SettleInput::Event(loaded), 30, &mut notes);
    assert_eq!(step, SettleStep::Waiting);
    assert_eq!(watch.quiet_deadline_ms(), Some(30 + QUIET_WINDOW_MS));
    assert_eq!(watch.step(SettleInput::StreamEnded, 40, &mut notes), SettleStep::Settled);
}

#[test]
fn open_connections_do_not_count() {
    let mut watch = DomSettle::new(0);
    watch.handle_dom_event(sent("w", RequestKind::WebSocket, None), 1);
    watch.handle_dom_event(sent("e", RequestKind::EventSource, None), 1);
    assert_eq!(watch.quiet_deadline_ms(), Some(QUIET_WINDOW_MS));
}

#[test]
fn a_stopped_frame_ends_its_document() {
    let mut watch = DomSettle::new(0);
    watch.handle_dom_event(sent("d", RequestKind::Document, Some("frame")), 1);
    watch.handle_dom_event(DomSettledEvent::FrameStopped("other".to_string()), 2);
    assert_eq!(watch.quiet_deadline_ms(), None);
    watch.handle_dom_event(DomSettledEvent::FrameStopped("frame".to_string()), 3);
    assert_eq!(watch.quiet_deadline_ms(), Some(3 + QUIET_WINDOW_MS));
}

#[test]
fn inline_data_is_there_at_once() {
    let mut watch = DomSettle::new(0);
    watch.handle_dom_event(sent("r", RequestKind::Other, None), 1);
    let received = |url: &str| DomSettledEvent::ResponseReceived {
        request_id: "r".to_string(),
        url: url.to_string(),
    };
    watch.handle_dom_event(received("https://r"), 2);
    assert_eq!(watch.quiet_deadline_ms(), None);
    watch.handle_dom_event(received("data:x"), 3);
    assert_eq!(watch.quiet_deadline_ms(), Some(3 + QUIET_WINDOW_MS));
}

#[test]
fn stalled_requests_are_given_up() {
    let mut notes = Vec::new();
    let mut watch = DomSettle::new(0);
    watch.handle_dom_event(sent("r", RequestKind::Other, None), 1);
    watch.sweep_stalled_requests(1 + STALL_THRESHOLD_MS, &mut notes);
    assert!(notes.is_empty());
    assert_eq!(watch.quiet_deadline_ms(), None);
    assert_eq!(
        watch.step(SettleInput::StallTick, 2 + STALL_THRESHOLD_MS, &mut notes),
        SettleStep::Waiting
    );
    assert_eq!(notes.len(), 1);
    assert_eq!(notes[0].level, LogLevel::Debug);
    assert_eq!(notes[0].category, "dom-settle");
    assert_eq!(notes[0].message, "forcing completion of stalled request");
    assert_eq!(notes[0].auxiliary, JsonValue::parse(r#"{"url": "https://r"}"#).ok());
    assert_eq!(watch.quiet_deadline_ms(), Some(2 + STALL_THRESHOLD_MS + QUIET_WINDOW_MS));
    watch.finish_request("unknown", 5000);
    assert_eq!(watch.quiet_deadline_ms(), Some(2 + STALL_THRESHOLD_MS + QUIET_WINDOW_MS));
}

#[test]
fn timeouts() {
    assert_eq!(settle_timeout_ms(Some(1), Some(2)), 1);
    assert_eq!(settle_timeout_ms(None, Some(2)), 2);
    assert_eq!(settle_timeout_ms(None, None), DEFAULT_SETTLE_TIMEOUT_MS);
}
