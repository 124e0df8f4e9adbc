use stagehand::dom_scripts::{stagehand_dom_script, STAGEHAND_DOM_SCRIPT};

#[test]
fn embedded_script_is_non_empty() {
    assert!(!STAGEHAND_DOM_SCRIPT.trim().is_empty());
    assert_eq!(stagehand_dom_script(), STAGEHAND_DOM_SCRIPT);
}

#[test]
fn embedded_script_contains_expected_marker() {
    assert!(
        STAGEHAND_DOM_SCRIPT.contains("getScrollableElementXpaths"),
        "dom script should expose Stagehand scrollable element helper"
    );
}
