use stagehand::json::JsonValue;
use stagehand::metrics::{
    checked_replay_metrics, duration_from_millis, get_inference_time_ms, parse_replay_metrics,
    stagehand_function_from_str, start_inference_timer, StagehandFunctionName, StagehandMetrics,
};

#[test]
fn record_updates_totals() {
    let mut metrics = StagehandMetrics::default();
    metrics.record(StagehandFunctionName::Act, 10, 5, 100);
    metrics.record(StagehandFunctionName::Act, 2, 3, 40);
    metrics.record(StagehandFunctionName::Observe, 1, 1, 20);

    assert_eq!(metrics.act_prompt_tokens, 12);
    assert_eq!(metrics.act_completion_tokens, 8);
    assert_eq!(metrics.act_inference_time_ms, 140);
    assert_eq!(metrics.observe_inference_time_ms, 20);
    assert_eq!(metrics.total_prompt_tokens, 13);
    assert_eq!(metrics.total_completion_tokens, 9);
    assert_eq!(metrics.total_inference_time_ms, 160);
}

#[test]
fn merge_combines_two_instances() {
    let mut a = StagehandMetrics::default();
    a.record(StagehandFunctionName::Extract, 4, 2, 50);

    let mut b = StagehandMetrics::default();
    b.record(StagehandFunctionName::Extract, 1, 1, 20);
    b.record(StagehandFunctionName::Agent, 3, 2, 30);

    a.merge(&b);
    assert_eq!(a.extract_prompt_tokens, 5);
    assert_eq!(a.extract_completion_tokens, 3);
    assert_eq!(a.extract_inference_time_ms, 70);
    assert_eq!(a.agent_prompt_tokens, 3);
    assert_eq!(a.total_completion_tokens, 5);
}

#[test]
fn timer_reports_elapsed_millis() {
    let start = start_inference_timer();
    let wait = duration_from_millis(10);
    assert_eq!(wait.as_millis(), 10);
    while start.elapsed() < wait {}
    let elapsed = get_inference_time_ms(start);
    assert!(elapsed >= 10);
}

#[test]
fn functions_are_named_in_any_case() {
    assert_eq!(stagehand_function_from_str("ACT"), Some(StagehandFunctionName::Act));
    assert_eq!(stagehand_function_from_str("extract"), Some(StagehandFunctionName::Extract));
    assert_eq!(stagehand_function_from_str("Observe"), Some(StagehandFunctionName::Observe));
    assert_eq!(stagehand_function_from_str("agent"), Some(StagehandFunctionName::Agent));
    assert_eq!(stagehand_function_from_str("goto"), None);
}

#[test]
fn totals_alone_count_what_has_no_function() {
    let mut metrics = StagehandMetrics::default();
    metrics.record_total(1, 2, 3);
    assert_eq!(metrics.total_completion_tokens, 2);
    assert_eq!(metrics.act_completion_tokens, 0);
    assert!(metrics.try_record(Some(StagehandFunctionName::Agent), 1, 1, 1));
    assert_eq!(metrics.total_inference_time_ms, 4);
    assert!(!metrics.try_record(None, u64::MAX, 0, 0));
    assert_eq!(metrics.total_prompt_tokens, 2);
}

#[test]
fn replay_adds_up_every_action() {
    let data = JsonValue::parse(
        r#"{"pages": [
            {"actions": [{"method": "act", "tokenUsage": {"inputTokens": 4, "timeMs": 50}}]},
            {"actions": [{"method": "goto", "tokenUsage": {"outputTokens": 7}}, {"method": "act"}]},
            {"other": 1}
        ]}"#,
    )
    .unwrap();
    let metrics = parse_replay_metrics(&data);
    assert_eq!(metrics.act_prompt_tokens, 4);
    assert_eq!(metrics.act_inference_time_ms, 50);
    assert_eq!(metrics.total_prompt_tokens, 4);
    assert_eq!(metrics.total_completion_tokens, 7);
    assert_eq!(checked_replay_metrics(&JsonValue::null()), Some(StagehandMetrics::default()));
    let huge = JsonValue::parse(
        r#"{"pages": [{"actions": [
            {"method": "act", "tokenUsage": {"inputTokens": 18446744073709551615}},
            {"method": "act", "tokenUsage": {"inputTokens": 1}}
        ]}]}"#,
    )
    .unwrap();
    assert_eq!(checked_replay_metrics(&huge), None);
}
