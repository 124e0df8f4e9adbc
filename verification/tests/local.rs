use stagehand::act::{build_self_heal_command, substitute_variables, ActFlow, ActStep};
use stagehand::extract::{
    choose_extract_data, coerce_extract_data, extract_from_parsed, extract_from_reply, inject_urls,
    join_errors, replace_with_url, validate_against_schema,
};
use stagehand::json::JsonValue;
use stagehand::keys::{
    camel_to_snake_case, convert_keys_to_camel_case, convert_keys_to_snake_case, snake_to_camel_case,
};
use stagehand::llm::{build_extract_response_format, ReplyFormat};
use stagehand::logging::{LogLevel, Note};
use stagehand::observe::{
    append_iframes, attach_selector, elements_from_parsed, elements_from_reply, ids_added,
    navigation_change, note_done, note_navigation, note_new_page, read_element, selector_target,
    snapshot_url, NavigationChange, NavigationSnapshot,
};
use stagehand::selectors::{SelectorAsk, SelectorScan};
use stagehand::skim::{split_items, split_members};
use stagehand::table::Table;
use stagehand::types::a11y::AccessibilityNode;
use stagehand::types::page::{ActOptions, ActResult, ObserveElementSchema, ObserveResult};

fn json(text: &str) -> JsonValue {
    JsonValue::parse(text).expect("valid JSON")
}

fn table(pairs: &[(&str, &str)]) -> Table<String> {
    let mut table = Table::new();
    for (key, value) in pairs {
        table.insert(key, value.to_string());
    }
    table
}

fn found(method: Option<&str>, description: &str, arguments: Option<Vec<&str>>) -> ObserveResult {
    ObserveResult {
        selector: "xpath=//button".to_string(),
        description: description.to_string(),
        backend_node_id: Some(1),
        method: method.map(|method| method.to_string()),
        arguments: arguments.map(|list| list.into_iter().map(|text| text.to_string()).collect()),
    }
}

fn note(level: LogLevel, category: &str, message: &str) -> Note {
    Note {
        level,
        message: message.to_string(),
        category: category.to_string(),
        auxiliary: None,
    }
}

#[test]
fn substitute_variables_replaces_tokens() {
    let args = vec!["click on %TARGET% now".to_string(), "value=%VALUE%".to_string()];
    let vars = table(&[("TARGET", "button"), ("VALUE", "42")]);

    let substituted = substitute_variables(&args, &vars);
    assert_eq!(substituted, vec!["click on button now".to_string(), "value=42".to_string()]);
}

#[test]
fn build_extract_response_format_wraps_schema() {
    let schema = json(r#"{ "type": "object", "properties": { "name": { "type": "string" } } }"#);
    let format = build_extract_response_format(Some(&schema));
    match format {
        Some(ReplyFormat::JsonSchema { name, schema: asked, strict }) => {
            assert_eq!(name, "extraction_schema");
            assert_eq!(asked, schema);
            assert!(!strict);
        }
        other => panic!("unexpected response format: {:?}", other),
    }
    assert_eq!(build_extract_response_format(None), None);
}

#[test]
fn inject_urls_replaces_matching_ids() {
    let mut value = json(
        r#"{
            "url": 42,
            "nested": {
                "items": [
                    { "linkUrl": "7" },
                    { "other": "value" }
                ]
            }
        }"#,
    );
    let map = table(&[("42", "https://example.com"), ("7", "https://example.com/inner")]);

    inject_urls(&mut value, &map);
    assert_eq!(value.get("url"), Some(&JsonValue::text("https://example.com")));
    let items = value.get("nested").unwrap().get("items").unwrap().as_array().unwrap();
    assert_eq!(items[0].get("linkUrl"), Some(&JsonValue::text("https://example.com/inner")));
}

#[test]
fn build_self_heal_command_prefers_existing_description() {
    let result = ObserveResult {
        selector: "xpath=//button".to_string(),
        description: "click Submit button".to_string(),
        backend_node_id: Some(1),
        method: Some("click".to_string()),
        arguments: None,
    };

    let command = build_self_heal_command(&result);
    assert_eq!(command.as_deref(), Some("click Submit button"));
}

#[test]
fn convert_keys_to_snake_case_handles_nested_objects() {
    let value = json(
        r#"{
            "companyName": "Stagehand",
            "details": {
                "headquartersCity": "San Francisco"
            },
            "items": [
                { "externalUrl": "1" }
            ]
        }"#,
    );

    let normalized = convert_keys_to_snake_case(&value);
    assert!(normalized.get("company_name").is_some());
    assert!(normalized
        .get("details")
        .and_then(|details| details.get("headquarters_city"))
        .is_some());
    assert!(normalized
        .get("items")
        .and_then(|items| items.as_array())
        .and_then(|items| items.first())
        .and_then(|item| item.get("external_url"))
        .is_some());
}

#[test]
fn coerce_extract_data_normalizes_and_validates_against_schema() {
    let schema = json(
        r#"{
            "type": "object",
            "properties": {
                "company_name": { "type": "string" }
            },
            "required": ["company_name"],
            "additionalProperties": false
        }"#,
    );

    let input = json(r#"{ "companyName": "Stagehand" }"#);
    let mut notes = Vec::new();
    let result = coerce_extract_data(input, Some(&schema), &mut notes);

    assert_eq!(result.get("company_name"), Some(&JsonValue::text("Stagehand")));
    assert_eq!(
        notes,
        vec![
            note(
                LogLevel::Debug,
                "extract",
                "Schema validation failed for extract data: Additional properties are not allowed \
                 ('companyName' was unexpected); \"company_name\" is a required property",
            ),
            note(
                LogLevel::Debug,
                "extract",
                "Schema validation succeeded after camelCase normalization",
            ),
        ]
    );
}

#[test]
fn data_that_never_fits_is_returned_as_it_is() {
    let schema = json(r#"{ "type": "object", "required": ["missing"] }"#);
    let input = json(r#"{ "companyName": 1 }"#);
    let mut notes = Vec::new();
    assert_eq!(coerce_extract_data(input.copy(), Some(&schema), &mut notes), input);
    let lacking = "\"missing\" is a required property";
    let both = format!(
        "Failed to validate extract data against schema: {lacking}. Normalization retry also \
         failed: {lacking}. Returning raw data."
    );
    assert_eq!(notes.len(), 2);
    assert_eq!(notes[1], note(LogLevel::Error, "extract", &both));
    notes.clear();
    let fitting = json(r#"{ "missing": 1, "companyName": 1 }"#);
    assert_eq!(coerce_extract_data(fitting.copy(), Some(&schema), &mut notes), fitting);
    assert!(notes.is_empty());
    assert_eq!(validate_against_schema(&schema, &input), Err(lacking.to_string()));
    assert!(validate_against_schema(&schema, &fitting).is_ok());
    assert!(validate_against_schema(&schema, &input).is_err());
    assert!(validate_against_schema(&json(r#"{ "type": 5 }"#), &input).is_err());
}

#[test]
fn plain_extraction_keeps_only_the_text() {
    let input = json(r#"{ "extraction": "text", "extra": 1 }"#);
    let mut notes = Vec::new();
    assert_eq!(coerce_extract_data(input, None, &mut notes), json(r#"{ "extraction": "text" }"#));
    let other = json(r#"{ "extraction": 1 }"#);
    assert_eq!(coerce_extract_data(other.copy(), None, &mut notes), other);
    assert!(notes.is_empty());
}

#[test]
fn extracted_data_is_chosen() {
    let data = || json(r#"{"aB": 1}"#);
    let failed = |why: &str| Err(why.to_string());
    let mut notes = Vec::new();
    assert_eq!(choose_extract_data(data(), Ok(()), failed("x"), &mut notes), data());
    assert!(notes.is_empty());
    let snake = json(r#"{"a_b": 1}"#);
    assert_eq!(choose_extract_data(data(), failed("x"), Ok(()), &mut notes), snake);
    assert_eq!(notes[0].message, "Schema validation failed for extract data: x");
    assert_eq!(choose_extract_data(data(), failed("x"), failed("y"), &mut notes), data());
    assert_eq!(notes.len(), 4);
    assert!(notes[3].message.contains(": x. Normalization retry also failed: y."));
}

#[test]
fn long_lists_of_prices_are_held_against_a_schema() {
    let schema = json(r#"{"items": {"required": ["unit_price"]}}"#);
    let products = |key: &str| {
        let items: Vec<String> = (0..20).map(|n| format!(r#"{{"{key}": {n}.5}}"#)).collect();
        json(&format!("[{}]", items.join(", ")))
    };
    let mut notes = Vec::new();
    let data = coerce_extract_data(products("unitPrice"), Some(&schema), &mut notes);
    assert_eq!(data, products("unit_price"));
    assert_eq!(notes.len(), 2);
}

#[test]
fn errors_are_joined() {
    assert_eq!(join_errors(Ok(())), Ok(()));
    let errors = vec!["a".to_string(), "b".to_string()];
    assert_eq!(join_errors(Err(errors)), Err("a; b".to_string()));
}

#[test]
fn extraction_from_a_reply() {
    let urls = table(&[("3", "https://three")]);
    let reply = r#"{"data": {"pageUrl": 3, "n": 3}}"#;
    let mut notes = Vec::new();
    assert_eq!(
        extract_from_reply(reply, &urls, None, &mut notes),
        Some(json(r#"{"pageUrl": "https://three", "n": 3}"#))
    );
    assert!(notes.is_empty());
    assert_eq!(extract_from_reply("no json", &urls, None, &mut notes), None);
    let why = JsonValue::parse("no json").unwrap_err();
    let message = format!("Failed to parse extract response: {why}");
    assert_eq!(notes, vec![note(LogLevel::Error, "extract", &message)]);
    assert_eq!(extract_from_parsed(&json("[1]"), &table(&[]), None, &mut notes), json("[1]"));
}

#[test]
fn ids_become_addresses_only_where_known() {
    let urls = table(&[("3", "https://three")]);
    assert_eq!(replace_with_url(&json("3"), &urls), json(r#""https://three""#));
    assert_eq!(replace_with_url(&json(r#"" 3 ""#), &urls), json(r#""https://three""#));
    assert_eq!(replace_with_url(&json("4"), &urls), json("4"));
    assert_eq!(replace_with_url(&json("3.5"), &urls), json("3.5"));
    let mut value = json(r#"{"url": 3}"#);
    inject_urls(&mut value, &table(&[]));
    assert_eq!(value, json(r#"{"url": 3}"#));
}

#[test]
fn heal_commands() {
    assert_eq!(build_self_heal_command(&found(None, "  ", None)), None);
    assert_eq!(build_self_heal_command(&found(None, " press it ", None)).as_deref(), Some("press it"));
    assert_eq!(
        build_self_heal_command(&found(Some("fill"), "the name", None)).as_deref(),
        Some("fill the name")
    );
    assert_eq!(build_self_heal_command(&found(Some("fill"), "", None)).as_deref(), Some("fill"));
    assert_eq!(
        build_self_heal_command(&found(Some("CLICK"), "Click here", None)).as_deref(),
        Some("Click here")
    );
}

fn act_options(action: &str, variables: Option<Table<String>>) -> ActOptions {
    ActOptions {
        action: action.to_string(),
        variables,
        model_name: Some("m".to_string()),
        dom_settle_timeout_ms: Some(5),
        timeout_ms: None,
        model_client_options: None,
    }
}

#[test]
fn acting_tries_again_once() {
    let mut flow = ActFlow::begin(act_options("press", Some(table(&[("V", "x")]))), true);
    assert_eq!(flow.start_message(), "Starting action for task: 'press'");
    let options = flow.observe_options();
    assert!(options.instruction.contains("press") && options.instruction.contains("- %V%: x"));
    assert_eq!(options.draw_overlay, Some(false));
    assert_eq!(options.dom_settle_timeout_ms, Some(5));
    let selected = match flow.on_observed(vec![found(Some("fill"), "the name", Some(vec!["%V%"]))]) {
        ActStep::Perform(selected) => selected,
        other => panic!("unexpected step: {:?}", other),
    };
    assert_eq!(selected.arguments, Some(vec!["x".to_string()]));
    let mut notes = Vec::new();
    assert_eq!(flow.on_performed(&selected, Some("broken"), &mut notes), ActStep::Retry);
    let message = "Attempting self-heal with command: 'fill the name'";
    assert_eq!(notes, vec![note(LogLevel::Info, "act", message)]);
    assert_eq!(flow.start_message(), "Self-heal attempt 2 for task: 'fill the name'");
    assert!(!flow.observe_options().instruction.contains("%V%"));
    let failed = ActResult {
        success: false,
        message: "Failed to perform act: again".to_string(),
        action: "press".to_string(),
    };
    let step = flow.on_performed(&selected, Some("again"), &mut notes);
    assert_eq!(step, ActStep::Finished(failed));
    assert_eq!(notes.len(), 1);
}

#[test]
fn acting_ends_well_or_without_a_second_try() {
    let selected = found(Some("click"), "the button", None);
    let mut flow = ActFlow::begin(act_options("press", None), false);
    let mut notes = Vec::new();
    assert_eq!(
        flow.on_performed(&selected, None, &mut notes),
        ActStep::Finished(ActResult {
            success: true,
            message: "Action [click] performed successfully on selector: xpath=//button".to_string(),
            action: "the button".to_string(),
        })
    );
    let failure = |step: ActStep| match step {
        ActStep::Finished(result) => result.message,
        other => panic!("unexpected step: {:?}", other),
    };
    let step = flow.on_performed(&selected, Some("e"), &mut notes);
    assert_eq!(failure(step), "Failed to perform act: e");
    assert!(notes.is_empty());
    let mut same = ActFlow::begin(act_options(" CLICK the button", None), true);
    let step = same.on_performed(&selected, Some("e"), &mut notes);
    assert_eq!(failure(step), "Failed to perform act: e");
    let mut silent = ActFlow::begin(act_options("press", None), true);
    let step = silent.on_performed(&found(None, "", None), Some("e"), &mut notes);
    assert_eq!(failure(step), "Failed to perform act: e");
    assert_eq!(
        notes,
        vec![
            note(
                LogLevel::Error,
                "act",
                "Self-heal attempt aborted: fallback command matches original action",
            ),
            note(
                LogLevel::Error,
                "act",
                "Self-heal attempt aborted: could not construct a fallback command",
            ),
        ]
    );
    assert_eq!(failure(flow.on_observed(vec![])), "No observe results found for action");
    let unnamed = found(None, " ", None);
    match flow.on_performed(&unnamed, None, &mut notes) {
        ActStep::Finished(result) => {
            assert_eq!(result.action, "observe action");
            assert!(result.message.starts_with("Action [unknown]"));
        }
        other => panic!("unexpected step: {:?}", other),
    }
}

#[test]
fn key_cases() {
    assert_eq!(camel_to_snake_case("companyName"), "company_name");
    assert_eq!(camel_to_snake_case("HTTPServer"), "http_server");
    assert_eq!(camel_to_snake_case("a-b"), "a_b");
    assert_eq!(snake_to_camel_case("api_timeout_ms"), "apiTimeoutMs");
    assert_eq!(snake_to_camel_case("already"), "already");
    let key = "aHTTP-Server_Name2";
    let letters = key.to_lowercase().replace(['_', '-'], "");
    assert_eq!(camel_to_snake_case(key).replace('_', ""), letters);
    let camel = snake_to_camel_case(key).to_lowercase();
    assert_eq!(camel, key.to_lowercase().replace('_', ""));
    assert_eq!(snake_to_camel_case("_x__Y"), "XY");
    for name in ["companyName", "HTTPServer", "a-b", "x_y"] {
        let snake = camel_to_snake_case(name);
        assert_eq!(camel_to_snake_case(&snake), snake);
        let camel = snake_to_camel_case(name);
        assert_eq!(snake_to_camel_case(&camel), camel);
    }
    assert_eq!(
        convert_keys_to_camel_case(&json(r#"{"a_b": [{"c_d": 1}]}"#)),
        json(r#"{"aB": [{"cD": 1}]}"#)
    );
}

#[test]
fn elements_in_replies() {
    let element = r#"{"element_id": 4, "description": "d", "method": "click", "arguments": ["a"]}"#;
    let expected = ObserveElementSchema {
        element_id: 4,
        description: "d".to_string(),
        method: "click".to_string(),
        arguments: vec!["a".to_string()],
    };
    assert_eq!(read_element(&json(element)), Some(expected));
    assert_eq!(read_element(&json(r#"{"element_id": 4}"#)), None);
    assert_eq!(elements_from_parsed(&json(r#"{"elements": [1]}"#)).len(), 0);
    let mut notes = Vec::new();
    let mut count = |reply: &str| elements_from_reply(reply, &mut notes).len();
    assert_eq!(count(&format!("[{element}]")), 1);
    assert_eq!(count(&format!(r#"{{"elements": [{element}, {element}]}}"#)), 2);
    assert_eq!(count("nothing"), 0);
    let why = JsonValue::parse("nothing").unwrap_err();
    let message = format!("Failed to parse observe response: {why}");
    assert_eq!(notes, vec![note(LogLevel::Error, "observe", &message)]);
}

#[test]
fn elements_with_a_part_twice_are_not_read_from_a_list() {
    let element = r#"{"element_id": 4, "description": "d", "method": "click", "arguments": []}"#;
    let mut notes = Vec::new();
    let mut count = |reply: &str| elements_from_reply(reply, &mut notes).len();
    let twice = element.replace(r#""method""#, r#""method": "x", "m\u0065thod""#);
    assert_eq!(count(&format!("[{element}, {twice}]")), 0);
    assert_eq!(count(&format!(r#"{{"elements": [{twice}]}}"#)), 1);
    let other = r#""x": {"method": 1}, "x": "a,\"", "method""#;
    let other = element.replace(r#""method""#, other);
    assert_eq!(count(&format!("[{other}, {other}]")), 2);
    assert_eq!(count(r#"[[4, "method", "method", ["method", "method"]]]"#), 1);
    assert!(notes.is_empty());
}

#[test]
fn unknown_parts_of_a_listed_element_are_skipped() {
    let element = r#"{"element_id": 4, "description": "d", "method": "click", "arguments": []"#;
    let deep = format!("{}{}", "[".repeat(200), "]".repeat(200));
    let mut notes = Vec::new();
    let mut count = |reply: &str| elements_from_reply(reply, &mut notes).len();
    assert_eq!(count(&format!(r#"[{element}, "x": 1e999}}]"#)), 1);
    assert_eq!(count(&format!(r#"[{element}, "x": "\ud800"}}]"#)), 1);
    assert_eq!(count(&format!(r#" [ {element} , "x": {deep} }} ] "#)), 1);
    assert_eq!(count("[]"), 0);
    assert!(notes.is_empty());
    let mut count = |reply: &str| elements_from_reply(reply, &mut notes).len();
    assert_eq!(count(&format!(r#"[{element}, "x": 1e}}]"#)), 0);
    assert_eq!(count(&format!(r#"[{element}, "x": 1e999,}}]"#)), 0);
    assert_eq!(count(&format!(r#"[{element}, "x": 1e999}},]"#)), 0);
    assert_eq!(count(&format!(r#"[{element}, "\ud800": 1}}]"#)), 0);
    assert_eq!(count(&format!(r#"{{"elements": [{element}, "x": 1e999}}]}}"#)), 0);
    assert_eq!(notes.len(), 5);
}

#[test]
fn parts_are_taken_apart_as_they_are_written() {
    let texts = |list: &[&str]| list.iter().map(|text| text.to_string()).collect::<Vec<_>>();
    assert_eq!(split_items(r#" [1, "a,]" ,[2]]"#), Some(texts(&["1", r#" "a,]""#, "[2]"])));
    assert_eq!(split_items("[ ] "), Some(vec![]));
    assert_eq!(split_items("[1] 2"), None);
    assert_eq!(split_items("[1,]"), None);
    assert_eq!(split_items("{}"), None);
    let members = split_members(r#"{"a\u0062": 1, "c" : {"d": 2}}"#).unwrap();
    assert_eq!(members[0], ("ab".to_string(), " 1".to_string()));
    assert_eq!(members[1], ("c".to_string(), r#" {"d": 2}"#.to_string()));
    assert_eq!(split_members("{ }"), Some(vec![]));
    assert_eq!(split_members(r#"{"a" 1}"#), None);
    assert_eq!(split_members(r#"{"a": 1} x"#), None);
}

#[test]
fn frames_are_elements_too() {
    let mut node = AccessibilityNode::default();
    node.node_id = Some("12".to_string());
    let mut unnamed = AccessibilityNode::default();
    unnamed.node_id = Some("x".to_string());
    let mut elements = Vec::new();
    append_iframes(&mut elements, &vec![node, unnamed]);
    assert_eq!(elements.len(), 1);
    assert_eq!(elements[0].element_id, 12);
    assert_eq!(elements[0].description, "an iframe");
    assert_eq!(elements[0].method, "not-supported");
}

#[test]
fn selectors() {
    let element = |id: i64| ObserveElementSchema {
        element_id: id,
        description: "d".to_string(),
        method: "click".to_string(),
        arguments: vec![],
    };
    assert_eq!(selector_target(&element(0)), None);
    assert_eq!(selector_target(&element(3)), Some(3));
    assert_eq!(attach_selector(&element(3), ""), None);
    let result = attach_selector(&element(3), "/html").unwrap();
    assert_eq!(result.selector, "xpath=/html");
    assert_eq!(result.backend_node_id, Some(3));
    assert_eq!(result.arguments, None);
}

#[test]
fn what_an_action_changed() {
    let texts = |list: &[&str]| list.iter().map(|text| text.to_string()).collect::<Vec<String>>();
    let before = NavigationSnapshot {
        url: Some("a".to_string()),
        page_ids: texts(&["1", "2"]),
        frame_ids: table(&[("1", "f1"), ("2", "f2")]),
    };
    let after = NavigationSnapshot {
        url: Some("b".to_string()),
        page_ids: texts(&["2", "3"]),
        frame_ids: table(&[("1", "f1"), ("2", "g2"), ("3", "f3")]),
    };
    let change = navigation_change(&before, &after);
    assert_eq!(change.navigated_to.as_deref(), Some("b"));
    assert_eq!(change.new_pages, texts(&["3"]));
    assert_eq!(
        change.new_frames,
        vec![("2".to_string(), "g2".to_string()), ("3".to_string(), "f3".to_string())]
    );
    let same = navigation_change(&after, &after);
    assert_eq!(same.navigated_to, None);
    assert!(same.new_pages.is_empty() && same.new_frames.is_empty());
    assert_eq!(ids_added(&texts(&["1"]), &texts(&["1", "2"])), texts(&["2"]));
    assert_eq!(snapshot_url(&json(r#""u""#)).as_deref(), Some("u"));
    assert_eq!(snapshot_url(&json(r#""""#)), None);
    assert_eq!(snapshot_url(&json("1")), None);
}

#[test]
fn selectors_are_found_one_by_one() {
    let element = |id: i64| ObserveElementSchema {
        element_id: id,
        description: format!("e{id}"),
        method: "click".to_string(),
        arguments: vec!["a".to_string()],
    };
    let (mut scan, ask) =
        SelectorScan::begin(vec![element(-1), element(2), element(3), element(0), element(4)]);
    assert_eq!(ask, SelectorAsk::Resolve(2));
    let resolved = json(r#"{"object": {"objectId": "o2"}}"#);
    assert_eq!(scan.on_resolved(&resolved), SelectorAsk::Path("o2".to_string()));
    assert_eq!(scan.on_path("/html"), SelectorAsk::Resolve(3));
    assert_eq!(scan.on_resolved(&json("{}")), SelectorAsk::Resolve(4));
    assert_eq!(scan.on_resolved(&resolved), SelectorAsk::Path("o2".to_string()));
    assert_eq!(scan.on_path(""), SelectorAsk::Done);
    let results = scan.finish();
    assert_eq!(results.len(), 1);
    assert_eq!(results[0].selector, "xpath=/html");
    assert_eq!(results[0].arguments, Some(vec!["a".to_string()]));
    assert_eq!(SelectorScan::begin(vec![]).1, SelectorAsk::Done);
}

#[test]
fn changes_are_reported() {
    let change = NavigationChange {
        navigated_to: Some("https://x".to_string()),
        new_pages: vec!["p".to_string()],
        new_frames: vec![],
    };
    let navigated = note_navigation("click", "xpath=//a", &change).unwrap();
    assert_eq!(navigated.message, "Navigation detected after click: https://x");
    assert_eq!(navigated.auxiliary, Some(json(r#"{"selector": "xpath=//a"}"#)));
    let done = note_done("click", "xpath=//a");
    assert_eq!(done.message, "click action complete; checking for navigation");
    assert_eq!(done.auxiliary, navigated.auxiliary);
    let opened = note_new_page("click", "p");
    assert_eq!(opened, note(LogLevel::Info, "act", "New page detected after click: p"));
    let still = NavigationChange { navigated_to: None, new_pages: vec![], new_frames: vec![] };
    assert_eq!(note_navigation("click", "xpath=//a", &still), None);
}
