use std::collections::HashSet;

use stagehand::a11y::{
    build_hierarchical_tree, clean_structural_nodes, extract_url_from_ax_node,
    format_simplified_tree, json_value_to_string, mark_scrollable_nodes, normalize_whitespace,
    process_ax_node, remove_redundant_static_text_children, Cleaning, RoleAnswers,
};
use stagehand::cdp::{
    described_backend_id, evaluated_object_id, path_from_reply, resolved_object_id,
    role_from_tag_reply, ScrollAction, ScrollScan,
};
use stagehand::json::JsonValue;
use stagehand::types::a11y::{AccessibilityNode, AxNode, AxProperty, AxValue};

fn json(text: &str) -> JsonValue {
    JsonValue::parse(text).expect("valid JSON")
}

fn ax_value(value: &str) -> AxValue {
    AxValue { value_type: "string".to_string(), value: Some(JsonValue::text(value)) }
}

fn ax_node(id: &str, role: &str, name: Option<&str>, children: &[&str]) -> AxNode {
    AxNode {
        node_id: id.to_string(),
        role: Some(ax_value(role)),
        name: name.map(ax_value),
        description: None,
        value: None,
        backend_dom_node_id: id.parse().ok(),
        parent_id: None,
        child_ids: if children.is_empty() {
            None
        } else {
            Some(children.iter().map(|id| id.to_string()).collect())
        },
        properties: None,
    }
}

#[test]
fn build_tree_collapses_structural_nodes() {
    let nodes = vec![
        AxNode {
            node_id: "1".to_string(),
            role: Some(ax_value("RootWebArea")),
            name: Some(ax_value("Root")),
            description: None,
            value: None,
            backend_dom_node_id: Some(1),
            parent_id: None,
            child_ids: Some(vec!["2".to_string()]),
            properties: Some(vec![AxProperty {
                name: "url".to_string(),
                value: Some(json(r#"{ "value": "https://example.com" }"#)),
            }]),
        },
        AxNode {
            node_id: "2".to_string(),
            role: Some(ax_value("generic")),
            name: None,
            description: None,
            value: None,
            backend_dom_node_id: Some(2),
            parent_id: Some("1".to_string()),
            child_ids: Some(vec!["3".to_string()]),
            properties: None,
        },
        AxNode {
            node_id: "3".to_string(),
            role: Some(ax_value("button")),
            name: Some(ax_value("Submit")),
            description: None,
            value: None,
            backend_dom_node_id: Some(3),
            parent_id: Some("2".to_string()),
            child_ids: None,
            properties: None,
        },
    ];

    let result = match build_hierarchical_tree(&nodes, None) {
        Cleaning::Ready(tree) => tree,
        Cleaning::Wanted(id) => panic!("role of {id} wanted"),
    };

    assert_eq!(result.tree.len(), 1);
    let root = &result.tree[0];
    assert_eq!(root.node_id.as_deref(), Some("1"));
    assert_eq!(root.children.as_ref().unwrap().len(), 1);
    let child = &root.children.as_ref().unwrap()[0];
    assert_eq!(child.node_id.as_deref(), Some("3"));
    assert_eq!(child.role.as_deref(), Some("button"));
    assert_eq!(child.name.as_deref(), Some("Submit"));
    assert_eq!(result.id_to_url.get("1"), Some(&"https://example.com".to_string()));
    assert!(result.iframes.is_empty());
    assert!(result.simplified.contains("[3] button: Submit"));
}

#[test]
fn find_scrollable_element_ids_extracts_backend_ids() {
    let (mut scan, first) = ScrollScan::begin();
    assert_eq!(first, ScrollAction::EnsureInjection);
    let mut notes = Vec::new();
    assert_eq!(scan.step(Ok(&JsonValue::null()), &mut notes), ScrollAction::ListXpaths);
    assert_eq!(scan.step(Ok(&json(r#"["//div"]"#)), &mut notes), ScrollAction::OpenSession);
    match scan.step(Ok(&JsonValue::null()), &mut notes) {
        ScrollAction::Evaluate(expression) => assert!(expression.contains("//div")),
        other => panic!("unexpected action: {:?}", other),
    }
    let evaluated = json(r#"{"result": {"objectId": "object-1"}}"#);
    assert_eq!(scan.step(Ok(&evaluated), &mut notes), ScrollAction::Describe("object-1".to_string()));
    let described = json(r#"{"node": {"backendNodeId": 42}}"#);
    assert_eq!(scan.step(Ok(&described), &mut notes), ScrollAction::Detach);
    assert_eq!(scan.step(Ok(&JsonValue::null()), &mut notes), ScrollAction::Done);
    assert!(notes.is_empty());

    let ids = scan.ids();
    assert_eq!(ids.len(), 1);
    assert!(ids.contains(&42));
}

#[test]
fn scroll_scan_passes_over_failures() {
    let (mut scan, _) = ScrollScan::begin();
    let mut notes = Vec::new();
    scan.step(Ok(&JsonValue::null()), &mut notes);
    scan.step(Ok(&json(r#"["//a", "", "//b"]"#)), &mut notes);
    assert!(matches!(scan.step(Ok(&JsonValue::null()), &mut notes), ScrollAction::Evaluate(_)));
    match scan.step(Err("gone"), &mut notes) {
        ScrollAction::Evaluate(expression) => assert!(expression.contains("//b")),
        other => panic!("unexpected action: {:?}", other),
    }
    assert_eq!(scan.step(Ok(&json("{}")), &mut notes), ScrollAction::Detach);
    assert_eq!(scan.step(Err("shut"), &mut notes), ScrollAction::Done);
    assert_eq!(scan.step(Err("over"), &mut notes), ScrollAction::Done);
    assert!(scan.ids().is_empty());
    let messages: Vec<&str> = notes.iter().map(|note| note.message.as_str()).collect();
    assert_eq!(
        messages,
        ["Error evaluating xpath //a: gone", "Error detaching CDP session: shut"]
    );
}

#[test]
fn scroll_scan_notes_what_goes_wrong() {
    let (mut scan, _) = ScrollScan::begin();
    let mut notes = Vec::new();
    assert_eq!(scan.step(Err("no"), &mut notes), ScrollAction::Done);
    let (mut scan, _) = ScrollScan::begin();
    scan.step(Ok(&JsonValue::null()), &mut notes);
    assert_eq!(scan.step(Err("no"), &mut notes), ScrollAction::Done);
    let (mut scan, _) = ScrollScan::begin();
    scan.step(Ok(&JsonValue::null()), &mut notes);
    assert_eq!(scan.step(Ok(&json("5")), &mut notes), ScrollAction::Done);
    assert_eq!(notes[2].auxiliary, Some(json(r#"{"result": 5}"#)));
    let (mut scan, _) = ScrollScan::begin();
    scan.step(Ok(&JsonValue::null()), &mut notes);
    scan.step(Ok(&json(r#"["//a"]"#)), &mut notes);
    assert_eq!(scan.step(Err("no"), &mut notes), ScrollAction::Done);
    let (mut scan, _) = ScrollScan::begin();
    scan.step(Ok(&JsonValue::null()), &mut notes);
    scan.step(Ok(&json(r#"["//a"]"#)), &mut notes);
    scan.step(Ok(&JsonValue::null()), &mut notes);
    scan.step(Ok(&json(r#"{"result": {"objectId": "o"}}"#)), &mut notes);
    assert_eq!(scan.step(Err("no"), &mut notes), ScrollAction::Detach);
    let messages: Vec<&str> = notes.iter().map(|note| note.message.as_str()).collect();
    assert_eq!(
        messages,
        [
            "Error ensuring DOM injection before querying scrollable elements: no",
            "Error calling window.getScrollableElementXpaths: no",
            "window.getScrollableElementXpaths() did not return a list.",
            "Error creating CDP session: no",
            "Error describing node for xpath //a: no",
        ]
    );
}

#[test]
fn structural_nodes_ask_for_their_tag() {
    let nodes = vec![
        ax_node("1", "RootWebArea", Some("Root"), &["2"]),
        ax_node("2", "generic", None, &["3", "4"]),
        ax_node("3", "button", Some("A"), &[]),
        ax_node("4", "button", Some("B"), &[]),
    ];
    let mut answers = RoleAnswers::new();
    let wanted = match build_hierarchical_tree(&nodes, Some(&answers)) {
        Cleaning::Wanted(id) => id,
        Cleaning::Ready(_) => panic!("a role should be wanted"),
    };
    assert_eq!(wanted, 2);
    assert!(answers.lookup(2).is_none());
    answers.record(2, Some("div".to_string()));
    assert_eq!(answers.lookup(2), Some(&Some("div".to_string())));
    match build_hierarchical_tree(&nodes, Some(&answers)) {
        Cleaning::Ready(tree) => {
            assert!(tree.simplified.contains("[2] div"), "{}", tree.simplified);
        }
        Cleaning::Wanted(id) => panic!("role of {id} wanted"),
    }
}

#[test]
fn cycles_do_not_hang() {
    let nodes = vec![
        ax_node("1", "RootWebArea", Some("Root"), &["2"]),
        ax_node("2", "list", Some("L"), &["1", "2"]),
    ];
    match build_hierarchical_tree(&nodes, None) {
        Cleaning::Ready(_) => {}
        Cleaning::Wanted(id) => panic!("role of {id} wanted"),
    }
}

#[test]
fn tree_text() {
    let mut leaf = AccessibilityNode::default();
    leaf.node_id = Some("7".to_string());
    leaf.role = Some("link".to_string());
    leaf.name = Some("Home".to_string());
    let mut root = AccessibilityNode::default();
    root.node_id = Some("1".to_string());
    root.role = Some("main".to_string());
    root.children = Some(vec![leaf]);
    let text = format_simplified_tree(&root, 0);
    assert!(text.contains("[1] main\n"), "{text}");
    assert!(text.contains("  [7] link: Home"), "{text}");
    match clean_structural_nodes(&root, None) {
        Cleaning::Ready(Some(node)) => assert_eq!(node.role.as_deref(), Some("main")),
        other => panic!("unexpected result: {:?}", other),
    }
}

#[test]
fn whitespace_is_normalized() {
    assert_eq!(normalize_whitespace("  a \n\t b  "), "a b");
}

#[test]
fn repeated_static_text_is_dropped() {
    let text = |value: &str| {
        let mut node = AccessibilityNode::default();
        node.role = Some("StaticText".to_string());
        node.name = Some(value.to_string());
        node
    };
    let mut parent = AccessibilityNode::default();
    parent.name = Some("Helloworld".to_string());
    let kept =
        remove_redundant_static_text_children(&parent, vec![text("Hello"), text("world")]);
    assert!(kept.is_empty());
    let kept = remove_redundant_static_text_children(&parent, vec![text("Hello")]);
    assert_eq!(kept.len(), 1);
}

#[test]
fn values_as_text() {
    assert_eq!(json_value_to_string(&json(r#""x""#)), "x");
    assert_eq!(json_value_to_string(&json("12")), "12");
    assert_eq!(json_value_to_string(&json("true")), "true");
}

#[test]
fn nodes_are_read() {
    let node = process_ax_node(&ax_node("5", "button", Some("Go"), &[])).unwrap();
    assert_eq!(node.role.as_deref(), Some("button"));
    assert_eq!(node.name.as_deref(), Some("Go"));
    let mut linked = ax_node("5", "link", None, &[]);
    linked.properties = Some(vec![AxProperty {
        name: "url".to_string(),
        value: Some(json(r#"{"value": " https://x "}"#)),
    }]);
    assert_eq!(extract_url_from_ax_node(&linked).as_deref(), Some("https://x"));
}

#[test]
fn scrollable_nodes_are_marked() {
    let mut nodes = vec![ax_node("1", "list", None, &[]), ax_node("2", "generic", None, &[])];
    let mut ids = HashSet::new();
    ids.insert(1);
    ids.insert(2);
    mark_scrollable_nodes(&mut nodes, &ids);
    let role = |node: &AxNode| {
        node.role.as_ref().unwrap().value.as_ref().unwrap().as_str().unwrap().clone()
    };
    assert_eq!(role(&nodes[0]), "scrollable, list");
    assert_eq!(role(&nodes[1]), "scrollable");
}

#[test]
fn protocol_replies() {
    assert_eq!(resolved_object_id(&json(r#"{"object": {"objectId": "o"}}"#)).as_deref(), Some("o"));
    assert_eq!(evaluated_object_id(&json(r#"{"result": {"objectId": "o"}}"#)).as_deref(), Some("o"));
    assert_eq!(described_backend_id(&json(r#"{"node": {"backendNodeId": 9}}"#)), Some(9));
    assert_eq!(described_backend_id(&json("{}")), None);
    assert_eq!(
        role_from_tag_reply(&json(r#"{"result": {"value": "DIV"}}"#)).as_deref(),
        Some("div")
    );
    assert_eq!(path_from_reply(Some(&json(r#"{"result": {"value": "/html[1]"}}"#))), "/html[1]");
    assert_eq!(path_from_reply(None), "");
}

#[test]
fn no_element_is_asked_about_twice() {
    let mut nodes = vec![
        ax_node("1", "RootWebArea", Some("Root"), &["2", "5", "-7"]),
        ax_node("2", "generic", None, &["3", "4"]),
        ax_node("3", "button", Some("a"), &[]),
        ax_node("4", "button", Some("b"), &[]),
        ax_node("5", "combobox", Some("c"), &["6", "8"]),
        ax_node("6", "option", Some("d"), &[]),
        ax_node("8", "none", None, &["9"]),
        ax_node("-7", "button", Some("hidden"), &[]),
    ];
    for node in nodes.iter_mut().skip(1) {
        node.parent_id = Some("1".to_string());
    }
    let mut answers = RoleAnswers::new();
    let mut asked = Vec::new();
    let tree = loop {
        match build_hierarchical_tree(&nodes, Some(&answers)) {
            Cleaning::Ready(tree) => break tree,
            Cleaning::Wanted(id) => {
                asked.push(id);
                answers.record(id, if id == 2 { Some("section".to_string()) } else { None });
            }
        }
    };
    assert_eq!(asked, vec![2, 5]);
    let expected = "[1] RootWebArea: Root\n  [2] section\n    [3] button: a\n    [4] button: b\n  \
                    [5] combobox: c\n    [6] option: d\n";
    assert_eq!(tree.simplified, expected);
    answers.record(99, Some("other".to_string()));
    match build_hierarchical_tree(&nodes, Some(&answers)) {
        Cleaning::Ready(again) => assert_eq!(again.simplified, expected),
        Cleaning::Wanted(id) => panic!("asked again about {id}"),
    }
}

#[test]
fn deeper_trees_are_moved_in() {
    let mut leaf = AccessibilityNode::default();
    leaf.node_id = Some("3".to_string());
    leaf.role = Some("link".to_string());
    leaf.name = Some("Home".to_string());
    let mut inner = AccessibilityNode::default();
    inner.name = Some(String::new());
    inner.children = Some(vec![leaf]);
    let mut root = AccessibilityNode::default();
    root.node_id = Some("1".to_string());
    root.children = Some(vec![inner, AccessibilityNode::default()]);
    let text = format_simplified_tree(&root, 0);
    assert_eq!(text, "[1] None\n  [None] None\n    [3] link: Home\n  [None] None\n");
    let deeper: String = text.lines().map(|line| format!("  {line}\n")).collect();
    assert_eq!(format_simplified_tree(&root, 1), deeper);
}
