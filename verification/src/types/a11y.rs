//! Accessibility nodes, as the browser reports them and as trees are made of them.
use crate::json::{Json, JsonValue};
use crate::table::Table;
use crate::text::{copy_opt, copy_texts, opt_view, opt_views};
use vstd::prelude::*;

verus! {

/// A property of an accessibility node.
#[derive(Clone, Debug, PartialEq)]
pub struct AxProperty {
    pub name: String,
    pub value: Option<JsonValue>,
}

/// A value of an accessibility node, with the name of its type.
#[derive(Clone, Debug, PartialEq)]
pub struct AxValue {
    pub value_type: String,
    pub value: Option<JsonValue>,
}

/// An accessibility node as the browser reports it.
#[derive(Clone, Debug, PartialEq)]
pub struct AxNode {
    pub node_id: String,
    pub role: Option<AxValue>,
    pub name: Option<AxValue>,
    pub description: Option<AxValue>,
    pub value: Option<AxValue>,
    pub backend_dom_node_id: Option<i64>,
    pub parent_id: Option<String>,
    pub child_ids: Option<Vec<String>>,
    pub properties: Option<Vec<AxProperty>>,
}

/// A node of the simplified accessibility tree.
#[derive(Debug, PartialEq)]
pub struct AccessibilityNode {
    pub node_id: Option<String>,
    pub role: Option<String>,
    pub name: Option<String>,
    pub description: Option<String>,
    pub value: Option<String>,
    pub backend_dom_node_id: Option<i64>,
    pub parent_id: Option<String>,
    pub child_ids: Option<Vec<String>>,
    pub children: Option<Vec<AccessibilityNode>>,
    pub properties: Option<Vec<AxProperty>>,
}

/// The trees of a page, their text, the frames among their nodes and the
/// addresses their nodes point to.
#[derive(Clone, Debug)]
pub struct TreeResult {
    pub tree: Vec<AccessibilityNode>,
    pub simplified: String,
    pub iframes: Vec<AccessibilityNode>,
    pub id_to_url: Table<String>,
}

/// The handle of a protocol session.
pub type CdpSession = JsonValue;

/// The handle of an element.
pub type Locator = JsonValue;

/// A command on the page failed.
#[derive(Debug, PartialEq)]
pub struct PlaywrightCommandError(pub String);

/// A method on the page is not supported.
#[derive(Debug, PartialEq)]
pub struct PlaywrightMethodNotSupportedError(pub String);

/// The model of a JSON value that may be absent.
pub open spec fn opt_json(value: Option<JsonValue>) -> Option<Json> {
    match value {
        Some(value) => Some(value@),
        None => None,
    }
}

impl View for AxProperty {
    type V = (Seq<char>, Option<Json>);

    open spec fn view(&self) -> (Seq<char>, Option<Json>) {
        (self.name@, opt_json(self.value))
    }
}

/// What a list of properties stands for.
pub type Properties = Option<Seq<(Seq<char>, Option<Json>)>>;

/// The model of a list of properties that may be absent.
pub open spec fn opt_properties(properties: Option<Vec<AxProperty>>) -> Properties {
    match properties {
        Some(list) => Some(list@.map_values(|p: AxProperty| p@)),
        None => None,
    }
}

impl View for AxValue {
    type V = (Seq<char>, Option<Json>);

    open spec fn view(&self) -> (Seq<char>, Option<Json>) {
        (self.value_type@, opt_json(self.value))
    }
}

/// What an accessibility value stands for: the name of its type and its value.
pub type RawValue = Option<(Seq<char>, Option<Json>)>;

/// The model of an accessibility value that may be absent.
pub open spec fn opt_ax(value: Option<AxValue>) -> RawValue {
    match value {
        Some(value) => Some(value@),
        None => None,
    }
}

/// The JSON value inside an accessibility value that may be absent.
pub open spec fn inner(value: RawValue) -> Option<Json> {
    match value {
        Some(value) => value.1,
        None => None,
    }
}

/// What an accessibility node stands for.
#[verifier::ext_equal]
pub struct RawNode {
    pub node_id: Seq<char>,
    pub role: RawValue,
    pub name: RawValue,
    pub description: RawValue,
    pub value: RawValue,
    pub backend: Option<i64>,
    pub parent_id: Option<Seq<char>>,
    pub child_ids: Option<Seq<Seq<char>>>,
    pub properties: Properties,
}

impl View for AxNode {
    type V = RawNode;

    open spec fn view(&self) -> RawNode {
        RawNode {
            node_id: self.node_id@,
            role: opt_ax(self.role),
            name: opt_ax(self.name),
            description: opt_ax(self.description),
            value: opt_ax(self.value),
            backend: self.backend_dom_node_id,
            parent_id: opt_view(self.parent_id),
            child_ids: opt_views(self.child_ids),
            properties: opt_properties(self.properties),
        }
    }
}

/// What a node of the simplified tree stands for.
#[verifier::ext_equal]
pub struct Node {
    pub node_id: Option<Seq<char>>,
    pub role: Option<Seq<char>>,
    pub name: Option<Seq<char>>,
    pub description: Option<Seq<char>>,
    pub value: Option<Seq<char>>,
    pub backend: Option<i64>,
    pub parent_id: Option<Seq<char>>,
    pub child_ids: Option<Seq<Seq<char>>>,
    pub children: Option<Seq<Node>>,
    pub properties: Properties,
}

impl AccessibilityNode {
    /// The model of a node with everything below it.
    pub open spec fn model(self) -> Node
        decreases self,
    {
        Node {
            node_id: opt_view(self.node_id),
            role: opt_view(self.role),
            name: opt_view(self.name),
            description: opt_view(self.description),
            value: opt_view(self.value),
            backend: self.backend_dom_node_id,
            parent_id: opt_view(self.parent_id),
            child_ids: opt_views(self.child_ids),
            children: match self.children {
                Some(children) => Some(
                    Seq::new(
                        children@.len(),
                        |i: int|
                            if 0 <= i < children@.len() {
                                children@[i].model()
                            } else {
                                arbitrary()
                            },
                    ),
                ),
                None => None,
            },
            properties: opt_properties(self.properties),
        }
    }
}

impl View for AccessibilityNode {
    type V = Node;

    open spec fn view(&self) -> Node {
        self.model()
    }
}

/// The models of a list of nodes.
pub open spec fn nodes_of(nodes: Seq<AccessibilityNode>) -> Seq<Node> {
    nodes.map_values(|node: AccessibilityNode| node@)
}

/// A node's children are modelled one by one.
pub broadcast proof fn lemma_children(node: AccessibilityNode)
    ensures
        (#[trigger] node.model()).children == (match node.children {
            Some(children) => Some(nodes_of(children@)),
            None => None,
        }),
{
    if let Some(children) = node.children {
        assert(node.model().children->0 =~= nodes_of(children@));
    }
}

/// The same property again.
fn copy_property(property: &AxProperty) -> (out: AxProperty)
    ensures
        out@ == property@,
{
    AxProperty {
        name: property.name.clone(),
        value: match &property.value {
            Some(value) => Some(value.copy()),
            None => None,
        },
    }
}

/// The same properties again.
pub fn copy_properties(properties: &Option<Vec<AxProperty>>) -> (out: Option<Vec<AxProperty>>)
    ensures
        opt_properties(out) == opt_properties(*properties),
{
    match properties {
        None => None,
        Some(list) => {
            let mut out: Vec<AxProperty> = Vec::new();
            let ghost models = |p: AxProperty| p@;
            let mut i: usize = 0;
            while i < list.len()
                invariant
                    i <= list.len(),
                    models == (|p: AxProperty| p@),
                    out@.map_values(models) == list@.take(i as int).map_values(models),
                decreases list.len() - i,
            {
                let ghost before = out@;
                out.push(copy_property(&list[i]));
                proof {
                    assert(out@.map_values(models) =~= before.map_values(models).push(
                        list@[i as int]@,
                    ));
                    assert(list@.take(i + 1).map_values(models) =~= list@.take(i as int).map_values(
                        models,
                    ).push(list@[i as int]@));
                }
                i += 1;
            }
            assert(list@.take(i as int) =~= list@);
            Some(out)
        },
    }
}

/// The same child ids again.
pub fn copy_ids(ids: &Option<Vec<String>>) -> (out: Option<Vec<String>>)
    ensures
        opt_views(out) == opt_views(*ids),
{
    match ids {
        Some(ids) => Some(copy_texts(ids)),
        None => None,
    }
}

impl Clone for AccessibilityNode {
    fn clone(&self) -> (out: Self)
        ensures
            out@ == self@,
    {
        self.copy()
    }
}

impl Default for AccessibilityNode {
    /// A node that holds nothing.
    fn default() -> (out: Self)
        ensures
            out@ == (Node {
                node_id: None,
                role: None,
                name: None,
                description: None,
                value: None,
                backend: None,
                parent_id: None,
                child_ids: None,
                children: None,
                properties: None,
            }),
    {
        AccessibilityNode {
            node_id: None,
            role: None,
            name: None,
            description: None,
            value: None,
            backend_dom_node_id: None,
            parent_id: None,
            child_ids: None,
            children: None,
            properties: None,
        }
    }
}

impl AccessibilityNode {
    /// The same node again, without its children.
    pub fn copy_alone(&self) -> (out: AccessibilityNode)
        ensures
            out@ == (Node { children: None, ..self@ }),
    {
        AccessibilityNode {
            node_id: copy_opt(&self.node_id),
            role: copy_opt(&self.role),
            name: copy_opt(&self.name),
            description: copy_opt(&self.description),
            value: copy_opt(&self.value),
            backend_dom_node_id: self.backend_dom_node_id,
            parent_id: copy_opt(&self.parent_id),
            child_ids: copy_ids(&self.child_ids),
            children: None,
            properties: copy_properties(&self.properties),
        }
    }

    /// The same node again, with everything below it.
    pub fn copy(&self) -> (out: AccessibilityNode)
        ensures
            out@ == self@,
        decreases self,
    {
        broadcast use lemma_children;

        let mut out = self.copy_alone();
        if let Some(children) = &self.children {
            let mut copies: Vec<AccessibilityNode> = Vec::new();
            let mut i: usize = 0;
            while i < children.len()
                invariant
                    i <= children.len(),
                    self.children is Some,
                    self.children->0 == children,
                    nodes_of(copies@) == nodes_of(children@.take(i as int)),
                decreases children.len() - i,
            {
                let ghost before = nodes_of(copies@);
                copies.push(children[i].copy());
                proof {
                    assert(nodes_of(copies@) =~= before.push(children@[i as int]@));
                    assert(nodes_of(children@.take(i + 1)) =~= before.push(children@[i as int]@));
                }
                i += 1;
            }
            assert(children@.take(i as int) =~= children@);
            out.children = Some(copies);
        }
        out
    }

    /// The same node again, with the given children.
    pub fn with_children(&self, children: Vec<AccessibilityNode>) -> (out: AccessibilityNode)
        ensures
            out@ == (Node { children: Some(nodes_of(children@)), ..self@ }),
    {
        broadcast use lemma_children;

        let mut out = self.copy_alone();
        out.children = Some(children);
        out
    }
}

} // verus!
