//! Accessibility trees: from the flat list of nodes that a browser reports to
//! cleaned trees and their text.
use crate::json::{field_of, text_of, write_json, written_json, Json, JsonValue};
use crate::table::{lemma_finite, Table};
use crate::text::{
    blank, collapse_white_space, copy_opt, is_blank, joined, join, opt_is, opt_view, parse_i64,
    signed_of, str_eq, trim, trim_of, views, words_of,
};
use crate::types::a11y::{
    copy_ids, copy_properties, lemma_children, inner, nodes_of, opt_ax, AccessibilityNode, AxNode,
    AxProperty, AxValue, Node, Properties, RawNode, RawValue, TreeResult,
};
use std::collections::HashSet;
use vstd::prelude::*;
use vstd::string::*;

verus! {

/// Computes the path of an element from the root of its document.
pub const GET_NODE_PATH_FUNCTION: &'static str = r##"
function getNodePath(el) {
  if (!el || (el.nodeType !== Node.ELEMENT_NODE && el.nodeType !== Node.TEXT_NODE)) {
    console.log("el is not a valid node type");
    return "";
  }

  const parts = [];
  let current = el;

  while (current && (current.nodeType === Node.ELEMENT_NODE || current.nodeType === Node.TEXT_NODE)) {
    let index = 0;
    let hasSameTypeSiblings = false;
    const siblings = current.parentElement
      ? Array.from(current.parentElement.childNodes)
      : [];

    for (let i = 0; i < siblings.length; i++) {
      const sibling = siblings[i];
      if (
        sibling.nodeType === current.nodeType &&
        sibling.nodeName === current.nodeName
      ) {
        index = index + 1;
        hasSameTypeSiblings = true;
        if (sibling.isSameNode(current)) {
          break;
        }
      }
    }

    if (!current || !current.parentNode) break;
    if (current.nodeName.toLowerCase() === "html"){
      parts.unshift("html");
      break;
    }

    if (current.nodeName !== "#text") {
      const tagName = current.nodeName.toLowerCase();
      const pathIndex = hasSameTypeSiblings ? `[${index}]` : "";
      parts.unshift(`${tagName}${pathIndex}`);
    }
    
    current = current.parentElement;
  }

  return parts.length ? `/${parts.join("/")}` : "";
}
"##;

/// Gives the name of an element's tag in lower case.
pub const TAG_NAME_FUNCTION: &'static str =
    "function() { return this.tagName ? this.tagName.toLowerCase() : \"\"; }";

/// The spaces in front of a line at depth `level`.
pub open spec fn indent_of(level: nat) -> Seq<char> {
    Seq::new(2 * level, |i: int| ' ')
}

/// A text that may be absent, written as `None` where it is.
pub open spec fn or_none(text: Option<Seq<char>>) -> Seq<char> {
    match text {
        Some(text) => text,
        None => "None"@,
    }
}

/// What the line of one node says: its id, its role and, where it has one, its name.
pub open spec fn line_body(node: Node, level: nat) -> Seq<char> {
    indent_of(level) + seq!['['] + or_none(node.node_id) + "] "@ + or_none(node.role) + (
    match node.name {
        Some(name) if name.len() > 0 => ": "@ + name,
        _ => seq![],
    })
}

/// The line of one node.
pub open spec fn tree_line(node: Node, level: nat) -> Seq<char> {
    line_body(node, level) + seq!['\n']
}

/// The lines of a node and of everything below it.
pub open spec fn tree_text(node: Node, level: nat) -> Seq<char>
    decreases node,
{
    tree_line(node, level) + (match node.children {
        Some(children) => trees_text(children, level + 1),
        None => seq![],
    })
}

/// The lines of a list of nodes.
pub open spec fn trees_text(nodes: Seq<Node>, level: nat) -> Seq<char>
    decreases nodes,
{
    if nodes.len() == 0 {
        seq![]
    } else {
        trees_text(nodes.drop_last(), level) + tree_text(nodes.last(), level)
    }
}

fn push_indent(out: &mut String, level: usize)
    ensures
        final(out)@ == old(out)@ + indent_of(level as nat),
{
    let mut i: usize = 0;
    assert(out@ =~= old(out)@ + indent_of(0));
    while i < level
        invariant
            i <= level,
            out@ == old(out)@ + indent_of(i as nat),
        decreases level - i,
    {
        out.push(' ');
        out.push(' ');
        i += 1;
        assert(out@ =~= old(out)@ + indent_of(i as nat));
    }
}

fn tree_lines(node: &AccessibilityNode, indent: &str, level: Ghost<nat>) -> (out: String)
    requires
        indent@ == indent_of(level@),
    ensures
        out@ == tree_text(node@, level@),
    decreases node,
{
    broadcast use lemma_children;

    let mut out = indent.to_owned();
    out.push('[');
    match &node.node_id {
        Some(id) => out.append(id.as_str()),
        None => out.append("None"),
    }
    out.append("] ");
    match &node.role {
        Some(role) => out.append(role.as_str()),
        None => out.append("None"),
    }
    if let Some(name) = &node.name {
        if !name.as_str().is_empty() {
            out.append(": ");
            out.append(name.as_str());
        }
    }
    out.push('\n');
    assert(out@ =~= tree_line(node@, level@));
    if let Some(children) = &node.children {
        let ghost line = out@;
        let ghost below = level@ + 1;
        let mut deeper = indent.to_owned();
        deeper.push(' ');
        deeper.push(' ');
        assert(deeper@ =~= indent_of(below));
        let mut i: usize = 0;
        assert(nodes_of(children@.take(0)) =~= Seq::<Node>::empty());
        while i < children.len()
            invariant
                i <= children.len(),
                node.children is Some,
                node.children->0 == children,
                deeper@ == indent_of(below),
                out@ == line + trees_text(nodes_of(children@.take(i as int)), below),
            decreases children.len() - i,
        {
            proof {
                assert(nodes_of(children@.take(i + 1)).drop_last() =~= nodes_of(
                    children@.take(i as int),
                ));
            }
            let text = tree_lines(&children[i], deeper.as_str(), Ghost(below));
            out.append(text.as_str());
            i += 1;
            assert(out@ =~= line + trees_text(nodes_of(children@.take(i as int)), below));
        }
        assert(children@.take(i as int) =~= children@);
    }
    out
}

/// Writes a tree, one node to a line, each two spaces further in than its parent.
pub fn format_simplified_tree(node: &AccessibilityNode, level: usize) -> (out: String)
    ensures
        out@ == tree_text(node@, level as nat),
{
    let mut indent = String::new();
    push_indent(&mut indent, level);
    assert(indent@ =~= indent_of(level as nat));
    tree_lines(node, indent.as_str(), Ghost(level as nat))
}

/// The pieces of a text between its line breaks.
pub open spec fn pieces_of(text: Seq<char>) -> Seq<Seq<char>>
    decreases text.len(),
{
    if text.len() == 0 {
        seq![text]
    } else {
        let before = pieces_of(text.drop_last());
        if text.last() == '\n' {
            before.push(seq![])
        } else {
            before.drop_last().push(before.last().push(text.last()))
        }
    }
}

/// The lines of a text, each of which ends in a line break.
pub open spec fn lines_of(text: Seq<char>) -> Seq<Seq<char>> {
    pieces_of(text).drop_last()
}

/// Whether no id, role or name in a tree has a line break in it.
pub open spec fn is_unbroken(node: Node) -> bool
    decreases node,
{
    &&& (node.node_id matches Some(id) ==> !id.contains('\n'))
    &&& (node.role matches Some(role) ==> !role.contains('\n'))
    &&& (node.name matches Some(name) ==> !name.contains('\n'))
    &&& (node.children matches Some(children) ==> all_unbroken(children))
}

/// Whether no id, role or name in a list of trees has a line break in it.
pub open spec fn all_unbroken(nodes: Seq<Node>) -> bool
    decreases nodes,
{
    nodes.len() == 0 || (all_unbroken(nodes.drop_last()) && is_unbroken(nodes.last()))
}

/// The nodes of a tree, each before those below it, with the depth of each.
pub open spec fn in_order(node: Node, level: nat) -> Seq<(Node, nat)>
    decreases node,
{
    seq![(node, level)] + (match node.children {
        Some(children) => all_in_order(children, level + 1),
        None => seq![],
    })
}

/// The nodes of a list of trees, one tree after the other.
pub open spec fn all_in_order(nodes: Seq<Node>, level: nat) -> Seq<(Node, nat)>
    decreases nodes,
{
    if nodes.len() == 0 {
        seq![]
    } else {
        all_in_order(nodes.drop_last(), level) + in_order(nodes.last(), level)
    }
}

/// What the lines of nodes say.
pub open spec fn bodies_of(nodes: Seq<(Node, nat)>) -> Seq<Seq<char>> {
    nodes.map_values(|at: (Node, nat)| line_body(at.0, at.1))
}

/// Lines with two spaces in front of each.
pub open spec fn moved_in(lines: Seq<Seq<char>>) -> Seq<Seq<char>> {
    lines.map_values(|line: Seq<char>| seq![' ', ' '] + line)
}

proof fn lemma_pieces_exist(text: Seq<char>)
    ensures
        pieces_of(text).len() > 0,
    decreases text.len(),
{
    if text.len() > 0 {
        lemma_pieces_exist(text.drop_last());
    }
}

proof fn lemma_one_piece(line: Seq<char>)
    requires
        !line.contains('\n'),
    ensures
        pieces_of(line) == seq![line],
        pieces_of(line.push('\n')) == seq![line, Seq::<char>::empty()],
    decreases line.len(),
{
    if line.len() > 0 {
        assert forall|i: int| 0 <= i < line.drop_last().len() implies line.drop_last()[i] != '\n' by {
            assert(line[i] == line.drop_last()[i]);
            assert(line.contains(line[i]));
        }
        lemma_one_piece(line.drop_last());
        assert(line.contains(line.last()));
        assert(line.drop_last().push(line.last()) =~= line);
    }
    assert(pieces_of(line) =~= seq![line]);
    assert(line.push('\n').drop_last() =~= line);
    assert(pieces_of(line.push('\n')) == pieces_of(line).push(seq![]));
    assert(pieces_of(line.push('\n')) =~= seq![line, Seq::<char>::empty()]);
}

proof fn lemma_pieces_behind(front: Seq<char>, lines: Seq<Seq<char>>, back: Seq<char>)
    requires
        pieces_of(front) == lines.push(seq![]),
    ensures
        pieces_of(front + back) == lines + pieces_of(back),
    decreases back.len(),
{
    if back.len() == 0 {
        assert(front + back =~= front);
        assert(back =~= Seq::<char>::empty());
        assert(lines.push(seq![]) =~= lines + seq![back]);
    } else {
        let less = back.drop_last();
        lemma_pieces_behind(front, lines, less);
        lemma_pieces_exist(less);
        assert((front + back).drop_last() =~= front + less);
        assert((front + back).last() == back.last());
        let before = lines + pieces_of(less);
        assert(before.drop_last() =~= lines + pieces_of(less).drop_last());
        assert(before.last() == pieces_of(less).last());
        assert(pieces_of(front + back) =~= lines + pieces_of(back));
    }
}

proof fn lemma_body_is_unbroken(node: Node, level: nat)
    requires
        is_unbroken(node),
    ensures
        !line_body(node, level).contains('\n'),
{
    reveal_strlit("] ");
    reveal_strlit(": ");
    let id = or_none(node.node_id);
    let role = or_none(node.role);
    assert(!"None"@.contains('\n')) by {
        reveal_strlit("None");
    }
    let body = line_body(node, level);
    assert forall|i: int| 0 <= i < body.len() implies body[i] != '\n' by {
        let at_id = 2 * level + 1;
        let at_role = at_id + id.len() + 2;
        let at_name = at_role + role.len();
        if at_id <= i < at_id + id.len() {
            assert(body[i] == id[i - at_id]);
            assert(id.contains(id[i - at_id]));
        } else if at_role <= i < at_name {
            assert(body[i] == role[i - at_role]);
            assert(role.contains(role[i - at_role]));
        } else if at_name + 2 <= i {
            let name = node.name->0;
            assert(body[i] == name[i - at_name - 2]);
            assert(name.contains(name[i - at_name - 2]));
        }
    }
}

proof fn lemma_tree_pieces(node: Node, level: nat)
    requires
        is_unbroken(node),
    ensures
        pieces_of(tree_text(node, level)) == bodies_of(in_order(node, level)).push(seq![]),
    decreases node,
{
    let body = line_body(node, level);
    let line = tree_line(node, level);
    lemma_body_is_unbroken(node, level);
    lemma_one_piece(body);
    assert(line =~= body.push('\n'));
    assert(pieces_of(line) =~= seq![body].push(seq![]));
    match node.children {
        Some(children) => {
            lemma_trees_pieces(children, level + 1);
            lemma_pieces_behind(line, seq![body], trees_text(children, level + 1));
            assert(bodies_of(in_order(node, level)) =~= seq![body] + bodies_of(
                all_in_order(children, level + 1),
            ));
        },
        None => {
            assert(tree_text(node, level) =~= line);
            assert(bodies_of(in_order(node, level)) =~= seq![body]);
        },
    }
    assert(pieces_of(tree_text(node, level)) =~= bodies_of(in_order(node, level)).push(seq![]));
}

proof fn lemma_trees_pieces(nodes: Seq<Node>, level: nat)
    requires
        all_unbroken(nodes),
    ensures
        pieces_of(trees_text(nodes, level)) == bodies_of(all_in_order(nodes, level)).push(seq![]),
    decreases nodes,
{
    if nodes.len() == 0 {
        assert(pieces_of(trees_text(nodes, level)) =~= bodies_of(all_in_order(nodes, level)).push(
            seq![],
        ));
    } else {
        let front = trees_text(nodes.drop_last(), level);
        let lines = bodies_of(all_in_order(nodes.drop_last(), level));
        let last = tree_text(nodes.last(), level);
        lemma_trees_pieces(nodes.drop_last(), level);
        lemma_tree_pieces(nodes.last(), level);
        lemma_pieces_behind(front, lines, last);
        assert(bodies_of(all_in_order(nodes, level)) =~= lines + bodies_of(
            in_order(nodes.last(), level),
        ));
        assert(pieces_of(trees_text(nodes, level)) =~= bodies_of(all_in_order(nodes, level)).push(
            seq![],
        ));
    }
}

proof fn lemma_order_moves_in(node: Node, level: nat)
    ensures
        bodies_of(in_order(node, level + 1)) == moved_in(bodies_of(in_order(node, level))),
    decreases node,
{
    let here = line_body(node, level);
    let deeper = line_body(node, level + 1);
    assert(indent_of(level + 1) =~= seq![' ', ' '] + indent_of(level));
    assert(deeper =~= seq![' ', ' '] + here);
    match node.children {
        Some(children) => {
            lemma_all_move_in(children, level + 1);
            let below = bodies_of(all_in_order(children, level + 1));
            assert(bodies_of(in_order(node, level)) =~= seq![here] + below);
            assert(bodies_of(in_order(node, level + 1)) =~= seq![deeper] + bodies_of(
                all_in_order(children, level + 2),
            ));
            assert(moved_in(seq![here] + below) =~= seq![deeper] + moved_in(below));
        },
        None => {
            assert(bodies_of(in_order(node, level)) =~= seq![here]);
            assert(bodies_of(in_order(node, level + 1)) =~= seq![deeper]);
            assert(moved_in(seq![here]) =~= seq![deeper]);
        },
    }
}

proof fn lemma_all_move_in(nodes: Seq<Node>, level: nat)
    ensures
        bodies_of(all_in_order(nodes, level + 1)) == moved_in(
            bodies_of(all_in_order(nodes, level)),
        ),
    decreases nodes,
{
    if nodes.len() > 0 {
        lemma_all_move_in(nodes.drop_last(), level);
        lemma_order_moves_in(nodes.last(), level);
        let first = bodies_of(all_in_order(nodes.drop_last(), level));
        let last = bodies_of(in_order(nodes.last(), level));
        assert(bodies_of(all_in_order(nodes, level)) =~= first + last);
        assert(bodies_of(all_in_order(nodes, level + 1)) =~= moved_in(first) + moved_in(last));
        assert(moved_in(first + last) =~= moved_in(first) + moved_in(last));
    } else {
        assert(bodies_of(all_in_order(nodes, level + 1)) =~= moved_in(
            bodies_of(all_in_order(nodes, level)),
        ));
    }
}

/// The text of a tree without line breaks in its ids, roles and names has one line
/// for each node, each node before those below it, and nothing behind the last line
/// break. A line shows a name exactly where the node has one that is not empty.
pub proof fn law_one_line_per_node(node: Node, level: nat)
    requires
        is_unbroken(node),
    ensures
        lines_of(tree_text(node, level)) == bodies_of(in_order(node, level)),
        lines_of(tree_text(node, level)).len() == in_order(node, level).len(),
        pieces_of(tree_text(node, level)).last() == Seq::<char>::empty(),
{
    lemma_tree_pieces(node, level);
    assert(lines_of(tree_text(node, level)) =~= bodies_of(in_order(node, level)));
}

/// One level more puts two spaces in front of every line of a tree without line
/// breaks in its ids, roles and names.
pub proof fn law_deeper_lines_move_in(node: Node, level: nat)
    requires
        is_unbroken(node),
    ensures
        lines_of(tree_text(node, level + 1)) == moved_in(lines_of(tree_text(node, level))),
{
    law_one_line_per_node(node, level);
    law_one_line_per_node(node, level + 1);
    lemma_order_moves_in(node, level);
}

/// A text with each run of white space put as one space, and none at its ends.
pub open spec fn normal_space(s: Seq<char>) -> Seq<char> {
    joined(words_of(s), seq![' '])
}

/// Puts each run of white space as one space and takes it off the ends.
pub fn normalize_whitespace(value: &str) -> (out: String)
    ensures
        out@ == normal_space(value@),
{
    collapse_white_space(value)
}

/// Whether a node is plain text.
pub open spec fn is_static_text(node: Node) -> bool {
    node.role == Some("StaticText"@)
}

/// The normalised names of the plain text nodes, one behind the other.
pub open spec fn static_names(nodes: Seq<Node>) -> Seq<char>
    decreases nodes.len(),
{
    if nodes.len() == 0 {
        seq![]
    } else {
        static_names(nodes.drop_last()) + (match nodes.last().name {
            Some(name) if is_static_text(nodes.last()) => normal_space(name),
            _ => seq![],
        })
    }
}

/// Whether a node stays where its parent already says what the plain text says.
pub open spec fn says_more(node: Node) -> bool {
    !is_static_text(node) || match node.name {
        Some(name) => name.len() == 0,
        None => true,
    }
}

/// Whether the parent's name is what its plain text children say.
pub open spec fn repeats_name(name: Option<Seq<char>>, children: Seq<Node>) -> bool {
    match name {
        Some(name) => normal_space(name).len() > 0 && static_names(children) == normal_space(name),
        None => false,
    }
}

/// The children without the plain text that only repeats the parent's name.
pub open spec fn without_repeats(name: Option<Seq<char>>, children: Seq<Node>) -> Seq<Node> {
    if repeats_name(name, children) {
        children.filter(|child: Node| says_more(child))
    } else {
        children
    }
}

fn static_text(node: &AccessibilityNode) -> (yes: bool)
    ensures
        yes == is_static_text(node@),
{
    opt_is(&node.role, "StaticText")
}

fn collect_static_names(children: &Vec<AccessibilityNode>) -> (out: String)
    ensures
        out@ == static_names(nodes_of(children@)),
{
    let mut out = String::new();
    let mut i: usize = 0;
    while i < children.len()
        invariant
            i <= children.len(),
            out@ == static_names(nodes_of(children@.take(i as int))),
        decreases children.len() - i,
    {
        let ghost before = out@;
        if static_text(&children[i]) {
            if let Some(name) = &children[i].name {
                out.append(normalize_whitespace(name.as_str()).as_str());
            }
        }
        proof {
            assert(nodes_of(children@.take(i + 1)).drop_last() =~= nodes_of(
                children@.take(i as int),
            ));
            assert(before + Seq::<char>::empty() =~= before);
        }
        i += 1;
    }
    assert(children@.take(i as int) =~= children@);
    out
}

/// Drops the plain text children that only repeat the parent's name.
pub fn remove_redundant_static_text_children(
    parent: &AccessibilityNode,
    children: Vec<AccessibilityNode>,
) -> (out: Vec<AccessibilityNode>)
    ensures
        nodes_of(out@) == without_repeats(parent@.name, nodes_of(children@)),
{
    let repeats: bool = match &parent.name {
        Some(name) => {
            let target = normalize_whitespace(name.as_str());
            let combined = collect_static_names(&children);
            !target.as_str().is_empty() && combined == target
        },
        None => false,
    };
    assert(repeats == repeats_name(parent@.name, nodes_of(children@)));
    if !repeats {
        return children;
    }
    let ghost whole = children@;
    let ghost keep = |child: Node| says_more(child);
    let mut kept: Vec<AccessibilityNode> = Vec::new();
    proof {
        reveal(Seq::filter);
        assert(nodes_of(whole.take(0)) =~= Seq::<Node>::empty());
        assert(nodes_of(kept@) =~= Seq::<Node>::empty());
    }
    for child in it: children
        invariant
            it.seq() == whole,
            keep == (|child: Node| says_more(child)),
            nodes_of(kept@) == nodes_of(whole.take(it.index())).filter(keep),
    {
        let ghost before = nodes_of(kept@);
        proof {
            reveal(Seq::filter);
            assert(nodes_of(whole.take(it.index() + 1)).drop_last() =~= nodes_of(
                whole.take(it.index()),
            ));
        }
        let stays: bool = if static_text(&child) {
            match &child.name {
                Some(name) => name.as_str().is_empty(),
                None => true,
            }
        } else {
            true
        };
        if stays {
            kept.push(child);
            assert(nodes_of(kept@) =~= before.push(child@));
        }
    }
    assert(whole.take(whole.len() as int) =~= whole);
    kept
}

/// A JSON value as plain text: a text as it is, any other value as JSON.
pub open spec fn plain_text(value: Json) -> Seq<char> {
    match value {
        Json::Text(text) => text,
        _ => written_json(value),
    }
}

/// Gives a JSON value as plain text.
pub fn json_value_to_string(value: &JsonValue) -> (out: String)
    ensures
        out@ == plain_text(value@),
{
    match value.as_str() {
        Some(text) => text.clone(),
        None => write_json(value),
    }
}

/// The plain text of a JSON value that may be absent.
pub open spec fn opt_plain(value: Option<Json>) -> Option<Seq<char>> {
    match value {
        Some(value) => Some(plain_text(value)),
        None => None,
    }
}

fn ax_text(value: &Option<AxValue>) -> (out: Option<String>)
    ensures
        opt_view(out) == opt_plain(inner(opt_ax(*value))),
{
    match value {
        Some(value) => match &value.value {
            Some(json) => Some(json_value_to_string(json)),
            None => None,
        },
        None => None,
    }
}

/// The address among the first `n` properties: the trimmed text under `value`
/// of the first property named `url` that has one. A property named `url` that
/// is no object with a `value` ends the search.
pub open spec fn url_in(properties: Seq<(Seq<char>, Option<Json>)>) -> Option<Seq<char>>
    decreases properties.len(),
{
    if properties.len() == 0 {
        None
    } else if properties[0].0 != "url"@ {
        url_in(properties.skip(1))
    } else {
        match properties[0].1 {
            None => None,
            Some(value) => match field_of(value, "value"@) {
                None => None,
                Some(inner) => match text_of(inner) {
                    Some(url) => Some(trim_of(url)),
                    None => url_in(properties.skip(1)),
                },
            },
        }
    }
}

/// The address that a node points to.
pub open spec fn url_of(properties: Properties) -> Option<Seq<char>> {
    match properties {
        Some(properties) => url_in(properties),
        None => None,
    }
}

/// Finds the address that a node points to.
pub fn extract_url_from_ax_node(ax_node: &AxNode) -> (out: Option<String>)
    ensures
        opt_view(out) == url_of(ax_node@.properties),
{
    let properties = match &ax_node.properties {
        Some(properties) => properties,
        None => return None,
    };
    let ghost all = properties@.map_values(|p: AxProperty| p@);
    let mut i: usize = 0;
    assert(all.skip(0) =~= all);
    while i < properties.len()
        invariant
            i <= properties.len(),
            ax_node.properties is Some,
            ax_node.properties->0 == properties,
            all == properties@.map_values(|p: AxProperty| p@),
            url_in(all) == url_in(all.skip(i as int)),
        decreases properties.len() - i,
    {
        let property = &properties[i];
        assert(all.skip(i as int)[0] == property@);
        assert(all.skip(i as int).skip(1) =~= all.skip(i + 1));
        if str_eq(property.name.as_str(), "url") {
            let value = match &property.value {
                Some(value) => value,
                None => return None,
            };
            match value.get("value") {
                None => return None,
                Some(inner) => {
                    if let Some(url) = inner.as_str() {
                        return Some(trim(url.as_str()));
                    }
                },
            }
        }
        i += 1;
    }
    None
}

/// Whether an id is a negative number. Such nodes are left out.
pub open spec fn is_negative_id(id: Seq<char>) -> bool {
    match signed_of(id) {
        Ok(n) => n < 0,
        Err(_) => false,
    }
}

fn negative_id(id: &str) -> (yes: bool)
    ensures
        yes == is_negative_id(id@),
{
    match parse_i64(id) {
        Ok(n) => n < 0,
        Err(_) => false,
    }
}

/// The role of a reported node; empty where it has none.
pub open spec fn role_text(raw: RawNode) -> Seq<char> {
    match inner(raw.role) {
        Some(role) => plain_text(role),
        None => seq![],
    }
}

/// Whether a reported node has child ids.
pub open spec fn has_child_ids(raw: RawNode) -> bool {
    match raw.child_ids {
        Some(ids) => ids.len() > 0,
        None => false,
    }
}

/// Whether a reported node comes into the tree: its id is not negative, and it
/// has a name, children or a role of its own.
pub open spec fn is_relevant(raw: RawNode) -> bool {
    &&& !is_negative_id(raw.node_id)
    &&& {
        ||| match opt_plain(inner(raw.name)) {
            Some(name) => !is_blank(name),
            None => false,
        }
        ||| has_child_ids(raw)
        ||| role_text(raw) != "none"@ && role_text(raw) != "generic"@ && role_text(raw)
            != "InlineTextBox"@
    }
}

/// The node of the tree for a reported node, before it has children.
pub open spec fn processed(raw: RawNode) -> Node {
    Node {
        node_id: Some(raw.node_id),
        role: Some(role_text(raw)),
        name: opt_plain(inner(raw.name)),
        description: opt_plain(inner(raw.description)),
        value: opt_plain(inner(raw.value)),
        backend: raw.backend,
        parent_id: raw.parent_id,
        child_ids: raw.child_ids,
        children: None,
        properties: raw.properties,
    }
}

/// Makes the node of the tree for a reported node, where it comes into the tree.
pub fn process_ax_node(ax_node: &AxNode) -> (out: Option<AccessibilityNode>)
    ensures
        out is Some <==> is_relevant(ax_node@),
        out matches Some(node) ==> node@ == processed(ax_node@),
{
    if negative_id(ax_node.node_id.as_str()) {
        return None;
    }
    let has_children: bool = match &ax_node.child_ids {
        Some(ids) => ids.len() > 0,
        None => false,
    };
    let name = ax_text(&ax_node.name);
    let has_name: bool = match &name {
        Some(name) => !blank(name.as_str()),
        None => false,
    };
    let role = match ax_text(&ax_node.role) {
        Some(role) => role,
        None => String::new(),
    };
    let plain: bool = str_eq(role.as_str(), "none") || str_eq(role.as_str(), "generic") || str_eq(
        role.as_str(),
        "InlineTextBox",
    );
    if !has_name && !has_children && plain {
        return None;
    }
    Some(
        AccessibilityNode {
            node_id: Some(ax_node.node_id.clone()),
            role: Some(role),
            name,
            description: ax_text(&ax_node.description),
            value: ax_text(&ax_node.value),
            backend_dom_node_id: ax_node.backend_dom_node_id,
            parent_id: copy_opt(&ax_node.parent_id),
            child_ids: copy_ids(&ax_node.child_ids),
            children: None,
            properties: copy_properties(&ax_node.properties),
        },
    )
}

/// The ids of a node's children.
pub open spec fn ids_of(node: Node) -> Seq<Seq<char>> {
    match node.child_ids {
        Some(ids) => ids,
        None => seq![],
    }
}

/// The nodes under their ids.
pub open spec fn node_map(nodes: Map<Seq<char>, AccessibilityNode>) -> Map<Seq<char>, Node> {
    nodes.map_values(|node: AccessibilityNode| node@)
}

/// The tree below the node `id`, where `path` holds the ids above it. A node
/// that occurs above itself is taken without its children; an id without a node
/// gives no tree.
pub open spec fn subtree(
    id: Seq<char>,
    nodes: Map<Seq<char>, Node>,
    path: Seq<Seq<char>>,
) -> Option<Node>
    decreases nodes.dom().difference(path.to_set()).len(), 1nat, 0nat,
        when nodes.dom().finite()
{
    if !nodes.dom().contains(id) {
        None
    } else if path.contains(id) {
        Some(nodes[id])
    } else {
        proof {
            lemma_path_grows(id, nodes, path);
        }
        let children = subtrees(ids_of(nodes[id]), nodes, path.push(id));
        Some(
            if children.len() > 0 {
                Node { children: Some(children), ..nodes[id] }
            } else {
                nodes[id]
            },
        )
    }
}

/// The trees below the nodes `ids`, where `path` holds the ids above them.
pub open spec fn subtrees(
    ids: Seq<Seq<char>>,
    nodes: Map<Seq<char>, Node>,
    path: Seq<Seq<char>>,
) -> Seq<Node>
    decreases nodes.dom().difference(path.to_set()).len(), 2nat, ids.len(),
        when nodes.dom().finite()
{
    if ids.len() == 0 {
        seq![]
    } else {
        let before = subtrees(ids.drop_last(), nodes, path);
        match subtree(ids.last(), nodes, path) {
            Some(node) => before.push(node),
            None => before,
        }
    }
}

/// One more node above leaves fewer nodes to visit.
pub proof fn lemma_path_grows(id: Seq<char>, nodes: Map<Seq<char>, Node>, path: Seq<Seq<char>>)
    requires
        nodes.dom().finite(),
        nodes.dom().contains(id),
        !path.contains(id),
    ensures
        nodes.dom().difference(path.push(id).to_set()).len() < nodes.dom().difference(
            path.to_set(),
        ).len(),
{
    let left = nodes.dom().difference(path.to_set());
    assert(path.push(id).to_set() =~= path.to_set().insert(id)) by {
        broadcast use vstd::seq_lib::group_seq_properties;

    }
    assert(nodes.dom().difference(path.push(id).to_set()) =~= left.remove(id));
    assert(left.contains(id));
    assert(left.finite());
}

fn on_path(path: &Vec<String>, id: &str) -> (yes: bool)
    ensures
        yes == views(path@).contains(id@),
{
    let mut i: usize = 0;
    while i < path.len()
        invariant
            i <= path.len(),
            forall|k: int| 0 <= k < i ==> (#[trigger] views(path@)[k]) != id@,
        decreases path.len() - i,
    {
        if str_eq(path[i].as_str(), id) {
            assert(views(path@)[i as int] == id@);
            return true;
        }
        i += 1;
    }
    false
}

/// Builds the tree below the node `node_id`. `visiting` holds the ids above it.
pub fn build_subtree(
    node_id: &str,
    nodes: &Table<AccessibilityNode>,
    visiting: &mut Vec<String>,
) -> (out: Option<AccessibilityNode>)
    ensures
        final(visiting)@ == old(visiting)@,
        out is Some <==> subtree(node_id@, node_map(nodes@), views(old(visiting)@)) is Some,
        out matches Some(node) ==> subtree(node_id@, node_map(nodes@), views(old(visiting)@))
            == Some(node@),
    decreases nodes@.dom().difference(views(old(visiting)@).to_set()).len(),
{
    broadcast use lemma_children;

    let ghost model = node_map(nodes@);
    proof {
        lemma_finite(*nodes);
        assert(model.dom() =~= nodes@.dom());
    }
    let node = match nodes.get(node_id) {
        Some(node) => node,
        None => return None,
    };
    assert(model[node_id@] == node@);
    if on_path(visiting, node_id) {
        return Some(node.copy());
    }
    let ghost path = views(visiting@);
    let ghost entry = visiting@;
    proof {
        lemma_path_grows(node_id@, model, path);
    }
    visiting.push(node_id.to_owned());
    let ghost inner = visiting@;
    assert(views(inner) =~= path.push(node_id@));
    let mut children: Vec<AccessibilityNode> = Vec::new();
    if let Some(ids) = &node.child_ids {
        let mut i: usize = 0;
        assert(views(ids@.take(0)) =~= Seq::<Seq<char>>::empty());
        while i < ids.len()
            invariant
                i <= ids.len(),
                visiting@ == inner,
                views(inner) == path.push(node_id@),
                path == views(entry),
                entry == old(visiting)@,
                model == node_map(nodes@),
                model.dom() == nodes@.dom(),
                model.dom().finite(),
                model.dom().difference(path.push(node_id@).to_set()).len()
                    < model.dom().difference(path.to_set()).len(),
                nodes_of(children@) == subtrees(
                    views(ids@.take(i as int)),
                    model,
                    path.push(node_id@),
                ),
            decreases ids.len() - i,
        {
            let ghost before = nodes_of(children@);
            proof {
                assert(views(ids@.take(i + 1)).drop_last() =~= views(ids@.take(i as int)));
            }
            if let Some(child) = build_subtree(ids[i].as_str(), nodes, visiting) {
                children.push(child);
                assert(nodes_of(children@) =~= before.push(child@));
            }
            i += 1;
        }
        assert(ids@.take(i as int) =~= ids@);
    }
    assert(nodes_of(children@) =~= subtrees(ids_of(node@), model, path.push(node_id@)));
    visiting.pop();
    assert(visiting@ =~= entry);
    if children.len() > 0 {
        Some(node.with_children(children))
    } else {
        Some(node.copy())
    }
}

/// What the browser said about roles: for an element's id, the name of its tag
/// in lower case, or nothing where it could not be told.
pub type Roles = Map<i64, Option<Seq<char>>>;

/// The outcome of cleaning, as far as the roles known so far go.
#[derive(Debug)]
pub enum Cleaning<T> {
    /// All roles that matter are known.
    Ready(T),
    /// The role of this element has to be asked for first.
    Wanted(i64),
}

/// Whether a role marks a node that only groups others.
pub open spec fn is_plain_role(role: Option<Seq<char>>) -> bool {
    role == Some("generic"@) || role == Some("none"@)
}

/// Whether a role is put in terms of the element's tag.
pub open spec fn is_structural_role(role: Option<Seq<char>>) -> bool {
    is_plain_role(role) || role == Some("combobox"@)
}

/// The role of a node once its element has been asked about.
pub open spec fn role_from(node: Node, roles: Option<Roles>) -> Cleaning<Option<Seq<char>>> {
    match (roles, node.backend) {
        (Some(roles), Some(backend)) if is_structural_role(node.role) => {
            if !roles.dom().contains(backend) {
                Cleaning::Wanted(backend)
            } else if roles[backend] is Some {
                Cleaning::Ready(roles[backend])
            } else {
                Cleaning::Ready(node.role)
            }
        },
        _ => Cleaning::Ready(node.role),
    }
}

/// A node with its cleaned children, or what takes its place: its only child
/// where it only groups, nothing where it groups nothing.
pub open spec fn collapsed(node: Node, kids: Seq<Node>, roles: Option<Roles>) -> Cleaning<
    Option<Node>,
> {
    if is_plain_role(node.role) && kids.len() == 1 {
        Cleaning::Ready(Some(kids[0]))
    } else if is_plain_role(node.role) && kids.len() == 0 {
        Cleaning::Ready(None)
    } else {
        match role_from(node, roles) {
            Cleaning::Wanted(id) => Cleaning::Wanted(id),
            Cleaning::Ready(role) => {
                let left = without_repeats(node.name, kids);
                if left.len() == 0 && is_plain_role(role) {
                    Cleaning::Ready(None)
                } else {
                    Cleaning::Ready(Some(Node { role, children: Some(left), ..node }))
                }
            },
        }
    }
}

/// A tree without nodes that only group, or the first element whose role has to
/// be known for that. Without `roles` no element is asked about.
pub open spec fn cleaned(node: Node, roles: Option<Roles>) -> Cleaning<Option<Node>>
    decreases node,
{
    if node.node_id is Some && is_negative_id(node.node_id->0) {
        Cleaning::Ready(None)
    } else if node.children is None || node.children->0.len() == 0 {
        if is_plain_role(node.role) {
            Cleaning::Ready(None)
        } else {
            Cleaning::Ready(Some(Node { children: None, ..node }))
        }
    } else {
        match cleaned_all(node.children->0, roles) {
            Cleaning::Wanted(id) => Cleaning::Wanted(id),
            Cleaning::Ready(kids) => collapsed(node, kids, roles),
        }
    }
}

/// The trees that are left of a list of trees.
pub open spec fn cleaned_all(nodes: Seq<Node>, roles: Option<Roles>) -> Cleaning<Seq<Node>>
    decreases nodes,
{
    if nodes.len() == 0 {
        Cleaning::Ready(seq![])
    } else {
        match cleaned_all(nodes.drop_last(), roles) {
            Cleaning::Wanted(id) => Cleaning::Wanted(id),
            Cleaning::Ready(before) => match cleaned(nodes.last(), roles) {
                Cleaning::Wanted(id) => Cleaning::Wanted(id),
                Cleaning::Ready(Some(node)) => Cleaning::Ready(before.push(node)),
                Cleaning::Ready(None) => Cleaning::Ready(before),
            },
        }
    }
}

/// The answers about roles so far, one for each element asked about.
#[derive(Debug)]
pub struct RoleAnswers {
    answers: Vec<(i64, Option<String>)>,
}

spec fn roles_of(answers: Seq<(i64, Option<String>)>) -> Roles
    decreases answers.len(),
{
    if answers.len() == 0 {
        Map::empty()
    } else {
        roles_of(answers.drop_last()).insert(answers.last().0, opt_view(answers.last().1))
    }
}

impl View for RoleAnswers {
    type V = Roles;

    closed spec fn view(&self) -> Roles {
        roles_of(self.answers@)
    }
}

impl RoleAnswers {
    /// No answers yet.
    pub fn new() -> (out: RoleAnswers)
        ensures
            out@ == Roles::empty(),
    {
        RoleAnswers { answers: Vec::new() }
    }

    /// Notes the answer for an element.
    pub fn record(&mut self, backend_id: i64, role: Option<String>)
        ensures
            final(self)@ == old(self)@.insert(backend_id, opt_view(role)),
    {
        let ghost before = self.answers@;
        self.answers.push((backend_id, role));
        assert(self.answers@.drop_last() =~= before);
    }

    /// The answer for an element.
    pub fn lookup(&self, backend_id: i64) -> (out: Option<&Option<String>>)
        ensures
            out matches Some(role) ==> self@.dom().contains(backend_id) && self@[backend_id]
                == opt_view(*role),
            out is None ==> !self@.dom().contains(backend_id),
    {
        let mut i: usize = self.answers.len();
        assert(self.answers@.take(i as int) =~= self.answers@);
        while i > 0
            invariant
                i <= self.answers.len(),
                self@.dom().contains(backend_id) == roles_of(
                    self.answers@.take(i as int),
                ).dom().contains(backend_id),
                self@.dom().contains(backend_id) ==> self@[backend_id] == roles_of(
                    self.answers@.take(i as int),
                )[backend_id],
            decreases i,
        {
            assert(self.answers@.take(i as int).drop_last() =~= self.answers@.take(i - 1));
            i -= 1;
            if self.answers[i].0 == backend_id {
                return Some(&self.answers[i].1);
            }
        }
        None
    }
}

/// The roles known, where elements are asked about at all.
pub open spec fn known_roles(roles: Option<&RoleAnswers>) -> Option<Roles> {
    match roles {
        Some(roles) => Some(roles@),
        None => None,
    }
}

fn plain_role(role: &Option<String>) -> (yes: bool)
    ensures
        yes == is_plain_role(opt_view(*role)),
{
    opt_is(role, "generic") || opt_is(role, "none")
}

/// Cleans a tree: drops nodes that group nothing, puts a single child in the
/// place of a node that only groups it, names structural nodes by their tag and
/// drops plain text that repeats a name. Where the role of an element has to be
/// known first, says which.
pub fn clean_structural_nodes(node: &AccessibilityNode, roles: Option<&RoleAnswers>) -> (out:
    Cleaning<Option<AccessibilityNode>>)
    ensures
        match (out, cleaned(node@, known_roles(roles))) {
            (Cleaning::Ready(Some(tree)), Cleaning::Ready(Some(model))) => tree@ == model,
            (Cleaning::Ready(None), Cleaning::Ready(None)) => true,
            (Cleaning::Wanted(id), Cleaning::Wanted(wanted)) => id == wanted,
            _ => false,
        },
    decreases node,
{
    broadcast use lemma_children;

    if let Some(id) = &node.node_id {
        if negative_id(id.as_str()) {
            return Cleaning::Ready(None);
        }
    }
    let grouping: bool = plain_role(&node.role);
    let mut kids: Vec<AccessibilityNode> = Vec::new();
    match &node.children {
        Some(children) if children.len() > 0 => {
            let mut i: usize = 0;
            assert(nodes_of(children@.take(0)) =~= Seq::<Node>::empty());
            assert(nodes_of(kids@) =~= Seq::<Node>::empty());
            while i < children.len()
                invariant
                    i <= children.len(),
                    node.children is Some,
                    node.children->0 == children,
                    children.len() > 0,
                    node@.children == Some(nodes_of(children@)),
                    node@.node_id is Some ==> !is_negative_id(node@.node_id->0),
                    cleaned_all(nodes_of(children@.take(i as int)), known_roles(roles))
                        == Cleaning::Ready(nodes_of(kids@)),
                decreases children.len() - i,
            {
                let ghost before = nodes_of(kids@);
                proof {
                    assert(nodes_of(children@.take(i + 1)).drop_last() =~= nodes_of(
                        children@.take(i as int),
                    ));
                }
                match clean_structural_nodes(&children[i], roles) {
                    Cleaning::Wanted(id) => {
                        proof {
                            assert(nodes_of(children@).take(i + 1) =~= nodes_of(
                                children@.take(i + 1),
                            ));
                            lemma_wanted_first(
                                nodes_of(children@),
                                known_roles(roles),
                                (i + 1) as int,
                                id,
                            );
                        }
                        return Cleaning::Wanted(id);
                    },
                    Cleaning::Ready(Some(kid)) => {
                        kids.push(kid);
                        assert(nodes_of(kids@) =~= before.push(kid@));
                    },
                    Cleaning::Ready(None) => {},
                }
                i += 1;
            }
            assert(children@.take(i as int) =~= children@);
        },
        _ => {
            if grouping {
                return Cleaning::Ready(None);
            }
            return Cleaning::Ready(Some(node.copy_alone()));
        },
    }
    let ghost found = nodes_of(kids@);
    if grouping {
        if kids.len() == 1 {
            let only = kids.pop();
            assert(only is Some && only->0@ == found[0]);
            return Cleaning::Ready(only);
        }
        if kids.len() == 0 {
            return Cleaning::Ready(None);
        }
    }
    let mut named = node.copy_alone();
    if let Some(roles) = roles {
        if let Some(backend) = node.backend_dom_node_id {
            if grouping || opt_is(&node.role, "combobox") {
                match roles.lookup(backend) {
                    None => return Cleaning::Wanted(backend),
                    Some(Some(role)) => {
                        named.role = Some(role.clone());
                    },
                    Some(None) => {},
                }
            }
        }
    }
    let left = remove_redundant_static_text_children(&named, kids);
    if left.len() == 0 && plain_role(&named.role) {
        return Cleaning::Ready(None);
    }
    Cleaning::Ready(Some(named.with_children(left)))
}

/// The first element to ask about decides, whatever comes behind it.
proof fn lemma_wanted_first(nodes: Seq<Node>, roles: Option<Roles>, n: int, id: i64)
    requires
        0 <= n <= nodes.len(),
        cleaned_all(nodes.take(n), roles) == Cleaning::<Seq<Node>>::Wanted(id),
    ensures
        cleaned_all(nodes, roles) == Cleaning::<Seq<Node>>::Wanted(id),
    decreases nodes.len(),
{
    if n == nodes.len() {
        assert(nodes.take(n) =~= nodes);
    } else {
        assert(nodes.drop_last().take(n) =~= nodes.take(n));
        lemma_wanted_first(nodes.drop_last(), roles, n, id);
    }
}

/// Whether no node of a tree has a negative id, or only groups and groups nothing.
pub open spec fn is_tidy(node: Node) -> bool
    decreases node,
{
    &&& (node.node_id matches Some(id) ==> !is_negative_id(id))
    &&& is_plain_role(node.role) ==> node.children is Some && node.children->0.len() > 0
    &&& (node.children matches Some(children) ==> forall|i: int|
        0 <= i < children.len() ==> is_tidy(#[trigger] children[i]))
}

/// Whether all trees of a list are tidy.
pub open spec fn all_tidy(nodes: Seq<Node>) -> bool {
    forall|i: int| 0 <= i < nodes.len() ==> is_tidy(#[trigger] nodes[i])
}

proof fn lemma_filter_tidy(nodes: Seq<Node>, keep: spec_fn(Node) -> bool)
    requires
        all_tidy(nodes),
    ensures
        all_tidy(nodes.filter(keep)),
    decreases nodes.len(),
{
    reveal(Seq::filter);
    if nodes.len() > 0 {
        assert forall|i: int| 0 <= i < nodes.drop_last().len() implies is_tidy(
            #[trigger] nodes.drop_last()[i],
        ) by {
            assert(nodes.drop_last()[i] == nodes[i]);
        }
        lemma_filter_tidy(nodes.drop_last(), keep);
    }
}

proof fn lemma_all_cleaned_tidy(nodes: Seq<Node>, roles: Option<Roles>)
    ensures
        cleaned_all(nodes, roles) matches Cleaning::Ready(left) ==> all_tidy(left),
    decreases nodes,
{
    if nodes.len() > 0 {
        lemma_all_cleaned_tidy(nodes.drop_last(), roles);
        law_cleaned_is_tidy(nodes.last(), roles);
    }
}

/// A cleaned tree has no node with a negative id, and none that only groups and has
/// nothing to group.
pub proof fn law_cleaned_is_tidy(node: Node, roles: Option<Roles>)
    ensures
        cleaned(node, roles) matches Cleaning::Ready(Some(tree)) ==> is_tidy(tree),
    decreases node,
{
    if let Some(children) = node.children {
        if children.len() > 0 {
            lemma_all_cleaned_tidy(children, roles);
            if let Cleaning::Ready(kids) = cleaned_all(children, roles) {
                lemma_filter_tidy(kids, |child: Node| says_more(child));
            }
        }
    }
}

proof fn lemma_all_ask_unknown(nodes: Seq<Node>, roles: Roles)
    ensures
        cleaned_all(nodes, Some(roles)) matches Cleaning::Wanted(id) ==> !roles.dom().contains(id),
    decreases nodes,
{
    if nodes.len() > 0 {
        lemma_all_ask_unknown(nodes.drop_last(), roles);
        law_asks_only_unknown(nodes.last(), roles);
    }
}

/// No element is asked about twice.
pub proof fn law_asks_only_unknown(node: Node, roles: Roles)
    ensures
        cleaned(node, Some(roles)) matches Cleaning::Wanted(id) ==> !roles.dom().contains(id),
    decreases node,
{
    if let Some(children) = node.children {
        if children.len() > 0 {
            lemma_all_ask_unknown(children, roles);
        }
    }
}

proof fn lemma_all_answers_keep(nodes: Seq<Node>, roles: Roles, id: i64, role: Option<Seq<char>>)
    requires
        !roles.dom().contains(id),
    ensures
        cleaned_all(nodes, Some(roles)) is Ready ==> cleaned_all(
            nodes,
            Some(roles.insert(id, role)),
        ) == cleaned_all(nodes, Some(roles)),
    decreases nodes,
{
    if nodes.len() > 0 {
        lemma_all_answers_keep(nodes.drop_last(), roles, id, role);
        law_answers_keep_tree(nodes.last(), roles, id, role);
    }
}

/// Once a tree is ready, further answers do not change it.
pub proof fn law_answers_keep_tree(node: Node, roles: Roles, id: i64, role: Option<Seq<char>>)
    requires
        !roles.dom().contains(id),
    ensures
        cleaned(node, Some(roles)) is Ready ==> cleaned(node, Some(roles.insert(id, role)))
            == cleaned(node, Some(roles)),
    decreases node,
{
    if let Some(children) = node.children {
        if children.len() > 0 {
            lemma_all_answers_keep(children, roles, id, role);
        }
    }
}

/// The texts of a table.
pub open spec fn text_map(texts: Map<Seq<char>, String>) -> Map<Seq<char>, Seq<char>> {
    texts.map_values(|text: String| text@)
}

/// The models of a list of reported nodes.
pub open spec fn raw_nodes(nodes: Seq<AxNode>) -> Seq<RawNode> {
    nodes.map_values(|node: AxNode| node@)
}

/// The nodes that come into the tree, under their ids; the last of an id counts.
pub open spec fn node_table(raws: Seq<RawNode>) -> Map<Seq<char>, Node>
    decreases raws.len(),
{
    if raws.len() == 0 {
        Map::empty()
    } else {
        let before = node_table(raws.drop_last());
        if is_relevant(raws.last()) {
            before.insert(raws.last().node_id, processed(raws.last()))
        } else {
            before
        }
    }
}

/// The ids of those nodes, in the order in which they first came.
pub open spec fn node_order(raws: Seq<RawNode>) -> Seq<Seq<char>>
    decreases raws.len(),
{
    if raws.len() == 0 {
        seq![]
    } else {
        let before = node_order(raws.drop_last());
        if is_relevant(raws.last()) && !node_table(raws.drop_last()).dom().contains(
            raws.last().node_id,
        ) {
            before.push(raws.last().node_id)
        } else {
            before
        }
    }
}

/// The addresses that nodes point to, under the nodes' ids.
pub open spec fn url_table(raws: Seq<RawNode>) -> Map<Seq<char>, Seq<char>>
    decreases raws.len(),
{
    if raws.len() == 0 {
        Map::empty()
    } else {
        let before = url_table(raws.drop_last());
        match url_of(raws.last().properties) {
            Some(url) if !is_negative_id(raws.last().node_id) => before.insert(
                raws.last().node_id,
                url,
            ),
            _ => before,
        }
    }
}

/// What is kept of a frame: its id.
pub open spec fn iframe_node(id: Seq<char>) -> Node {
    Node {
        node_id: Some(id),
        role: Some("Iframe"@),
        name: None,
        description: None,
        value: None,
        backend: None,
        parent_id: None,
        child_ids: None,
        children: None,
        properties: None,
    }
}

/// The frames among the nodes.
pub open spec fn iframe_nodes(raws: Seq<RawNode>) -> Seq<Node>
    decreases raws.len(),
{
    if raws.len() == 0 {
        seq![]
    } else {
        let before = iframe_nodes(raws.drop_last());
        if is_relevant(raws.last()) && role_text(raws.last()) == "Iframe"@ {
            before.push(iframe_node(raws.last().node_id))
        } else {
            before
        }
    }
}

/// The ids, in order, of the nodes without a parent.
pub open spec fn roots_among(ids: Seq<Seq<char>>, nodes: Map<Seq<char>, Node>) -> Seq<Seq<char>>
    decreases ids.len(),
{
    if ids.len() == 0 {
        seq![]
    } else {
        let before = roots_among(ids.drop_last(), nodes);
        if nodes[ids.last()].parent_id is None {
            before.push(ids.last())
        } else {
            before
        }
    }
}

/// The trees of the reported nodes, before they are cleaned.
pub open spec fn built_trees(raws: Seq<RawNode>) -> Seq<Node> {
    subtrees(roots_among(node_order(raws), node_table(raws)), node_table(raws), seq![])
}

/// The text of a list of trees.
pub open spec fn simplified_text(trees: Seq<Node>) -> Seq<char> {
    joined(trees.map_values(|tree: Node| tree_text(tree, 0)), "\n"@)
}

fn find_roots(nodes: &Table<AccessibilityNode>) -> (out: Vec<String>)
    ensures
        views(out@) == roots_among(nodes.order(), node_map(nodes@)),
{
    let mut out: Vec<String> = Vec::new();
    let total: usize = nodes.len();
    let mut i: usize = 0;
    assert(views(out@) =~= roots_among(nodes.order().take(0), node_map(nodes@)));
    while i < total
        invariant
            i <= total,
            total == nodes.order().len(),
            views(out@) == roots_among(nodes.order().take(i as int), node_map(nodes@)),
        decreases total - i,
    {
        let ghost before = views(out@);
        assert(nodes.order().take(i + 1).drop_last() =~= nodes.order().take(i as int));
        let node = nodes.value_at(i);
        if node.parent_id.is_none() {
            out.push(nodes.key_at(i).clone());
            assert(views(out@) =~= before.push(nodes.order()[i as int]));
        }
        i += 1;
    }
    assert(nodes.order().take(i as int) =~= nodes.order());
    out
}

fn write_trees(trees: &Vec<AccessibilityNode>) -> (out: String)
    ensures
        out@ == simplified_text(nodes_of(trees@)),
{
    let ghost text = |tree: Node| tree_text(tree, 0);
    let mut lines: Vec<String> = Vec::new();
    let mut i: usize = 0;
    while i < trees.len()
        invariant
            i <= trees.len(),
            text == (|tree: Node| tree_text(tree, 0)),
            views(lines@) == nodes_of(trees@.take(i as int)).map_values(text),
        decreases trees.len() - i,
    {
        let ghost before = views(lines@);
        let line = format_simplified_tree(&trees[i], 0);
        let ghost written = line@;
        lines.push(line);
        proof {
            assert(views(lines@) =~= before.push(written));
            assert(nodes_of(trees@.take(i + 1)).map_values(text) =~= before.push(written));
        }
        i += 1;
    }
    assert(trees@.take(i as int) =~= trees@);
    join(&lines, "\n")
}

/// Builds the trees of the reported nodes, cleans them and writes them down.
/// Where the role of an element has to be known first, says which.
pub fn build_hierarchical_tree(nodes: &Vec<AxNode>, roles: Option<&RoleAnswers>) -> (out: Cleaning<
    TreeResult,
>)
    ensures
        match (out, cleaned_all(built_trees(raw_nodes(nodes@)), known_roles(roles))) {
            (Cleaning::Ready(result), Cleaning::Ready(trees)) => {
                &&& nodes_of(result.tree@) == trees
                &&& result.simplified@ == simplified_text(trees)
                &&& nodes_of(result.iframes@) == iframe_nodes(raw_nodes(nodes@))
                &&& text_map(result.id_to_url@) == url_table(raw_nodes(nodes@))
            },
            (Cleaning::Wanted(id), Cleaning::Wanted(wanted)) => id == wanted,
            _ => false,
        },
{
    let mut id_to_url: Table<String> = Table::new();
    let mut table: Table<AccessibilityNode> = Table::new();
    let mut iframes: Vec<AccessibilityNode> = Vec::new();
    let ghost raws = raw_nodes(nodes@);
    let mut i: usize = 0;
    proof {
        assert(raws.take(0) =~= Seq::<RawNode>::empty());
        assert(node_map(table@) =~= node_table(raws.take(0)));
        assert(text_map(id_to_url@) =~= url_table(raws.take(0)));
        assert(nodes_of(iframes@) =~= iframe_nodes(raws.take(0)));
    }
    while i < nodes.len()
        invariant
            i <= nodes.len(),
            raws == raw_nodes(nodes@),
            node_map(table@) == node_table(raws.take(i as int)),
            table.order() == node_order(raws.take(i as int)),
            text_map(id_to_url@) == url_table(raws.take(i as int)),
            nodes_of(iframes@) == iframe_nodes(raws.take(i as int)),
        decreases nodes.len() - i,
    {
        let node = &nodes[i];
        let ghost before = table@;
        let ghost urls_before = id_to_url@;
        let ghost iframes_before = nodes_of(iframes@);
        proof {
            assert(raws.take(i + 1).drop_last() =~= raws.take(i as int));
            assert(raws.take(i + 1).last() == node@);
            assert(node_map(before).dom() =~= before.dom());
        }
        if !negative_id(node.node_id.as_str()) {
            if let Some(url) = extract_url_from_ax_node(node) {
                let ghost added = url@;
                id_to_url.insert(node.node_id.as_str(), url);
                assert(text_map(id_to_url@) =~= text_map(urls_before).insert(node.node_id@, added));
            }
        }
        if let Some(made) = process_ax_node(node) {
            let ghost added = made@;
            if opt_is(&made.role, "Iframe") {
                let mut frame = AccessibilityNode::default();
                frame.node_id = Some(node.node_id.clone());
                frame.role = Some("Iframe".to_owned());
                assert(frame@ =~= iframe_node(node.node_id@));
                iframes.push(frame);
                assert(nodes_of(iframes@) =~= iframes_before.push(iframe_node(node.node_id@)));
            }
            table.insert(node.node_id.as_str(), made);
            assert(node_map(table@) =~= node_map(before).insert(node.node_id@, added));
        }
        i += 1;
    }
    assert(raws.take(i as int) =~= raws);
    let root_ids = find_roots(&table);
    let mut trees: Vec<AccessibilityNode> = Vec::new();
    let mut k: usize = 0;
    proof {
        lemma_finite(table);
        assert(node_map(table@).dom() =~= table@.dom());
        assert(nodes_of(trees@) =~= Seq::<Node>::empty());
        assert(views(root_ids@.take(0)) =~= Seq::<Seq<char>>::empty());
    }
    while k < root_ids.len()
        invariant
            k <= root_ids.len(),
            node_map(table@).dom().finite(),
            nodes_of(trees@) == subtrees(views(root_ids@.take(k as int)), node_map(table@), seq![]),
        decreases root_ids.len() - k,
    {
        let ghost before = nodes_of(trees@);
        assert(views(root_ids@.take(k + 1)).drop_last() =~= views(root_ids@.take(k as int)));
        let mut visiting: Vec<String> = Vec::new();
        assert(views(visiting@) =~= Seq::<Seq<char>>::empty());
        if let Some(tree) = build_subtree(root_ids[k].as_str(), &table, &mut visiting) {
            trees.push(tree);
            assert(nodes_of(trees@) =~= before.push(tree@));
        }
        k += 1;
    }
    assert(root_ids@.take(k as int) =~= root_ids@);
    assert(nodes_of(trees@) == built_trees(raws));
    let mut tree: Vec<AccessibilityNode> = Vec::new();
    let mut n: usize = 0;
    assert(nodes_of(trees@.take(0)) =~= Seq::<Node>::empty());
    assert(nodes_of(tree@) =~= Seq::<Node>::empty());
    while n < trees.len()
        invariant
            n <= trees.len(),
            nodes_of(trees@) == built_trees(raws),
            raws == raw_nodes(nodes@),
            cleaned_all(nodes_of(trees@.take(n as int)), known_roles(roles)) == Cleaning::Ready(
                nodes_of(tree@),
            ),
        decreases trees.len() - n,
    {
        let ghost before = nodes_of(tree@);
        assert(nodes_of(trees@.take(n + 1)).drop_last() =~= nodes_of(trees@.take(n as int)));
        match clean_structural_nodes(&trees[n], roles) {
            Cleaning::Wanted(id) => {
                proof {
                    assert(nodes_of(trees@).take(n + 1) =~= nodes_of(trees@.take(n + 1)));
                    lemma_wanted_first(nodes_of(trees@), known_roles(roles), (n + 1) as int, id);
                }
                return Cleaning::Wanted(id);
            },
            Cleaning::Ready(Some(node)) => {
                tree.push(node);
                assert(nodes_of(tree@) =~= before.push(node@));
            },
            Cleaning::Ready(None) => {},
        }
        n += 1;
    }
    assert(trees@.take(n as int) =~= trees@);
    let simplified = write_trees(&tree);
    Cleaning::Ready(TreeResult { tree, simplified, iframes, id_to_url })
}

/// The role of a node that can be scrolled.
pub open spec fn scrollable_role(role: RawValue) -> Seq<char> {
    let current = match inner(role) {
        Some(Json::Text(text)) => text,
        _ => seq![],
    };
    if current.len() == 0 || current == "generic"@ || current == "none"@ {
        "scrollable"@
    } else {
        "scrollable, "@ + current
    }
}

/// A reported node, marked where its element can be scrolled.
pub open spec fn marked(raw: RawNode, ids: Set<i64>) -> RawNode {
    match raw.backend {
        Some(id) if ids.contains(id) => RawNode {
            role: Some(
                (
                    match raw.role {
                        Some(role) => role.0,
                        None => "string"@,
                    },
                    Some(Json::Text(scrollable_role(raw.role))),
                ),
            ),
            ..raw
        },
        _ => raw,
    }
}

/// Marks the nodes whose elements can be scrolled by their role.
pub fn mark_scrollable_nodes(nodes: &mut Vec<AxNode>, ids: &HashSet<i64>)
    ensures
        raw_nodes(final(nodes)@) == raw_nodes(old(nodes)@).map_values(
            |raw: RawNode| marked(raw, ids@),
        ),
{
    broadcast use vstd::std_specs::hash::group_hash_axioms;

    let ghost all = raw_nodes(nodes@);
    let ghost mark = |raw: RawNode| marked(raw, ids@);
    let mut i: usize = 0;
    while i < nodes.len()
        invariant
            i <= nodes.len(),
            all.len() == nodes.len(),
            all == raw_nodes(old(nodes)@),
            mark == (|raw: RawNode| marked(raw, ids@)),
            raw_nodes(nodes@) == all.take(i as int).map_values(mark) + all.skip(i as int),
        decreases nodes.len() - i,
    {
        let ghost before = nodes@;
        assert(raw_nodes(before)[i as int] == all[i as int]);
        if let Some(id) = nodes[i].backend_dom_node_id {
            if ids.contains(&id) {
                let mut current = String::new();
                let mut value_type = "string".to_owned();
                if let Some(role) = &nodes[i].role {
                    value_type = role.value_type.clone();
                    if let Some(value) = &role.value {
                        if let Some(text) = value.as_str() {
                            current = text.clone();
                        }
                    }
                }
                let mut role = "scrollable".to_owned();
                if !current.as_str().is_empty() && !str_eq(current.as_str(), "generic") && !str_eq(
                    current.as_str(),
                    "none",
                ) {
                    role = "scrollable, ".to_owned();
                    role.append(current.as_str());
                }
                nodes[i].role = Some(
                    AxValue { value_type, value: Some(JsonValue::text(role.as_str())) },
                );
            }
        }
        assert(nodes@[i as int]@ =~= marked(all[i as int], ids@));
        assert(raw_nodes(nodes@) =~= raw_nodes(before).update(
            i as int,
            marked(all[i as int], ids@),
        ));
        i += 1;
        assert(raw_nodes(nodes@) =~= all.take(i as int).map_values(mark) + all.skip(i as int));
    }
    assert(raw_nodes(nodes@) =~= all.map_values(mark));
}

} // verus!
