//! What stands in the trees of a page, before and after they are cleaned.
use crate::a11y::{
    built_trees, cleaned, cleaned_all, ids_of, lemma_path_grows, node_order, node_table,
    normal_space, roots_among, says_more, subtree, subtrees, without_repeats, Cleaning, Roles,
};
use crate::json::{written_json, Json};
use crate::text::{is_blank, signed_of};
use crate::types::a11y::{Node, RawNode, RawValue};
use vstd::prelude::*;
use vstd::string::*;

verus! {

/// A node without its children.
pub open spec fn alone(node: Node) -> Node {
    Node { children: None, ..node }
}

/// The trees below a node.
pub open spec fn kids_of(node: Node) -> Seq<Node> {
    match node.children {
        Some(children) => children,
        None => seq![],
    }
}

/// The text of a reported value: a text as it is, any other value as JSON.
pub open spec fn reported_text(value: RawValue) -> Option<Seq<char>> {
    match value {
        Some((_, Some(Json::Text(text)))) => Some(text),
        Some((_, Some(value))) => Some(written_json(value)),
        _ => None,
    }
}

/// Whether an id reads as a negative number.
pub open spec fn is_below_zero(id: Seq<char>) -> bool {
    signed_of(id) matches Ok(number) && number < 0
}

/// Whether a report is of a node that counts: its id is no negative number, and it has
/// a name that is not blank, or the id of a child, or a role that says something.
pub open spec fn counts(raw: RawNode) -> bool {
    &&& !is_below_zero(raw.node_id)
    &&& {
        ||| (reported_text(raw.name) matches Some(name) && !is_blank(name))
        ||| (raw.child_ids matches Some(ids) && ids.len() > 0)
        ||| {
            &&& reported_text(raw.role) != Some("none"@)
            &&& reported_text(raw.role) != Some("generic"@)
            &&& reported_text(raw.role) != Some("InlineTextBox"@)
        }
    }
}

/// Whether a node says of itself what was reported of it.
pub open spec fn says_as_reported(node: Node, raw: RawNode) -> bool {
    &&& node.node_id == Some(raw.node_id)
    &&& node.role == Some(
        match reported_text(raw.role) {
            Some(role) => role,
            None => seq![],
        },
    )
    &&& node.name == reported_text(raw.name)
    &&& node.description == reported_text(raw.description)
    &&& node.value == reported_text(raw.value)
    &&& node.backend == raw.backend
    &&& node.parent_id == raw.parent_id
    &&& node.child_ids == raw.child_ids
    &&& node.properties == raw.properties
    &&& node.children is None
}

proof fn lemma_counts(raw: RawNode)
    ensures
        crate::a11y::is_relevant(raw) == counts(raw),
{
    reveal_strlit("none");
    reveal_strlit("generic");
    reveal_strlit("InlineTextBox");
    assert("none"@.len() == 4 && "generic"@.len() == 7 && "InlineTextBox"@.len() == 13);
}

/// Every report of a node that counts and is not reported again later stands in the
/// table of nodes under its id, as it was reported, and its id among the ids.
pub proof fn law_reported_node_is_in_table(raws: Seq<RawNode>, i: int)
    requires
        0 <= i < raws.len(),
        counts(raws[i]),
        forall|j: int|
            i < j < raws.len() && counts(raws[j]) ==> (#[trigger] raws[j]).node_id
                != raws[i].node_id,
    ensures
        node_table(raws).dom().contains(raws[i].node_id),
        says_as_reported(node_table(raws)[raws[i].node_id], raws[i]),
    decreases raws.len(),
{
    let less = raws.drop_last();
    lemma_counts(raws.last());
    if i < raws.len() - 1 {
        assert forall|j: int| i < j < less.len() && counts(less[j]) implies (#[trigger] less[j]).node_id
            != less[i].node_id by {
            assert(less[j] == raws[j]);
        }
        law_reported_node_is_in_table(less, i);
        if counts(raws.last()) {
            assert(raws[raws.len() - 1].node_id != raws[i].node_id);
        }
    }
}

/// Every node in the table was reported, counts, and says what the last such report of
/// its id said.
pub proof fn law_table_holds_reports(raws: Seq<RawNode>, id: Seq<char>) -> (i: int)
    requires
        node_table(raws).dom().contains(id),
    ensures
        0 <= i < raws.len(),
        counts(raws[i]),
        raws[i].node_id == id,
        says_as_reported(node_table(raws)[id], raws[i]),
        forall|j: int|
            i < j < raws.len() && counts(raws[j]) ==> (#[trigger] raws[j]).node_id != id,
    decreases raws.len(),
{
    let less = raws.drop_last();
    lemma_counts(raws.last());
    if counts(raws.last()) && raws.last().node_id == id {
        raws.len() - 1
    } else {
        let i = law_table_holds_reports(less, id);
        assert forall|j: int| i < j < raws.len() && counts(raws[j]) implies (#[trigger] raws[j]).node_id
            != id by {
            if j < raws.len() - 1 {
                assert(less[j] == raws[j]);
            }
        }
        i
    }
}

proof fn lemma_table_finite(raws: Seq<RawNode>)
    ensures
        node_table(raws).dom().finite(),
        forall|id: Seq<char>| #[trigger]
            node_table(raws).dom().contains(id) ==> node_table(raws)[id].node_id == Some(id)
                && node_table(raws)[id].children is None,
    decreases raws.len(),
{
    if raws.len() > 0 {
        lemma_table_finite(raws.drop_last());
    }
}

/// The ids hold each id of the table once.
pub proof fn law_ids_are_those_of_the_table(raws: Seq<RawNode>)
    ensures
        node_order(raws).no_duplicates(),
        forall|id: Seq<char>|
            node_order(raws).contains(id) <==> #[trigger] node_table(raws).dom().contains(id),
    decreases raws.len(),
{
    let ids = node_order(raws);
    if raws.len() > 0 {
        let less = raws.drop_last();
        law_ids_are_those_of_the_table(less);
        let before = node_order(less);
        let last = raws.last().node_id;
        let grows = crate::a11y::is_relevant(raws.last()) && !node_table(less).dom().contains(last);
        assert forall|id: Seq<char>|
            node_order(raws).contains(id) <==> #[trigger] node_table(raws).dom().contains(id) by {
            if before.contains(id) {
                assert(node_table(less).dom().contains(id));
                let n = choose|n: int| 0 <= n < before.len() && before[n] == id;
                assert(ids[n] == id);
            }
            if grows {
                assert(ids[before.len() as int] == last);
            }
            if ids.contains(id) {
                let n = choose|n: int| 0 <= n < ids.len() && ids[n] == id;
                if n < before.len() {
                    assert(before[n] == id);
                    assert(before.contains(id));
                    assert(node_table(less).dom().contains(id));
                }
            }
            if node_table(less).dom().contains(id) {
                assert(before.contains(id));
            }
        }
        if grows {
            assert(!before.contains(last));
            assert forall|a: int, b: int| 0 <= a < b < ids.len() implies ids[a] != ids[b] by {
                assert(before[a] == ids[a]);
                if b == before.len() {
                    assert(before.contains(before[a]));
                }
            }
        }
    }
}

/// The ids stand in the order in which they were first reported: those of the reports
/// up to any report come before all others.
pub proof fn law_ids_stand_as_reported(raws: Seq<RawNode>, n: int)
    requires
        0 <= n <= raws.len(),
    ensures
        node_order(raws.take(n)).len() <= node_order(raws).len(),
        node_order(raws).take(node_order(raws.take(n)).len() as int) == node_order(raws.take(n)),
        n > 0 && counts(raws[n - 1]) && (forall|j: int|
            0 <= j < n - 1 && counts(raws[j]) ==> (#[trigger] raws[j]).node_id
                != raws[n - 1].node_id) ==> node_order(raws.take(n)) == node_order(
            raws.take(n - 1),
        ).push(raws[n - 1].node_id),
    decreases raws.len() - n,
{
    if n < raws.len() {
        law_ids_stand_as_reported(raws, n + 1);
        assert(raws.take(n + 1).drop_last() =~= raws.take(n));
        let here = node_order(raws.take(n));
        assert(node_order(raws).take(here.len() as int) =~= here) by {
            let further = node_order(raws.take(n + 1));
            assert(further.take(here.len() as int) =~= here);
            assert(node_order(raws).take(further.len() as int) == further);
            assert forall|k: int| 0 <= k < here.len() implies node_order(raws)[k] == here[k] by {
                assert(further[k] == here[k]);
                assert(node_order(raws).take(further.len() as int)[k] == further[k]);
            }
        }
    } else {
        assert(raws.take(n) =~= raws);
        assert(node_order(raws).take(node_order(raws).len() as int) =~= node_order(raws));
    }
    if n > 0 {
        let less = raws.take(n - 1);
        assert(raws.take(n).drop_last() =~= less);
        assert(raws.take(n).last() == raws[n - 1]);
        lemma_counts(raws[n - 1]);
        if counts(raws[n - 1]) && node_table(less).dom().contains(raws[n - 1].node_id) {
            let j = law_table_holds_reports(less, raws[n - 1].node_id);
            assert(less[j] == raws[j]);
        }
    }
}

/// Whether a node has a child with an id.
pub open spec fn has_child(nodes: Map<Seq<char>, Node>, id: Seq<char>, child: Seq<char>) -> bool {
    nodes[id].child_ids matches Some(ids) && ids.contains(child)
}

/// Whether ids lead from a node downwards: each is the id of a child of the one before
/// it, and none comes twice.
pub open spec fn is_chain(chain: Seq<Seq<char>>, nodes: Map<Seq<char>, Node>) -> bool {
    &&& chain.no_duplicates()
    &&& forall|i: int| 0 <= i < chain.len() ==> nodes.dom().contains(#[trigger] chain[i])
    &&& forall|i: int, j: int|
        0 <= i < j < chain.len() && j == i + 1 ==> #[trigger] has_child(nodes, chain[i], chain[j])
}

/// Whether the nodes of a chain stand in the trees, each right below the one before it.
pub open spec fn leads_down(
    trees: Seq<Node>,
    chain: Seq<Seq<char>>,
    nodes: Map<Seq<char>, Node>,
) -> bool
    decreases chain.len(),
{
    chain.len() == 0 || exists|i: int|
        0 <= i < trees.len() && alone(#[trigger] trees[i]) == alone(nodes[chain[0]]) && leads_down(
            kids_of(trees[i]),
            chain.skip(1),
            nodes,
        )
}

proof fn lemma_subtree_occurs(
    ids: Seq<Seq<char>>,
    nodes: Map<Seq<char>, Node>,
    path: Seq<Seq<char>>,
    k: int,
) -> (i: int)
    requires
        nodes.dom().finite(),
        0 <= k < ids.len(),
        nodes.dom().contains(ids[k]),
    ensures
        0 <= i < subtrees(ids, nodes, path).len(),
        subtree(ids[k], nodes, path) == Some(subtrees(ids, nodes, path)[i]),
    decreases ids.len(),
{
    let less = ids.drop_last();
    let before = subtrees(less, nodes, path);
    if k == ids.len() - 1 {
        assert(subtree(ids.last(), nodes, path) is Some);
        before.len() as int
    } else {
        let i = lemma_subtree_occurs(less, nodes, path, k);
        assert(subtrees(ids, nodes, path)[i] == before[i]);
        i
    }
}

proof fn lemma_rest_of_chain(chain: Seq<Seq<char>>, nodes: Map<Seq<char>, Node>)
    requires
        chain.len() > 0,
        is_chain(chain, nodes),
    ensures
        is_chain(chain.skip(1), nodes),
{
    let rest = chain.skip(1);
    assert forall|i: int| 0 <= i < rest.len() implies nodes.dom().contains(#[trigger] rest[i]) by {
        assert(rest[i] == chain[i + 1]);
    }
    assert forall|i: int, j: int| 0 <= i < j < rest.len() && j == i + 1 implies #[trigger] has_child(
        nodes,
        rest[i],
        rest[j],
    ) by {
        assert(has_child(nodes, chain[i + 1], chain[j + 1]));
    }
    assert forall|a: int, b: int| 0 <= a < rest.len() && 0 <= b < rest.len() && a
        != b implies rest[a] != rest[b] by {
        assert(rest[a] == chain[a + 1] && rest[b] == chain[b + 1]);
    }
}

proof fn lemma_leads_down(
    ids: Seq<Seq<char>>,
    nodes: Map<Seq<char>, Node>,
    path: Seq<Seq<char>>,
    chain: Seq<Seq<char>>,
)
    requires
        nodes.dom().finite(),
        chain.len() > 0,
        is_chain(chain, nodes),
        ids.contains(chain[0]),
        forall|i: int| 0 <= i < chain.len() ==> !path.contains(#[trigger] chain[i]),
    ensures
        leads_down(subtrees(ids, nodes, path), chain, nodes),
    decreases chain.len(),
{
    let id = chain[0];
    let rest = chain.skip(1);
    let trees = subtrees(ids, nodes, path);
    let k = choose|k: int| 0 <= k < ids.len() && ids[k] == id;
    let i = lemma_subtree_occurs(ids, nodes, path, k);
    let below = subtrees(ids_of(nodes[id]), nodes, path.push(id));
    let tree = trees[i];
    assert(!path.contains(chain[0]));
    assert(alone(tree) == alone(nodes[id]));
    if rest.len() > 0 {
        assert forall|n: int| 0 <= n < rest.len() implies nodes.dom().contains(#[trigger] rest[n])
            && !path.push(id).contains(rest[n]) by {
            assert(rest[n] == chain[n + 1]);
            assert(!path.contains(chain[n + 1]));
            if path.push(id).contains(rest[n]) {
                let m = choose|m: int| 0 <= m < path.push(id).len() && path.push(id)[m] == rest[n];
                if m < path.len() {
                    assert(path[m] == rest[n]);
                } else {
                    assert(chain[0] == chain[n + 1]);
                }
            }
        }
        lemma_rest_of_chain(chain, nodes);
        assert(chain[1] == rest[0]);
        assert(has_child(nodes, chain[0], chain[1]));
        lemma_leads_down(ids_of(nodes[id]), nodes, path.push(id), rest);
        assert(below.len() > 0);
        assert(kids_of(tree) == below);
    }
    assert(leads_down(kids_of(trees[i]), chain.skip(1), nodes));
}

proof fn lemma_roots(ids: Seq<Seq<char>>, nodes: Map<Seq<char>, Node>, k: int)
    requires
        0 <= k < ids.len(),
        nodes[ids[k]].parent_id is None,
    ensures
        roots_among(ids, nodes).contains(ids[k]),
    decreases ids.len(),
{
    let less = ids.drop_last();
    let before = roots_among(less, nodes);
    let roots = roots_among(ids, nodes);
    if k == ids.len() - 1 {
        assert(roots[before.len() as int] == ids[k]);
    } else {
        lemma_roots(less, nodes, k);
        let n = choose|n: int| 0 <= n < before.len() && before[n] == less[k];
        assert(roots[n] == ids[k]);
    }
}

/// Every node that can be reached from a node without a parent, by a chain of child ids
/// in which none comes twice, stands in the trees: as deep as the chain is long, below
/// the other nodes of the chain.
pub proof fn law_reachable_nodes_are_in_the_trees(raws: Seq<RawNode>, chain: Seq<Seq<char>>)
    requires
        chain.len() > 0,
        is_chain(chain, node_table(raws)),
        node_table(raws)[chain[0]].parent_id is None,
    ensures
        leads_down(built_trees(raws), chain, node_table(raws)),
{
    let nodes = node_table(raws);
    let order = node_order(raws);
    lemma_table_finite(raws);
    law_ids_are_those_of_the_table(raws);
    assert(nodes.dom().contains(chain[0]));
    let k = choose|k: int| 0 <= k < order.len() && order[k] == chain[0];
    lemma_roots(order, nodes, k);
    lemma_leads_down(roots_among(order, nodes), nodes, seq![], chain);
}

/// The ids of trees.
pub open spec fn shown_ids(trees: Seq<Node>) -> Seq<Option<Seq<char>>> {
    trees.map_values(|tree: Node| tree.node_id)
}

/// Those of the ids that have a node.
pub open spec fn known_ids(ids: Seq<Seq<char>>, nodes: Map<Seq<char>, Node>) -> Seq<
    Option<Seq<char>>,
> {
    ids.filter(|id: Seq<char>| nodes.dom().contains(id)).map_values(|id: Seq<char>| Some(id))
}

/// Whether a tree shows its node with everything below it: the node as it stands in the
/// table, and below it the trees of all its children that have a node, in order. Below a
/// node that stands above itself there is nothing.
pub open spec fn shows_all(
    tree: Node,
    nodes: Map<Seq<char>, Node>,
    above: Seq<Seq<char>>,
) -> bool
    decreases tree,
{
    &&& tree.node_id matches Some(id)
    &&& nodes.dom().contains(id)
    &&& alone(tree) == nodes[id]
    &&& if above.contains(id) {
        kids_of(tree).len() == 0
    } else {
        &&& shown_ids(kids_of(tree)) == known_ids(
            match nodes[id].child_ids {
                Some(ids) => ids,
                None => seq![],
            },
            nodes,
        )
        &&& (tree.children matches Some(kids) ==> forall|i: int|
            0 <= i < kids.len() ==> shows_all(#[trigger] kids[i], nodes, above.push(id)))
    }
}

/// Whether a table has each node under its id, without children.
spec fn is_keyed(nodes: Map<Seq<char>, Node>) -> bool {
    &&& nodes.dom().finite()
    &&& forall|id: Seq<char>| #[trigger]
        nodes.dom().contains(id) ==> nodes[id].node_id == Some(id) && nodes[id].children is None
}

proof fn lemma_tree_shows_all(id: Seq<char>, nodes: Map<Seq<char>, Node>, path: Seq<Seq<char>>)
    requires
        is_keyed(nodes),
        nodes.dom().contains(id),
    ensures
        subtree(id, nodes, path) matches Some(tree) && tree.node_id == Some(id) && shows_all(
            tree,
            nodes,
            path,
        ),
    decreases nodes.dom().difference(path.to_set()).len(), 1nat, 0nat,
{
    let tree = subtree(id, nodes, path)->0;
    if !path.contains(id) {
        lemma_path_grows(id, nodes, path);
        let ids = ids_of(nodes[id]);
        let below = subtrees(ids, nodes, path.push(id));
        lemma_trees_show_all(ids, nodes, path.push(id));
        if below.len() == 0 {
            assert(kids_of(tree) =~= below);
        }
        assert(alone(tree) =~= nodes[id]);
    } else {
        assert(alone(tree) =~= nodes[id]);
    }
}

proof fn lemma_trees_show_all(
    ids: Seq<Seq<char>>,
    nodes: Map<Seq<char>, Node>,
    path: Seq<Seq<char>>,
)
    requires
        is_keyed(nodes),
    ensures
        shown_ids(subtrees(ids, nodes, path)) == known_ids(ids, nodes),
        forall|i: int|
            0 <= i < subtrees(ids, nodes, path).len() ==> shows_all(
                #[trigger] subtrees(ids, nodes, path)[i],
                nodes,
                path,
            ),
    decreases nodes.dom().difference(path.to_set()).len(), 2nat, ids.len(),
{
    reveal(Seq::filter);
    let trees = subtrees(ids, nodes, path);
    if ids.len() > 0 {
        let less = ids.drop_last();
        let before = subtrees(less, nodes, path);
        lemma_trees_show_all(less, nodes, path);
        if nodes.dom().contains(ids.last()) {
            lemma_tree_shows_all(ids.last(), nodes, path);
            assert(shown_ids(trees) =~= shown_ids(before).push(Some(ids.last())));
            assert(known_ids(ids, nodes) =~= known_ids(less, nodes).push(Some(ids.last())));
            assert forall|i: int| 0 <= i < trees.len() implies shows_all(
                #[trigger] trees[i],
                nodes,
                path,
            ) by {
                if i < before.len() {
                    assert(trees[i] == before[i]);
                }
            }
        }
    } else {
        assert(shown_ids(trees) =~= known_ids(ids, nodes));
    }
}

proof fn lemma_roots_are_known(ids: Seq<Seq<char>>, nodes: Map<Seq<char>, Node>)
    requires
        forall|i: int| 0 <= i < ids.len() ==> nodes.dom().contains(#[trigger] ids[i]),
    ensures
        roots_among(ids, nodes) == ids.filter(|id: Seq<char>| nodes[id].parent_id is None),
        known_ids(roots_among(ids, nodes), nodes) == roots_among(ids, nodes).map_values(
            |id: Seq<char>| Some(id),
        ),
    decreases ids.len(),
{
    reveal(Seq::filter);
    if ids.len() > 0 {
        let less = ids.drop_last();
        assert forall|i: int| 0 <= i < less.len() implies nodes.dom().contains(
            #[trigger] less[i],
        ) by {
            assert(less[i] == ids[i]);
        }
        lemma_roots_are_known(less, nodes);
        assert(nodes.dom().contains(ids[ids.len() - 1]));
        let before = roots_among(less, nodes);
        let roots = roots_among(ids, nodes);
        if nodes[ids.last()].parent_id is None {
            assert(roots.drop_last() =~= before);
            assert(known_ids(roots, nodes) =~= known_ids(before, nodes).push(Some(ids.last())));
        }
    }
    assert(known_ids(roots_among(ids, nodes), nodes) =~= roots_among(ids, nodes).map_values(
        |id: Seq<char>| Some(id),
    ));
}

/// The trees of a page are those of its nodes without a parent, in the order of their
/// ids, and each shows everything below its node and nothing else.
pub proof fn law_trees_show_all(raws: Seq<RawNode>)
    ensures
        shown_ids(built_trees(raws)) == node_order(raws).filter(
            |id: Seq<char>| node_table(raws)[id].parent_id is None,
        ).map_values(|id: Seq<char>| Some(id)),
        forall|i: int|
            0 <= i < built_trees(raws).len() ==> shows_all(
                #[trigger] built_trees(raws)[i],
                node_table(raws),
                seq![],
            ),
{
    let nodes = node_table(raws);
    lemma_table_finite(raws);
    law_ids_are_those_of_the_table(raws);
    assert forall|i: int| 0 <= i < node_order(raws).len() implies nodes.dom().contains(
        #[trigger] node_order(raws)[i],
    ) by {
        assert(node_order(raws).contains(node_order(raws)[i]));
    }
    lemma_roots_are_known(node_order(raws), nodes);
    lemma_trees_show_all(roots_among(node_order(raws), nodes), nodes, seq![]);
}

/// Whether a node has no name, or a blank one.
pub open spec fn is_unnamed(node: Node) -> bool {
    node.name matches Some(name) ==> normal_space(name).len() == 0
}

/// Whether a node is plain text with a name.
pub open spec fn is_named_text(node: Node) -> bool {
    node.role == Some("StaticText"@) && (node.name matches Some(name) && name.len() > 0)
}

/// Whether nodes stand in a tree, each somewhere below the one before it, and neither
/// they nor the nodes above them have a negative id or are plain text below a node with a
/// name. `silent` says that no node above the tree has a name.
pub open spec fn stand_in(tree: Node, wanted: Seq<Node>, silent: bool) -> bool
    decreases tree,
{
    &&& tree.node_id matches Some(id) ==> !is_below_zero(id)
    &&& is_named_text(tree) ==> silent
    &&& {
        ||| wanted.len() == 1 && alone(tree) == wanted[0]
        ||| (tree.children matches Some(kids) && exists|i: int|
            0 <= i < kids.len() && (stand_in(
                #[trigger] kids[i],
                wanted,
                silent && is_unnamed(tree),
            ) || (wanted.len() > 1 && alone(tree) == wanted[0] && stand_in(
                kids[i],
                wanted.skip(1),
                silent && is_unnamed(tree),
            ))))
    }
}

proof fn lemma_silence(tree: Node, wanted: Seq<Node>, silent: bool)
    requires
        stand_in(tree, wanted, silent),
    ensures
        stand_in(tree, wanted, true),
    decreases tree,
{
    if !(wanted.len() == 1 && alone(tree) == wanted[0]) {
        let kids = tree.children->0;
        let below = silent && is_unnamed(tree);
        let i = choose|i: int|
            0 <= i < kids.len() && (stand_in(#[trigger] kids[i], wanted, below) || (wanted.len() > 1
                && alone(tree) == wanted[0] && stand_in(kids[i], wanted.skip(1), below)));
        let sought = if stand_in(kids[i], wanted, below) {
            wanted
        } else {
            wanted.skip(1)
        };
        if is_unnamed(tree) {
            lemma_silence(kids[i], sought, below);
        }
        assert(stand_in(kids[i], sought, is_unnamed(tree)));
    }
}

/// Whether a node stays when its tree is cleaned: it does not only group others, and its
/// role is not put in terms of its element.
pub open spec fn stays(node: Node, asks: bool) -> bool {
    &&& node.role != Some("generic"@)
    &&& node.role != Some("none"@)
    &&& asks && node.backend is Some ==> node.role != Some("combobox"@)
}

/// Whether no element is said to be plain text.
pub open spec fn names_elements(roles: Option<Roles>) -> bool {
    roles matches Some(roles) ==> forall|id: i64| #[trigger]
        roles.dom().contains(id) ==> roles[id] != Some("StaticText"@)
}

proof fn lemma_kid_is_left(nodes: Seq<Node>, roles: Option<Roles>, kids: Seq<Node>, i: int)
    requires
        cleaned_all(nodes, roles) == Cleaning::Ready(kids),
        0 <= i < nodes.len(),
    ensures
        cleaned(nodes[i], roles) is Ready,
        cleaned(nodes[i], roles) matches Cleaning::Ready(Some(kid)) ==> kids.contains(kid),
    decreases nodes.len(),
{
    let less = nodes.drop_last();
    if let Cleaning::Ready(before) = cleaned_all(less, roles) {
        if i < nodes.len() - 1 {
            lemma_kid_is_left(less, roles, before, i);
            assert(less[i] == nodes[i]);
            if let Cleaning::Ready(Some(kid)) = cleaned(nodes[i], roles) {
                let n = choose|n: int| 0 <= n < before.len() && before[n] == kid;
                assert(kids[n] == kid);
            }
        } else {
            if let Cleaning::Ready(Some(kid)) = cleaned(nodes[i], roles) {
                assert(kids[before.len() as int] == kid);
            }
        }
    }
}

proof fn lemma_filter_keeps(nodes: Seq<Node>, keep: spec_fn(Node) -> bool, node: Node)
    requires
        nodes.contains(node),
        keep(node),
    ensures
        nodes.filter(keep).contains(node),
{
    broadcast use vstd::seq_lib::group_seq_properties;
    broadcast use vstd::seq_lib::group_filter_ensures;

    let i = choose|i: int| 0 <= i < nodes.len() && nodes[i] == node;
    assert(nodes.filter(keep).contains(nodes[i]));
}

/// Cleaning keeps every node that does not only group others, with the nodes above it
/// that stay: it stands in the cleaned tree below them. Left out are nodes at or below
/// plain text that may say again what a node above it is named.
pub proof fn law_cleaning_keeps_nodes(
    tree: Node,
    wanted: Seq<Node>,
    silent: bool,
    roles: Option<Roles>,
    out: Option<Node>,
)
    requires
        cleaned(tree, roles) == Cleaning::Ready(out),
        names_elements(roles),
        wanted.len() > 0,
        stand_in(tree, wanted, silent),
        forall|i: int| 0 <= i < wanted.len() ==> stays(#[trigger] wanted[i], roles is Some),
    ensures
        out matches Some(left) && stand_in(left, wanted, silent),
    decreases tree,
{
    assert(stays(wanted[0], roles is Some));
    if kids_of(tree).len() == 0 {
        let left = out->0;
        assert(alone(left) == alone(tree));
    } else {
        let children = tree.children->0;
        let kids = cleaned_all(children, roles)->Ready_0;
        let here = alone(tree) == wanted[0];
        let rest = wanted.skip(1);
        let deeper = silent && is_unnamed(tree);
        assert forall|i: int| 0 <= i < rest.len() implies stays(
            #[trigger] rest[i],
            roles is Some,
        ) by {
            assert(rest[i] == wanted[i + 1]);
        }
        let below = !(wanted.len() == 1 && here);
        let i = choose|i: int|
            0 <= i < children.len() && (stand_in(#[trigger] children[i], wanted, deeper) || (
            wanted.len() > 1 && here && stand_in(children[i], rest, deeper)));
        let whole = stand_in(children[i], wanted, deeper);
        let sought = if whole {
            wanted
        } else {
            rest
        };
        let kid = cleaned(children[i], roles)->Ready_0;
        if below {
            lemma_kid_is_left(children, roles, kids, i);
            law_cleaning_keeps_nodes(children[i], sought, deeper, roles, kid);
            assert(kids.contains(kid->0));
        }
        let grouping = tree.role == Some("generic"@) || tree.role == Some("none"@);
        if grouping && kids.len() == 1 {
            assert(kids[0] == kid->0);
            if silent {
                lemma_silence(kid->0, wanted, deeper);
            }
        } else {
            let kept = without_repeats(tree.name, kids);
            let left = out->0;
            if below {
                if is_named_text(kid->0) {
                    assert(is_unnamed(tree));
                    assert(kept == kids);
                } else {
                    assert(says_more(kid->0));
                    lemma_filter_keeps(kids, |child: Node| says_more(child), kid->0);
                }
                assert(kept.contains(kid->0));
                let n = choose|n: int| 0 <= n < kept.len() && kept[n] == kid->0;
                assert(left.children == Some(kept));
                assert(stand_in(kept[n], sought, deeper));
                if !whole {
                    assert(alone(left) == alone(tree));
                }
                assert(left.node_id == tree.node_id);
                assert(left.name == tree.name);
                assert(is_named_text(left) ==> is_named_text(tree));
                assert(stand_in((left.children->0)[n], sought, deeper));
                assert(stand_in(left, wanted, silent));
            } else {
                assert(alone(left) == alone(tree));
            }
        }
    }
}

/// A node without its role and its children.
pub open spec fn unnamed(node: Node) -> Node {
    Node { role: None, children: None, ..node }
}

/// Whether a tree holds a node, whatever its role and its children.
pub open spec fn holds_node(tree: Node, node: Node) -> bool
    decreases tree,
{
    ||| unnamed(tree) == unnamed(node)
    ||| (tree.children matches Some(kids) && exists|i: int|
        0 <= i < kids.len() && holds_node(#[trigger] kids[i], node))
}

proof fn lemma_left_was_there(
    nodes: Seq<Node>,
    roles: Option<Roles>,
    kids: Seq<Node>,
    n: int,
) -> (i: int)
    requires
        cleaned_all(nodes, roles) == Cleaning::Ready(kids),
        0 <= n < kids.len(),
    ensures
        0 <= i < nodes.len(),
        cleaned(nodes[i], roles) == Cleaning::Ready(Some(kids[n])),
    decreases nodes.len(),
{
    let less = nodes.drop_last();
    let before = cleaned_all(less, roles)->Ready_0;
    if n == before.len() {
        nodes.len() - 1
    } else {
        let i = lemma_left_was_there(less, roles, before, n);
        assert(less[i] == nodes[i]);
        i
    }
}

proof fn lemma_filter_only(nodes: Seq<Node>, keep: spec_fn(Node) -> bool, n: int)
    requires
        0 <= n < nodes.filter(keep).len(),
    ensures
        nodes.contains(nodes.filter(keep)[n]),
    decreases nodes.len(),
{
    reveal(Seq::filter);
    let less = nodes.drop_last();
    if nodes.len() > 0 {
        if n < less.filter(keep).len() {
            lemma_filter_only(less, keep, n);
            let i = choose|i: int| 0 <= i < less.len() && less[i] == less.filter(keep)[n];
            assert(nodes[i] == less.filter(keep)[n]);
        } else {
            assert(nodes[nodes.len() - 1] == nodes.last());
        }
    }
}

/// Cleaning makes no nodes: what a cleaned tree holds, the tree held, but for its role.
pub proof fn law_cleaning_makes_no_nodes(
    tree: Node,
    roles: Option<Roles>,
    left: Node,
    node: Node,
)
    requires
        cleaned(tree, roles) == Cleaning::Ready(Some(left)),
        holds_node(left, node),
    ensures
        holds_node(tree, node),
    decreases tree,
{
    if kids_of(tree).len() > 0 {
        let children = tree.children->0;
        let kids = cleaned_all(children, roles)->Ready_0;
        let grouping = tree.role == Some("generic"@) || tree.role == Some("none"@);
        let kept = without_repeats(tree.name, kids);
        if grouping && kids.len() == 1 {
            let i = lemma_left_was_there(children, roles, kids, 0);
            law_cleaning_makes_no_nodes(children[i], roles, kids[0], node);
        } else if unnamed(left) != unnamed(node) {
            let n = choose|n: int| 0 <= n < kept.len() && holds_node(#[trigger] kept[n], node);
            if kept != kids {
                lemma_filter_only(kids, |child: Node| says_more(child), n);
            }
            assert(kids.contains(kept[n]));
            let m = choose|m: int| 0 <= m < kids.len() && kids[m] == kept[n];
            let i = lemma_left_was_there(children, roles, kids, m);
            law_cleaning_makes_no_nodes(children[i], roles, kids[m], node);
        } else {
            assert(unnamed(tree) == unnamed(node));
        }
    } else {
        assert(unnamed(tree) == unnamed(node));
    }
}

} // verus!
