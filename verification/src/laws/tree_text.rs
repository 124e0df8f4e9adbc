//! What the text of a page shows of its nodes, and what is told beside it.
use crate::a11y::{
    built_trees, cleaned, cleaned_all, iframe_nodes, marked, node_table, normal_space,
    simplified_text, static_names, tree_text, trees_text, url_in, url_table, without_repeats,
    Cleaning, Roles,
};
use crate::json::{field_of, text_of, Json};
use crate::laws::tree::{
    alone, counts, is_below_zero, is_chain, is_named_text, is_unnamed, kids_of,
    law_cleaning_keeps_nodes, law_reachable_nodes_are_in_the_trees, law_table_holds_reports,
    leads_down, names_elements, reported_text, stand_in, stays,
};
use crate::laws::text::{
    law_joined_in_order, law_unbroken_text_is_one_word, law_white_space_parts_words,
};
use crate::text::{begins_with, has_text, is_white_space, joined, trim_of, words_of};
use crate::types::a11y::{Node, RawNode};
use vstd::prelude::*;
use vstd::string::*;

verus! {

proof fn lemma_left_of_all(nodes: Seq<Node>, roles: Option<Roles>, left: Seq<Node>, i: int)
    requires
        cleaned_all(nodes, roles) == Cleaning::Ready(left),
        0 <= i < nodes.len(),
    ensures
        cleaned(nodes[i], roles) is Ready,
        cleaned(nodes[i], roles) matches Cleaning::Ready(Some(tree)) ==> left.contains(tree),
    decreases nodes.len(),
{
    let less = nodes.drop_last();
    if let Cleaning::Ready(before) = cleaned_all(less, roles) {
        if i < nodes.len() - 1 {
            lemma_left_of_all(less, roles, before, i);
            assert(less[i] == nodes[i]);
            if let Cleaning::Ready(Some(tree)) = cleaned(nodes[i], roles) {
                let n = choose|n: int| 0 <= n < before.len() && before[n] == tree;
                assert(left[n] == tree);
            }
        } else if let Cleaning::Ready(Some(tree)) = cleaned(nodes[i], roles) {
            assert(left[before.len() as int] == tree);
        }
    }
}

/// Whether a node of a chain is plain text with a name only where no node above it on the
/// chain has a name.
pub open spec fn says_nothing_again(
    chain: Seq<Seq<char>>,
    nodes: Map<Seq<char>, Node>,
    n: int,
    silent: bool,
) -> bool {
    is_named_text(nodes[chain[n]]) ==> silent && forall|k: int|
        0 <= k < n ==> is_unnamed(nodes[#[trigger] chain[k]])
}

proof fn lemma_stands_at_end(
    trees: Seq<Node>,
    chain: Seq<Seq<char>>,
    raws: Seq<RawNode>,
    silent: bool,
) -> (i: int)
    requires
        chain.len() > 0,
        leads_down(trees, chain, node_table(raws)),
        forall|n: int|
            0 <= n < chain.len() ==> node_table(raws).dom().contains(#[trigger] chain[n]),
        forall|n: int|
            0 <= n < chain.len() ==> #[trigger] says_nothing_again(
                chain,
                node_table(raws),
                n,
                silent,
            ),
    ensures
        0 <= i < trees.len(),
        stand_in(trees[i], seq![node_table(raws)[chain.last()]], silent),
    decreases chain.len(),
{
    let nodes = node_table(raws);
    let wanted = seq![nodes[chain.last()]];
    let rest = chain.skip(1);
    let i = choose|i: int|
        0 <= i < trees.len() && alone(#[trigger] trees[i]) == alone(nodes[chain[0]]) && leads_down(
            kids_of(trees[i]),
            rest,
            nodes,
        );
    assert(nodes.dom().contains(chain[0]));
    let from = law_table_holds_reports(raws, chain[0]);
    let tree = trees[i];
    assert(tree.node_id == alone(tree).node_id);
    assert(tree.role == alone(tree).role);
    assert(tree.name == alone(tree).name);
    assert(tree.node_id == Some(chain[0]));
    assert(says_nothing_again(chain, nodes, 0, silent));
    if chain.len() == 1 {
        assert(alone(nodes[chain[0]]) =~= nodes[chain[0]]);
        assert(chain.last() == chain[0]);
        assert(alone(tree) == wanted[0]);
    } else {
        let deeper = silent && is_unnamed(tree);
        assert forall|n: int| 0 <= n < rest.len() implies nodes.dom().contains(
            #[trigger] rest[n],
        ) by {
            assert(rest[n] == chain[n + 1]);
        }
        assert forall|n: int| 0 <= n < rest.len() implies #[trigger] says_nothing_again(
            rest,
            nodes,
            n,
            deeper,
        ) by {
            assert(rest[n] == chain[n + 1]);
            assert(says_nothing_again(chain, nodes, n + 1, silent));
            if is_named_text(nodes[rest[n]]) {
                assert(is_unnamed(nodes[chain[0]]));
                assert forall|k: int| 0 <= k < n implies is_unnamed(nodes[#[trigger] rest[k]]) by {
                    assert(rest[k] == chain[k + 1]);
                }
            }
        }
        let k = lemma_stands_at_end(kids_of(tree), rest, raws, deeper);
        assert(rest.last() == chain.last());
        assert(tree.children is Some);
        assert(stand_in((tree.children->0)[k], wanted, deeper));
    }
    i
}

/// Every node that can be reached from a node without a parent, by a chain of child ids
/// in which none comes twice, stands in the cleaned trees, unless it only groups others
/// or it or a node on the way to it is plain text below a node with a name.
pub proof fn law_reachable_nodes_are_shown(
    raws: Seq<RawNode>,
    chain: Seq<Seq<char>>,
    roles: Option<Roles>,
    left: Seq<Node>,
) -> (i: int)
    requires
        chain.len() > 0,
        is_chain(chain, node_table(raws)),
        node_table(raws)[chain[0]].parent_id is None,
        forall|n: int|
            0 <= n < chain.len() ==> #[trigger] says_nothing_again(
                chain,
                node_table(raws),
                n,
                true,
            ),
        stays(node_table(raws)[chain.last()], roles is Some),
        names_elements(roles),
        cleaned_all(built_trees(raws), roles) == Cleaning::Ready(left),
    ensures
        0 <= i < left.len(),
        stand_in(left[i], seq![node_table(raws)[chain.last()]], true),
{
    let trees = built_trees(raws);
    let wanted = seq![node_table(raws)[chain.last()]];
    law_reachable_nodes_are_in_the_trees(raws, chain);
    let k = lemma_stands_at_end(trees, chain, raws, true);
    lemma_left_of_all(trees, roles, left, k);
    let out = cleaned(trees[k], roles)->Ready_0;
    law_cleaning_keeps_nodes(trees[k], wanted, true, roles, out);
    let i = choose|i: int| 0 <= i < left.len() && left[i] == out->0;
    i
}

/// The node at a place in trees: the number of a tree, then that of one below it, and
/// so on.
pub open spec fn node_at(trees: Seq<Node>, place: Seq<nat>) -> Option<Node>
    decreases place.len(),
{
    if place.len() == 0 || place[0] >= trees.len() {
        None
    } else if place.len() == 1 {
        Some(trees[place[0] as int])
    } else {
        node_at(kids_of(trees[place[0] as int]), place.skip(1))
    }
}

/// Spaces.
pub open spec fn spaces(n: nat) -> Seq<char> {
    Seq::new(n, |i: int| ' ')
}

/// The line that shows a node: two spaces for each node above it, its id in brackets,
/// its role, and its name where it has one that is not empty.
pub open spec fn line_of(node: Node, above: nat) -> Seq<char> {
    spaces(above + above) + "["@ + (match node.node_id {
        Some(id) => id,
        None => "None"@,
    }) + "] "@ + (match node.role {
        Some(role) => role,
        None => "None"@,
    }) + (if node.name is Some && node.name->0.len() > 0 {
        ": "@ + node.name->0
    } else {
        seq![]
    }) + "\n"@
}

proof fn lemma_text_inside(front: Seq<char>, text: Seq<char>, back: Seq<char>, what: Seq<char>)
    requires
        has_text(text, what),
    ensures
        has_text(front + text + back, what),
{
    let i = choose|i: int| 0 <= i <= text.len() && begins_with(#[trigger] text.skip(i), what);
    let whole = front + text + back;
    let at = front.len() + i;
    assert(whole.skip(at).take(what.len() as int) =~= text.skip(i).take(what.len() as int));
    assert(begins_with(whole.skip(at), what));
}

proof fn lemma_first_line(node: Node, level: nat)
    ensures
        has_text(tree_text(node, level), line_of(node, level)),
{
    reveal_strlit("[");
    reveal_strlit("\n");
    let text = tree_text(node, level);
    let line = line_of(node, level);
    assert(spaces(level + level) =~= crate::a11y::indent_of(level));
    assert("["@ =~= seq!['[']);
    assert("\n"@ =~= seq!['\n']);
    assert(line =~= crate::a11y::tree_line(node, level));
    assert(text.skip(0) =~= text);
    assert(text.take(line.len() as int) =~= line);
    assert(begins_with(text.skip(0), line));
}

proof fn lemma_tree_in_list(nodes: Seq<Node>, level: nat, i: int, what: Seq<char>)
    requires
        0 <= i < nodes.len(),
        has_text(tree_text(nodes[i], level), what),
    ensures
        has_text(trees_text(nodes, level), what),
    decreases nodes.len(),
{
    let before = trees_text(nodes.drop_last(), level);
    let last = tree_text(nodes.last(), level);
    if i == nodes.len() - 1 {
        lemma_text_inside(before, last, seq![], what);
        assert(before + last + Seq::<char>::empty() =~= before + last);
    } else {
        assert(nodes.drop_last()[i] == nodes[i]);
        lemma_tree_in_list(nodes.drop_last(), level, i, what);
        lemma_text_inside(seq![], before, last, what);
        assert(Seq::<char>::empty() + before + last =~= before + last);
    }
}

proof fn lemma_line_in_tree(tree: Node, level: nat, place: Seq<nat>, node: Node)
    requires
        place.len() > 0,
        node_at(kids_of(tree), place) == Some(node),
    ensures
        has_text(tree_text(tree, level), line_of(node, level + place.len())),
    decreases place.len(),
{
    let kids = kids_of(tree);
    let i = place[0] as int;
    let line = line_of(node, level + place.len());
    if place.len() == 1 {
        lemma_first_line(kids[i], level + 1);
    } else {
        lemma_line_in_tree(kids[i], level + 1, place.skip(1), node);
    }
    lemma_tree_in_list(kids, level + 1, i, line);
    let own = crate::a11y::tree_line(tree, level);
    let below = trees_text(kids, level + 1);
    lemma_text_inside(own, below, seq![], line);
    assert(tree_text(tree, level) =~= own + below + Seq::<char>::empty());
}

proof fn lemma_part_in_joined(parts: Seq<Seq<char>>, sep: Seq<char>, i: int, what: Seq<char>)
    requires
        0 <= i < parts.len(),
        has_text(parts[i], what),
    ensures
        has_text(joined(parts, sep), what),
    decreases parts.len(),
{
    if parts.len() > 1 {
        let less = parts.drop_last();
        let before = joined(less, sep);
        if i == parts.len() - 1 {
            lemma_text_inside(before + sep, parts.last(), seq![], what);
            assert(before + sep + parts.last() + Seq::<char>::empty() =~= before + sep
                + parts.last());
        } else {
            assert(less[i] == parts[i]);
            lemma_part_in_joined(less, sep, i, what);
            lemma_text_inside(seq![], before, sep + parts.last(), what);
            assert(Seq::<char>::empty() + before + (sep + parts.last()) =~= before + sep
                + parts.last());
        }
    }
}

proof fn lemma_trees_in_two(front: Seq<Node>, back: Seq<Node>, level: nat)
    ensures
        trees_text(front + back, level) == trees_text(front, level) + trees_text(back, level),
    decreases back.len(),
{
    if back.len() == 0 {
        assert(front + back =~= front);
        assert(trees_text(front, level) + trees_text(back, level) =~= trees_text(front, level));
    } else {
        lemma_trees_in_two(front, back.drop_last(), level);
        assert((front + back).drop_last() =~= front + back.drop_last());
        assert((front + back).last() == back.last());
        assert(trees_text(front + back, level) =~= trees_text(front, level) + trees_text(
            back,
            level,
        ));
    }
}

/// The text of a node is its line and, behind it, the text of everything below it, one
/// level deeper, tree after tree.
pub proof fn law_text_is_written_in_order(
    tree: Node,
    front: Seq<Node>,
    back: Seq<Node>,
    level: nat,
)
    ensures
        tree_text(tree, level) == line_of(tree, level) + trees_text(kids_of(tree), level + 1),
        trees_text(front + seq![tree] + back, level) == trees_text(front, level) + tree_text(
            tree,
            level,
        ) + trees_text(back, level),
        trees_text(seq![], level).len() == 0,
{
    reveal_strlit("[");
    reveal_strlit("\n");
    assert(spaces(level + level) =~= crate::a11y::indent_of(level));
    assert("["@ =~= seq!['[']);
    assert("\n"@ =~= seq!['\n']);
    assert(line_of(tree, level) =~= crate::a11y::tree_line(tree, level));
    assert(tree_text(tree, level) =~= line_of(tree, level) + trees_text(kids_of(tree), level + 1));
    lemma_trees_in_two(front + seq![tree], back, level);
    assert((front + seq![tree]).drop_last() =~= front);
    assert((front + seq![tree]).last() == tree);
    assert(trees_text(front + seq![tree], level) =~= trees_text(front, level) + tree_text(
        tree,
        level,
    ));
}

/// The trees of a page are written one after the other, with an empty line between them.
pub proof fn law_trees_are_written_apart(front: Seq<Node>, back: Seq<Node>, tree: Node)
    requires
        front.len() > 0,
        back.len() > 0,
    ensures
        simplified_text(front + back) == simplified_text(front) + "\n"@ + simplified_text(back),
        simplified_text(seq![tree]) == tree_text(tree, 0),
        simplified_text(seq![]).len() == 0,
{
    let text = |tree: Node| tree_text(tree, 0);
    assert((front + back).map_values(text) =~= front.map_values(text) + back.map_values(text));
    law_joined_in_order(front.map_values(text), back.map_values(text), "\n"@, seq![]);
    assert(seq![tree].map_values(text) =~= seq![tree_text(tree, 0)]);
}

/// Every node of the trees has its line in their text, moved in by two spaces for each
/// node above it.
pub proof fn law_every_node_has_its_line(trees: Seq<Node>, place: Seq<nat>, node: Node)
    requires
        node_at(trees, place) == Some(node),
    ensures
        has_text(simplified_text(trees), line_of(node, (place.len() - 1) as nat)),
{
    let i = place[0] as int;
    let line = line_of(node, (place.len() - 1) as nat);
    let texts = trees.map_values(|tree: Node| tree_text(tree, 0));
    if place.len() == 1 {
        lemma_first_line(trees[i], 0);
    } else {
        lemma_line_in_tree(trees[i], 0, place.skip(1), node);
    }
    lemma_part_in_joined(texts, "\n"@, i, line);
}

proof fn lemma_place_of(tree: Node, wanted: Seq<Node>, silent: bool) -> (place: Seq<nat>)
    requires
        wanted.len() == 1,
        stand_in(tree, wanted, silent),
    ensures
        place.len() > 0 ==> (node_at(kids_of(tree), place) matches Some(node) && alone(node)
            == wanted[0]),
        place.len() == 0 ==> alone(tree) == wanted[0],
    decreases tree,
{
    if alone(tree) == wanted[0] {
        seq![]
    } else {
        let kids = tree.children->0;
        let deeper = silent && is_unnamed(tree);
        let i = choose|i: int| 0 <= i < kids.len() && stand_in(#[trigger] kids[i], wanted, deeper);
        let rest = lemma_place_of(kids[i], wanted, deeper);
        let place = seq![i as nat] + rest;
        assert(place.skip(1) =~= rest);
        place
    }
}

/// The text of a page has the line of every node that can be reached from a node
/// without a parent, by a chain of child ids in which none comes twice, unless it only
/// groups others or it or a node on the way to it is plain text below a node with a name.
pub proof fn law_reachable_nodes_are_written(
    raws: Seq<RawNode>,
    chain: Seq<Seq<char>>,
    roles: Option<Roles>,
    left: Seq<Node>,
) -> (above: nat)
    requires
        chain.len() > 0,
        is_chain(chain, node_table(raws)),
        node_table(raws)[chain[0]].parent_id is None,
        forall|n: int|
            0 <= n < chain.len() ==> #[trigger] says_nothing_again(
                chain,
                node_table(raws),
                n,
                true,
            ),
        stays(node_table(raws)[chain.last()], roles is Some),
        names_elements(roles),
        cleaned_all(built_trees(raws), roles) == Cleaning::Ready(left),
    ensures
        has_text(simplified_text(left), line_of(node_table(raws)[chain.last()], above)),
{
    let wanted = seq![node_table(raws)[chain.last()]];
    let i = law_reachable_nodes_are_shown(raws, chain, roles, left);
    let rest = lemma_place_of(left[i], wanted, true);
    let place = seq![i as nat] + rest;
    assert(place.skip(1) =~= rest);
    let node = if rest.len() == 0 {
        left[i]
    } else {
        node_at(kids_of(left[i]), rest)->0
    };
    assert(node_at(left, place) == Some(node));
    law_every_node_has_its_line(left, place, node);
    assert(alone(node) == wanted[0]);
    let above = (place.len() - 1) as nat;
    assert(node.node_id == alone(node).node_id && node.role == alone(node).role && node.name
        == alone(node).name);
    assert(line_of(node, above) == line_of(wanted[0], above));
    above
}

/// Words stand with one space between them, however much white space there was; there
/// is none at the ends.
pub proof fn law_words_stand_one_space_apart(front: Seq<char>, space: char, back: Seq<char>)
    requires
        is_white_space(space),
    ensures
        words_of(front).len() > 0 && words_of(back).len() > 0 ==> normal_space(
            front + seq![space] + back,
        ) == normal_space(front) + seq![' '] + normal_space(back),
        words_of(back).len() == 0 ==> normal_space(front + seq![space] + back) == normal_space(
            front,
        ),
        words_of(front).len() == 0 ==> normal_space(front + seq![space] + back) == normal_space(
            back,
        ),
        (forall|i: int| 0 <= i < front.len() ==> !is_white_space(#[trigger] front[i]))
            ==> normal_space(front) == front,
{
    law_white_space_parts_words(front, space, back);
    if words_of(front).len() > 0 && words_of(back).len() > 0 {
        law_joined_in_order(words_of(front), words_of(back), seq![' '], seq![]);
    }
    if words_of(back).len() == 0 {
        assert(words_of(front) + words_of(back) =~= words_of(front));
    }
    if words_of(front).len() == 0 {
        assert(words_of(front) + words_of(back) =~= words_of(back));
    }
    if forall|i: int| 0 <= i < front.len() ==> !is_white_space(#[trigger] front[i]) {
        law_unbroken_text_is_one_word(front);
        if front.len() == 0 {
            assert(front =~= Seq::<char>::empty());
        }
    }
}

/// The names of plain texts stand one behind the other.
pub proof fn law_plain_texts_follow_each_other(front: Seq<Node>, back: Seq<Node>, node: Node)
    ensures
        static_names(front + back) == static_names(front) + static_names(back),
        node.role == Some("StaticText"@) && node.name is Some ==> static_names(seq![node])
            == normal_space(node.name->0),
        node.role != Some("StaticText"@) || node.name is None ==> static_names(seq![node])
            == Seq::<char>::empty(),
    decreases back.len(),
{
    assert(seq![node].drop_last() =~= Seq::<Node>::empty());
    assert(static_names(Seq::<Node>::empty()) =~= Seq::<char>::empty());
    if back.len() == 0 {
        assert(front + back =~= front);
        assert(static_names(front) + Seq::<char>::empty() =~= static_names(front));
    } else {
        law_plain_texts_follow_each_other(front, back.drop_last(), node);
        assert((front + back).drop_last() =~= front + back.drop_last());
        assert((front + back).last() == back.last());
        assert(static_names(front + back) =~= static_names(front) + static_names(back));
    }
    assert(static_names(seq![node]) =~= (if node.role == Some("StaticText"@) && node.name is Some {
        normal_space(node.name->0)
    } else {
        seq![]
    }));
}

/// Plain texts go where together they say just what their parent is named, and the
/// other children stay in their order. In every other case all children stay.
pub proof fn law_only_repeated_text_goes(name: Option<Seq<char>>, children: Seq<Node>, i: int)
    requires
        0 <= i < children.len(),
    ensures
        name is None ==> without_repeats(name, children) == children,
        name matches Some(name) ==> (normal_space(name).len() == 0 || static_names(children)
            != normal_space(name)) ==> without_repeats(Some(name), children) == children,
        children[i].role != Some("StaticText"@) || children[i].name is None
            || children[i].name->0.len() == 0 ==> without_repeats(name, children).contains(
            children[i],
        ),
        (name matches Some(name) && normal_space(name).len() > 0 && static_names(children)
            == normal_space(name)) && children[i].role == Some("StaticText"@) && children[i].name
            is Some && children[i].name->0.len() > 0 ==> !without_repeats(name, children).contains(
            children[i],
        ),
{
    broadcast use vstd::seq_lib::group_filter_ensures;

    let keep = |child: Node| crate::a11y::says_more(child);
    assert(children.contains(children[i]));
    let kept = children.filter(keep);
    if keep(children[i]) {
        assert(kept.contains(children[i]));
    } else if kept.contains(children[i]) {
        let n = choose|n: int| 0 <= n < kept.len() && kept[n] == children[i];
        assert(keep(kept[n]));
    }
}

/// A tree of two or more trees that stay is kept, even where it only groups them; one
/// that only groups a single tree gives way to it; what has a negative id goes.
pub proof fn law_groups_are_kept_for_several(
    tree: Node,
    roles: Option<Roles>,
    kids: Seq<Node>,
)
    requires
        kids_of(tree).len() > 0,
        cleaned_all(kids_of(tree), roles) == Cleaning::Ready(kids),
        tree.node_id matches Some(id) ==> !is_below_zero(id),
        tree.role == Some("generic"@) || tree.role == Some("none"@),
    ensures
        kids.len() == 0 ==> cleaned(tree, roles) == Cleaning::Ready(None::<Node>),
        kids.len() == 1 ==> cleaned(tree, roles) == Cleaning::Ready(Some(kids[0])),
        kids.len() > 1 && (roles is None || tree.backend is None) && without_repeats(
            tree.name,
            kids,
        ).len() > 0 ==> cleaned(tree, roles) == Cleaning::Ready(
            Some(Node { children: Some(without_repeats(tree.name, kids)), ..tree }),
        ),
        kids.len() > 1 && roles is Some && tree.backend is Some
            && !roles->0.dom().contains(tree.backend->0) ==> cleaned(tree, roles)
            == Cleaning::<Option<Node>>::Wanted(tree.backend->0),
        kids.len() > 1 && roles is Some && tree.backend is Some && roles->0.dom().contains(
            tree.backend->0,
        ) && (roles->0[tree.backend->0] matches Some(tag) && tag != "generic"@ && tag != "none"@)
            ==> cleaned(tree, roles) == Cleaning::Ready(
            Some(
                Node {
                    role: roles->0[tree.backend->0],
                    children: Some(without_repeats(tree.name, kids)),
                    ..tree
                },
            ),
        ),
{
}

/// A node with a negative id goes with everything below it. One without children goes
/// where it only groups, and stays as it is otherwise.
pub proof fn law_cleaning_of_single_nodes(tree: Node, roles: Option<Roles>)
    ensures
        (tree.node_id matches Some(id) && is_below_zero(id)) ==> cleaned(tree, roles)
            == Cleaning::Ready(None::<Node>),
        (tree.node_id matches Some(id) ==> !is_below_zero(id)) && kids_of(tree).len() == 0 && (
        tree.role == Some("generic"@) || tree.role == Some("none"@)) ==> cleaned(tree, roles)
            == Cleaning::Ready(None::<Node>),
        (tree.node_id matches Some(id) ==> !is_below_zero(id)) && kids_of(tree).len() == 0
            && tree.role != Some("generic"@) && tree.role != Some("none"@) ==> cleaned(tree, roles)
            == Cleaning::Ready(Some(alone(tree))),
{
}

/// A box with choices is named by its element, once that is known.
pub proof fn law_choices_are_named_by_their_element(
    tree: Node,
    roles: Roles,
    kids: Seq<Node>,
    id: i64,
)
    requires
        kids_of(tree).len() > 0,
        cleaned_all(kids_of(tree), Some(roles)) == Cleaning::Ready(kids),
        tree.node_id matches Some(id) ==> !is_below_zero(id),
        tree.role == Some("combobox"@),
        tree.backend == Some(id),
    ensures
        !roles.dom().contains(id) ==> cleaned(tree, Some(roles))
            == Cleaning::<Option<Node>>::Wanted(id),
        roles.dom().contains(id) && (roles[id] matches Some(tag) && tag != "generic"@ && tag
            != "none"@) ==> cleaned(tree, Some(roles)) == Cleaning::Ready(
            Some(
                Node {
                    role: roles[id],
                    children: Some(without_repeats(tree.name, kids)),
                    ..tree
                },
            ),
        ),
        roles.dom().contains(id) && roles[id] is None ==> cleaned(tree, Some(roles))
            == Cleaning::Ready(
            Some(Node { children: Some(without_repeats(tree.name, kids)), ..tree }),
        ),
{
    reveal_strlit("combobox");
    reveal_strlit("generic");
    reveal_strlit("none");
    assert("combobox"@.len() == 8 && "generic"@.len() == 7 && "none"@.len() == 4);
}

/// The address of a node is that of its first property named `url`, without the white
/// space around it.
pub proof fn law_first_address_counts(
    properties: Seq<(Seq<char>, Option<Json>)>,
    i: int,
    url: Seq<char>,
)
    requires
        0 <= i < properties.len(),
        forall|k: int| 0 <= k < i ==> (#[trigger] properties[k]).0 != "url"@,
        properties[i].0 == "url"@,
        properties[i].1 matches Some(value) && (field_of(value, "value"@) matches Some(inner)
            && text_of(inner) == Some(url)),
    ensures
        url_in(properties) == Some(trim_of(url)),
    decreases i,
{
    if i > 0 {
        let rest = properties.skip(1);
        assert forall|k: int| 0 <= k < i - 1 implies (#[trigger] rest[k]).0 != "url"@ by {
            assert(rest[k] == properties[k + 1]);
        }
        assert(rest[i - 1] == properties[i]);
        assert(properties[0].0 != "url"@);
        law_first_address_counts(rest, i - 1, url);
    }
}

/// Without a property named `url` there is no address.
pub proof fn law_no_address_without_property(properties: Seq<(Seq<char>, Option<Json>)>)
    requires
        forall|k: int| 0 <= k < properties.len() ==> (#[trigger] properties[k]).0 != "url"@,
    ensures
        url_in(properties) is None,
    decreases properties.len(),
{
    if properties.len() > 0 {
        let rest = properties.skip(1);
        assert forall|k: int| 0 <= k < rest.len() implies (#[trigger] rest[k]).0 != "url"@ by {
            assert(rest[k] == properties[k + 1]);
        }
        assert(properties[0].0 != "url"@);
        law_no_address_without_property(rest);
    }
}

/// Whether a report gives an address.
pub open spec fn points_somewhere(raw: RawNode) -> bool {
    !is_below_zero(raw.node_id) && (raw.properties matches Some(properties) && url_in(properties)
        is Some)
}

/// The addresses hold for each id the one that was reported last.
pub proof fn law_last_address_counts(raws: Seq<RawNode>, i: int)
    requires
        0 <= i < raws.len(),
        points_somewhere(raws[i]),
        forall|j: int|
            i < j < raws.len() && points_somewhere(raws[j]) ==> (#[trigger] raws[j]).node_id
                != raws[i].node_id,
    ensures
        url_table(raws).dom().contains(raws[i].node_id),
        Some(url_table(raws)[raws[i].node_id]) == url_in(raws[i].properties->0),
    decreases raws.len(),
{
    if i < raws.len() - 1 {
        let less = raws.drop_last();
        assert forall|j: int| i < j < less.len() && points_somewhere(less[j]) implies (
        #[trigger] less[j]).node_id != less[i].node_id by {
            assert(less[j] == raws[j]);
        }
        law_last_address_counts(less, i);
        if points_somewhere(raws.last()) {
            assert(raws[raws.len() - 1].node_id != raws[i].node_id);
        }
    }
}

/// No id has an address that was not reported.
pub proof fn law_addresses_were_reported(raws: Seq<RawNode>, id: Seq<char>) -> (i: int)
    requires
        url_table(raws).dom().contains(id),
    ensures
        0 <= i < raws.len(),
        raws[i].node_id == id,
        points_somewhere(raws[i]),
    decreases raws.len(),
{
    if points_somewhere(raws.last()) && raws.last().node_id == id {
        raws.len() - 1
    } else {
        law_addresses_were_reported(raws.drop_last(), id)
    }
}

/// Whether a report is of a frame.
pub open spec fn is_frame(raw: RawNode) -> bool {
    counts(raw) && reported_text(raw.role) == Some("Iframe"@)
}

/// The frames are those reported, each with its id and its role only, in order.
pub proof fn law_frames_are_told(raws: Seq<RawNode>)
    ensures
        iframe_nodes(raws).len() == raws.filter(|raw: RawNode| is_frame(raw)).len(),
        forall|i: int|
            0 <= i < iframe_nodes(raws).len() ==> (#[trigger] iframe_nodes(raws)[i]).node_id
                == Some(raws.filter(|raw: RawNode| is_frame(raw))[i].node_id)
                && iframe_nodes(raws)[i].role == Some("Iframe"@) && iframe_nodes(raws)[i].name
                is None && iframe_nodes(raws)[i].children is None,
    decreases raws.len(),
{
    reveal(Seq::filter);
    reveal_strlit("Iframe");
    reveal_strlit("none");
    reveal_strlit("generic");
    reveal_strlit("InlineTextBox");
    assert("Iframe"@.len() == 6 && "none"@.len() == 4 && "generic"@.len() == 7
        && "InlineTextBox"@.len() == 13);
    if raws.len() > 0 {
        let less = raws.drop_last();
        law_frames_are_told(less);
        let before = iframe_nodes(less);
        let now = iframe_nodes(raws);
        assert(is_frame(raws.last()) == (crate::a11y::is_relevant(raws.last())
            && crate::a11y::role_text(raws.last()) == "Iframe"@));
        assert forall|i: int| 0 <= i < before.len() implies now[i] == before[i] by {}
    }
}

/// A node whose element can be scrolled says so in its role, before what the role said
/// already; nothing else about it changes, nor does any other node.
pub proof fn law_scrollable_nodes_say_so(raw: RawNode, ids: Set<i64>)
    ensures
        raw.backend is None || !ids.contains(raw.backend->0) ==> marked(raw, ids) == raw,
        raw.backend is Some && ids.contains(raw.backend->0) ==> {
            &&& marked(raw, ids).role is Some
            &&& (raw.role matches Some((kind, Some(Json::Text(text)))) ==> {
                &&& text.len() > 0 && text != "generic"@ && text != "none"@
                    ==> marked(raw, ids).role == Some(
                    (kind, Some(Json::Text("scrollable, "@ + text))),
                )
                &&& text.len() == 0 || text == "generic"@ || text == "none"@
                    ==> marked(raw, ids).role == Some((kind, Some(Json::Text("scrollable"@))))
            })
            &&& raw.role is None ==> marked(raw, ids).role == Some(
                ("string"@, Some(Json::Text("scrollable"@))),
            )
            &&& (raw.role matches Some((kind, None)) ==> marked(raw, ids).role == Some(
                (kind, Some(Json::Text("scrollable"@))),
            ))
        },
        marked(raw, ids).node_id == raw.node_id,
        marked(raw, ids).name == raw.name,
        marked(raw, ids).description == raw.description,
        marked(raw, ids).value == raw.value,
        marked(raw, ids).backend == raw.backend,
        marked(raw, ids).parent_id == raw.parent_id,
        marked(raw, ids).child_ids == raw.child_ids,
        marked(raw, ids).properties == raw.properties,
{
}

} // verus!
