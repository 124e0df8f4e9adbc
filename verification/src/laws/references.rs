//! How references in schemas are read.
use crate::json::{field_of, Json, Members};
use crate::references::{
    cleaned, comes_to_an_end, cut_end_of, cut_start_of, decoded, ends, ends_throughout, fragment_of,
    hash_at, hex_of, is_named, is_path, is_place, is_plain, leads_out, named_end, parts_of,
    reference_ends, resource_of, steps_of, target_ends, unbroken, unescaped, values_in, UNREAD,
};
use crate::text::{begins_with, decimal, has_text, replaced};
use crate::laws::extract::at_place;
use vstd::prelude::*;
use vstd::string::*;

verus! {

/// What stands around a reference is cut off, all of it and nothing else.
pub proof fn law_ends_are_cut_off(text: Seq<char>) -> (ends: (Seq<char>, Seq<char>))
    ensures
        forall|i: int| 0 <= i < ends.0.len() ==> #[trigger] ends.0[i] <= ' ',
        forall|i: int| 0 <= i < ends.1.len() ==> #[trigger] ends.1[i] <= ' ',
        text == ends.0 + cut_start_of(text),
        text == cut_end_of(text) + ends.1,
        cut_start_of(text).len() > 0 ==> cut_start_of(text)[0] > ' ',
        cut_end_of(text).len() > 0 ==> cut_end_of(text).last() > ' ',
    decreases text.len(),
{
    let front = if text.len() > 0 && text.first() <= ' ' {
        let rest = law_ends_are_cut_off(text.drop_first()).0;
        assert(text =~= seq![text.first()] + text.drop_first());
        assert(text =~= seq![text.first()] + rest + cut_start_of(text));
        seq![text.first()] + rest
    } else {
        assert(text =~= Seq::<char>::empty() + text);
        Seq::<char>::empty()
    };
    let back = if text.len() > 0 && text.last() <= ' ' {
        let rest = law_ends_are_cut_off(text.drop_last()).1;
        assert(text =~= text.drop_last().push(text.last()));
        assert(text =~= cut_end_of(text) + rest.push(text.last()));
        rest.push(text.last())
    } else {
        assert(text =~= text + Seq::<char>::empty());
        Seq::<char>::empty()
    };
    (front, back)
}

/// Line breaks and tabs go, and every other character stays in its order.
pub proof fn law_breaks_go(text: Seq<char>)
    ensures
        unbroken(text) == text.filter(|c: char| c != '\t' && c != '\n' && c != '\r'),
    decreases text.len(),
{
    reveal(Seq::filter);
    if text.len() > 0 {
        law_breaks_go(text.drop_last());
    } else {
        assert(unbroken(text) =~= text.filter(|c: char| c != '\t' && c != '\n' && c != '\r'));
    }
}

proof fn lemma_hash(text: Seq<char>)
    ensures
        hash_at(text) <= text.len(),
        forall|i: int| 0 <= i < hash_at(text) ==> #[trigger] text[i] != '#',
        hash_at(text) < text.len() ==> text[hash_at(text) as int] == '#',
    decreases text.len(),
{
    if text.len() > 0 && text[0] != '#' {
        let rest = text.skip(1);
        lemma_hash(rest);
        assert forall|i: int| 0 <= i < hash_at(text) implies #[trigger] text[i] != '#' by {
            if i > 0 {
                assert(rest[i - 1] == text[i]);
            }
        }
        if hash_at(text) < text.len() {
            assert(rest[hash_at(rest) as int] == text[hash_at(text) as int]);
        }
    }
}

/// The first hash parts a reference: before it stands the resource, behind it the
/// fragment. Without one there is no fragment.
pub proof fn law_hash_parts_references(text: Seq<char>)
    ensures
        !resource_of(text).contains('#'),
        text.contains('#') ==> exists|rest: Seq<char>|
            text == resource_of(text) + seq!['#'] + rest && fragment_of(text) == #[trigger] decoded(
                rest,
            ),
        !text.contains('#') ==> resource_of(text) == text && fragment_of(text) == Seq::<char>::empty(),
{
    lemma_hash(text);
    let at = hash_at(text) as int;
    assert forall|i: int| 0 <= i < resource_of(text).len() implies resource_of(text)[i] != '#' by {
        assert(resource_of(text)[i] == text[i]);
    }
    if text.contains('#') {
        let k = choose|k: int| 0 <= k < text.len() && text[k] == '#';
        assert(at < text.len());
        let rest = text.skip(at + 1);
        assert(text =~= resource_of(text) + seq!['#'] + rest);
        assert(fragment_of(text) == decoded(rest));
    } else {
        if at < text.len() {
            assert(text.contains(text[at]));
        }
        assert(resource_of(text) =~= text);
    }
}

/// What is written as a percent sign and two hexadecimal digits is read as the character
/// with that number, and every other character stands for itself.
pub proof fn law_written_out_characters_are_read(high: char, low: char, back: Seq<char>, c: char)
    ensures
        hex_of(high) is Some && hex_of(low) is Some && hex_of(high)->0 < 8 ==> decoded(
            seq!['%', high, low] + back,
        ) == seq![(16 * hex_of(high)->0 + hex_of(low)->0) as char] + decoded(back),
        c != '%' ==> decoded(seq![c] + back) == seq![c] + decoded(back),
        decoded(seq![]) == Seq::<char>::empty(),
{
    let written = seq!['%', high, low] + back;
    assert(written.skip(3) =~= back);
    assert((seq![c] + back).skip(1) =~= back);
}

/// The hexadecimal digits and their values.
pub proof fn law_hexadecimal_digits(c: char)
    ensures
        '0' <= c <= '9' ==> hex_of(c) == Some((c as int - '0' as int) as u8),
        'a' <= c <= 'f' ==> hex_of(c) == Some((c as int - 'a' as int + 10) as u8),
        'A' <= c <= 'F' ==> hex_of(c) == Some((c as int - 'A' as int + 10) as u8),
        !('0' <= c <= '9') && !('a' <= c <= 'f') && !('A' <= c <= 'F') ==> hex_of(c) is None,
{
}

proof fn lemma_parts_exist(text: Seq<char>)
    ensures
        parts_of(text).len() > 0,
    decreases text.len(),
{
    if text.len() > 0 {
        lemma_parts_exist(text.drop_last());
    }
}

/// Slashes part the steps of a fragment.
pub proof fn law_slashes_part_steps(front: Seq<char>, back: Seq<char>)
    ensures
        parts_of(front + seq!['/'] + back) == parts_of(front) + parts_of(back),
        !front.contains('/') ==> parts_of(front) == seq![front],
    decreases back.len(), front.len(),
{
    if !front.contains('/') && front.len() > 0 {
        let less = front.drop_last();
        assert forall|i: int| 0 <= i < less.len() implies less[i] != '/' by {
            assert(front.contains(front[i]));
        }
        law_slashes_part_steps(less, seq![]);
        assert(front.contains(front.last()));
        assert(less.push(front.last()) =~= front);
        assert(parts_of(front) =~= seq![front]);
    }
    let text = front + seq!['/'] + back;
    if back.len() == 0 {
        assert(text.drop_last() =~= front);
        assert(text.last() == '/');
        assert(back =~= Seq::<char>::empty());
        assert(parts_of(text) =~= parts_of(front) + parts_of(back));
    } else {
        let less = back.drop_last();
        law_slashes_part_steps(front, less);
        lemma_parts_exist(less);
        assert(text.drop_last() =~= front + seq!['/'] + less);
        assert(text.last() == back.last());
        let before = parts_of(front) + parts_of(less);
        assert(before.last() == parts_of(less).last());
        assert(before.drop_last() =~= parts_of(front) + parts_of(less).drop_last());
        assert(parts_of(text) =~= parts_of(front) + parts_of(back));
    }
}

/// The steps of a place are the parts behind its first slash, each with its slashes and
/// tildes read.
pub proof fn law_steps_are_read(rest: Seq<char>, i: int)
    requires
        0 <= i < parts_of(rest).len(),
    ensures
        is_place(seq!['/'] + rest),
        is_place(seq![]),
        steps_of(seq![]) == Seq::<Seq<char>>::empty(),
        steps_of(seq!['/'] + rest).len() == parts_of(rest).len(),
        steps_of(seq!['/'] + rest)[i] == unescaped(parts_of(rest)[i]),
        unescaped(parts_of(rest)[i]) == replaced(
            replaced(parts_of(rest)[i], "~1"@, "/"@),
            "~0"@,
            "~"@,
        ),
{
    law_slashes_part_steps(seq![], rest);
    assert(Seq::<char>::empty() + seq!['/'] + rest =~= seq!['/'] + rest);
    assert(parts_of(Seq::<char>::empty()) =~= seq![Seq::<char>::empty()]);
    let parts = parts_of(seq!['/'] + rest);
    assert(parts[i + 1] == parts_of(rest)[i]);
}

/// An address of the web leads out, and so does a plain path of a file; nothing does
/// that begins with another character than a letter or a digit.
pub proof fn law_addresses_lead_out(rest: Seq<char>, resource: Seq<char>)
    ensures
        leads_out("http:"@ + rest),
        leads_out("https:"@ + rest),
        resource.len() == 0 ==> !leads_out(resource),
        resource.len() > 0 && !('a' <= resource[0] <= 'z') && !('A' <= resource[0] <= 'Z') && !(
        '0' <= resource[0] <= '9') ==> !leads_out(resource),
        has_text(resource, ".."@) ==> !is_path(resource),
{
    reveal_strlit("http:");
    reveal_strlit("https:");
    assert(("http:"@ + rest).take("http:"@.len() as int) =~= "http:"@);
    assert(("https:"@ + rest).take("https:"@.len() as int) =~= "https:"@);
    assert("http:"@.len() == 5 && "https:"@.len() == 6);
    assert("http:"@[0] == 'h' && "https:"@[0] == 'h');
    if begins_with(resource, "http:"@) {
        assert(resource.take(5)[0] == 'h');
    }
    if begins_with(resource, "https:"@) {
        assert(resource.take(6)[0] == 'h');
    }
}

/// A path of letters, digits, underscores, hyphens, single dots and slashes leads out, and
/// no path has another character.
pub proof fn law_plain_paths_lead_out(resource: Seq<char>, i: int)
    requires
        0 <= i < resource.len(),
    ensures
        (forall|k: int|
            0 <= k < resource.len() ==> ('a' <= #[trigger] resource[k] <= 'z') || ('A'
                <= resource[k] <= 'Z') || ('0' <= resource[k] <= '9') || (k > 0 && (resource[k]
                == '_' || resource[k] == '-' || resource[k] == '.' || resource[k] == '/')))
            && !has_text(resource, ".."@) ==> leads_out(resource),
        !('a' <= resource[i] <= 'z') && !('A' <= resource[i] <= 'Z') && !('0' <= resource[i]
            <= '9') && resource[i] != '_' && resource[i] != '-' && resource[i] != '.'
            && resource[i] != '/' ==> !is_path(resource),
{
    if is_path(resource) {
        assert(is_plain(resource[i]));
    }
}

/// A step with a character that is not read may name any member and any item, so all are
/// followed.
pub proof fn law_unread_steps_lead_everywhere(
    root: Json,
    at: Json,
    steps: Seq<Seq<char>>,
    fuel: nat,
    i: int,
)
    requires
        steps.len() > 0,
        steps[0].contains(UNREAD),
        target_ends(root, at, steps, fuel),
    ensures
        at matches Json::Members(members) ==> 0 <= i < members.len() ==> target_ends(
            root,
            members[i].1,
            steps.skip(1),
            fuel,
        ),
        at matches Json::List(items) ==> 0 <= i < items.len() ==> target_ends(
            root,
            items[i],
            steps.skip(1),
            fuel,
        ),
{
}

/// Whether a schema is asked about in the same breath as another: as what it is not, as
/// a condition or its branches, or as one of several.
pub open spec fn stands_in(schema: Json, inner: Json) -> bool {
    ||| field_of(schema, "not"@) == Some(inner)
    ||| field_of(schema, "if"@) == Some(inner)
    ||| field_of(schema, "then"@) == Some(inner)
    ||| field_of(schema, "else"@) == Some(inner)
    ||| is_one_of(field_of(schema, "allOf"@), inner)
    ||| is_one_of(field_of(schema, "anyOf"@), inner)
    ||| is_one_of(field_of(schema, "oneOf"@), inner)
    ||| is_one_of(field_of(schema, "dependencies"@), inner)
    ||| is_one_of(field_of(schema, "dependentSchemas"@), inner)
}

/// Whether a value is among the items or the members of another.
pub open spec fn is_one_of(value: Option<Json>, inner: Json) -> bool {
    match value {
        Some(Json::List(items)) => items.contains(inner),
        Some(Json::Members(members)) => exists|i: int|
            0 <= i < members.len() && (#[trigger] members[i]).1 == inner,
        _ => false,
    }
}

/// Whether a schema refers to the whole that it stands in.
pub open spec fn refers_to_whole(schema: Json) -> bool {
    field_of(schema, "$ref"@) == Some(Json::Text("#"@))
}

proof fn lemma_inner_ends(root: Json, schema: Json, inner: Json, fuel: nat)
    requires
        ends(root, schema, fuel),
        stands_in(schema, inner),
    ensures
        fuel > 0,
        ends(root, inner, (fuel - 1) as nat),
{
    let left = (fuel - 1) as nat;
    if is_one_of(field_of(schema, "allOf"@), inner) {
        lemma_one_ends(root, field_of(schema, "allOf"@)->0, inner, left);
    } else if is_one_of(field_of(schema, "anyOf"@), inner) {
        lemma_one_ends(root, field_of(schema, "anyOf"@)->0, inner, left);
    } else if is_one_of(field_of(schema, "oneOf"@), inner) {
        lemma_one_ends(root, field_of(schema, "oneOf"@)->0, inner, left);
    } else if is_one_of(field_of(schema, "dependencies"@), inner) {
        lemma_one_ends(root, field_of(schema, "dependencies"@)->0, inner, left);
    } else if is_one_of(field_of(schema, "dependentSchemas"@), inner) {
        lemma_one_ends(root, field_of(schema, "dependentSchemas"@)->0, inner, left);
    }
}

proof fn lemma_one_ends(root: Json, value: Json, inner: Json, fuel: nat)
    requires
        crate::references::all_end(root, value, fuel),
        is_one_of(Some(value), inner),
    ensures
        ends(root, inner, fuel),
{
    match value {
        Json::List(items) => {
            let i = choose|i: int| 0 <= i < items.len() && items[i] == inner;
            assert(ends(root, items[i], fuel));
        },
        Json::Members(members) => {
            let i = choose|i: int| 0 <= i < members.len() && (#[trigger] members[i]).1 == inner;
            assert(ends(root, members[i].1, fuel));
        },
        _ => {},
    }
}

proof fn lemma_whole_ends(root: Json, schema: Json, fuel: nat)
    requires
        ends(root, schema, fuel),
        refers_to_whole(schema),
    ensures
        fuel > 0,
        ends(root, root, (fuel - 1) as nat),
{
    reveal_strlit("#");
    let text = "#"@;
    assert(text =~= seq!['#']);
    assert(cut_start_of(text) == text);
    assert(cut_end_of(text) == text);
    law_breaks_go(text);
    assert(unbroken(text.drop_last()) =~= Seq::<char>::empty());
    assert(unbroken(text) =~= text);
    assert(crate::references::cleaned(text) == text);
    assert(hash_at(text) == 0);
    assert(resource_of(text) =~= Seq::<char>::empty());
    assert(text.skip(1) =~= Seq::<char>::empty());
    assert(decoded(text.skip(1)) =~= Seq::<char>::empty());
    assert(fragment_of(text) =~= Seq::<char>::empty());
    law_addresses_lead_out(seq![], resource_of(text));
    assert(steps_of(fragment_of(text)) =~= Seq::<Seq<char>>::empty());
    let left = (fuel - 1) as nat;
    assert(reference_ends(root, text, left));
    assert(is_place(fragment_of(text)));
    assert(target_ends(root, root, steps_of(fragment_of(text)), left));
}

/// A chain of schemas, each of which is asked about in the same breath as the one before
/// it or is the whole that the one before it refers to.
pub open spec fn is_breath(root: Json, chain: Seq<Json>) -> bool {
    forall|i: int, j: int|
        0 <= i < j < chain.len() && j == i + 1 ==> stands_in(chain[i], #[trigger] chain[j]) || (
        refers_to_whole(#[trigger] chain[i]) && chain[j] == root)
}

/// Where asking about a schema comes to an end, every such chain from it is shorter than
/// the number of steps allowed: none goes on for ever.
pub proof fn law_no_chain_goes_on(root: Json, chain: Seq<Json>, fuel: nat)
    requires
        chain.len() > 0,
        is_breath(root, chain),
        ends(root, chain[0], fuel),
    ensures
        chain.len() <= fuel,
    decreases chain.len(),
{
    if chain.len() > 1 {
        let rest = chain.skip(1);
        assert(rest[0] == chain[1]);
        if stands_in(chain[0], chain[1]) {
            lemma_inner_ends(root, chain[0], chain[1], fuel);
        } else {
            assert(refers_to_whole(chain[0]) && chain[1] == root);
            lemma_whole_ends(root, chain[0], fuel);
        }
        assert forall|i: int, j: int| 0 <= i < j < rest.len() && j == i + 1 implies stands_in(
            rest[i],
            #[trigger] rest[j],
        ) || (refers_to_whole(#[trigger] rest[i]) && rest[j] == root) by {
            assert(rest[i] == chain[i + 1] && rest[j] == chain[j + 1]);
        }
        law_no_chain_goes_on(root, rest, (fuel - 1) as nat);
    }
}

proof fn lemma_never_ends(root: Json, fuel: nat)
    requires
        refers_to_whole(root),
    ensures
        !ends(root, root, fuel),
    decreases fuel,
{
    if ends(root, root, fuel) {
        lemma_whole_ends(root, root, fuel);
        lemma_never_ends(root, (fuel - 1) as nat);
    }
}

/// A schema that refers to itself as a whole never comes to an end.
pub proof fn law_self_reference_never_ends(schema: Json)
    requires
        refers_to_whole(schema),
    ensures
        !comes_to_an_end(schema),
{
    lemma_never_ends(schema, crate::references::values_in(schema));
}

/// Whether steps lead from a value to another, by the names of members and the numbers of
/// items.
pub open spec fn leads_to(at: Json, steps: Seq<Seq<char>>, target: Json) -> bool
    decreases steps.len(),
{
    if steps.len() == 0 {
        at == target
    } else {
        match at {
            Json::Members(members) => exists|i: int|
                0 <= i < members.len() && (#[trigger] members[i]).0 == steps[0] && leads_to(
                    members[i].1,
                    steps.skip(1),
                    target,
                ),
            Json::List(items) => exists|i: int|
                0 <= i < items.len() && decimal(i as nat) == steps[0] && leads_to(
                    #[trigger] items[i],
                    steps.skip(1),
                    target,
                ),
            _ => false,
        }
    }
}

proof fn lemma_target(root: Json, at: Json, steps: Seq<Seq<char>>, target: Json, fuel: nat)
    requires
        target_ends(root, at, steps, fuel),
        leads_to(at, steps, target),
    ensures
        ends(root, target, fuel),
    decreases steps.len(),
{
    if steps.len() > 0 {
        match at {
            Json::Members(members) => {
                let i = choose|i: int|
                    0 <= i < members.len() && (#[trigger] members[i]).0 == steps[0] && leads_to(
                        members[i].1,
                        steps.skip(1),
                        target,
                    );
                assert(target_ends(root, members[i].1, steps.skip(1), fuel));
                lemma_target(root, members[i].1, steps.skip(1), target, fuel);
            },
            Json::List(items) => {
                let i = choose|i: int|
                    0 <= i < items.len() && decimal(i as nat) == steps[0] && leads_to(
                        #[trigger] items[i],
                        steps.skip(1),
                        target,
                    );
                assert(target_ends(root, items[i], steps.skip(1), fuel));
                lemma_target(root, items[i], steps.skip(1), target, fuel);
            },
            _ => {},
        }
    }
}

/// A reference is followed to its target: where asking about a schema comes to an end,
/// asking about what it refers to does, in fewer steps.
pub proof fn law_references_are_followed(
    root: Json,
    schema: Json,
    reference: Seq<char>,
    target: Json,
    fuel: nat,
)
    requires
        ends(root, schema, fuel),
        field_of(schema, "$ref"@) == Some(Json::Text(reference)),
        !leads_out(resource_of(cleaned(reference))),
        is_place(fragment_of(cleaned(reference))),
        leads_to(root, steps_of(fragment_of(cleaned(reference))), target),
    ensures
        fuel > 0,
        ends(root, target, (fuel - 1) as nat),
{
    let left = (fuel - 1) as nat;
    assert(reference_ends(root, reference, left));
    lemma_target(root, root, steps_of(fragment_of(cleaned(reference))), target, left);
}

proof fn lemma_named(root: Json, at: Json, place: Seq<int>, fragment: Seq<char>, named: Json, fuel: nat)
    requires
        named_end(root, at, fragment, fuel),
        at_place(at, place) == Some(named),
        is_named(named),
    ensures
        ends(root, named, fuel),
    decreases place.len(),
{
    if place.len() > 0 {
        match at {
            Json::List(items) => {
                assert(named_end(root, items[place[0]], fragment, fuel));
                lemma_named(root, items[place[0]], place.skip(1), fragment, named, fuel);
            },
            Json::Members(members) => {
                assert(named_end(root, members[place[0]].1, fragment, fuel));
                lemma_named(root, members[place[0]].1, place.skip(1), fragment, named, fuel);
            },
            _ => {},
        }
    }
}

/// A reference may name a schema by its id: where asking about a schema with a reference
/// comes to an end, asking about every named schema does, wherever it stands.
pub proof fn law_named_schemas_are_followed(
    root: Json,
    schema: Json,
    reference: Seq<char>,
    place: Seq<int>,
    named: Json,
    fuel: nat,
)
    requires
        ends(root, schema, fuel),
        field_of(schema, "$ref"@) == Some(Json::Text(reference)),
        at_place(root, place) == Some(named),
        (field_of(named, "$id"@) matches Some(Json::Text(_))) || (field_of(
            named,
            "id"@,
        ) matches Some(Json::Text(_))),
    ensures
        fuel > 0,
        ends(root, named, (fuel - 1) as nat),
{
    let left = (fuel - 1) as nat;
    assert(reference_ends(root, reference, left));
    lemma_named(root, root, place, fragment_of(cleaned(reference)), named, left);
}

proof fn lemma_throughout(root: Json, value: Json, place: Seq<int>, found: Json, fuel: nat)
    requires
        ends_throughout(root, value, fuel),
        at_place(value, place) == Some(found),
    ensures
        ends(root, found, fuel),
    decreases place.len(),
{
    if place.len() > 0 {
        match value {
            Json::List(items) => {
                assert(ends_throughout(root, items[place[0]], fuel));
                lemma_throughout(root, items[place[0]], place.skip(1), found, fuel);
            },
            Json::Members(members) => {
                assert(ends_throughout(root, members[place[0]].1, fuel));
                lemma_throughout(root, members[place[0]].1, place.skip(1), found, fuel);
            },
            _ => {},
        }
    }
}

/// A schema comes to an end only where asking about every value in it does.
pub proof fn law_every_part_comes_to_an_end(schema: Json, place: Seq<int>, found: Json)
    requires
        comes_to_an_end(schema),
        at_place(schema, place) == Some(found),
    ensures
        ends(schema, found, values_in(schema)),
{
    lemma_throughout(schema, schema, place, found, values_in(schema));
}

} // verus!
