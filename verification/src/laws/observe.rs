//! What elements are read from a reply of the language model.
use crate::json::{member_of, signed_in, Json, Members};
use crate::observe::{
    all_elements, all_texts, all_written, element_in, elements_in, elements_listed, elements_named,
    part_of, reply_notes, value_in,
};
use crate::skim::{items_of, members_of};
use crate::types::page::ElementModel;
use vstd::prelude::*;
use vstd::string::*;

verus! {

/// Whether an object has a whole number under `element_id`, texts under `description`
/// and `method` and a list of texts under `arguments`.
pub open spec fn describes_element(value: Json) -> bool {
    value matches Json::Members(members) && {
        &&& (member_of(members, "element_id"@) matches Some(id) && signed_in(id) is Some)
        &&& (member_of(members, "description"@) matches Some(text) && text is Text)
        &&& (member_of(members, "method"@) matches Some(text) && text is Text)
        &&& (member_of(members, "arguments"@) matches Some(Json::List(items)) && forall|k: int|
            0 <= k < items.len() ==> (#[trigger] items[k]) is Text)
    }
}

/// Whether an element is exactly what an object says under its four keys.
pub open spec fn is_described_by(element: ElementModel, members: Members) -> bool {
    &&& (member_of(members, "element_id"@) matches Some(id) && signed_in(id) == Some(
        element.element_id,
    ))
    &&& member_of(members, "description"@) == Some(Json::Text(element.description))
    &&& member_of(members, "method"@) == Some(Json::Text(element.method))
    &&& (member_of(members, "arguments"@) matches Some(Json::List(items)) && items.len()
        == element.arguments.len() && forall|k: int|
        0 <= k < items.len() ==> #[trigger] items[k] == Json::Text(element.arguments[k]))
}

proof fn lemma_all_texts(items: Seq<Json>)
    ensures
        (forall|k: int| 0 <= k < items.len() ==> (#[trigger] items[k]) is Text) <==> all_texts(
            items,
        ) is Some,
        all_texts(items) matches Some(texts) ==> texts.len() == items.len() && forall|k: int|
            0 <= k < items.len() ==> #[trigger] items[k] == Json::Text(texts[k]),
    decreases items.len(),
{
    if items.len() > 0 {
        lemma_all_texts(items.drop_last());
        let less = items.drop_last();
        assert(items[items.len() - 1] == items.last());
        if all_texts(items) is Some {
            let texts = all_texts(items)->0;
            assert forall|k: int| 0 <= k < items.len() implies #[trigger] items[k] == Json::Text(
                texts[k],
            ) by {
                if k < less.len() {
                    assert(items[k] == less[k]);
                }
            }
        } else if forall|k: int| 0 <= k < items.len() ==> (#[trigger] items[k]) is Text {
            assert forall|k: int| 0 <= k < less.len() implies (#[trigger] less[k]) is Text by {
                assert(items[k] == less[k]);
            }
        }
    }
}

/// An object that describes an element is read as exactly that element: its id, its
/// description, its method and each of its arguments in order. An object that lacks
/// one of these, or has it in another form, is no element.
pub proof fn law_object_is_read_as_described(members: Members)
    ensures
        describes_element(Json::Members(members)) <==> element_in(Json::Members(members)) is Some,
        element_in(Json::Members(members)) matches Some(element) ==> is_described_by(
            element,
            members,
        ),
{
    if let Some(Json::List(items)) = member_of(members, "arguments"@) {
        lemma_all_texts(items);
    }
}

/// A list of four values is an element just as an object with them is.
pub proof fn law_list_is_read_in_order(items: Seq<Json>, element: ElementModel)
    ensures
        element_in(Json::List(items)) == Some(element) <==> {
            &&& items.len() == 4
            &&& signed_in(items[0]) == Some(element.element_id)
            &&& items[1] == Json::Text(element.description)
            &&& items[2] == Json::Text(element.method)
            &&& (items[3] matches Json::List(texts) && texts.len() == element.arguments.len()
                && forall|k: int|
                0 <= k < texts.len() ==> #[trigger] texts[k] == Json::Text(element.arguments[k]))
        },
{
    if items.len() == 4 {
        if let Json::List(texts) = items[3] {
            lemma_all_texts(texts);
            if texts.len() == element.arguments.len() && (forall|k: int|
                0 <= k < texts.len() ==> #[trigger] texts[k] == Json::Text(element.arguments[k])) {
                let read = all_texts(texts)->0;
                assert forall|k: int| 0 <= k < texts.len() implies read[k]
                    == element.arguments[k] by {
                    assert(texts[k] == Json::Text(read[k]));
                }
                assert(read =~= element.arguments);
            }
        }
    }
}

proof fn lemma_all_elements(items: Seq<Json>)
    ensures
        (forall|i: int| 0 <= i < items.len() ==> element_in(#[trigger] items[i]) is Some)
            <==> all_elements(items) is Some,
        all_elements(items) matches Some(elements) ==> elements.len() == items.len() && forall|
            i: int,
        |
            0 <= i < items.len() ==> element_in(#[trigger] items[i]) == Some(elements[i]),
    decreases items.len(),
{
    if items.len() > 0 {
        let less = items.drop_last();
        lemma_all_elements(less);
        assert(items[items.len() - 1] == items.last());
        if all_elements(items) is Some {
            let elements = all_elements(items)->0;
            assert forall|i: int| 0 <= i < items.len() implies element_in(#[trigger] items[i])
                == Some(elements[i]) by {
                if i < less.len() {
                    assert(items[i] == less[i]);
                }
            }
        } else if forall|i: int| 0 <= i < items.len() ==> element_in(#[trigger] items[i]) is Some {
            assert forall|i: int| 0 <= i < less.len() implies element_in(
                #[trigger] less[i],
            ) is Some by {
                assert(items[i] == less[i]);
            }
        }
    }
}

/// A reply with a list of objects under `elements` that each describe an element gives
/// as many elements, each with exactly the id, the description, the method and the
/// arguments of its object, in the same order.
pub proof fn law_listed_objects_become_elements(reply: Members, items: Seq<Json>)
    requires
        member_of(reply, "elements"@) == Some(Json::List(items)),
        forall|i: int| 0 <= i < items.len() ==> describes_element(#[trigger] items[i]),
    ensures
        elements_in(Json::Members(reply)).len() == items.len(),
        forall|i: int|
            0 <= i < items.len() ==> is_described_by(
                elements_in(Json::Members(reply))[i],
                (#[trigger] items[i])->Members_0,
            ),
{
    lemma_all_elements(items);
    assert forall|i: int| 0 <= i < items.len() implies element_in(#[trigger] items[i]) is Some by {
        law_object_is_read_as_described(items[i]->Members_0);
    }
    assert forall|i: int| 0 <= i < items.len() implies is_described_by(
        elements_in(Json::Members(reply))[i],
        (#[trigger] items[i])->Members_0,
    ) by {
        law_object_is_read_as_described(items[i]->Members_0);
    }
}

/// A reply gives no elements where nothing stands under `elements`, or no list, or a
/// list with an object that describes none.
pub proof fn law_other_replies_give_none(reply: Json)
    ensures
        !(reply is Members) ==> elements_in(reply).len() == 0,
        (reply matches Json::Members(members) && !(member_of(members, "elements"@) matches Some(
            Json::List(_),
        ))) ==> elements_in(reply).len() == 0,
        (reply matches Json::Members(members) && (member_of(members, "elements"@) matches Some(
            Json::List(items),
        ) && exists|i: int|
            0 <= i < items.len() && (#[trigger] items[i]) is Members && !describes_element(
                items[i],
            ))) ==> elements_in(reply).len() == 0,
{
    if let Json::Members(members) = reply {
        if let Some(Json::List(items)) = member_of(members, "elements"@) {
            lemma_all_elements(items);
            if exists|i: int|
                0 <= i < items.len() && (#[trigger] items[i]) is Members && !describes_element(
                    items[i],
                ) {
                let i = choose|i: int|
                    0 <= i < items.len() && (#[trigger] items[i]) is Members
                        && !describes_element(items[i]);
                law_object_is_read_as_described(items[i]->Members_0);
                assert(element_in(items[i]) is None);
            }
        }
    }
}

/// Whether the text of an object says what an element is: each of the four keys once,
/// with a value that is read as its part.
pub open spec fn writes_element(
    members: Seq<(Seq<char>, Seq<char>)>,
    element: ElementModel,
    at: (int, int, int, int),
) -> bool {
    &&& stands_once(members, "element_id"@, at.0)
    &&& stands_once(members, "description"@, at.1)
    &&& stands_once(members, "method"@, at.2)
    &&& stands_once(members, "arguments"@, at.3)
    &&& (value_in(Some(members[at.0].1)) matches Some(id) && signed_in(id) == Some(
        element.element_id,
    ))
    &&& value_in(Some(members[at.1].1)) == Some(Json::Text(element.description))
    &&& value_in(Some(members[at.2].1)) == Some(Json::Text(element.method))
    &&& (value_in(Some(members[at.3].1)) matches Some(Json::List(items)) && items.len()
        == element.arguments.len() && forall|k: int|
        0 <= k < items.len() ==> #[trigger] items[k] == Json::Text(element.arguments[k]))
}

/// Whether a key stands at `at` and nowhere else.
pub open spec fn stands_once(members: Seq<(Seq<char>, Seq<char>)>, key: Seq<char>, at: int) -> bool {
    &&& 0 <= at < members.len()
    &&& members[at].0 == key
    &&& forall|i: int| 0 <= i < members.len() && i != at ==> (#[trigger] members[i]).0 != key
}

proof fn lemma_part_at(members: Seq<(Seq<char>, Seq<char>)>, key: Seq<char>, at: int)
    requires
        stands_once(members, key, at),
    ensures
        part_of(members, key) == Some(members[at].1),
    decreases members.len(),
{
    if at > 0 {
        assert(members[0].0 != key);
        let rest = members.skip(1);
        assert forall|i: int| 0 <= i < rest.len() && i != at - 1 implies (#[trigger] rest[i]).0
            != key by {
            assert(rest[i] == members[i + 1]);
        }
        lemma_part_at(rest, key, at - 1);
    }
}

/// The text of an object with each of the four parts once is read as exactly the
/// element that they make up, whatever else stands in the object.
pub proof fn law_written_object_is_read_as_written(
    text: Seq<char>,
    members: Seq<(Seq<char>, Seq<char>)>,
    element: ElementModel,
    at: (int, int, int, int),
)
    requires
        members_of(text) == Some(members),
        writes_element(members, element, at),
    ensures
        crate::observe::element_written(text) == Some(element),
{
    lemma_part_at(members, "element_id"@, at.0);
    lemma_part_at(members, "description"@, at.1);
    lemma_part_at(members, "method"@, at.2);
    lemma_part_at(members, "arguments"@, at.3);
    assert(!crate::observe::has_part_twice(members));
    let items = value_in(Some(members[at.3].1))->0->List_0;
    lemma_all_texts(items);
    let read = all_texts(items)->0;
    assert forall|k: int| 0 <= k < items.len() implies read[k] == element.arguments[k] by {
        assert(items[k] == Json::Text(read[k]));
    }
    assert(read =~= element.arguments);
}

/// An object with one of the four keys twice, or without one of them, is no element.
pub proof fn law_written_object_needs_each_part_once(
    text: Seq<char>,
    members: Seq<(Seq<char>, Seq<char>)>,
    key: Seq<char>,
)
    requires
        members_of(text) == Some(members),
        key == "element_id"@ || key == "description"@ || key == "method"@ || key == "arguments"@,
        !(exists|at: int| #[trigger] stands_once(members, key, at)),
    ensures
        crate::observe::element_written(text) is None,
{
    if !crate::observe::has_part_twice(members) && part_of(members, key) is Some {
        let at = lemma_part_found(members, key);
        assert(stands_once(members, key, at));
    }
}

proof fn lemma_part_found(members: Seq<(Seq<char>, Seq<char>)>, key: Seq<char>) -> (at: int)
    requires
        part_of(members, key) is Some,
    ensures
        0 <= at < members.len(),
        members[at].0 == key,
    decreases members.len(),
{
    if members[0].0 == key {
        0
    } else {
        lemma_part_found(members.skip(1), key) + 1
    }
}

/// A text that is a list of elements gives each of them, in order; one that is not
/// counts as an object with a list under `elements`.
pub proof fn law_list_gives_each_element(content: Seq<char>, texts: Seq<Seq<char>>)
    requires
        items_of(content) == Some(texts),
        forall|i: int|
            0 <= i < texts.len() ==> crate::observe::element_written(#[trigger] texts[i]) is Some,
    ensures
        elements_named(content).len() == texts.len(),
        forall|i: int|
            0 <= i < texts.len() ==> crate::observe::element_written(#[trigger] texts[i]) == Some(
                elements_named(content)[i],
            ),
        reply_notes(content).len() == 0,
{
    lemma_all_written(texts);
}

proof fn lemma_all_written(texts: Seq<Seq<char>>)
    requires
        forall|i: int|
            0 <= i < texts.len() ==> crate::observe::element_written(#[trigger] texts[i]) is Some,
    ensures
        all_written(texts) is Some,
        all_written(texts)->0.len() == texts.len(),
        forall|i: int|
            0 <= i < texts.len() ==> crate::observe::element_written(#[trigger] texts[i]) == Some(
                all_written(texts)->0[i],
            ),
    decreases texts.len(),
{
    if texts.len() > 0 {
        let less = texts.drop_last();
        assert forall|i: int| 0 <= i < less.len() implies crate::observe::element_written(
            #[trigger] less[i],
        ) is Some by {
            assert(texts[i] == less[i]);
        }
        lemma_all_written(less);
        assert(texts[texts.len() - 1] == texts.last());
        assert forall|i: int| 0 <= i < texts.len() implies crate::observe::element_written(
            #[trigger] texts[i],
        ) == Some(all_written(texts)->0[i]) by {
            if i < less.len() {
                assert(texts[i] == less[i]);
            }
        }
    }
}

/// A reply that is an object with elements gives them; it is no list, so nothing is
/// lost to that reading.
pub proof fn law_object_reply_gives_its_elements(
    content: Seq<char>,
    reply: Members,
    items: Seq<Json>,
)
    requires
        items_of(content) is None,
        crate::json::parsed_json(content) == Ok::<Json, Seq<char>>(Json::Members(reply)),
        member_of(reply, "elements"@) == Some(Json::List(items)),
        forall|i: int| 0 <= i < items.len() ==> describes_element(#[trigger] items[i]),
    ensures
        elements_named(content).len() == items.len(),
        forall|i: int|
            0 <= i < items.len() ==> is_described_by(
                elements_named(content)[i],
                (#[trigger] items[i])->Members_0,
            ),
        reply_notes(content).len() == 0,
{
    law_listed_objects_become_elements(reply, items);
    assert(elements_listed(content) is None);
}

} // verus!
