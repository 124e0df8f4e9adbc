//! Observing a page: from the reply of the language model to found elements, and
//! what changed on the page after an action.
use crate::a11y::text_map;
use crate::json::{
    field_of, member_of, models, parsed_json, read_json, signed_in, text_of, Json, JsonValue,
    Members,
};
use crate::logging::{
    beside, note_models, note_plain, plain_note, put_beside, str_view, LogLevel, Note, NoteModel,
};
use crate::skim::{items_of, members_of, split_items, split_members};
use crate::table::Table;
use crate::text::{
    copy_texts, opt_is, opt_view, opt_views, pair_views, parse_i64, signed_of, str_eq, views,
};
use crate::types::a11y::{nodes_of, opt_json, AccessibilityNode, Node};
use crate::types::page::{ElementModel, FoundModel, ObserveElementSchema, ObserveResult};
use vstd::prelude::*;
use vstd::string::*;

verus! {

/// The texts of a list that holds nothing but texts.
pub open spec fn all_texts(items: Seq<Json>) -> Option<Seq<Seq<char>>>
    decreases items.len(),
{
    if items.len() == 0 {
        Some(seq![])
    } else {
        match (all_texts(items.drop_last()), text_of(items.last())) {
            (Some(before), Some(text)) => Some(before.push(text)),
            _ => None,
        }
    }
}

/// An element from its four parts.
pub open spec fn element_from(
    element_id: Option<Json>,
    description: Option<Json>,
    method: Option<Json>,
    arguments: Option<Json>,
) -> Option<ElementModel> {
    match (element_id, description, method, arguments) {
        (
            Some(id),
            Some(Json::Text(description)),
            Some(Json::Text(method)),
            Some(Json::List(items)),
        ) => match (signed_in(id), all_texts(items)) {
            (Some(element_id), Some(arguments)) => Some(
                ElementModel { element_id, description, method, arguments },
            ),
            _ => None,
        },
        _ => None,
    }
}

/// The element that a value describes: an object with its four parts, or a list
/// of them in order.
pub open spec fn element_in(value: Json) -> Option<ElementModel> {
    match value {
        Json::Members(members) => element_from(
            member_of(members, "element_id"@),
            member_of(members, "description"@),
            member_of(members, "method"@),
            member_of(members, "arguments"@),
        ),
        Json::List(items) => if items.len() == 4 {
            element_from(Some(items[0]), Some(items[1]), Some(items[2]), Some(items[3]))
        } else {
            None
        },
        _ => None,
    }
}

/// The elements of a list that holds nothing but elements.
pub open spec fn all_elements(items: Seq<Json>) -> Option<Seq<ElementModel>>
    decreases items.len(),
{
    if items.len() == 0 {
        Some(seq![])
    } else {
        match (all_elements(items.drop_last()), element_in(items.last())) {
            (Some(before), Some(element)) => Some(before.push(element)),
            _ => None,
        }
    }
}

/// The elements that a parsed reply names: those of the list under `elements`.
/// There are none where that list holds anything else.
pub open spec fn elements_in(reply: Json) -> Seq<ElementModel> {
    match field_of(reply, "elements"@) {
        Some(Json::List(items)) => match all_elements(items) {
            Some(elements) => elements,
            None => seq![],
        },
        _ => seq![],
    }
}

/// The keys of an element.
pub open spec fn is_part_name(key: Seq<char>) -> bool {
    ||| key == "element_id"@
    ||| key == "description"@
    ||| key == "method"@
    ||| key == "arguments"@
}

/// Whether one of the keys of an element stands twice.
pub open spec fn has_part_twice(members: Seq<(Seq<char>, Seq<char>)>) -> bool {
    exists|i: int, j: int|
        0 <= i < j < members.len() && (#[trigger] members[i]).0 == (#[trigger] members[j]).0
            && is_part_name(members[i].0)
}

/// What a text that may be absent holds, where it is JSON.
pub open spec fn value_in(text: Option<Seq<char>>) -> Option<Json> {
    match text {
        Some(text) => match parsed_json(text) {
            Ok(value) => Some(value),
            Err(_) => None,
        },
        None => None,
    }
}

/// The text of the first member with a key.
pub open spec fn part_of(members: Seq<(Seq<char>, Seq<char>)>, key: Seq<char>) -> Option<Seq<char>>
    decreases members.len(),
{
    if members.len() == 0 {
        None
    } else if members[0].0 == key {
        Some(members[0].1)
    } else {
        part_of(members.skip(1), key)
    }
}

/// The element that a text describes: an object with its four parts, each once and
/// with anything else beside them, or a list of the four parts in order. Only the
/// parts are read.
pub open spec fn element_written(text: Seq<char>) -> Option<ElementModel> {
    match members_of(text) {
        Some(members) => if has_part_twice(members) {
            None
        } else {
            element_from(
                value_in(part_of(members, "element_id"@)),
                value_in(part_of(members, "description"@)),
                value_in(part_of(members, "method"@)),
                value_in(part_of(members, "arguments"@)),
            )
        },
        None => match items_of(text) {
            Some(items) if items.len() == 4 => element_from(
                value_in(Some(items[0])),
                value_in(Some(items[1])),
                value_in(Some(items[2])),
                value_in(Some(items[3])),
            ),
            _ => None,
        },
    }
}

/// The elements that texts describe, where each describes one.
pub open spec fn all_written(texts: Seq<Seq<char>>) -> Option<Seq<ElementModel>>
    decreases texts.len(),
{
    if texts.len() == 0 {
        Some(seq![])
    } else {
        match (all_written(texts.drop_last()), element_written(texts.last())) {
            (Some(before), Some(element)) => Some(before.push(element)),
            _ => None,
        }
    }
}

/// The elements of the list that a text is, where it is a list of elements.
pub open spec fn elements_listed(content: Seq<char>) -> Option<Seq<ElementModel>> {
    match items_of(content) {
        Some(items) => all_written(items),
        None => None,
    }
}

/// The models of a list of elements.
pub open spec fn element_models(elements: Seq<ObserveElementSchema>) -> Seq<ElementModel> {
    elements.map_values(|element: ObserveElementSchema| element@)
}

proof fn lemma_all_texts_prefix(items: Seq<Json>, n: int)
    requires
        0 <= n <= items.len(),
        all_texts(items.take(n)) is None,
    ensures
        all_texts(items) is None,
    decreases items.len(),
{
    if n == items.len() {
        assert(items.take(n) =~= items);
    } else {
        assert(items.drop_last().take(n) =~= items.take(n));
        lemma_all_texts_prefix(items.drop_last(), n);
    }
}

proof fn lemma_all_elements_prefix(items: Seq<Json>, n: int)
    requires
        0 <= n <= items.len(),
        all_elements(items.take(n)) is None,
    ensures
        all_elements(items) is None,
    decreases items.len(),
{
    if n == items.len() {
        assert(items.take(n) =~= items);
    } else {
        assert(items.drop_last().take(n) =~= items.take(n));
        lemma_all_elements_prefix(items.drop_last(), n);
    }
}

proof fn lemma_all_written_prefix(texts: Seq<Seq<char>>, n: int)
    requires
        0 <= n <= texts.len(),
        all_written(texts.take(n)) is None,
    ensures
        all_written(texts) is None,
    decreases texts.len(),
{
    if n == texts.len() {
        assert(texts.take(n) =~= texts);
    } else {
        assert(texts.drop_last().take(n) =~= texts.take(n));
        lemma_all_written_prefix(texts.drop_last(), n);
    }
}

/// Reads a list that holds nothing but texts.
pub fn read_texts(items: &Vec<JsonValue>) -> (out: Option<Vec<String>>)
    ensures
        opt_views(out) == all_texts(models(items@)),
{
    let mut out: Vec<String> = Vec::new();
    let mut i: usize = 0;
    assert(models(items@.take(0)) =~= Seq::<Json>::empty());
    assert(views(out@) =~= Seq::<Seq<char>>::empty());
    while i < items.len()
        invariant
            i <= items.len(),
            all_texts(models(items@.take(i as int))) == Some(views(out@)),
        decreases items.len() - i,
    {
        let ghost before = views(out@);
        assert(models(items@.take(i + 1)).drop_last() =~= models(items@.take(i as int)));
        match items[i].as_str() {
            Some(text) => {
                out.push(text.clone());
                assert(views(out@) =~= before.push(text@));
            },
            None => {
                proof {
                    assert(models(items@).take(i + 1) =~= models(items@.take(i + 1)));
                    lemma_all_texts_prefix(models(items@), i + 1);
                }
                return None;
            },
        }
        i += 1;
    }
    assert(items@.take(i as int) =~= items@);
    Some(out)
}

/// Makes an element of its four parts, where each has the form it should have.
pub fn make_element(
    element_id: Option<&JsonValue>,
    description: Option<&JsonValue>,
    method: Option<&JsonValue>,
    arguments: Option<&JsonValue>,
) -> (out: Option<ObserveElementSchema>)
    ensures
        opt_element(out) == element_from(
            crate::cdp::opt_reply(element_id),
            crate::cdp::opt_reply(description),
            crate::cdp::opt_reply(method),
            crate::cdp::opt_reply(arguments),
        ),
{
    broadcast use JsonValue::lemma_model;

    match (element_id, description, method, arguments) {
        (Some(id), Some(description), Some(method), Some(arguments)) => match (
            id.as_i64(),
            description.as_str(),
            method.as_str(),
            arguments.as_array(),
        ) {
            (Some(element_id), Some(description), Some(method), Some(items)) => match read_texts(
                items,
            ) {
                Some(arguments) => Some(
                    ObserveElementSchema {
                        element_id,
                        description: description.clone(),
                        method: method.clone(),
                        arguments,
                    },
                ),
                None => None,
            },
            _ => None,
        },
        _ => None,
    }
}

/// The model of an element that may be absent.
pub open spec fn opt_element(element: Option<ObserveElementSchema>) -> Option<ElementModel> {
    match element {
        Some(element) => Some(element@),
        None => None,
    }
}

/// Reads the element that a value describes.
pub fn read_element(value: &JsonValue) -> (out: Option<ObserveElementSchema>)
    ensures
        opt_element(out) == element_in(value@),
{
    if let Some(object) = value.as_object() {
        return make_element(
            object.get("element_id"),
            object.get("description"),
            object.get("method"),
            object.get("arguments"),
        );
    }
    if let Some(items) = value.as_array() {
        if items.len() == 4 {
            assert(models(items@)[0] == items@[0]@ && models(items@)[1] == items@[1]@);
            assert(models(items@)[2] == items@[2]@ && models(items@)[3] == items@[3]@);
            return make_element(Some(&items[0]), Some(&items[1]), Some(&items[2]), Some(&items[3]));
        }
    }
    None
}

fn read_elements(items: &Vec<JsonValue>) -> (out: Vec<ObserveElementSchema>)
    ensures
        element_models(out@) == (match all_elements(models(items@)) {
            Some(elements) => elements,
            None => Seq::empty(),
        }),
{
    let mut out: Vec<ObserveElementSchema> = Vec::new();
    let mut i: usize = 0;
    assert(models(items@.take(0)) =~= Seq::<Json>::empty());
    assert(element_models(out@) =~= Seq::<ElementModel>::empty());
    while i < items.len()
        invariant
            i <= items.len(),
            all_elements(models(items@.take(i as int))) == Some(element_models(out@)),
        decreases items.len() - i,
    {
        let ghost before = element_models(out@);
        assert(models(items@.take(i + 1)).drop_last() =~= models(items@.take(i as int)));
        match read_element(&items[i]) {
            Some(element) => {
                let ghost added = element@;
                out.push(element);
                assert(element_models(out@) =~= before.push(added));
            },
            None => {
                proof {
                    assert(models(items@).take(i + 1) =~= models(items@.take(i + 1)));
                    lemma_all_elements_prefix(models(items@), i + 1);
                }
                let none: Vec<ObserveElementSchema> = Vec::new();
                assert(element_models(none@) =~= Seq::<ElementModel>::empty());
                return none;
            },
        }
        i += 1;
    }
    assert(items@.take(i as int) =~= items@);
    out
}

/// Reads the elements that a parsed reply names under `elements`.
pub fn elements_from_parsed(reply: &JsonValue) -> (out: Vec<ObserveElementSchema>)
    ensures
        element_models(out@) == elements_in(reply@),
{
    if let Some(value) = reply.get("elements") {
        if let Some(items) = value.as_array() {
            return read_elements(items);
        }
    }
    let out: Vec<ObserveElementSchema> = Vec::new();
    assert(element_models(out@) =~= Seq::<ElementModel>::empty());
    out
}

fn part_name(key: &str) -> (yes: bool)
    ensures
        yes == is_part_name(key@),
{
    str_eq(key, "element_id") || str_eq(key, "description") || str_eq(key, "method") || str_eq(
        key,
        "arguments",
    )
}

fn part_twice(members: &Vec<(String, String)>) -> (yes: bool)
    ensures
        yes == has_part_twice(pair_views(members@)),
{
    let ghost all = pair_views(members@);
    let mut i: usize = 0;
    while i < members.len()
        invariant
            i <= members.len(),
            all == pair_views(members@),
            forall|a: int, b: int|
                0 <= a < i && a < b < members.len() && (#[trigger] all[a]).0 == (
                #[trigger] all[b]).0 ==> !is_part_name(all[a].0),
        decreases members.len() - i,
    {
        assert(all[i as int].0 == members@[i as int].0@);
        if part_name(members[i].0.as_str()) {
            let mut j: usize = i + 1;
            while j < members.len()
                invariant
                    i < j <= members.len(),
                    all == pair_views(members@),
                    all[i as int].0 == members@[i as int].0@,
                    is_part_name(all[i as int].0),
                    forall|b: int| i < b < j ==> all[i as int].0 != (#[trigger] all[b]).0,
                decreases members.len() - j,
            {
                assert(all[j as int].0 == members@[j as int].0@);
                if str_eq(members[i].0.as_str(), members[j].0.as_str()) {
                    return true;
                }
                j += 1;
            }
        }
        i += 1;
    }
    false
}

/// Reads what a text holds, where it is JSON.
fn read_value(text: Option<&str>) -> (out: Option<JsonValue>)
    ensures
        opt_json(out) == value_in(str_view(text)),
{
    match text {
        Some(text) => match read_json(text) {
            Ok(value) => Some(value),
            Err(_) => None,
        },
        None => None,
    }
}

fn find_part<'a>(members: &'a Vec<(String, String)>, key: &str) -> (out: Option<&'a str>)
    ensures
        str_view(out) == part_of(pair_views(members@), key@),
{
    let ghost all = pair_views(members@);
    let mut i: usize = 0;
    assert(all.skip(0) =~= all);
    while i < members.len()
        invariant
            i <= members.len(),
            all == pair_views(members@),
            part_of(all, key@) == part_of(all.skip(i as int), key@),
        decreases members.len() - i,
    {
        assert(all.skip(i as int)[0] == (members@[i as int].0@, members@[i as int].1@));
        assert(all.skip(i as int).skip(1) =~= all.skip(i + 1));
        if str_eq(members[i].0.as_str(), key) {
            return Some(members[i].1.as_str());
        }
        i += 1;
    }
    None
}

fn read_part(members: &Vec<(String, String)>, key: &str) -> (out: Option<JsonValue>)
    ensures
        opt_json(out) == value_in(part_of(pair_views(members@), key@)),
{
    read_value(find_part(members, key))
}

/// Reads the element that a text describes.
pub fn read_written(text: &str) -> (out: Option<ObserveElementSchema>)
    ensures
        opt_element(out) == element_written(text@),
{
    if let Some(members) = split_members(text) {
        if part_twice(&members) {
            return None;
        }
        let element_id = read_part(&members, "element_id");
        let description = read_part(&members, "description");
        let method = read_part(&members, "method");
        let arguments = read_part(&members, "arguments");
        return make_element(
            element_id.as_ref(),
            description.as_ref(),
            method.as_ref(),
            arguments.as_ref(),
        );
    }
    if let Some(items) = split_items(text) {
        if items.len() == 4 {
            assert(views(items@)[0] == items@[0]@ && views(items@)[1] == items@[1]@);
            assert(views(items@)[2] == items@[2]@ && views(items@)[3] == items@[3]@);
            let element_id = read_value(Some(items[0].as_str()));
            let description = read_value(Some(items[1].as_str()));
            let method = read_value(Some(items[2].as_str()));
            let arguments = read_value(Some(items[3].as_str()));
            return make_element(
                element_id.as_ref(),
                description.as_ref(),
                method.as_ref(),
                arguments.as_ref(),
            );
        }
        assert(views(items@).len() == items@.len());
    }
    None
}

/// Reads the elements of the list that a text is, where it is a list of elements.
pub fn read_listed(content: &str) -> (out: Option<Vec<ObserveElementSchema>>)
    ensures
        match (out, elements_listed(content@)) {
            (Some(elements), Some(models)) => element_models(elements@) == models,
            (None, None) => true,
            _ => false,
        },
{
    let items = match split_items(content) {
        Some(items) => items,
        None => return None,
    };
    let ghost texts = views(items@);
    let mut out: Vec<ObserveElementSchema> = Vec::new();
    let mut i: usize = 0;
    assert(texts.take(0) =~= Seq::<Seq<char>>::empty());
    assert(element_models(out@) =~= Seq::<ElementModel>::empty());
    while i < items.len()
        invariant
            i <= items.len(),
            texts == views(items@),
            items_of(content@) == Some(texts),
            all_written(texts.take(i as int)) == Some(element_models(out@)),
        decreases items.len() - i,
    {
        let ghost before = element_models(out@);
        assert(texts.take(i + 1).drop_last() =~= texts.take(i as int));
        assert(texts.take(i + 1).last() == items@[i as int]@);
        match read_written(items[i].as_str()) {
            Some(element) => {
                let ghost added = element@;
                out.push(element);
                assert(element_models(out@) =~= before.push(added));
            },
            None => {
                proof {
                    lemma_all_written_prefix(texts, i + 1);
                }
                return None;
            },
        }
        i += 1;
    }
    assert(texts.take(i as int) =~= texts);
    Some(out)
}

/// The elements that the text of a reply names: those of the list that it is, or of
/// the list under `elements`. There are none where it is neither.
pub open spec fn elements_named(content: Seq<char>) -> Seq<ElementModel> {
    match (elements_listed(content), parsed_json(content)) {
        (Some(elements), _) => elements,
        (None, Ok(reply)) => elements_in(reply),
        (None, Err(_)) => seq![],
    }
}

/// What is logged of the text of a reply: that it is not JSON, where no list of
/// elements can be read from it either.
pub open spec fn reply_notes(content: Seq<char>) -> Seq<NoteModel> {
    match (elements_listed(content), parsed_json(content)) {
        (None, Err(why)) => seq![
            plain_note(
                LogLevel::Error,
                "observe"@,
                "Failed to parse observe response: "@ + why,
            ),
        ],
        _ => seq![],
    }
}

/// Reads the elements that the reply of the language model names; none where it
/// names none, which is noted where the reply is not JSON.
pub fn elements_from_reply(content: &str, notes: &mut Vec<Note>) -> (out: Vec<ObserveElementSchema>)
    ensures
        element_models(out@) == elements_named(content@),
        note_models(final(notes)@) == note_models(old(notes)@) + reply_notes(content@),
{
    assert(note_models(notes@) + Seq::<NoteModel>::empty() =~= note_models(notes@));
    if let Some(elements) = read_listed(content) {
        return elements;
    }
    match read_json(content) {
        Ok(reply) => elements_from_parsed(&reply),
        Err(why) => {
            let mut message = "Failed to parse observe response: ".to_owned();
            message.append(why.as_str());
            note_plain(notes, LogLevel::Error, "observe", message);
            let none: Vec<ObserveElementSchema> = Vec::new();
            assert(element_models(none@) =~= Seq::<ElementModel>::empty());
            none
        },
    }
}

/// The element that stands for a frame.
pub open spec fn iframe_element(element_id: i64) -> ElementModel {
    ElementModel {
        element_id,
        description: "an iframe"@,
        method: "not-supported"@,
        arguments: seq![],
    }
}

/// The elements that stand for the frames whose id is a number.
pub open spec fn iframe_elements(frames: Seq<Node>) -> Seq<ElementModel>
    decreases frames.len(),
{
    if frames.len() == 0 {
        seq![]
    } else {
        let before = iframe_elements(frames.drop_last());
        match frames.last().node_id {
            Some(id) => match signed_of(id) {
                Ok(n) => before.push(iframe_element(n as i64)),
                Err(_) => before,
            },
            None => before,
        }
    }
}

/// Adds an element for each frame whose id is a number.
pub fn append_iframes(
    elements: &mut Vec<ObserveElementSchema>,
    iframes: &Vec<AccessibilityNode>,
)
    ensures
        element_models(final(elements)@) == element_models(old(elements)@) + iframe_elements(
            nodes_of(iframes@),
        ),
{
    let ghost start = element_models(elements@);
    let mut i: usize = 0;
    assert(nodes_of(iframes@.take(0)) =~= Seq::<Node>::empty());
    assert(start + Seq::<ElementModel>::empty() =~= start);
    while i < iframes.len()
        invariant
            i <= iframes.len(),
            start == element_models(old(elements)@),
            element_models(elements@) == start + iframe_elements(nodes_of(iframes@.take(i as int))),
        decreases iframes.len() - i,
    {
        let ghost before = element_models(elements@);
        assert(nodes_of(iframes@.take(i + 1)).drop_last() =~= nodes_of(iframes@.take(i as int)));
        if let Some(id) = &iframes[i].node_id {
            if let Ok(element_id) = parse_i64(id.as_str()) {
                let element = ObserveElementSchema {
                    element_id,
                    description: "an iframe".to_owned(),
                    method: "not-supported".to_owned(),
                    arguments: Vec::new(),
                };
                assert(element@ =~= iframe_element(element_id));
                elements.push(element);
                assert(element_models(elements@) =~= before.push(iframe_element(element_id)));
            }
        }
        i += 1;
        assert(element_models(elements@) =~= start + iframe_elements(
            nodes_of(iframes@.take(i as int)),
        ));
    }
    assert(iframes@.take(i as int) =~= iframes@);
}

/// The node to resolve for an element; there is none for an id that is not
/// positive.
pub fn selector_target(element: &ObserveElementSchema) -> (out: Option<i64>)
    ensures
        out == (if element@.element_id > 0 {
            Some(element@.element_id)
        } else {
            None
        }),
{
    if element.element_id > 0 {
        Some(element.element_id)
    } else {
        None
    }
}

/// The found element for an element whose path is known; there is none where the
/// path is empty.
pub fn attach_selector(element: &ObserveElementSchema, xpath: &str) -> (out: Option<ObserveResult>)
    ensures
        out is Some <==> xpath@.len() > 0,
        out matches Some(found) ==> found@ == (FoundModel {
            selector: "xpath="@ + xpath@,
            description: element@.description,
            backend_node_id: Some(element@.element_id),
            method: Some(element@.method),
            arguments: if element@.arguments.len() == 0 {
                None
            } else {
                Some(element@.arguments)
            },
        }),
{
    if xpath.is_empty() {
        return None;
    }
    let mut selector = "xpath=".to_owned();
    selector.append(xpath);
    Some(
        ObserveResult {
            selector,
            description: element.description.clone(),
            backend_node_id: Some(element.element_id),
            method: Some(element.method.clone()),
            arguments: if element.arguments.len() == 0 {
                None
            } else {
                Some(copy_texts(&element.arguments))
            },
        },
    )
}

/// Where the browser stands: the address of the page, the pages that are open and
/// the frame that each of them shows.
#[derive(Debug)]
pub struct NavigationSnapshot {
    pub url: Option<String>,
    pub page_ids: Vec<String>,
    pub frame_ids: Table<String>,
}

/// The address that an evaluation gave; there is none where it is empty.
pub fn snapshot_url(value: &JsonValue) -> (out: Option<String>)
    ensures
        opt_view(out) == (match text_of(value@) {
            Some(url) if url.len() > 0 => Some(url),
            _ => None,
        }),
{
    match value.as_str() {
        Some(url) => {
            if url.as_str().is_empty() {
                None
            } else {
                Some(url.clone())
            }
        },
        None => None,
    }
}

/// What an action changed: the address it led to, the pages it opened, and the
/// pages that show another frame.
#[derive(Debug)]
pub struct NavigationChange {
    pub navigated_to: Option<String>,
    pub new_pages: Vec<String>,
    pub new_frames: Vec<(String, String)>,
}

fn after_line(head: &str, method: &str, what: &str) -> (out: String)
    ensures
        out@ == head@ + method@ + ": "@ + what@,
{
    let mut out = head.to_owned();
    out.append(method);
    out.append(": ");
    out.append(what);
    out
}

/// What is logged once an action is done, before its effects are looked at.
pub open spec fn done_note(method: Seq<char>, selector: Seq<char>) -> NoteModel {
    NoteModel {
        level: LogLevel::Info,
        message: method + " action complete; checking for navigation"@,
        category: "act"@,
        auxiliary: beside("selector"@, selector),
    }
}

/// Notes that an action is done, before its effects are looked at.
pub fn note_done(method: &str, selector: &str) -> (out: Note)
    ensures
        out@ == done_note(method@, selector@),
{
    let mut message = method.to_owned();
    message.append(" action complete; checking for navigation");
    Note {
        level: LogLevel::Info,
        message,
        category: "act".to_owned(),
        auxiliary: put_beside("selector", selector),
    }
}

/// What is logged of a page that went to another address.
pub open spec fn navigated_note(method: Seq<char>, selector: Seq<char>, url: Seq<char>) -> NoteModel {
    NoteModel {
        level: LogLevel::Info,
        message: "Navigation detected after "@ + method + ": "@ + url,
        category: "act"@,
        auxiliary: beside("selector"@, selector),
    }
}

/// Notes the address that the page went to, where it did.
pub fn note_navigation(method: &str, selector: &str, change: &NavigationChange) -> (out: Option<Note>)
    ensures
        match (out, change.navigated_to) {
            (Some(note), Some(url)) => note@ == navigated_note(method@, selector@, url@),
            (None, None) => true,
            _ => false,
        },
{
    match &change.navigated_to {
        Some(url) => Some(
            Note {
                level: LogLevel::Info,
                message: after_line("Navigation detected after ", method, url.as_str()),
                category: "act".to_owned(),
                auxiliary: put_beside("selector", selector),
            },
        ),
        None => None,
    }
}

/// Notes a page that was opened.
pub fn note_new_page(method: &str, page_id: &str) -> (out: Note)
    ensures
        out@ == plain_note(
            LogLevel::Info,
            "act"@,
            "New page detected after "@ + method@ + ": "@ + page_id@,
        ),
{
    Note {
        level: LogLevel::Info,
        message: after_line("New page detected after ", method, page_id),
        category: "act".to_owned(),
        auxiliary: None,
    }
}

/// The ids, in order, that are not among the ones before.
pub open spec fn new_ids(before: Seq<Seq<char>>, after: Seq<Seq<char>>) -> Seq<Seq<char>>
    decreases after.len(),
{
    if after.len() == 0 {
        seq![]
    } else {
        let rest = new_ids(before, after.drop_last());
        if before.contains(after.last()) {
            rest
        } else {
            rest.push(after.last())
        }
    }
}

/// The pages, in order, that show another frame than before.
pub open spec fn new_frames(
    before: Map<Seq<char>, Seq<char>>,
    pages: Seq<Seq<char>>,
    after: Map<Seq<char>, Seq<char>>,
) -> Seq<(Seq<char>, Seq<char>)>
    decreases pages.len(),
{
    if pages.len() == 0 {
        seq![]
    } else {
        let rest = new_frames(before, pages.drop_last(), after);
        let page = pages.last();
        if before.dom().contains(page) && before[page] == after[page] {
            rest
        } else {
            rest.push((page, after[page]))
        }
    }
}

fn holds(ids: &Vec<String>, id: &str) -> (yes: bool)
    ensures
        yes == views(ids@).contains(id@),
{
    let mut i: usize = 0;
    while i < ids.len()
        invariant
            i <= ids.len(),
            forall|k: int| 0 <= k < i ==> (#[trigger] views(ids@)[k]) != id@,
        decreases ids.len() - i,
    {
        if str_eq(ids[i].as_str(), id) {
            assert(views(ids@)[i as int] == id@);
            return true;
        }
        i += 1;
    }
    false
}

/// The ids that are not among the ones before.
pub fn ids_added(before: &Vec<String>, after: &Vec<String>) -> (out: Vec<String>)
    ensures
        views(out@) == new_ids(views(before@), views(after@)),
{
    let mut out: Vec<String> = Vec::new();
    let mut i: usize = 0;
    assert(views(out@) =~= new_ids(views(before@), views(after@.take(0))));
    while i < after.len()
        invariant
            i <= after.len(),
            views(out@) == new_ids(views(before@), views(after@.take(i as int))),
        decreases after.len() - i,
    {
        let ghost was = views(out@);
        assert(views(after@.take(i + 1)).drop_last() =~= views(after@.take(i as int)));
        if !holds(before, after[i].as_str()) {
            out.push(after[i].clone());
            assert(views(out@) =~= was.push(after@[i as int]@));
        }
        i += 1;
    }
    assert(after@.take(i as int) =~= after@);
    out
}

/// Finds what changed from one snapshot to the next.
pub fn navigation_change(before: &NavigationSnapshot, after: &NavigationSnapshot) -> (out:
    NavigationChange)
    ensures
        opt_view(out.navigated_to) == (if opt_view(before.url) == opt_view(after.url) {
            None
        } else {
            opt_view(after.url)
        }),
        views(out.new_pages@) == new_ids(views(before.page_ids@), views(after.page_ids@)),
        pair_views(out.new_frames@) == new_frames(
            text_map(before.frame_ids@),
            after.frame_ids.order(),
            text_map(after.frame_ids@),
        ),
{
    let navigated_to = match &after.url {
        Some(url) => {
            if opt_is(&before.url, url.as_str()) {
                None
            } else {
                Some(url.clone())
            }
        },
        None => None,
    };
    let new_pages = ids_added(&before.page_ids, &after.page_ids);
    let mut frames: Vec<(String, String)> = Vec::new();
    let total: usize = after.frame_ids.len();
    let ghost order = after.frame_ids.order();
    let ghost old_frames = text_map(before.frame_ids@);
    let ghost all_frames = text_map(after.frame_ids@);
    let mut i: usize = 0;
    assert(old_frames.dom() =~= before.frame_ids@.dom());
    assert(pair_views(frames@) =~= new_frames(old_frames, order.take(0), all_frames));
    while i < total
        invariant
            i <= total,
            order == after.frame_ids.order(),
            total == order.len(),
            old_frames == text_map(before.frame_ids@),
            old_frames.dom() == before.frame_ids@.dom(),
            all_frames == text_map(after.frame_ids@),
            pair_views(frames@) == new_frames(old_frames, order.take(i as int), all_frames),
        decreases total - i,
    {
        let ghost was = pair_views(frames@);
        assert(order.take(i + 1).drop_last() =~= order.take(i as int));
        let page = after.frame_ids.key_at(i);
        let frame = after.frame_ids.value_at(i);
        let same: bool = match before.frame_ids.get(page.as_str()) {
            Some(shown) => str_eq(shown.as_str(), frame.as_str()),
            None => false,
        };
        if !same {
            frames.push((page.clone(), frame.clone()));
            assert(pair_views(frames@) =~= was.push((page@, frame@)));
        }
        i += 1;
    }
    assert(order.take(i as int) =~= order);
    NavigationChange { navigated_to, new_pages, new_frames: frames }
}

proof fn lemma_new_ids(before: Seq<Seq<char>>, after: Seq<Seq<char>>, id: Seq<char>)
    ensures
        new_ids(before, after).contains(id) <==> after.contains(id) && !before.contains(id),
    decreases after.len(),
{
    if after.len() > 0 {
        let front = after.drop_last();
        let rest = new_ids(before, front);
        lemma_new_ids(before, front, id);
        assert(after =~= front.push(after.last()));
        if after.contains(id) {
            let i = choose|i: int| 0 <= i < after.len() && after[i] == id;
            if i < front.len() {
                assert(front[i] == id);
            }
        }
        if front.contains(id) {
            let i = choose|i: int| 0 <= i < front.len() && front[i] == id;
            assert(after[i] == id);
        }
        if !before.contains(after.last()) {
            let all = rest.push(after.last());
            if rest.contains(id) {
                let i = choose|i: int| 0 <= i < rest.len() && rest[i] == id;
                assert(all[i] == id);
            }
            if all.contains(id) {
                let i = choose|i: int| 0 <= i < all.len() && all[i] == id;
                if i < rest.len() {
                    assert(rest[i] == id);
                }
            }
            assert(all[rest.len() as int] == after.last());
            assert(after[after.len() - 1] == after.last());
        }
    }
}

/// The pages that an action opened are those that are open after it and were not
/// before; where nothing was opened there are none.
pub proof fn law_new_pages_are_the_difference(before: Seq<Seq<char>>, after: Seq<Seq<char>>)
    ensures
        forall|id: Seq<char>| #[trigger]
            new_ids(before, after).contains(id) <==> after.contains(id) && !before.contains(id),
        new_ids(after, after) == Seq::<Seq<char>>::empty(),
{
    assert forall|id: Seq<char>| #[trigger] new_ids(before, after).contains(id) <==> after.contains(
        id,
    ) && !before.contains(id) by {
        lemma_new_ids(before, after, id);
    }
    if new_ids(after, after).len() > 0 {
        let id = new_ids(after, after)[0];
        assert(new_ids(after, after).contains(id));
        lemma_new_ids(after, after, id);
    }
}

} // verus!
