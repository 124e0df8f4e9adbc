//! What becomes of the data in a reply of the language model.
use crate::extract::{
    coerced, coerced_notes, data_in, default_data, extracted, kept_notes, refusal, with_urls, Urls,
};
use crate::json::{member_of, signed_in, with_member, Json, Members};
use crate::keys::{recased, KeyCase};
use crate::logging::{plain_note, LogLevel};
use crate::text::{decimal_int, has_text, lower_of, signed_of, trim_of};
use vstd::prelude::*;
use vstd::string::*;

verus! {

/// The value at a place: the way to it is the number of an item or member at each
/// level.
pub open spec fn at_place(value: Json, place: Seq<int>) -> Option<Json>
    decreases place.len(),
{
    if place.len() == 0 {
        Some(value)
    } else {
        match value {
            Json::List(items) if 0 <= place[0] < items.len() => at_place(
                items[place[0]],
                place.skip(1),
            ),
            Json::Members(members) if 0 <= place[0] < members.len() => at_place(
                members[place[0]].1,
                place.skip(1),
            ),
            _ => None,
        }
    }
}

/// The key under which the value at a place stands, where it stands in an object.
pub open spec fn key_at(value: Json, place: Seq<int>) -> Option<Seq<char>> {
    if place.len() == 0 {
        None
    } else {
        match at_place(value, place.drop_last()) {
            Some(Json::Members(members)) if 0 <= place.last() < members.len() => Some(
                members[place.last()].0,
            ),
            _ => None,
        }
    }
}

/// Whether a value is the id `id`: that whole number, or a text that is it.
pub open spec fn gives_id(value: Json, id: int) -> bool {
    ||| value is Number && (signed_in(value) matches Some(n) && n == id)
    ||| (value matches Json::Text(text) && signed_of(trim_of(text)) == Ok::<
        int,
        crate::text::NumberError,
    >(id))
}

/// Whether the value at a place is to become an address: it stands under a key that
/// holds `url` in any case and is an id with an address.
pub open spec fn wants_address(value: Json, urls: Urls, place: Seq<int>, id: int) -> bool {
    &&& (key_at(value, place) matches Some(key) && has_text(lower_of(key), "url"@))
    &&& (at_place(value, place) matches Some(found) && gives_id(found, id))
    &&& urls.dom().contains(decimal_int(id))
}

proof fn lemma_place_below(value: Json, place: Seq<int>)
    requires
        place.len() > 0,
    ensures
        place.len() > 1 ==> key_at(value, place) == (match value {
            Json::List(items) if 0 <= place[0] < items.len() => key_at(
                items[place[0]],
                place.skip(1),
            ),
            Json::Members(members) if 0 <= place[0] < members.len() => key_at(
                members[place[0]].1,
                place.skip(1),
            ),
            _ => None,
        }),
        place.len() == 1 ==> key_at(value, place) == (match value {
            Json::Members(members) if 0 <= place[0] < members.len() => Some(members[place[0]].0),
            _ => None,
        }),
{
    if place.len() > 1 {
        assert(place.drop_last().skip(1) =~= place.skip(1).drop_last());
        assert(place.drop_last()[0] == place[0]);
        assert(place.skip(1).last() == place.last());
    } else {
        assert(place.drop_last() =~= Seq::<int>::empty());
    }
}

/// At every place of a value, at any depth and in every item of every list, an id
/// under a key that holds `url` becomes its address; everything else at every place
/// is as it was, and no place comes or goes.
pub proof fn law_addresses_stand_everywhere(value: Json, urls: Urls, place: Seq<int>)
    ensures
        ({
            let changed = with_urls(value, urls);
            &&& at_place(changed, place) is Some <==> at_place(value, place) is Some
            &&& key_at(changed, place) == key_at(value, place)
            &&& forall|id: int| #[trigger]
                wants_address(value, urls, place, id) ==> at_place(changed, place) == Some(
                    Json::Text(urls[decimal_int(id)]),
                )
            &&& (forall|id: int| !#[trigger] wants_address(value, urls, place, id)) ==> (
            at_place(value, place) matches Some(found) ==> match found {
                Json::List(items) => at_place(changed, place) matches Some(Json::List(after))
                    && after.len() == items.len(),
                Json::Members(members) => at_place(changed, place) matches Some(
                    Json::Members(after),
                ) && after.len() == members.len() && forall|i: int|
                    0 <= i < members.len() ==> (#[trigger] after[i]).0 == members[i].0,
                _ => at_place(changed, place) == Some(found),
            })
        }),
    decreases place.len(),
{
    let changed = with_urls(value, urls);
    if place.len() > 0 {
        let rest = place.skip(1);
        lemma_place_below(value, place);
        lemma_place_below(changed, place);
        match value {
            Json::List(items) if 0 <= place[0] < items.len() => {
                let item = items[place[0]];
                assert(changed->List_0[place[0]] == with_urls(item, urls));
                law_addresses_stand_everywhere(item, urls, rest);
                if place.len() == 1 {
                    assert(key_at(value, place) is None);
                    assert(key_at(item, rest) is None);
                }
                assert forall|id: int| #[trigger]
                    wants_address(value, urls, place, id) == wants_address(
                        item,
                        urls,
                        rest,
                        id,
                    ) by {}
                lemma_same_places(value, item, urls, place, rest);
            },
            Json::Members(members) if 0 <= place[0] < members.len() => {
                let (key, member) = members[place[0]];
                let after = changed->Members_0[place[0]];
                assert(after.0 == key);
                assert(at_place(value, place) == at_place(member, rest));
                assert(at_place(changed, place) == at_place(after.1, rest));
                if has_text(lower_of(key), "url"@) && crate::extract::id_in(member) is Some {
                    let id = crate::extract::id_in(member)->0;
                    if place.len() == 1 {
                        assert(rest.len() == 0);
                        assert(at_place(member, rest) == Some(member));
                        assert(at_place(after.1, rest) == Some(after.1));
                        assert(gives_id(member, id));
                        if urls.dom().contains(decimal_int(id)) {
                            assert(wants_address(value, urls, place, id));
                        }
                        assert forall|other: int| #[trigger]
                            wants_address(value, urls, place, other) implies other == id by {}
                    } else {
                        lemma_leaf_has_no_keys(member, rest);
                        lemma_leaf_has_no_keys(after.1, rest);
                    }
                } else {
                    assert(after.1 == with_urls(member, urls));
                    law_addresses_stand_everywhere(member, urls, rest);
                    if place.len() == 1 {
                        assert forall|id: int| !#[trigger]
                            wants_address(value, urls, place, id) by {
                            if wants_address(value, urls, place, id) {
                                assert(gives_id(member, id));
                            }
                        }
                        assert(forall|id: int| !#[trigger] wants_address(member, urls, rest, id));
                    } else {
                        lemma_same_places(value, member, urls, place, rest);
                    }
                }
            },
            _ => {
                if place.len() == 1 {
                    assert(key_at(value, place) is None);
                }
            },
        }
    }
}

proof fn lemma_leaf_has_no_keys(value: Json, place: Seq<int>)
    requires
        !(value is List),
        !(value is Members),
        place.len() > 0,
    ensures
        key_at(value, place) is None,
        at_place(value, place) is None,
{
    lemma_place_below(value, place);
}

proof fn lemma_same_places(
    value: Json,
    inner: Json,
    urls: Urls,
    place: Seq<int>,
    rest: Seq<int>,
)
    requires
        at_place(value, place) == at_place(inner, rest),
        key_at(value, place) == key_at(inner, rest),
    ensures
        forall|id: int|
            wants_address(value, urls, place, id) == #[trigger] wants_address(
                inner,
                urls,
                rest,
                id,
            ),
        (forall|id: int| !#[trigger] wants_address(value, urls, place, id)) == (forall|id: int|
            !#[trigger] wants_address(inner, urls, rest, id)),
{
    assert forall|id: int|
        wants_address(value, urls, place, id) == #[trigger] wants_address(
            inner,
            urls,
            rest,
            id,
        ) by {}
    if forall|id: int| !#[trigger] wants_address(value, urls, place, id) {
        assert forall|id: int| !#[trigger] wants_address(inner, urls, rest, id) by {
            assert(!wants_address(value, urls, place, id));
        }
    }
    if forall|id: int| !#[trigger] wants_address(inner, urls, rest, id) {
        assert forall|id: int| !#[trigger] wants_address(value, urls, place, id) by {
            assert(!wants_address(inner, urls, rest, id));
        }
    }
}

/// The data of a reply is what stands under `data`; a reply without that is the data.
pub proof fn law_data_stands_under_its_key(reply: Json)
    ensures
        (reply matches Json::Members(members) && member_of(members, "data"@) is Some)
            ==> data_in(reply) == member_of(reply->Members_0, "data"@)->0,
        !(reply is Members) ==> data_in(reply) == reply,
        (reply matches Json::Members(members) ==> member_of(members, "data"@) is None)
            ==> data_in(reply) == reply,
{
}

/// Data that meets its schema is kept as it is. Data that meets it only with its keys
/// in snake case is kept so. Data that never meets it is kept as it is. Nothing but
/// the keys ever changes.
pub proof fn law_fitting_data_is_kept(data: Json, schema: Json)
    ensures
        refusal(schema, data) is None ==> coerced(data, Some(schema)) == data,
        refusal(schema, data) is Some && refusal(schema, recased(KeyCase::Snake, data)) is None
            ==> coerced(data, Some(schema)) == recased(KeyCase::Snake, data),
        refusal(schema, data) is Some && refusal(schema, recased(KeyCase::Snake, data)) is Some
            ==> coerced(data, Some(schema)) == data,
{
}

/// What is kept meets the schema whenever the data meets it in either form.
pub proof fn law_kept_data_meets_its_schema(data: Json, schema: Json)
    requires
        refusal(schema, data) is None || refusal(schema, recased(KeyCase::Snake, data)) is None,
    ensures
        refusal(schema, coerced(data, Some(schema))) is None,
{
}

/// Without a schema, a text under `extraction` is all that is kept of an object; the
/// only text of a list counts as it. Anything else is kept as it is.
pub proof fn law_plain_extraction_keeps_its_text(data: Json)
    ensures
        (data matches Json::Members(members) && (member_of(members, "extraction"@) matches Some(
            Json::Text(_),
        ))) ==> coerced(data, None) == Json::Members(
            seq![("extraction"@, member_of(data->Members_0, "extraction"@)->0)],
        ),
        (data matches Json::List(items) && items.len() == 1 && items[0] is Text) ==> coerced(
            data,
            None,
        ) == Json::Members(seq![("extraction"@, data->List_0[0])]),
        (data matches Json::Members(members) && !(member_of(members, "extraction"@) matches Some(
            Json::Text(_),
        ))) ==> coerced(data, None) == data,
        (data matches Json::List(items) && !(items.len() == 1 && items[0] is Text))
            ==> coerced(data, None) == data,
        !(data is List) && !(data is Members) ==> coerced(data, None) == data,
{
    assert forall|text: Json| #[trigger]
        with_member(Members::empty(), "extraction"@, text) =~= seq![("extraction"@, text)] by {}
}

/// What is logged of data that is fitted to a schema: nothing where it fits; why it
/// does not fit, and that it does in snake case, or why not then either.
pub proof fn law_misfits_are_logged(first: Seq<char>, second: Seq<char>, other: Option<Seq<char>>)
    ensures
        kept_notes(None, other).len() == 0,
        kept_notes(Some(first), None) == seq![
            plain_note(
                LogLevel::Debug,
                "extract"@,
                "Schema validation failed for extract data: "@ + first,
            ),
            plain_note(
                LogLevel::Debug,
                "extract"@,
                "Schema validation succeeded after camelCase normalization"@,
            ),
        ],
        kept_notes(Some(first), Some(second)).len() == 2,
        kept_notes(Some(first), Some(second))[1] == plain_note(
            LogLevel::Error,
            "extract"@,
            "Failed to validate extract data against schema: "@ + first
                + ". Normalization retry also failed: "@ + second + ". Returning raw data."@,
        ),
{
}

/// At every place of the data of a reply without a schema, an id under a key that
/// holds `url` has become its address, unless only the text of a plain extraction is
/// kept.
pub proof fn law_extracted_data_has_addresses(reply: Json, urls: Urls, place: Seq<int>, id: int)
    requires
        wants_address(data_in(reply), urls, place, id),
    ensures
        extracted(reply, urls, None) == with_urls(data_in(reply), urls) ==> at_place(
            extracted(reply, urls, None),
            place,
        ) == Some(Json::Text(urls[decimal_int(id)])),
        extracted(reply, urls, None) == with_urls(data_in(reply), urls) || extracted(
            reply,
            urls,
            None,
        ) == default_data(with_urls(data_in(reply), urls)),
{
    law_addresses_stand_everywhere(data_in(reply), urls, place);
}

/// What is logged is why the data does not meet the schema, as it is and with its keys in
/// snake case; without a schema nothing is.
pub proof fn law_misfits_are_logged_of_data(data: Json, schema: Json)
    ensures
        coerced_notes(data, None).len() == 0,
        coerced_notes(data, Some(schema)) == kept_notes(
            refusal(schema, data),
            refusal(schema, recased(KeyCase::Snake, data)),
        ),
        refusal(schema, data) is None ==> coerced_notes(data, Some(schema)).len() == 0,
{
}

} // verus!
