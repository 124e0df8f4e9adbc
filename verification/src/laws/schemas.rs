//! When the outcome of holding data against a schema is certain.
use crate::extract::{
    asks_unique, has_other_number, holds_key, holds_name, holds_way_out, is_decided, is_steady,
    refusal, schema_errors, stays_within,
};
use crate::json::{field_of, Json};
use crate::laws::extract::at_place;
use crate::references::has_reference;
use crate::text::joined;
use vstd::prelude::*;
use vstd::string::*;

verus! {

/// Data is refused exactly where there are errors, with all of them.
pub proof fn law_refusals_tell_all_errors(schema: Json, data: Json)
    ensures
        refusal(schema, data) is None <==> schema_errors(schema, data).len() == 0,
        schema_errors(schema, data).len() == 1 ==> refusal(schema, data) == Some(
            schema_errors(schema, data)[0],
        ),
        schema_errors(schema, data).len() == 2 ==> refusal(schema, data) == Some(
            schema_errors(schema, data)[0] + "; "@ + schema_errors(schema, data)[1],
        ),
        schema_errors(schema, data).len() > 0 ==> refusal(schema, data) == Some(
            joined(schema_errors(schema, data), "; "@),
        ),
{
    reveal_with_fuel(joined, 3);
}

proof fn lemma_place(value: Json, place: Seq<int>)
    requires
        place.len() > 0,
        at_place(value, place) is Some,
    ensures
        value is List || value is Members,
        value matches Json::List(items) ==> 0 <= place[0] < items.len() && at_place(
            items[place[0]],
            place.skip(1),
        ) == at_place(value, place),
        value matches Json::Members(members) ==> 0 <= place[0] < members.len() && at_place(
            members[place[0]].1,
            place.skip(1),
        ) == at_place(value, place),
{
}

/// A number that is no whole number is found wherever it stands.
pub proof fn law_other_numbers_are_found(value: Json, place: Seq<int>)
    requires
        at_place(value, place) matches Some(Json::Number(number)) && number is Other,
    ensures
        has_other_number(value),
    decreases place.len(),
{
    if place.len() > 0 {
        lemma_place(value, place);
        match value {
            Json::List(items) => {
                law_other_numbers_are_found(items[place[0]], place.skip(1));
            },
            Json::Members(members) => {
                law_other_numbers_are_found(members[place[0]].1, place.skip(1));
            },
            _ => {},
        }
    }
}

/// A value is not steady where, anywhere in it, a list of more than fifteen items has
/// such a number in it.
pub proof fn law_long_lists_are_found(value: Json, place: Seq<int>)
    requires
        at_place(value, place) matches Some(Json::List(items)) && items.len() > 15
            && has_other_number(Json::List(items)),
    ensures
        !is_steady(value),
    decreases place.len(),
{
    if place.len() > 0 {
        lemma_place(value, place);
        match value {
            Json::List(items) => {
                law_long_lists_are_found(items[place[0]], place.skip(1));
                assert(!is_steady(items[place[0]]));
            },
            Json::Members(members) => {
                law_long_lists_are_found(members[place[0]].1, place.skip(1));
                assert(!is_steady(members[place[0]].1));
            },
            _ => {},
        }
    }
}

/// A key is found wherever it stands.
pub proof fn law_keys_are_found(value: Json, place: Seq<int>, i: int, key: Seq<char>)
    requires
        at_place(value, place) matches Some(Json::Members(members)) && 0 <= i < members.len()
            && members[i].0 == key,
    ensures
        holds_key(value, key),
    decreases place.len(),
{
    if place.len() > 0 {
        lemma_place(value, place);
        match value {
            Json::List(items) => {
                law_keys_are_found(items[place[0]], place.skip(1), i, key);
            },
            Json::Members(members) => {
                law_keys_are_found(members[place[0]].1, place.skip(1), i, key);
            },
            _ => {},
        }
    }
}

/// A name, a reference and a way out are found wherever they stand.
pub proof fn law_names_and_references_are_found(value: Json, place: Seq<int>, found: Json)
    requires
        at_place(value, place) == Some(found),
    ensures
        (field_of(found, "$id"@) matches Some(Json::Text(_))) ==> holds_name(value),
        (field_of(found, "id"@) matches Some(Json::Text(_))) ==> holds_name(value),
        (field_of(found, "$ref"@) matches Some(Json::Text(_))) ==> has_reference(value),
        (field_of(found, "$ref"@) matches Some(Json::Text(reference)) && !stays_within(reference))
            ==> holds_way_out(value),
    decreases place.len(),
{
    if place.len() > 0 {
        lemma_place(value, place);
        match value {
            Json::List(items) => {
                law_names_and_references_are_found(items[place[0]], place.skip(1), found);
            },
            Json::Members(members) => {
                law_names_and_references_are_found(members[place[0]].1, place.skip(1), found);
            },
            _ => {},
        }
    }
}

/// The outcome is certain where neither the schema nor the data has such a list, and
/// where the schema has none and never asks for items without equals.
pub proof fn law_steady_values_are_decided(schema: Json, data: Json)
    ensures
        is_steady(schema) && is_steady(data) ==> is_decided(schema, data),
        is_steady(schema) && !asks_unique(schema) ==> is_decided(schema, data),
        !is_steady(schema) ==> !is_decided(schema, data),
        !is_steady(data) && asks_unique(schema) ==> !is_decided(schema, data),
        asks_unique(schema) <==> holds_key(schema, "uniqueItems"@) || holds_way_out(schema) || (
        has_reference(schema) && holds_name(schema)),
{
}

} // verus!
