//! Extraction: from the reply of the language model to the data asked for.
use crate::a11y::text_map;
use crate::json::{
    field_of, member_of, models, parsed_json, read_json, signed_in, text_of, value_to, with_member,
    Json, JsonObject, JsonValue, Members,
};
use crate::keys::{
    convert_keys_to_snake_case, key_in, recased, recased_list, recased_members, KeyCase,
};
use crate::logging::{note_models, note_plain, plain_note, LogLevel, Note, NoteModel};
use crate::references::{
    cleaned, comes_to_an_end, has_reference, is_named, is_path, law_without_references_ends,
    resource_of,
};
use crate::table::Table;
use crate::text::{
    contains, decimal_int, has_text, i64_text, join, joined, lex_less, lower_of, parse_i64, signed_of,
    to_lower, trim, trim_of, views,
};
use vstd::prelude::*;
use vstd::string::*;

verus! {

/// The addresses under the ids of the nodes that point to them.
pub type Urls = Map<Seq<char>, Seq<char>>;

/// The id that a value gives: a whole number, or a text that is one.
pub open spec fn id_in(value: Json) -> Option<int> {
    match value {
        Json::Number(_) => match signed_in(value) {
            Some(id) => Some(id as int),
            None => None,
        },
        Json::Text(text) => match signed_of(trim_of(text)) {
            Ok(id) => Some(id),
            Err(_) => None,
        },
        _ => None,
    }
}

/// A value with the address in place of the id, where it gives the id of a node
/// that points to one.
pub open spec fn with_url(value: Json, urls: Urls) -> Json {
    match id_in(value) {
        Some(id) if urls.dom().contains(decimal_int(id)) => Json::Text(urls[decimal_int(id)]),
        _ => value,
    }
}

/// Puts the address in place of the id.
pub fn replace_with_url(value: &JsonValue, id_to_url: &Table<String>) -> (out: JsonValue)
    ensures
        out@ == with_url(value@, text_map(id_to_url@)),
{
    broadcast use JsonValue::lemma_model;

    let id: Option<i64> = match value {
        JsonValue::Number(_) => value.as_i64(),
        JsonValue::Text(text) => match parse_i64(trim(text.as_str()).as_str()) {
            Ok(id) => Some(id),
            Err(_) => None,
        },
        _ => None,
    };
    assert(text_map(id_to_url@).dom() =~= id_to_url@.dom());
    if let Some(id) = id {
        if let Some(url) = id_to_url.get(i64_text(id).as_str()) {
            return JsonValue::text(url.as_str());
        }
    }
    value.copy()
}

/// Whether a key asks for an address.
pub open spec fn is_url_key(key: Seq<char>) -> bool {
    has_text(lower_of(key), "url"@)
}

/// A value with addresses in place of the ids under all keys that ask for one.
pub open spec fn with_urls(value: Json, urls: Urls) -> Json
    decreases value,
{
    match value {
        Json::List(items) => Json::List(
            Seq::new(
                items.len(),
                |i: int|
                    if 0 <= i < items.len() {
                        with_urls(items[i], urls)
                    } else {
                        Json::Null
                    },
            ),
        ),
        Json::Members(members) => Json::Members(
            Seq::new(
                members.len(),
                |i: int|
                    if 0 <= i < members.len() {
                        (
                            members[i].0,
                            if is_url_key(members[i].0) && id_in(members[i].1) is Some {
                                with_url(members[i].1, urls)
                            } else {
                                with_urls(members[i].1, urls)
                            },
                        )
                    } else {
                        (seq![], Json::Null)
                    },
            ),
        ),
        _ => value,
    }
}

fn put_urls(value: &JsonValue, id_to_url: &Table<String>) -> (out: JsonValue)
    ensures
        out@ == with_urls(value@, text_map(id_to_url@)),
    decreases value,
{
    let ghost urls = text_map(id_to_url@);
    if let Some(object) = value.as_object() {
        let mut changed = object.copy();
        let total: usize = object.len();
        let ghost wanted = with_urls(value@, urls)->Members_0;
        let mut i: usize = 0;
        assert(changed@ =~= wanted.take(0) + object@.skip(0));
        while i < total
            invariant
                i <= total,
                total == object@.len(),
                urls == text_map(id_to_url@),
                value@ == Json::Members(object@),
                decreases_to!(value => object),
                wanted == with_urls(value@, urls)->Members_0,
                changed@ == wanted.take(i as int) + object@.skip(i as int),
            decreases total - i,
        {
            let key = object.key_at(i);
            let inner = object.value_at(i);
            let asks: bool = contains(to_lower(key.as_str()).as_str(), "url");
            let new_value = if asks && is_id(inner) {
                replace_with_url(inner, id_to_url)
            } else {
                put_urls(inner, id_to_url)
            };
            assert(wanted[i as int] == (object@[i as int].0, new_value@));
            changed.set_value_at(i, new_value);
            i += 1;
            assert(changed@ =~= wanted.take(i as int) + object@.skip(i as int));
        }
        assert(changed@ =~= wanted);
        return JsonValue::object(changed);
    }
    if let Some(items) = value.as_array() {
        let mut changed: Vec<JsonValue> = Vec::new();
        let ghost wanted = with_urls(value@, urls)->List_0;
        let mut i: usize = 0;
        assert(models(changed@) =~= wanted.take(0));
        while i < items.len()
            invariant
                i <= items.len(),
                urls == text_map(id_to_url@),
                value@ == Json::List(models(items@)),
                decreases_to!(value => items@),
                wanted == with_urls(value@, urls)->List_0,
                models(changed@) == wanted.take(i as int),
            decreases items.len() - i,
        {
            let ghost before = models(changed@);
            assert(decreases_to!(items@ => items@[i as int]));
            let item = put_urls(&items[i], id_to_url);
            let ghost added = item@;
            changed.push(item);
            assert(models(changed@) =~= before.push(added));
            i += 1;
            assert(models(changed@) =~= wanted.take(i as int));
        }
        assert(models(changed@) =~= wanted);
        return JsonValue::array(changed);
    }
    value.copy()
}

fn is_id(value: &JsonValue) -> (yes: bool)
    ensures
        yes == (id_in(value@) is Some),
{
    broadcast use JsonValue::lemma_model;

    match value {
        JsonValue::Number(_) => value.as_i64().is_some(),
        JsonValue::Text(text) => parse_i64(trim(text.as_str()).as_str()).is_ok(),
        _ => false,
    }
}

/// Puts addresses in place of the ids under all keys that ask for one.
pub fn inject_urls(value: &mut JsonValue, id_to_url: &Table<String>)
    ensures
        final(value)@ == with_urls(old(value)@, text_map(id_to_url@)),
{
    let changed = put_urls(&*value, id_to_url);
    *value = changed;
}

/// Whether a value holds a number that is no whole number of 64 bits.
pub open spec fn has_other_number(value: Json) -> bool
    decreases value,
{
    match value {
        Json::Number(number) => number is Other,
        Json::List(items) => exists|i: int|
            0 <= i < items.len() && has_other_number(#[trigger] items[i]),
        Json::Members(members) => exists|i: int|
            0 <= i < members.len() && has_other_number((#[trigger] members[i]).1),
        _ => false,
    }
}

/// Whether no list of more than fifteen items in a value holds a number that is no
/// whole number of 64 bits.
pub open spec fn is_steady(value: Json) -> bool
    decreases value,
{
    match value {
        Json::List(items) => {
            &&& items.len() <= 15 || !has_other_number(value)
            &&& forall|i: int| 0 <= i < items.len() ==> is_steady(#[trigger] items[i])
        },
        Json::Members(members) => forall|i: int|
            0 <= i < members.len() ==> is_steady((#[trigger] members[i]).1),
        _ => true,
    }
}

/// Whether a key stands in an object anywhere in a value.
pub open spec fn holds_key(value: Json, key: Seq<char>) -> bool
    decreases value,
{
    match value {
        Json::List(items) => exists|i: int|
            0 <= i < items.len() && holds_key(#[trigger] items[i], key),
        Json::Members(members) => exists|i: int|
            0 <= i < members.len() && ((#[trigger] members[i]).0 == key || holds_key(
                members[i].1,
                key,
            )),
        _ => false,
    }
}

/// Whether a value has a name, or one in it has.
pub open spec fn holds_name(value: Json) -> bool
    decreases value,
{
    is_named(value) || match value {
        Json::List(items) => exists|i: int|
            0 <= i < items.len() && holds_name(#[trigger] items[i]),
        Json::Members(members) => exists|i: int|
            0 <= i < members.len() && holds_name((#[trigger] members[i]).1),
        _ => false,
    }
}

/// Whether a reference names no schema, or by a path that leads to none.
pub open spec fn stays_within(reference: Seq<char>) -> bool {
    let resource = resource_of(cleaned(reference));
    resource.len() == 0 || is_path(resource)
}

/// Whether a value holds a reference that may lead out of a schema without names.
pub open spec fn holds_way_out(value: Json) -> bool
    decreases value,
{
    (field_of(value, "$ref"@) matches Some(Json::Text(reference)) && !stays_within(reference))
        || match value {
        Json::List(items) => exists|i: int|
            0 <= i < items.len() && holds_way_out(#[trigger] items[i]),
        Json::Members(members) => exists|i: int|
            0 <= i < members.len() && holds_way_out((#[trigger] members[i]).1),
        _ => false,
    }
}

/// Whether a schema may ask for lists without equal items: it says so somewhere, or
/// its references may lead to a schema that does.
pub open spec fn asks_unique(schema: Json) -> bool {
    ||| holds_key(schema, "uniqueItems"@)
    ||| holds_way_out(schema)
    ||| has_reference(schema) && holds_name(schema)
}

/// Whether the outcome is certain when data is held against a schema.
pub open spec fn is_decided(schema: Json, data: Json) -> bool {
    is_steady(schema) && (is_steady(data) || !asks_unique(schema))
}

/// The texts of the errors that `jsonschema` finds when it compiles a schema and
/// holds data against it: none where the schema compiles and the data meets it.
pub uninterp spec fn schema_errors(schema: Json, data: Json) -> Seq<Seq<char>>;

/// `jsonschema::JSONSchema::compile` and `validate` hold data against a schema.
/// The result is `Ok` exactly where the schema compiles and no error is found;
/// otherwise it holds the text of the error with which compiling failed, or of
/// each error that was found. That a list of more than fifteen items holds no item
/// twice is found with a seeded hash, which tells 0.0 from -0.0 though the two are
/// equal: where that is asked of such a list with numbers that are no whole numbers,
/// nothing is said of which outcome comes. It may be asked of the schema itself, and
/// of the data by the schema or by one that its references lead to. A schema whose references may lead on for ever at
/// one place of the data is left out: it might not come to an end.
#[verifier::external_body]
fn run_schema(schema: &JsonValue, data: &JsonValue) -> (out: Result<(), Vec<String>>)
    requires
        comes_to_an_end(schema@),
    ensures
        is_decided(schema@, data@) ==> match out {
            Ok(()) => schema_errors(schema@, data@).len() == 0,
            Err(texts) => schema_errors(schema@, data@).len() > 0 && views(texts@)
                == schema_errors(schema@, data@),
        },
{
    let schema = value_to(schema);
    let data = value_to(data);
    let compiled = match jsonschema::JSONSchema::compile(&schema) {
        Ok(compiled) => compiled,
        Err(error) => return Err(vec![error.to_string()]),
    };
    let outcome = match compiled.validate(&data) {
        Ok(()) => Ok(()),
        Err(errors) => Err(errors.map(|error| error.to_string()).collect()),
    };
    outcome
}

/// Why data does not meet a schema: the errors, with a semicolon between each two
/// of them.
pub open spec fn refusal(schema: Json, data: Json) -> Option<Seq<char>> {
    if schema_errors(schema, data).len() == 0 {
        None
    } else {
        Some(joined(schema_errors(schema, data), "; "@))
    }
}

/// The error in an outcome.
pub open spec fn error_in(outcome: Result<(), String>) -> Option<Seq<char>> {
    match outcome {
        Ok(()) => None,
        Err(text) => Some(text@),
    }
}

/// Takes what was found of data that was held against a schema. Errors are given
/// as one text, with a semicolon between each two of them.
pub fn join_errors(found: Result<(), Vec<String>>) -> (out: Result<(), String>)
    ensures
        error_in(out) == (match found {
            Ok(()) => None,
            Err(errors) => Some(joined(views(errors@), "; "@)),
        }),
{
    match found {
        Ok(()) => Ok(()),
        Err(errors) => Err(join(&errors, "; ")),
    }
}

/// Holds data against a schema. Errors are given as one text, with a semicolon
/// between each two of them.
pub fn validate_against_schema(schema: &JsonValue, data: &JsonValue) -> (out: Result<(), String>)
    requires
        comes_to_an_end(schema@),
    ensures
        is_decided(schema@, data@) ==> error_in(out) == refusal(schema@, data@),
{
    join_errors(run_schema(schema, data))
}

/// The data that is kept, given why it does not meet the schema as it is and with
/// its keys in snake case.
pub open spec fn kept(data: Json, as_is: Option<Seq<char>>, in_snake_case: Option<Seq<char>>) -> Json {
    if as_is is Some && in_snake_case is None {
        recased(KeyCase::Snake, data)
    } else {
        data
    }
}

/// What is logged of data, given why it does not meet the schema as it is and with
/// its keys in snake case.
pub open spec fn kept_notes(
    as_is: Option<Seq<char>>,
    in_snake_case: Option<Seq<char>>,
) -> Seq<NoteModel> {
    match (as_is, in_snake_case) {
        (None, _) => seq![],
        (Some(first), None) => seq![
            plain_note(
                LogLevel::Debug,
                "extract"@,
                "Schema validation failed for extract data: "@ + first,
            ),
            plain_note(
                LogLevel::Debug,
                "extract"@,
                "Schema validation succeeded after camelCase normalization"@,
            ),
        ],
        (Some(first), Some(second)) => seq![
            plain_note(
                LogLevel::Debug,
                "extract"@,
                "Schema validation failed for extract data: "@ + first,
            ),
            plain_note(
                LogLevel::Error,
                "extract"@,
                "Failed to validate extract data against schema: "@ + first
                    + ". Normalization retry also failed: "@ + second + ". Returning raw data."@,
            ),
        ],
    }
}

/// Keeps data as it is, or with its keys in snake case where only that meets the
/// schema, given what was found of both, and notes it.
pub fn choose_extract_data(
    data: JsonValue,
    as_is: Result<(), String>,
    in_snake_case: Result<(), String>,
    notes: &mut Vec<Note>,
) -> (out: JsonValue)
    ensures
        out@ == kept(data@, error_in(as_is), error_in(in_snake_case)),
        note_models(final(notes)@) == note_models(old(notes)@) + kept_notes(
            error_in(as_is),
            error_in(in_snake_case),
        ),
{
    let ghost before = note_models(notes@);
    let first: String = match as_is {
        Ok(()) => {
            assert(before + Seq::<NoteModel>::empty() =~= before);
            return data;
        },
        Err(first) => first,
    };
    let mut message = "Schema validation failed for extract data: ".to_owned();
    message.append(first.as_str());
    note_plain(notes, LogLevel::Debug, "extract", message);
    match in_snake_case {
        Ok(()) => {
            note_plain(
                notes,
                LogLevel::Debug,
                "extract",
                "Schema validation succeeded after camelCase normalization".to_owned(),
            );
            convert_keys_to_snake_case(&data)
        },
        Err(second) => {
            let mut message = "Failed to validate extract data against schema: ".to_owned();
            message.append(first.as_str());
            message.append(". Normalization retry also failed: ");
            message.append(second.as_str());
            message.append(". Returning raw data.");
            note_plain(notes, LogLevel::Error, "extract", message);
            data
        },
    }
}

/// The text of a default extraction: the text under `extraction`, or the only
/// item of a list where that is a text.
pub open spec fn default_text(data: Json) -> Option<Seq<char>> {
    match data {
        Json::Members(members) => match member_of(members, "extraction"@) {
            Some(value) => text_of(value),
            None => None,
        },
        Json::List(items) => if items.len() == 1 {
            text_of(items[0])
        } else {
            None
        },
        _ => None,
    }
}

/// Data where no schema is asked for: only the text of a default extraction,
/// where it has one.
pub open spec fn default_data(data: Json) -> Json {
    match default_text(data) {
        Some(text) => Json::Members(
            with_member(Members::empty(), "extraction"@, Json::Text(text)),
        ),
        None => data,
    }
}

fn coerce_default(data: JsonValue) -> (out: JsonValue)
    ensures
        out@ == default_data(data@),
{
    let mut text: Option<String> = None;
    if let Some(object) = data.as_object() {
        if let Some(value) = object.get("extraction") {
            if let Some(found) = value.as_str() {
                text = Some(found.clone());
            }
        }
    } else if let Some(items) = data.as_array() {
        if items.len() == 1 {
            assert(models(items@)[0] == items@[0]@);
            if let Some(found) = items[0].as_str() {
                text = Some(found.clone());
            }
        }
    }
    match text {
        Some(text) => {
            let mut object = JsonObject::new();
            object.insert("extraction", JsonValue::text(text.as_str()));
            JsonValue::object(object)
        },
        None => data,
    }
}

/// The data that is kept of an extraction.
pub open spec fn coerced(data: Json, schema: Option<Json>) -> Json {
    match schema {
        None => default_data(data),
        Some(schema) => kept(
            data,
            refusal(schema, data),
            refusal(schema, recased(KeyCase::Snake, data)),
        ),
    }
}

/// What is logged when data is fitted to a schema.
pub open spec fn coerced_notes(data: Json, schema: Option<Json>) -> Seq<NoteModel> {
    match schema {
        None => seq![],
        Some(schema) => kept_notes(
            refusal(schema, data),
            refusal(schema, recased(KeyCase::Snake, data)),
        ),
    }
}

proof fn lemma_member_from(members: Members, key: Seq<char>, value: Json, j: int)
    requires
        0 <= j < with_member(members, key, value).len(),
    ensures
        with_member(members, key, value)[j].1 == value || exists|k: int|
            0 <= k < members.len() && with_member(members, key, value)[j].1 == (
            #[trigger] members[k]).1,
    decreases members.len(),
{
    let after = with_member(members, key, value);
    if members.len() == 0 || lex_less(key, members[0].0) {
        if j > 0 {
            assert(after[j] == members[j - 1]);
        }
    } else if members[0].0 == key {
        if j > 0 {
            assert(after[j] == members[j]);
        }
    } else if j == 0 {
        assert(after[j] == members[0]);
    } else {
        lemma_member_from(members.skip(1), key, value, j - 1);
        let rest = with_member(members.skip(1), key, value);
        assert(after[j] == rest[j - 1]);
        if rest[j - 1].1 != value {
            let k = choose|k: int|
                0 <= k < members.skip(1).len() && rest[j - 1].1 == (
                #[trigger] members.skip(1)[k]).1;
            assert(members[k + 1] == members.skip(1)[k]);
        }
    }
}

proof fn lemma_recased_member(case: KeyCase, members: Members, j: int)
    requires
        0 <= j < recased_members(case, members).len(),
    ensures
        exists|k: int|
            0 <= k < members.len() && recased_members(case, members)[j].1 == recased(
                case,
                (#[trigger] members[k]).1,
            ),
    decreases members.len(),
{
    let shorter = recased_members(case, members.drop_last());
    let key = key_in(case, members.last().0);
    let value = recased(case, members.last().1);
    lemma_member_from(shorter, key, value, j);
    let found = recased_members(case, members)[j].1;
    if found == value {
        assert(members[members.len() - 1] == members.last());
    } else {
        let n = choose|n: int| 0 <= n < shorter.len() && found == (#[trigger] shorter[n]).1;
        lemma_recased_member(case, members.drop_last(), n);
        let k = choose|k: int|
            0 <= k < members.drop_last().len() && shorter[n].1 == recased(
                case,
                (#[trigger] members.drop_last()[k]).1,
            );
        assert(members[k] == members.drop_last()[k]);
    }
}

proof fn lemma_recased_length(case: KeyCase, items: Seq<Json>)
    ensures
        recased_list(case, items).len() == items.len(),
    decreases items.len(),
{
    if items.len() > 0 {
        lemma_recased_length(case, items.drop_last());
    }
}

proof fn lemma_recased_item(case: KeyCase, items: Seq<Json>, j: int)
    requires
        0 <= j < items.len(),
    ensures
        recased_list(case, items)[j] == recased(case, items[j]),
    decreases items.len(),
{
    lemma_recased_length(case, items.drop_last());
    if j < items.len() - 1 {
        lemma_recased_item(case, items.drop_last(), j);
    }
}

proof fn lemma_recased_numbers(case: KeyCase, value: Json)
    ensures
        has_other_number(recased(case, value)) ==> has_other_number(value),
    decreases value,
{
    let after = recased(case, value);
    if has_other_number(after) {
        match value {
            Json::List(items) => {
                let changed = after->List_0;
                let i = choose|i: int|
                    0 <= i < changed.len() && has_other_number(#[trigger] changed[i]);
                lemma_recased_length(case, items);
                lemma_recased_item(case, items, i);
                lemma_recased_numbers(case, items[i]);
            },
            Json::Members(members) => {
                let changed = after->Members_0;
                let i = choose|i: int|
                    0 <= i < changed.len() && has_other_number((#[trigger] changed[i]).1);
                lemma_recased_member(case, members, i);
                let k = choose|k: int|
                    0 <= k < members.len() && changed[i].1 == recased(
                        case,
                        (#[trigger] members[k]).1,
                    );
                lemma_recased_numbers(case, members[k].1);
            },
            _ => {},
        }
    }
}

proof fn lemma_recased_steady(case: KeyCase, value: Json)
    requires
        is_steady(value),
    ensures
        is_steady(recased(case, value)),
    decreases value,
{
    let after = recased(case, value);
    lemma_recased_numbers(case, value);
    match value {
        Json::List(items) => {
            let changed = after->List_0;
            lemma_recased_length(case, items);
            assert forall|i: int| 0 <= i < changed.len() implies is_steady(
                #[trigger] changed[i],
            ) by {
                lemma_recased_item(case, items, i);
                lemma_recased_steady(case, items[i]);
            }
        },
        Json::Members(members) => {
            let changed = after->Members_0;
            assert forall|i: int| 0 <= i < changed.len() implies is_steady(
                (#[trigger] changed[i]).1,
            ) by {
                lemma_recased_member(case, members, i);
                let k = choose|k: int|
                    0 <= k < members.len() && changed[i].1 == recased(
                        case,
                        (#[trigger] members[k]).1,
                    );
                lemma_recased_steady(case, members[k].1);
            }
        },
        _ => {},
    }
}

/// Whether the outcome is certain when data is fitted to a schema.
pub open spec fn is_certain(data: Json, schema: Option<Json>) -> bool {
    schema matches Some(schema) ==> is_decided(schema, data)
}

/// The model of a schema that may be absent.
pub open spec fn opt_schema(schema: Option<&JsonValue>) -> Option<Json> {
    match schema {
        Some(schema) => Some(schema@),
        None => None,
    }
}

/// Fits data to a schema: as it is where it meets the schema, with its keys in
/// snake case where only that meets it, and as it is otherwise. Without a schema
/// only the text of a default extraction is kept, where there is one.
pub fn coerce_extract_data(
    data: JsonValue,
    schema: Option<&JsonValue>,
    notes: &mut Vec<Note>,
) -> (out: JsonValue)
    requires
        schema matches Some(schema) ==> comes_to_an_end(schema@),
    ensures
        is_certain(data@, opt_schema(schema)) ==> out@ == coerced(data@, opt_schema(schema))
            && note_models(final(notes)@) == note_models(old(notes)@) + coerced_notes(
            data@,
            opt_schema(schema),
        ),
        schema is Some ==> out@ == data@ || out@ == recased(KeyCase::Snake, data@),
{
    match schema {
        Some(schema) => {
            proof {
                if is_steady(data@) {
                    lemma_recased_steady(KeyCase::Snake, data@);
                }
            }
            let as_is = validate_against_schema(schema, &data);
            let in_snake_case = match &as_is {
                Ok(()) => Ok(()),
                Err(_) => validate_against_schema(schema, &convert_keys_to_snake_case(&data)),
            };
            choose_extract_data(data, as_is, in_snake_case, notes)
        },
        None => {
            assert(note_models(notes@) + Seq::<NoteModel>::empty() =~= note_models(notes@));
            coerce_default(data)
        },
    }
}

/// The data in a parsed reply: what stands under `data`, or the whole reply.
pub open spec fn data_in(parsed: Json) -> Json {
    match field_of(parsed, "data"@) {
        Some(data) => data,
        None => parsed,
    }
}

/// The data of an extraction, from the parsed reply of the language model.
pub open spec fn extracted(parsed: Json, urls: Urls, schema: Option<Json>) -> Json {
    coerced(with_urls(data_in(parsed), urls), schema)
}

/// Takes the data out of a parsed reply, with addresses in place of ids, and fits
/// it to the schema.
pub fn extract_from_parsed(
    parsed: &JsonValue,
    id_to_url: &Table<String>,
    schema: Option<&JsonValue>,
    notes: &mut Vec<Note>,
) -> (out: JsonValue)
    requires
        schema matches Some(schema) ==> comes_to_an_end(schema@),
    ensures
        ({
            let found = with_urls(data_in(parsed@), text_map(id_to_url@));
            &&& is_certain(found, opt_schema(schema)) ==> out@ == extracted(
                parsed@,
                text_map(id_to_url@),
                opt_schema(schema),
            ) && note_models(final(notes)@) == note_models(old(notes)@) + coerced_notes(
                found,
                opt_schema(schema),
            )
            &&& schema is Some ==> out@ == found || out@ == recased(KeyCase::Snake, found)
        }),
{
    let mut data = match parsed.get("data") {
        Some(data) => data.copy(),
        None => parsed.copy(),
    };
    inject_urls(&mut data, id_to_url);
    coerce_extract_data(data, schema, notes)
}

/// Takes the data out of the reply of the language model. There is none where the
/// reply is not JSON; the reason is noted.
pub fn extract_from_reply(
    content: &str,
    id_to_url: &Table<String>,
    schema: Option<&JsonValue>,
    notes: &mut Vec<Note>,
) -> (out: Option<JsonValue>)
    requires
        schema matches Some(schema) ==> comes_to_an_end(schema@),
    ensures
        match (out, parsed_json(content@)) {
            (Some(data), Ok(parsed)) => {
                let found = with_urls(data_in(parsed), text_map(id_to_url@));
                &&& is_certain(found, opt_schema(schema)) ==> data@ == extracted(
                    parsed,
                    text_map(id_to_url@),
                    opt_schema(schema),
                ) && note_models(final(notes)@) == note_models(old(notes)@) + coerced_notes(
                    found,
                    opt_schema(schema),
                )
                &&& schema is Some ==> data@ == found || data@ == recased(KeyCase::Snake, found)
            },
            (None, Err(why)) => note_models(final(notes)@) == note_models(old(notes)@).push(
                plain_note(
                    LogLevel::Error,
                    "extract"@,
                    "Failed to parse extract response: "@ + why,
                ),
            ),
            _ => false,
        },
{
    match read_json(content) {
        Ok(parsed) => Some(extract_from_parsed(&parsed, id_to_url, schema, notes)),
        Err(why) => {
            let mut message = "Failed to parse extract response: ".to_owned();
            message.append(why.as_str());
            note_plain(notes, LogLevel::Error, "extract", message);
            None
        },
    }
}

/// Without addresses nothing changes.
pub proof fn law_no_urls_no_change(value: Json)
    ensures
        with_urls(value, Urls::empty()) == value,
    decreases value,
{
    match value {
        Json::List(items) => {
            assert forall|i: int| 0 <= i < items.len() implies with_urls(
                #[trigger] items[i],
                Urls::empty(),
            ) == items[i] by {
                law_no_urls_no_change(items[i]);
            }
            assert(with_urls(value, Urls::empty())->List_0 =~= items);
        },
        Json::Members(members) => {
            assert forall|i: int| 0 <= i < members.len() implies with_urls(
                (#[trigger] members[i]).1,
                Urls::empty(),
            ) == members[i].1 by {
                law_no_urls_no_change(members[i].1);
            }
            assert(with_urls(value, Urls::empty())->Members_0 =~= members);
        },
        _ => {},
    }
}

proof fn lemma_no_way_out(value: Json)
    requires
        !has_reference(value),
    ensures
        !holds_way_out(value),
    decreases value,
{
    match value {
        Json::List(items) => {
            assert forall|i: int| 0 <= i < items.len() implies !holds_way_out(
                #[trigger] items[i],
            ) by {
                lemma_no_way_out(items[i]);
            }
        },
        Json::Members(members) => {
            assert forall|i: int| 0 <= i < members.len() implies !holds_way_out(
                (#[trigger] members[i]).1,
            ) by {
                lemma_no_way_out(members[i].1);
            }
        },
        _ => {},
    }
}

/// A schema without references that nowhere asks for lists without equal items
/// decides on all data, whatever numbers the data holds.
pub proof fn law_plain_schema_decides(schema: Json, data: Json)
    requires
        is_steady(schema),
        !has_reference(schema),
        !holds_key(schema, "uniqueItems"@),
    ensures
        comes_to_an_end(schema),
        is_decided(schema, data),
{
    law_without_references_ends(schema);
    lemma_no_way_out(schema);
}

} // verus!
