//! JSON values as the library reads and builds them.
//!
//! A value's model is [`Json`]. An object keeps its members in the order of
//! their keys, each key once.
use crate::text::{lex_less, lemma_lex_total, lemma_lex_transitive, str_eq, text_less};
use vstd::prelude::*;
use vstd::string::*;

verus! {

/// `serde_json::Number`, carried where a number is neither an unsigned nor a
/// negative integer of 64 bits.
#[verifier::external_type_specification]
#[verifier::external_body]
pub struct ExNumber(serde_json::Number);

/// `serde_json::Value`, the form in which that crate hands values over.
#[verifier::external_type_specification]
#[verifier::external_body]
pub struct ExValue(serde_json::Value);

/// `Clone::clone` of `serde_json::Number` gives the same number again.
pub assume_specification[ <serde_json::Number as Clone>::clone ](number: &serde_json::Number) -> (out:
    serde_json::Number)
    ensures
        out == *number,
;

/// A JSON number, by the kind of value it holds.
#[derive(Debug, PartialEq)]
pub enum JsonNumber {
    /// A whole number from zero on.
    Unsigned(u64),
    /// A whole number below zero.
    Negative(i64),
    /// Any other number.
    Other(serde_json::Number),
}

/// A JSON value.
#[derive(Debug, PartialEq)]
pub enum JsonValue {
    Null,
    Bool(bool),
    Number(JsonNumber),
    Text(String),
    Array(Vec<JsonValue>),
    Object(JsonObject),
}

/// The members of a JSON object, in the order of their keys.
#[derive(Debug, PartialEq)]
pub struct JsonObject {
    entries: Vec<(String, JsonValue)>,
}

/// What a JSON value stands for.
pub enum Json {
    Null,
    Bool(bool),
    Number(JsonNumber),
    Text(Seq<char>),
    List(Seq<Json>),
    Members(Seq<(Seq<char>, Json)>),
}

/// The members of an object, each a key with its value.
pub type Members = Seq<(Seq<char>, Json)>;

impl JsonValue {
    /// The model of a value.
    pub closed spec fn model(self) -> Json
        decreases self,
    {
        match self {
            JsonValue::Null => Json::Null,
            JsonValue::Bool(flag) => Json::Bool(flag),
            JsonValue::Number(number) => Json::Number(number),
            JsonValue::Text(text) => Json::Text(text@),
            JsonValue::Array(items) => Json::List(
                Seq::new(
                    items@.len(),
                    |i: int|
                        if 0 <= i < items@.len() {
                            items@[i].model()
                        } else {
                            Json::Null
                        },
                ),
            ),
            JsonValue::Object(object) => Json::Members(object.model()),
        }
    }
}

impl JsonObject {
    /// The model of an object.
    pub closed spec fn model(self) -> Members
        decreases self,
    {
        Seq::new(
            self.entries@.len(),
            |i: int|
                if 0 <= i < self.entries@.len() {
                    (self.entries@[i].0@, self.entries@[i].1.model())
                } else {
                    (seq![], Json::Null)
                },
        )
    }

    /// The model lists each member's key with the model of its value.
    broadcast proof fn lemma_model(object: JsonObject)
        ensures
            #[trigger] object.model() == member_models(object.entries@),
    {
        assert(object.model() =~= member_models(object.entries@));
    }
}

impl View for JsonValue {
    type V = Json;

    open spec fn view(&self) -> Json {
        self.model()
    }
}

impl View for JsonObject {
    type V = Members;

    open spec fn view(&self) -> Members {
        self.model()
    }
}

/// The models of a list of values.
pub open spec fn models(items: Seq<JsonValue>) -> Seq<Json> {
    items.map_values(|item: JsonValue| item@)
}

spec fn member_models(entries: Seq<(String, JsonValue)>) -> Members {
    entries.map_values(|entry: (String, JsonValue)| (entry.0@, entry.1@))
}

impl JsonNumber {
    /// The same number again.
    pub fn copy(&self) -> (out: JsonNumber)
        ensures
            out == *self,
    {
        match self {
            JsonNumber::Unsigned(n) => JsonNumber::Unsigned(*n),
            JsonNumber::Negative(n) => JsonNumber::Negative(*n),
            JsonNumber::Other(n) => JsonNumber::Other(n.clone()),
        }
    }
}

impl JsonValue {
    /// What each kind of value stands for.
    pub broadcast proof fn lemma_model(value: JsonValue)
        ensures
            #[trigger] value.model() == (match value {
                JsonValue::Null => Json::Null,
                JsonValue::Bool(flag) => Json::Bool(flag),
                JsonValue::Number(number) => Json::Number(number),
                JsonValue::Text(text) => Json::Text(text@),
                JsonValue::Array(items) => Json::List(models(items@)),
                JsonValue::Object(object) => Json::Members(object.model()),
            }),
    {
        if let JsonValue::Array(items) = value {
            assert(value.model()->List_0 =~= models(items@));
        }
    }

    /// The same value again.
    pub fn copy(&self) -> (out: JsonValue)
        ensures
            out@ == self@,
        decreases self,
    {
        broadcast use JsonValue::lemma_model;

        match self {
            JsonValue::Null => JsonValue::Null,
            JsonValue::Bool(flag) => JsonValue::Bool(*flag),
            JsonValue::Number(number) => JsonValue::Number(number.copy()),
            JsonValue::Text(text) => JsonValue::Text(text.clone()),
            JsonValue::Array(items) => {
                let mut copies: Vec<JsonValue> = Vec::new();
                let mut i: usize = 0;
                while i < items.len()
                    invariant
                        i <= items.len(),
                        self is Array,
                        self->Array_0 == items,
                        models(copies@) == models(items@.take(i as int)),
                    decreases items.len() - i,
                {
                    let ghost before = copies@;
                    copies.push(items[i].copy());
                    proof {
                        assert(models(copies@) =~= models(before).push(items@[i as int]@));
                        assert(models(items@.take(i + 1)) =~= models(items@.take(i as int)).push(
                            items@[i as int]@,
                        ));
                    }
                    i += 1;
                }
                assert(items@.take(i as int) =~= items@);
                JsonValue::Array(copies)
            },
            JsonValue::Object(object) => JsonValue::Object(object.copy()),
        }
    }
}

impl JsonObject {
    /// The same object again.
    pub fn copy(&self) -> (out: JsonObject)
        ensures
            out@ == self@,
        decreases self,
    {
        broadcast use JsonObject::lemma_model;

        let mut entries: Vec<(String, JsonValue)> = Vec::new();
        let mut i: usize = 0;
        while i < self.entries.len()
            invariant
                i <= self.entries.len(),
                member_models(entries@) == member_models(self.entries@.take(i as int)),
            decreases self.entries.len() - i,
        {
            let ghost before = entries@;
            let ghost member = (self.entries@[i as int].0@, self.entries@[i as int].1@);
            entries.push((self.entries[i].0.clone(), self.entries[i].1.copy()));
            proof {
                assert(member_models(entries@) =~= member_models(before).push(member));
                assert(member_models(self.entries@.take(i + 1)) =~= member_models(
                    self.entries@.take(i as int),
                ).push(member));
            }
            i += 1;
        }
        assert(self.entries@.take(i as int) =~= self.entries@);
        JsonObject { entries }
    }
}

impl Clone for JsonNumber {
    fn clone(&self) -> (out: Self)
        ensures
            out == *self,
    {
        self.copy()
    }
}

impl Clone for JsonValue {
    fn clone(&self) -> (out: Self)
        ensures
            out@ == self@,
    {
        self.copy()
    }
}

impl Clone for JsonObject {
    fn clone(&self) -> (out: Self)
        ensures
            out@ == self@,
    {
        self.copy()
    }
}

/// The value under `key`, where a member has it.
pub open spec fn member_of(members: Members, key: Seq<char>) -> Option<Json>
    decreases members.len(),
{
    if members.len() == 0 {
        None
    } else if members[0].0 == key {
        Some(members[0].1)
    } else {
        member_of(members.skip(1), key)
    }
}

/// The members with `value` under `key`, which keeps its place in the order.
pub open spec fn with_member(members: Members, key: Seq<char>, value: Json) -> Members
    decreases members.len(),
{
    if members.len() == 0 || lex_less(key, members[0].0) {
        seq![(key, value)] + members
    } else if members[0].0 == key {
        seq![(key, value)] + members.skip(1)
    } else {
        seq![members[0]] + with_member(members.skip(1), key, value)
    }
}

/// The members but the one under `key`.
pub open spec fn without_member(members: Members, key: Seq<char>) -> Members
    decreases members.len(),
{
    if members.len() == 0 {
        members
    } else if members[0].0 == key {
        members.skip(1)
    } else {
        seq![members[0]] + without_member(members.skip(1), key)
    }
}

/// Whether each key stands before the next one.
pub open spec fn keys_ascend(members: Members) -> bool {
    forall|i: int, j: int|
        0 <= i < j < members.len() ==> lex_less((#[trigger] members[i]).0, (#[trigger] members[j]).0)
}

/// The value under `key` in a value that is an object.
pub open spec fn field_of(value: Json, key: Seq<char>) -> Option<Json> {
    match value {
        Json::Members(members) => member_of(members, key),
        _ => None,
    }
}

/// The text a value holds.
pub open spec fn text_of(value: Json) -> Option<Seq<char>> {
    match value {
        Json::Text(text) => Some(text),
        _ => None,
    }
}

/// The unsigned integer a value holds.
pub open spec fn unsigned_in(value: Json) -> Option<u64> {
    match value {
        Json::Number(JsonNumber::Unsigned(n)) => Some(n),
        _ => None,
    }
}

/// The signed integer of 64 bits a value holds.
pub open spec fn signed_in(value: Json) -> Option<i64> {
    match value {
        Json::Number(JsonNumber::Unsigned(n)) if n <= i64::MAX => Some(n as i64),
        Json::Number(JsonNumber::Negative(n)) => Some(n),
        _ => None,
    }
}

/// The truth value a value holds.
pub open spec fn bool_in(value: Json) -> Option<bool> {
    match value {
        Json::Bool(flag) => Some(flag),
        _ => None,
    }
}

impl JsonObject {
    /// An object without members.
    pub fn new() -> (out: JsonObject)
        ensures
            out@ == Members::empty(),
    {
        broadcast use JsonObject::lemma_model;

        let out = JsonObject { entries: Vec::new() };
        assert(out@ =~= Members::empty());
        out
    }

    /// How many members there are.
    pub fn len(&self) -> (n: usize)
        ensures
            n == self@.len(),
    {
        broadcast use JsonObject::lemma_model;

        self.entries.len()
    }

    /// Whether there are no members.
    pub fn is_empty(&self) -> (yes: bool)
        ensures
            yes == (self@.len() == 0),
    {
        broadcast use JsonObject::lemma_model;

        self.entries.len() == 0
    }

    /// The key at place `i` of the order.
    pub fn key_at(&self, i: usize) -> (key: &String)
        requires
            i < self@.len(),
        ensures
            key@ == self@[i as int].0,
    {
        broadcast use JsonObject::lemma_model;

        &self.entries[i].0
    }

    /// The value at place `i` of the order.
    pub fn value_at(&self, i: usize) -> (value: &JsonValue)
        requires
            i < self@.len(),
        ensures
            value@ == self@[i as int].1,
            decreases_to!(self => value),
    {
        broadcast use JsonObject::lemma_model;

        &self.entries[i].1
    }

    /// The value under `key`.
    pub fn get(&self, key: &str) -> (out: Option<&JsonValue>)
        ensures
            out matches Some(value) ==> member_of(self@, key@) == Some(value@),
            out is None ==> member_of(self@, key@) is None,
    {
        broadcast use JsonObject::lemma_model;

        let mut i: usize = 0;
        assert(self@.skip(0) =~= self@);
        while i < self.entries.len()
            invariant
                i <= self.entries.len(),
                self@ == member_models(self.entries@),
                member_of(self@, key@) == member_of(self@.skip(i as int), key@),
            decreases self.entries.len() - i,
        {
            assert(self@.skip(i as int).skip(1) =~= self@.skip(i + 1));
            if str_eq(self.entries[i].0.as_str(), key) {
                return Some(&self.entries[i].1);
            }
            i += 1;
        }
        None
    }

    /// Whether there is a member under `key`.
    pub fn contains_key(&self, key: &str) -> (yes: bool)
        ensures
            yes == (member_of(self@, key@) is Some),
    {
        self.get(key).is_some()
    }

    /// Puts `value` under `key`, in place of what stood there.
    pub fn insert(&mut self, key: &str, value: JsonValue)
        ensures
            final(self)@ == with_member(old(self)@, key@, value@),
    {
        broadcast use JsonObject::lemma_model;

        let ghost before = self@;
        let mut i: usize = 0;
        assert(before.skip(0) =~= before);
        assert(before.take(0) + with_member(before, key@, value@) =~= with_member(
            before,
            key@,
            value@,
        ));
        while i < self.entries.len() && !text_less(key, self.entries[i].0.as_str())
            && !str_eq(self.entries[i].0.as_str(), key)
            invariant
                i <= self.entries.len(),
                before == member_models(self.entries@),
                with_member(before, key@, value@) == before.take(i as int) + with_member(
                    before.skip(i as int),
                    key@,
                    value@,
                ),
            decreases self.entries.len() - i,
        {
            proof {
                let rest = before.skip(i as int);
                assert(rest.skip(1) =~= before.skip(i + 1));
                assert(before.take(i as int) + (seq![rest[0]] + with_member(
                    rest.skip(1),
                    key@,
                    value@,
                )) =~= before.take(i + 1) + with_member(rest.skip(1), key@, value@));
            }
            i += 1;
        }
        let ghost rest = before.skip(i as int);
        let ghost entries = self.entries@;
        let ghost added = value@;
        if i < self.entries.len() && str_eq(self.entries[i].0.as_str(), key) {
            proof {
                lemma_lex_total(key@, entries[i as int].0@);
            }
            self.entries.set(i, (key.to_owned(), value));
            proof {
                assert(before.take(i as int) + (seq![(key@, added)] + rest.skip(1))
                    =~= before.update(i as int, (key@, added)));
                assert(member_models(self.entries@) =~= before.update(i as int, (key@, added)));
            }
        } else {
            self.entries.insert(i, (key.to_owned(), value));
            proof {
                assert(before.take(i as int) + (seq![(key@, added)] + rest) =~= before.insert(
                    i as int,
                    (key@, added),
                ));
                assert(member_models(self.entries@) =~= before.insert(i as int, (key@, added)));
            }
        }
    }

    /// Puts `value` in place of the value at place `i` of the order.
    pub fn set_value_at(&mut self, i: usize, value: JsonValue)
        requires
            i < old(self)@.len(),
        ensures
            final(self)@ == old(self)@.update(i as int, (old(self)@[i as int].0, value@)),
    {
        broadcast use JsonObject::lemma_model;

        let ghost before = self@;
        let ghost added = (before[i as int].0, value@);
        let key = self.entries[i].0.clone();
        self.entries.set(i, (key, value));
        assert(self@ =~= before.update(i as int, added));
    }

    /// Takes the member under `key` out.
    pub fn remove(&mut self, key: &str)
        ensures
            final(self)@ == without_member(old(self)@, key@),
    {
        broadcast use JsonObject::lemma_model;

        let ghost before = self@;
        let mut i: usize = 0;
        assert(before.skip(0) =~= before);
        assert(before.take(0) + without_member(before, key@) =~= without_member(before, key@));
        while i < self.entries.len()
            invariant
                i <= self.entries.len(),
                before == old(self)@,
                self.entries@ == old(self).entries@,
                before == member_models(self.entries@),
                without_member(before, key@) == before.take(i as int) + without_member(
                    before.skip(i as int),
                    key@,
                ),
            decreases self.entries.len() - i,
        {
            let ghost rest = before.skip(i as int);
            if str_eq(self.entries[i].0.as_str(), key) {
                self.entries.remove(i);
                proof {
                    assert(before.take(i as int) + rest.skip(1) =~= before.remove(i as int));
                    assert(member_models(self.entries@) =~= before.remove(i as int));
                }
                return;
            }
            proof {
                assert(rest.skip(1) =~= before.skip(i + 1));
                assert(before.take(i as int) + (seq![rest[0]] + without_member(rest.skip(1), key@))
                    =~= before.take(i + 1) + without_member(rest.skip(1), key@));
            }
            i += 1;
        }
        assert(before.take(i as int) + before.skip(i as int) =~= before);
    }
}

/// A whole number as a JSON number.
pub open spec fn whole_number(n: i64) -> JsonNumber {
    if n >= 0 {
        JsonNumber::Unsigned(n as u64)
    } else {
        JsonNumber::Negative(n)
    }
}

impl JsonValue {
    /// A whole number.
    pub fn signed(n: i64) -> (out: JsonValue)
        ensures
            out@ == Json::Number(whole_number(n)),
    {
        broadcast use JsonValue::lemma_model;

        if n >= 0 {
            JsonValue::Number(JsonNumber::Unsigned(n as u64))
        } else {
            JsonValue::Number(JsonNumber::Negative(n))
        }
    }

    /// A text value.
    pub fn text(text: &str) -> (out: JsonValue)
        ensures
            out@ == Json::Text(text@),
    {
        broadcast use JsonValue::lemma_model;

        JsonValue::Text(text.to_owned())
    }

    /// A whole number from zero on.
    pub fn unsigned(n: u64) -> (out: JsonValue)
        ensures
            out@ == Json::Number(JsonNumber::Unsigned(n)),
    {
        broadcast use JsonValue::lemma_model;

        JsonValue::Number(JsonNumber::Unsigned(n))
    }

    /// A truth value.
    pub fn boolean(flag: bool) -> (out: JsonValue)
        ensures
            out@ == Json::Bool(flag),
    {
        broadcast use JsonValue::lemma_model;

        JsonValue::Bool(flag)
    }

    /// The null value.
    pub fn null() -> (out: JsonValue)
        ensures
            out@ == Json::Null,
    {
        broadcast use JsonValue::lemma_model;

        JsonValue::Null
    }

    /// Whether the value is null.
    pub fn is_null(&self) -> (yes: bool)
        ensures
            yes == (self@ == Json::Null),
    {
        broadcast use JsonValue::lemma_model;

        match self {
            JsonValue::Null => true,
            _ => false,
        }
    }

    /// A value that is the given object.
    pub fn object(object: JsonObject) -> (out: JsonValue)
        ensures
            out@ == Json::Members(object@),
    {
        broadcast use JsonValue::lemma_model;

        JsonValue::Object(object)
    }

    /// A value that is the given list.
    pub fn array(items: Vec<JsonValue>) -> (out: JsonValue)
        ensures
            out@ == Json::List(models(items@)),
    {
        broadcast use JsonValue::lemma_model;

        JsonValue::Array(items)
    }

    /// The object a value is.
    pub fn as_object(&self) -> (out: Option<&JsonObject>)
        ensures
            out matches Some(object) ==> self@ == Json::Members(object@) && decreases_to!(
                self => object,
            ),
            out is None ==> !(self@ is Members),
    {
        broadcast use JsonValue::lemma_model;

        match self {
            JsonValue::Object(object) => Some(object),
            _ => None,
        }
    }

    /// The list a value is.
    pub fn as_array(&self) -> (out: Option<&Vec<JsonValue>>)
        ensures
            out matches Some(items) ==> self@ == Json::List(models(items@)) && decreases_to!(
                self => items@,
            ),
            out is None ==> !(self@ is List),
    {
        broadcast use JsonValue::lemma_model;

        match self {
            JsonValue::Array(items) => Some(items),
            _ => None,
        }
    }

    /// The value under `key`, where this value is an object that has it.
    pub fn get(&self, key: &str) -> (out: Option<&JsonValue>)
        ensures
            out matches Some(value) ==> field_of(self@, key@) == Some(value@),
            out is None ==> field_of(self@, key@) is None,
    {
        match self.as_object() {
            Some(object) => object.get(key),
            None => None,
        }
    }

    /// The text a value holds.
    pub fn as_str(&self) -> (out: Option<&String>)
        ensures
            out matches Some(text) ==> text_of(self@) == Some(text@),
            out is None ==> text_of(self@) is None,
    {
        broadcast use JsonValue::lemma_model;

        match self {
            JsonValue::Text(text) => Some(text),
            _ => None,
        }
    }

    /// The unsigned integer a value holds.
    pub fn as_u64(&self) -> (out: Option<u64>)
        ensures
            out == unsigned_in(self@),
    {
        broadcast use JsonValue::lemma_model;

        match self {
            JsonValue::Number(JsonNumber::Unsigned(n)) => Some(*n),
            _ => None,
        }
    }

    /// The signed integer of 64 bits a value holds.
    pub fn as_i64(&self) -> (out: Option<i64>)
        ensures
            out == signed_in(self@),
    {
        broadcast use JsonValue::lemma_model;

        match self {
            JsonValue::Number(JsonNumber::Unsigned(n)) => {
                if *n <= 0x7fff_ffff_ffff_ffff {
                    Some(*n as i64)
                } else {
                    None
                }
            },
            JsonValue::Number(JsonNumber::Negative(n)) => Some(*n),
            _ => None,
        }
    }

    /// The truth value a value holds.
    pub fn as_bool(&self) -> (out: Option<bool>)
        ensures
            out == bool_in(self@),
    {
        broadcast use JsonValue::lemma_model;

        match self {
            JsonValue::Bool(flag) => Some(*flag),
            _ => None,
        }
    }
}

/// What is put under a key is found there, and nothing else changes.
pub proof fn law_insert_then_get(members: Members, key: Seq<char>, value: Json, other: Seq<char>)
    ensures
        member_of(with_member(members, key, value), other) == (if other == key {
            Some(value)
        } else {
            member_of(members, other)
        }),
    decreases members.len(),
{
    let after = with_member(members, key, value);
    if members.len() == 0 || lex_less(key, members[0].0) {
        assert(after.skip(1) =~= members);
    } else if members[0].0 == key {
        assert(after.skip(1) =~= members.skip(1));
    } else {
        assert(after.skip(1) =~= with_member(members.skip(1), key, value));
        law_insert_then_get(members.skip(1), key, value, other);
    }
}

/// What is taken out is gone, and nothing else changes.
pub proof fn law_remove_then_get(members: Members, key: Seq<char>, other: Seq<char>)
    requires
        keys_ascend(members),
    ensures
        member_of(without_member(members, key), other) == (if other == key {
            None
        } else {
            member_of(members, other)
        }),
    decreases members.len(),
{
    let after = without_member(members, key);
    if members.len() > 0 {
        let rest = members.skip(1);
        assert(keys_ascend(rest)) by {
            assert forall|i: int, j: int| 0 <= i < j < rest.len() implies lex_less(
                (#[trigger] rest[i]).0,
                (#[trigger] rest[j]).0,
            ) by {
                assert(rest[i] == members[i + 1] && rest[j] == members[j + 1]);
            }
        }
        if members[0].0 == key {
            if other == key && member_of(rest, key) is Some {
                let i = lemma_member_index(rest, key);
                assert(rest[i] == members[i + 1]);
                lemma_lex_total(key, key);
            }
        } else {
            assert(after.skip(1) =~= without_member(rest, key));
            law_remove_then_get(rest, key, other);
        }
    }
}

pub(crate) proof fn lemma_member_index(members: Members, key: Seq<char>) -> (i: int)
    requires
        member_of(members, key) is Some,
    ensures
        0 <= i < members.len(),
        members[i].0 == key,
        member_of(members, key) == Some(members[i].1),
    decreases members.len(),
{
    if members[0].0 == key {
        0
    } else {
        lemma_member_index(members.skip(1), key) + 1
    }
}

/// Putting a member in keeps the keys in order, each key once.
pub proof fn law_insert_keeps_order(members: Members, key: Seq<char>, value: Json)
    requires
        keys_ascend(members),
    ensures
        keys_ascend(with_member(members, key, value)),
    decreases members.len(),
{
    let after = with_member(members, key, value);
    if members.len() == 0 || lex_less(key, members[0].0) {
        assert forall|i: int, j: int| 0 <= i < j < after.len() implies lex_less(
            (#[trigger] after[i]).0,
            (#[trigger] after[j]).0,
        ) by {
            assert(after[j] == members[j - 1]);
            if i > 0 {
                assert(after[i] == members[i - 1]);
            } else if j > 1 {
                lemma_lex_transitive(key, members[0].0, members[j - 1].0);
            }
        }
    } else if members[0].0 == key {
        assert(after =~= members.update(0, (key, value)));
    } else {
        let rest = members.skip(1);
        assert forall|i: int, j: int| 0 <= i < j < rest.len() implies lex_less(
            (#[trigger] rest[i]).0,
            (#[trigger] rest[j]).0,
        ) by {
            assert(rest[i] == members[i + 1] && rest[j] == members[j + 1]);
        }
        law_insert_keeps_order(rest, key, value);
        let tail = with_member(rest, key, value);
        lemma_lex_total(key, members[0].0);
        assert forall|j: int| 0 <= j < tail.len() implies lex_less(
            members[0].0,
            (#[trigger] tail[j]).0,
        ) by {
            lemma_keys_from(rest, key, value, j);
            if tail[j].0 != key {
                let k = choose|k: int| 0 <= k < rest.len() && rest[k].0 == tail[j].0;
                assert(rest[k] == members[k + 1]);
            }
        }
        assert forall|i: int, j: int| 0 <= i < j < after.len() implies lex_less(
            (#[trigger] after[i]).0,
            (#[trigger] after[j]).0,
        ) by {
            assert(after[j] == tail[j - 1]);
            if i > 0 {
                assert(after[i] == tail[i - 1]);
            }
        }
    }
}

proof fn lemma_keys_from(members: Members, key: Seq<char>, value: Json, j: int)
    requires
        0 <= j < with_member(members, key, value).len(),
    ensures
        with_member(members, key, value)[j].0 == key || exists|k: int|
            0 <= k < members.len() && members[k].0 == with_member(members, key, value)[j].0,
    decreases members.len(),
{
    let after = with_member(members, key, value);
    if members.len() == 0 || lex_less(key, members[0].0) {
        if j > 0 {
            assert(after[j] == members[j - 1]);
        }
    } else if members[0].0 == key {
        if j > 0 {
            assert(after[j] == members[j]);
        }
    } else if j == 0 {
        assert(after[0] == members[0]);
    } else {
        let rest = members.skip(1);
        lemma_keys_from(rest, key, value, j - 1);
        assert(after[j] == with_member(rest, key, value)[j - 1]);
        if after[j].0 != key {
            let k = choose|k: int| 0 <= k < rest.len() && rest[k].0 == after[j].0;
            assert(members[k + 1].0 == after[j].0);
        }
    }
}

/// A lower case hexadecimal digit.
pub open spec fn hex_char(d: int) -> char {
    if d < 10 {
        (48 + d) as char
    } else {
        (87 + d) as char
    }
}

/// How a character is written inside a JSON string.
pub open spec fn escaped_char(c: char) -> Seq<char> {
    let n = c as int;
    if c == '"' || c == '\\' {
        seq!['\\', c]
    } else if n == 0x08 {
        seq!['\\', 'b']
    } else if n == 0x09 {
        seq!['\\', 't']
    } else if n == 0x0a {
        seq!['\\', 'n']
    } else if n == 0x0c {
        seq!['\\', 'f']
    } else if n == 0x0d {
        seq!['\\', 'r']
    } else if n < 0x20 {
        seq!['\\', 'u', '0', '0', hex_char(n / 16), hex_char(n % 16)]
    } else {
        seq![c]
    }
}

/// How a text is written inside a JSON string.
pub open spec fn escaped(text: Seq<char>) -> Seq<char>
    decreases text.len(),
{
    if text.len() == 0 {
        seq![]
    } else {
        escaped(text.drop_last()) + escaped_char(text.last())
    }
}

/// A text as a JSON string, in double quotes.
pub open spec fn quoted(text: Seq<char>) -> Seq<char> {
    seq!['"'] + escaped(text) + seq!['"']
}

/// `serde_json::to_string` of a text writes it as a JSON string: in double
/// quotes, with quotes, backslashes and control characters escaped.
#[verifier::external_body]
pub(crate) fn quote_json(text: &str) -> (out: Result<String, String>)
    ensures
        out is Ok,
        out->Ok_0@ == quoted(text@),
{
    serde_json::to_string(text).map_err(|error| error.to_string())
}

/// What `serde_json::from_str` reads from a text: a value, or why there is none.
pub uninterp spec fn parsed_json(text: Seq<char>) -> Result<Json, Seq<char>>;

/// What `serde_json::Value::to_string` writes for a value.
pub uninterp spec fn written_json(value: Json) -> Seq<char>;

/// Hands a `serde_json::Number` over, by the kind of number it is.
#[verifier::external_body]
fn number_from(number: serde_json::Number) -> JsonNumber {
    match (number.as_u64(), number.as_i64()) {
        (Some(n), _) => JsonNumber::Unsigned(n),
        (None, Some(n)) => JsonNumber::Negative(n),
        (None, None) => JsonNumber::Other(number),
    }
}

/// Hands a `serde_json::Value` over, member by member.
#[verifier::external_body]
fn value_from(value: serde_json::Value) -> JsonValue {
    match value {
        serde_json::Value::Null => JsonValue::Null,
        serde_json::Value::Bool(flag) => JsonValue::Bool(flag),
        serde_json::Value::Number(number) => JsonValue::Number(number_from(number)),
        serde_json::Value::String(text) => JsonValue::Text(text),
        serde_json::Value::Array(items) => {
            JsonValue::Array(items.into_iter().map(value_from).collect())
        },
        serde_json::Value::Object(map) => JsonValue::Object(
            JsonObject { entries: map.into_iter().map(|(k, v)| (k, value_from(v))).collect() },
        ),
    }
}

/// Gives a value as a `serde_json::Value`, member by member.
#[verifier::external_body]
pub(crate) fn value_to(value: &JsonValue) -> serde_json::Value {
    match value {
        JsonValue::Null => serde_json::Value::Null,
        JsonValue::Bool(flag) => serde_json::Value::Bool(*flag),
        JsonValue::Number(JsonNumber::Unsigned(n)) => serde_json::Value::from(*n),
        JsonValue::Number(JsonNumber::Negative(n)) => serde_json::Value::from(*n),
        JsonValue::Number(JsonNumber::Other(n)) => serde_json::Value::Number(n.clone()),
        JsonValue::Text(text) => serde_json::Value::String(text.clone()),
        JsonValue::Array(items) => serde_json::Value::Array(items.iter().map(value_to).collect()),
        JsonValue::Object(object) => serde_json::Value::Object(
            object.entries.iter().map(|(k, v)| (k.clone(), value_to(v))).collect(),
        ),
    }
}

/// `serde_json::from_str` reads a text as JSON. Its error is given as text.
#[verifier::external_body]
pub(crate) fn read_json(text: &str) -> (out: Result<JsonValue, String>)
    ensures
        match (out, parsed_json(text@)) {
            (Ok(value), Ok(model)) => value@ == model,
            (Err(message), Err(why)) => message@ == why,
            _ => false,
        },
{
    serde_json::from_str::<serde_json::Value>(text).map(value_from).map_err(|e| e.to_string())
}

/// `serde_json::Value::to_string` writes a value as compact JSON.
#[verifier::external_body]
pub(crate) fn write_json(value: &JsonValue) -> (out: String)
    ensures
        out@ == written_json(value@),
{
    value_to(value).to_string()
}

impl JsonValue {
    /// Reads a text as JSON; where it is none the reason is given.
    pub fn parse(text: &str) -> (out: Result<JsonValue, String>)
        ensures
            match (out, parsed_json(text@)) {
                (Ok(value), Ok(model)) => value@ == model,
                (Err(message), Err(why)) => message@ == why,
                _ => false,
            },
    {
        read_json(text)
    }

    /// Writes the value as compact JSON.
    pub fn to_text(&self) -> (out: String)
        ensures
            out@ == written_json(self@),
    {
        write_json(self)
    }
}

} // verus!
