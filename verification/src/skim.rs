//! The parts of a JSON text as they are written, without what they hold being read.
use crate::json::{parsed_json, read_json, Json, JsonValue};
use crate::text::{chars_of, opt_view, opt_views, pair_views, string_of, views};
use vstd::prelude::*;
use vstd::string::*;

verus! {

/// The value that `serde_json` takes off the front of a text when it skips one
/// value, as it is written, and what stands behind it; nothing where no value
/// stands in front.
pub uninterp spec fn first_value(text: Seq<char>) -> Option<(Seq<char>, Seq<char>)>;

/// `serde_json::StreamDeserializer::next` for `serde::de::IgnoredAny` skips one
/// value at the front of a text, with the white space before it, and `byte_offset`
/// says where the value ends. The two parts make up the text, and the first is not
/// empty. What is skipped is not read: a number may be too large and a value nested
/// too deeply to be read.
#[verifier::external_body]
fn take_value(text: &str) -> (out: Option<(String, String)>)
    ensures
        match (out, first_value(text@)) {
            (Some((value, rest)), Some((first, behind))) => {
                &&& value@ == first
                &&& rest@ == behind
                &&& value@ + rest@ == text@
                &&& value@.len() > 0
            },
            (None, None) => true,
            _ => false,
        },
{
    let reader = serde_json::Deserializer::from_str(text);
    let mut stream = reader.into_iter::<serde::de::IgnoredAny>();
    match stream.next() {
        Some(Ok(_)) => {
            let (value, rest) = text.split_at(stream.byte_offset());
            Some((value.to_string(), rest.to_string()))
        },
        Some(Err(_)) => None,
        None => None,
    }
}

/// Whether a character may stand between the parts of a JSON text.
pub open spec fn is_gap(c: char) -> bool {
    c == ' ' || c == '\n' || c == '\t' || c == '\r'
}

/// A text without the white space in front of it.
pub open spec fn past_gap(text: Seq<char>) -> Seq<char>
    decreases text.len(),
{
    if text.len() > 0 && is_gap(text[0]) {
        past_gap(text.skip(1))
    } else {
        text
    }
}

/// Whether a text begins with `c`.
pub open spec fn starts_at(text: Seq<char>, c: char) -> bool {
    text.len() > 0 && text[0] == c
}

/// Whether `c` ends a text, with nothing but white space behind it.
pub open spec fn closes(text: Seq<char>, c: char) -> bool {
    starts_at(text, c) && past_gap(text.skip(1)).len() == 0
}

/// The items of a list from one item on, as they are written.
pub open spec fn items_from(text: Seq<char>) -> Option<Seq<Seq<char>>>
    decreases text.len(),
{
    match first_value(text) {
        Some((item, behind)) => {
            let rest = past_gap(behind);
            if rest.len() >= text.len() {
                None
            } else if starts_at(rest, ',') {
                match items_from(rest.skip(1)) {
                    Some(items) => Some(seq![item] + items),
                    None => None,
                }
            } else if closes(rest, ']') {
                Some(seq![item])
            } else {
                None
            }
        },
        None => None,
    }
}

/// The items of the list that a text holds, as they are written.
pub open spec fn items_of(text: Seq<char>) -> Option<Seq<Seq<char>>> {
    let whole = past_gap(text);
    if !starts_at(whole, '[') {
        None
    } else {
        let inner = past_gap(whole.skip(1));
        if starts_at(inner, ']') {
            if closes(inner, ']') {
                Some(seq![])
            } else {
                None
            }
        } else {
            items_from(inner)
        }
    }
}

/// The text that a JSON string stands for.
pub open spec fn text_in(quoted: Seq<char>) -> Option<Seq<char>> {
    match parsed_json(quoted) {
        Ok(Json::Text(text)) => Some(text),
        _ => None,
    }
}

/// One member at the front of a text: its key, its value as it is written, and what
/// stands behind it.
pub open spec fn first_member(text: Seq<char>) -> Option<(Seq<char>, Seq<char>, Seq<char>)> {
    if !starts_at(text, '"') {
        None
    } else {
        match first_value(text) {
            Some((quoted, behind)) => {
                let colon = past_gap(behind);
                match (text_in(quoted), starts_at(colon, ':'), first_value(colon.skip(1))) {
                    (Some(key), true, Some((value, rest))) => Some((key, value, past_gap(rest))),
                    _ => None,
                }
            },
            None => None,
        }
    }
}

/// The members of an object from one member on, each a key with its value as it is
/// written.
pub open spec fn members_from(text: Seq<char>) -> Option<Seq<(Seq<char>, Seq<char>)>>
    decreases text.len(),
{
    match first_member(text) {
        Some((key, value, rest)) => {
            if rest.len() >= text.len() {
                None
            } else if starts_at(rest, ',') {
                let next = past_gap(rest.skip(1));
                if next.len() >= text.len() {
                    None
                } else {
                    match members_from(next) {
                        Some(members) => Some(seq![(key, value)] + members),
                        None => None,
                    }
                }
            } else if closes(rest, '}') {
                Some(seq![(key, value)])
            } else {
                None
            }
        },
        None => None,
    }
}

/// The members of the object that a text holds, each a key with its value as it is
/// written.
pub open spec fn members_of(text: Seq<char>) -> Option<Seq<(Seq<char>, Seq<char>)>> {
    let whole = past_gap(text);
    if !starts_at(whole, '{') {
        None
    } else {
        let inner = past_gap(whole.skip(1));
        if starts_at(inner, '}') {
            if closes(inner, '}') {
                Some(seq![])
            } else {
                None
            }
        } else {
            members_from(inner)
        }
    }
}

/// The keys and values of a list of pairs that may be absent.
pub open spec fn opt_pairs(pairs: Option<Vec<(String, String)>>) -> Option<
    Seq<(Seq<char>, Seq<char>)>,
> {
    match pairs {
        Some(pairs) => Some(pair_views(pairs@)),
        None => None,
    }
}

fn skip_gap(text: &str, from: usize) -> (out: String)
    requires
        from <= text@.len(),
    ensures
        out@ == past_gap(text@.skip(from as int)),
        out@.len() <= text@.len() - from,
{
    let chars = chars_of(text);
    let mut i: usize = from;
    while i < chars.len() && (chars[i] == ' ' || chars[i] == '\n' || chars[i] == '\t' || chars[i]
        == '\r')
        invariant
            from <= i <= chars.len(),
            chars@ == text@,
            past_gap(text@.skip(from as int)) == past_gap(text@.skip(i as int)),
        decreases chars.len() - i,
    {
        assert(text@.skip(i as int).skip(1) =~= text@.skip(i + 1));
        i += 1;
    }
    let out = string_of(&chars[i..chars.len()]);
    assert(out@ =~= text@.skip(i as int));
    out
}

fn at_start(text: &str, c: char) -> (yes: bool)
    ensures
        yes == starts_at(text@, c),
{
    let chars = chars_of(text);
    chars.len() > 0 && chars[0] == c
}

fn at_end(text: &str, c: char) -> (yes: bool)
    ensures
        yes == closes(text@, c),
{
    if !at_start(text, c) {
        return false;
    }
    let rest = skip_gap(text, 1);
    rest.as_str().is_empty()
}

spec fn put_before<A>(front: Seq<A>, rest: Option<Seq<A>>) -> Option<Seq<A>> {
    match rest {
        Some(rest) => Some(front + rest),
        None => None,
    }
}

/// Takes the items of the list that a text holds apart, as they are written.
pub fn split_items(text: &str) -> (out: Option<Vec<String>>)
    ensures
        opt_views(out) == items_of(text@),
{
    assert(text@.skip(0) =~= text@);
    let whole = skip_gap(text, 0);
    if !at_start(whole.as_str(), '[') {
        return None;
    }
    let mut left = skip_gap(whole.as_str(), 1);
    let mut items: Vec<String> = Vec::new();
    if at_start(left.as_str(), ']') {
        if !at_end(left.as_str(), ']') {
            return None;
        }
        assert(views(items@) =~= Seq::<Seq<char>>::empty());
        return Some(items);
    }
    let ghost wanted = items_from(left@);
    assert(put_before(views(items@), wanted) =~= wanted) by {
        if let Some(all) = wanted {
            assert(views(items@) + all =~= all);
        }
    }
    loop
        invariant
            wanted == put_before(views(items@), items_from(left@)),
            wanted == items_of(text@),
        decreases left@.len(),
    {
        let (item, behind) = match take_value(left.as_str()) {
            Some(found) => found,
            None => return None,
        };
        assert(behind@.len() < left@.len());
        let ghost before = views(items@);
        let ghost first = item@;
        assert(behind@.skip(0) =~= behind@);
        let rest = skip_gap(behind.as_str(), 0);
        items.push(item);
        assert(views(items@) =~= before.push(first));
        if at_start(rest.as_str(), ',') {
            let rest_chars = chars_of(rest.as_str());
            let next = string_of(&rest_chars[1..rest_chars.len()]);
            assert(next@ =~= rest@.skip(1));
            proof {
                if let Some(more) = items_from(next@) {
                    assert(before + (seq![first] + more) =~= before.push(first) + more);
                }
            }
            left = next;
        } else if at_end(rest.as_str(), ']') {
            assert(before + seq![first] =~= before.push(first));
            return Some(items);
        } else {
            return None;
        }
    }
}

fn read_quoted(quoted: &str) -> (out: Option<String>)
    ensures
        opt_view(out) == text_in(quoted@),
{
    broadcast use JsonValue::lemma_model;

    match read_json(quoted) {
        Ok(JsonValue::Text(text)) => Some(text),
        _ => None,
    }
}

fn take_member(text: &str) -> (out: Option<(String, String, String)>)
    ensures
        match (out, first_member(text@)) {
            (Some((key, value, rest)), Some((k, v, r))) => {
                &&& key@ == k
                &&& value@ == v
                &&& rest@ == r
                &&& rest@.len() < text@.len()
            },
            (None, None) => true,
            _ => false,
        },
{
    if !at_start(text, '"') {
        return None;
    }
    let (quoted, behind) = match take_value(text) {
        Some(found) => found,
        None => return None,
    };
    assert(behind@.skip(0) =~= behind@);
    let colon = skip_gap(behind.as_str(), 0);
    let key = match read_quoted(quoted.as_str()) {
        Some(key) => key,
        None => return None,
    };
    if !at_start(colon.as_str(), ':') {
        return None;
    }
    let colon_chars = chars_of(colon.as_str());
    let after = string_of(&colon_chars[1..colon_chars.len()]);
    assert(after@ =~= colon@.skip(1));
    match take_value(after.as_str()) {
        Some((value, rest)) => {
            assert(rest@.skip(0) =~= rest@);
            let rest = skip_gap(rest.as_str(), 0);
            Some((key, value, rest))
        },
        None => None,
    }
}

/// Takes the members of the object that a text holds apart, each a key with its
/// value as it is written.
pub fn split_members(text: &str) -> (out: Option<Vec<(String, String)>>)
    ensures
        opt_pairs(out) == members_of(text@),
{
    assert(text@.skip(0) =~= text@);
    let whole = skip_gap(text, 0);
    if !at_start(whole.as_str(), '{') {
        return None;
    }
    let mut left = skip_gap(whole.as_str(), 1);
    let mut members: Vec<(String, String)> = Vec::new();
    if at_start(left.as_str(), '}') {
        if !at_end(left.as_str(), '}') {
            return None;
        }
        assert(pair_views(members@) =~= Seq::<(Seq<char>, Seq<char>)>::empty());
        return Some(members);
    }
    let ghost wanted = members_from(left@);
    assert(put_before(pair_views(members@), wanted) =~= wanted) by {
        if let Some(all) = wanted {
            assert(pair_views(members@) + all =~= all);
        }
    }
    loop
        invariant
            wanted == put_before(pair_views(members@), members_from(left@)),
            wanted == members_of(text@),
        decreases left@.len(),
    {
        let (key, value, rest) = match take_member(left.as_str()) {
            Some(found) => found,
            None => return None,
        };
        let ghost before = pair_views(members@);
        let ghost first = (key@, value@);
        members.push((key, value));
        assert(pair_views(members@) =~= before.push(first));
        if at_start(rest.as_str(), ',') {
            let next = skip_gap(rest.as_str(), 1);
            proof {
                if let Some(more) = members_from(next@) {
                    assert(before + (seq![first] + more) =~= before.push(first) + more);
                }
            }
            left = next;
        } else if at_end(rest.as_str(), '}') {
            assert(before + seq![first] =~= before.push(first));
            return Some(members);
        } else {
            return None;
        }
    }
}

} // verus!
