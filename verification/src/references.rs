//! Where the references in a schema lead.
use crate::json::{field_of, lemma_member_index, member_of, models, Json, JsonValue, Members};
use crate::text::{
    begins_with, chars_of, contains, decimal, has_text, replace, replaced, str_eq, string_of,
    starts_with, u64_text, views,
};
use vstd::prelude::*;
use vstd::string::*;

verus! {

/// What stands for the bytes of a reference that are no ASCII characters.
pub const UNREAD: char = '\u{FFFD}';

/// Whether a character is cut off at both ends of a reference.
pub open spec fn is_outer(c: char) -> bool {
    c <= ' '
}

/// Whether a character is left out wherever it stands in a reference.
pub open spec fn is_break(c: char) -> bool {
    c == '\t' || c == '\n' || c == '\r'
}

/// A text without what is cut off in front.
pub open spec fn cut_start_of(text: Seq<char>) -> Seq<char>
    decreases text.len(),
{
    if text.len() > 0 && is_outer(text.first()) {
        cut_start_of(text.drop_first())
    } else {
        text
    }
}

/// A text without what is cut off at its end.
pub open spec fn cut_end_of(text: Seq<char>) -> Seq<char>
    decreases text.len(),
{
    if text.len() > 0 && is_outer(text.last()) {
        cut_end_of(text.drop_last())
    } else {
        text
    }
}

/// A text without tabs and line breaks.
pub open spec fn unbroken(text: Seq<char>) -> Seq<char>
    decreases text.len(),
{
    if text.len() == 0 {
        text
    } else if is_break(text.last()) {
        unbroken(text.drop_last())
    } else {
        unbroken(text.drop_last()).push(text.last())
    }
}

/// A reference as it is read: without white space around it and without line
/// breaks and tabs in it.
pub open spec fn cleaned(reference: Seq<char>) -> Seq<char> {
    unbroken(cut_end_of(cut_start_of(reference)))
}

/// Where the first `#` stands in a text; behind its end where there is none.
pub open spec fn hash_at(text: Seq<char>) -> nat
    decreases text.len(),
{
    if text.len() == 0 || text[0] == '#' {
        0
    } else {
        1 + hash_at(text.skip(1))
    }
}

/// The part of a reference that names a schema.
pub open spec fn resource_of(text: Seq<char>) -> Seq<char> {
    text.take(hash_at(text) as int)
}

/// The part of a reference that names a place in a schema.
pub open spec fn fragment_of(text: Seq<char>) -> Seq<char> {
    if hash_at(text) < text.len() {
        decoded(text.skip(hash_at(text) as int + 1))
    } else {
        seq![]
    }
}

/// The value of a hexadecimal digit.
pub open spec fn hex_of(c: char) -> Option<u8> {
    if '0' <= c <= '9' {
        Some((c as int - 48) as u8)
    } else if 'a' <= c <= 'f' {
        Some((c as int - 87) as u8)
    } else if 'A' <= c <= 'F' {
        Some((c as int - 55) as u8)
    } else {
        None
    }
}

/// The character that a byte stands for.
pub open spec fn byte_char(high: u8, low: u8) -> char {
    if high < 8 {
        (16 * high + low) as char
    } else {
        UNREAD
    }
}

/// A text with each byte that is written as a percent sign and two hexadecimal
/// digits put as its character.
pub open spec fn decoded(text: Seq<char>) -> Seq<char>
    decreases text.len(),
{
    if text.len() == 0 {
        text
    } else if text.len() >= 3 && text[0] == '%' && hex_of(text[1]) is Some && hex_of(
        text[2],
    ) is Some {
        seq![byte_char(hex_of(text[1])->0, hex_of(text[2])->0)] + decoded(text.skip(3))
    } else {
        seq![text[0]] + decoded(text.skip(1))
    }
}

/// The parts of a text between the slashes.
pub open spec fn parts_of(text: Seq<char>) -> Seq<Seq<char>>
    decreases text.len(),
{
    if text.len() == 0 {
        seq![text]
    } else {
        let before = parts_of(text.drop_last());
        if text.last() == '/' {
            before.push(seq![])
        } else {
            before.drop_last().push(before.last().push(text.last()))
        }
    }
}

/// A part of a place as a key: `~1` is a slash and `~0` a tilde.
pub open spec fn unescaped(part: Seq<char>) -> Seq<char> {
    replaced(replaced(part, "~1"@, "/"@), "~0"@, "~"@)
}

/// Whether a fragment says where a value stands below another one. One that is not
/// empty does so only where it begins with a slash.
pub open spec fn is_place(fragment: Seq<char>) -> bool {
    fragment.len() == 0 || fragment[0] == '/'
}

/// The keys that lead to a place, one below the other.
pub open spec fn steps_of(fragment: Seq<char>) -> Seq<Seq<char>> {
    if fragment.len() == 0 {
        seq![]
    } else {
        let parts = parts_of(fragment);
        Seq::new((parts.len() - 1) as nat, |i: int| unescaped(parts[i + 1]))
    }
}

/// Whether a step may lead to what stands under `key`: where it was not read as a
/// whole, to any key.
pub open spec fn may_name(step: Seq<char>, key: Seq<char>) -> bool {
    step == key || step.contains(UNREAD)
}

/// Whether a character is a letter or a digit of ASCII.
pub open spec fn is_word(c: char) -> bool {
    ||| 'a' <= c <= 'z'
    ||| 'A' <= c <= 'Z'
    ||| '0' <= c <= '9'
}

/// Whether a character stands for itself in the name of a schema.
pub open spec fn is_plain(c: char) -> bool {
    ||| is_word(c)
    ||| c == '_'
    ||| c == '-'
    ||| c == '.'
    ||| c == '/'
}

/// Whether a text is a relative path to another schema.
pub open spec fn is_path(resource: Seq<char>) -> bool {
    &&& resource.len() > 0
    &&& is_word(resource[0])
    &&& forall|i: int| 0 <= i < resource.len() ==> is_plain(#[trigger] resource[i])
    &&& !has_text(resource, ".."@)
}

/// Whether a text names another schema than one without a name.
pub open spec fn leads_out(resource: Seq<char>) -> bool {
    ||| begins_with(resource, "http:"@)
    ||| begins_with(resource, "https:"@)
    ||| is_path(resource)
}

/// Whether a value says under which name it is to be found.
pub open spec fn is_named(value: Json) -> bool {
    ||| (field_of(value, "$id"@) matches Some(Json::Text(_)))
    ||| (field_of(value, "id"@) matches Some(Json::Text(_)))
}

/// Whether every chain of schemas ends within `fuel` steps that starts with `schema`
/// and in which each one makes the next one apply to the same data.
pub open spec fn ends(root: Json, schema: Json, fuel: nat) -> bool
    decreases fuel, 0nat, 0nat, root,
{
    if fuel == 0 {
        false
    } else {
        let left = (fuel - 1) as nat;
        &&& (field_of(schema, "$ref"@) matches Some(Json::Text(reference)) ==> reference_ends(
            root,
            reference,
            left,
        ))
        &&& (field_of(schema, "not"@) matches Some(inner) ==> ends(root, inner, left))
        &&& (field_of(schema, "if"@) matches Some(inner) ==> ends(root, inner, left))
        &&& (field_of(schema, "then"@) matches Some(inner) ==> ends(root, inner, left))
        &&& (field_of(schema, "else"@) matches Some(inner) ==> ends(root, inner, left))
        &&& (field_of(schema, "allOf"@) matches Some(inner) ==> all_end(root, inner, left))
        &&& (field_of(schema, "anyOf"@) matches Some(inner) ==> all_end(root, inner, left))
        &&& (field_of(schema, "oneOf"@) matches Some(inner) ==> all_end(root, inner, left))
        &&& (field_of(schema, "dependencies"@) matches Some(inner) ==> all_end(root, inner, left))
        &&& (field_of(schema, "dependentSchemas"@) matches Some(inner) ==> all_end(
            root,
            inner,
            left,
        ))
    }
}

/// Whether the chains end that start within `value`.
pub open spec fn all_end(root: Json, value: Json, fuel: nat) -> bool
    decreases fuel, 1nat, 0nat, root,
{
    match value {
        Json::List(items) => forall|i: int|
            0 <= i < items.len() ==> ends(root, #[trigger] items[i], fuel),
        Json::Members(members) => forall|i: int|
            0 <= i < members.len() ==> ends(root, (#[trigger] members[i]).1, fuel),
        _ => true,
    }
}

/// Whether the chains end that start where a reference may lead: to the schema as a
/// whole, unless the reference leads out of it, to a value of it that has a name,
/// or to a place below one of these.
pub open spec fn reference_ends(root: Json, reference: Seq<char>, fuel: nat) -> bool
    decreases fuel, 4nat, 0nat, root,
{
    let text = cleaned(reference);
    let fragment = fragment_of(text);
    &&& (leads_out(resource_of(text)) || !is_place(fragment) || target_ends(
        root,
        root,
        steps_of(fragment),
        fuel,
    ))
    &&& named_end(root, root, fragment, fuel)
}

/// Whether the chains end that start at a value with a name within `at`, or at the
/// place below it that the fragment of a reference names.
pub open spec fn named_end(root: Json, at: Json, fragment: Seq<char>, fuel: nat) -> bool
    decreases fuel, 3nat, 0nat, at,
{
    &&& (is_named(at) ==> ends(root, at, fuel) && (is_place(fragment) ==> target_ends(
        root,
        at,
        steps_of(fragment),
        fuel,
    )))
    &&& match at {
        Json::List(items) => forall|i: int|
            0 <= i < items.len() ==> named_end(root, #[trigger] items[i], fragment, fuel),
        Json::Members(members) => forall|i: int|
            0 <= i < members.len() ==> named_end(
                root,
                (#[trigger] members[i]).1,
                fragment,
                fuel,
            ),
        _ => true,
    }
}

/// Whether the chains end that start at what `steps` may name, from `at` down.
pub open spec fn target_ends(root: Json, at: Json, steps: Seq<Seq<char>>, fuel: nat) -> bool
    decreases fuel, 2nat, steps.len(), root,
{
    if steps.len() == 0 {
        ends(root, at, fuel)
    } else {
        match at {
            Json::Members(members) => forall|i: int|
                0 <= i < members.len() && may_name(steps[0], (#[trigger] members[i]).0)
                    ==> target_ends(root, members[i].1, steps.skip(1), fuel),
            Json::List(items) => forall|i: int|
                0 <= i < items.len() && may_name(steps[0], decimal(i as nat)) ==> target_ends(
                    root,
                    #[trigger] items[i],
                    steps.skip(1),
                    fuel,
                ),
            _ => true,
        }
    }
}

/// How many values a value holds, itself among them.
pub open spec fn values_in(value: Json) -> nat
    decreases value, 0nat,
{
    match value {
        Json::List(items) => 1 + items_in(items),
        Json::Members(members) => 1 + members_in(members),
        _ => 1,
    }
}

/// How many values the items of a list hold.
pub open spec fn items_in(items: Seq<Json>) -> nat
    decreases items, items.len(),
{
    if items.len() == 0 {
        0
    } else {
        items_in(items.drop_last()) + values_in(items.last())
    }
}

/// How many values the members of an object hold.
pub open spec fn members_in(members: Members) -> nat
    decreases members, members.len(),
{
    if members.len() == 0 {
        0
    } else {
        members_in(members.drop_last()) + values_in(members.last().1)
    }
}

/// Whether the chains end that start anywhere in `value`.
pub open spec fn ends_throughout(root: Json, value: Json, fuel: nat) -> bool
    decreases value,
{
    &&& ends(root, value, fuel)
    &&& match value {
        Json::List(items) => forall|i: int|
            0 <= i < items.len() ==> ends_throughout(root, #[trigger] items[i], fuel),
        Json::Members(members) => forall|i: int|
            0 <= i < members.len() ==> ends_throughout(root, (#[trigger] members[i]).1, fuel),
        _ => true,
    }
}

/// Whether no reference of a schema leads on for ever at one place of the data:
/// no chain of schemas that apply to the same data is longer than the schema has
/// values.
pub open spec fn comes_to_an_end(schema: Json) -> bool {
    ends_throughout(schema, schema, values_in(schema))
}

/// Reads a reference, without white space around it and without line breaks and
/// tabs in it.
fn clean(reference: &str) -> (out: Vec<char>)
    ensures
        out@ == cleaned(reference@),
{
    let chars = chars_of(reference);
    let mut start: usize = 0;
    assert(chars@.skip(0) =~= chars@);
    while start < chars.len() && chars[start] <= ' '
        invariant
            start <= chars.len(),
            cut_start_of(chars@) == cut_start_of(chars@.skip(start as int)),
        decreases chars.len() - start,
    {
        assert(chars@.skip(start as int).drop_first() =~= chars@.skip(start + 1));
        start += 1;
    }
    let ghost rest = chars@.skip(start as int);
    assert(cut_start_of(chars@) == rest);
    let mut end: usize = chars.len();
    assert(rest.take(end - start) =~= rest);
    while end > start && chars[end - 1] <= ' '
        invariant
            start <= end <= chars.len(),
            rest == chars@.skip(start as int),
            cut_end_of(rest) == cut_end_of(rest.take(end - start)),
        decreases end,
    {
        assert(rest.take(end - start).drop_last() =~= rest.take(end - start - 1));
        end -= 1;
    }
    let ghost inner = rest.take(end - start);
    assert(cut_end_of(rest) == inner);
    let mut out: Vec<char> = Vec::new();
    let mut i: usize = start;
    assert(out@ =~= unbroken(inner.take(0)));
    while i < end
        invariant
            start <= i <= end <= chars.len(),
            rest == chars@.skip(start as int),
            inner == rest.take(end - start),
            out@ == unbroken(inner.take(i - start)),
        decreases end - i,
    {
        let c: char = chars[i];
        assert(inner.take(i - start + 1).drop_last() =~= inner.take(i - start));
        assert(inner.take(i - start + 1).last() == c);
        if !(c == '\t' || c == '\n' || c == '\r') {
            out.push(c);
        }
        i += 1;
    }
    assert(inner.take(i - start) =~= inner);
    out
}

fn find_hash(text: &Vec<char>) -> (at: usize)
    ensures
        at == hash_at(text@),
        at <= text@.len(),
{
    let mut at: usize = 0;
    assert(text@.skip(0) =~= text@);
    while at < text.len() && text[at] != '#'
        invariant
            at <= text.len(),
            hash_at(text@) == at + hash_at(text@.skip(at as int)),
        decreases text.len() - at,
    {
        assert(text@.skip(at as int).skip(1) =~= text@.skip(at + 1));
        at += 1;
    }
    at
}

fn hex(c: char) -> (out: Option<u8>)
    ensures
        out == hex_of(c),
        out matches Some(n) ==> n < 16,
{
    let n: u32 = c as u32;
    if '0' <= c && c <= '9' {
        Some((n - 48) as u8)
    } else if 'a' <= c && c <= 'f' {
        Some((n - 87) as u8)
    } else if 'A' <= c && c <= 'F' {
        Some((n - 55) as u8)
    } else {
        None
    }
}

/// Reads the bytes that are written with a percent sign, from `from` on.
fn decode(text: &Vec<char>, from: usize) -> (out: String)
    requires
        from <= text@.len(),
    ensures
        out@ == decoded(text@.skip(from as int)),
{
    let mut out = String::new();
    let mut i: usize = from;
    let ghost whole = decoded(text@.skip(from as int));
    assert(out@ + whole =~= whole);
    while i < text.len()
        invariant
            from <= i <= text.len(),
            whole == out@ + decoded(text@.skip(i as int)),
        decreases text.len() - i,
    {
        let ghost before = out@;
        let ghost rest = text@.skip(i as int);
        let mut taken: usize = 1;
        let mut c: char = text[i];
        if c == '%' && text.len() - i >= 3 {
            if let (Some(high), Some(low)) = (hex(text[i + 1]), hex(text[i + 2])) {
                taken = 3;
                c = if high < 8 {
                    (16 * high + low) as char
                } else {
                    UNREAD
                };
            }
        }
        out.push(c);
        assert(rest.skip(taken as int) =~= text@.skip(i + taken));
        assert(decoded(rest) == seq![c] + decoded(rest.skip(taken as int)));
        assert(before + (seq![c] + decoded(rest.skip(taken as int))) =~= before.push(c) + decoded(
            rest.skip(taken as int),
        ));
        i += taken;
    }
    assert(text@.skip(i as int) =~= Seq::<char>::empty());
    assert(out@ + Seq::<char>::empty() =~= out@);
    out
}

fn names(step: &str, key: &str) -> (yes: bool)
    ensures
        yes == may_name(step@, key@),
{
    if str_eq(step, key) {
        return true;
    }
    let chars = chars_of(step);
    let mut i: usize = 0;
    while i < chars.len()
        invariant
            i <= chars.len(),
            chars@ == step@,
            step@ != key@,
            forall|j: int| 0 <= j < i ==> #[trigger] step@[j] != UNREAD,
        decreases chars.len() - i,
    {
        if chars[i] == UNREAD {
            assert(step@[i as int] == UNREAD);
            return true;
        }
        i += 1;
    }
    false
}

proof fn lemma_parts(text: Seq<char>)
    ensures
        parts_of(text).len() > 0,
    decreases text.len(),
{
    if text.len() > 0 {
        lemma_parts(text.drop_last());
    }
}

fn split(text: &str) -> (out: Vec<String>)
    ensures
        views(out@) == parts_of(text@),
{
    let chars = chars_of(text);
    let mut out: Vec<String> = Vec::new();
    let mut current = String::new();
    let mut i: usize = 0;
    assert(chars@.take(0) =~= Seq::<char>::empty());
    assert(current@ =~= Seq::<char>::empty());
    assert(views(out@).push(current@) =~= parts_of(chars@.take(0)));
    while i < chars.len()
        invariant
            i <= chars.len(),
            chars@ == text@,
            views(out@).push(current@) == parts_of(chars@.take(i as int)),
        decreases chars.len() - i,
    {
        let ghost before = views(out@);
        let ghost held = current@;
        assert(chars@.take(i + 1).drop_last() =~= chars@.take(i as int));
        assert(before.push(held).last() == held);
        assert(before.push(held).drop_last() =~= before);
        if chars[i] == '/' {
            let mut next = String::new();
            std::mem::swap(&mut next, &mut current);
            out.push(next);
            assert(views(out@) =~= before.push(held));
            assert(current@ =~= Seq::<char>::empty());
        } else {
            current.push(chars[i]);
        }
        i += 1;
    }
    assert(chars@.take(i as int) =~= text@);
    let ghost before = views(out@);
    let ghost held = current@;
    out.push(current);
    assert(views(out@) =~= before.push(held));
    out
}

fn unescape(part: &str) -> (out: String)
    ensures
        out@ == unescaped(part@),
{
    proof {
        reveal_strlit("~1");
        reveal_strlit("~0");
    }
    let slashed = replace(part, "~1", "/");
    replace(slashed.as_str(), "~0", "~")
}

fn place(fragment: &str) -> (yes: bool)
    ensures
        yes == is_place(fragment@),
{
    let chars = chars_of(fragment);
    chars.len() == 0 || chars[0] == '/'
}

fn steps(fragment: &str) -> (out: Vec<String>)
    ensures
        views(out@) == steps_of(fragment@),
{
    let mut out: Vec<String> = Vec::new();
    let chars = chars_of(fragment);
    if chars.len() == 0 {
        assert(views(out@) =~= steps_of(fragment@));
        return out;
    }
    let parts = split(fragment);
    proof {
        lemma_parts(fragment@);
    }
    let ghost wanted = steps_of(fragment@);
    assert(views(parts@).len() == parts@.len());
    let mut i: usize = 1;
    assert(views(out@) =~= wanted.take(0));
    while i < parts.len()
        invariant
            1 <= i <= parts.len(),
            views(parts@) == parts_of(fragment@),
            views(parts@).len() == parts@.len(),
            fragment@.len() > 0,
            wanted == steps_of(fragment@),
            views(out@) == wanted.take(i - 1),
        decreases parts.len() - i,
    {
        let ghost before = views(out@);
        let step = unescape(parts[i].as_str());
        let ghost added = step@;
        assert(views(parts@)[i as int] == parts@[i as int]@);
        assert(wanted[i - 1] == added);
        out.push(step);
        assert(views(out@) =~= before.push(added));
        assert(wanted.take(i as int) =~= wanted.take(i - 1).push(wanted[i - 1]));
        i += 1;
    }
    assert(wanted.take(i - 1) =~= wanted);
    out
}

fn word(c: char) -> (yes: bool)
    ensures
        yes == is_word(c),
{
    ('a' <= c && c <= 'z') || ('A' <= c && c <= 'Z') || ('0' <= c && c <= '9')
}

fn path(resource: &str) -> (yes: bool)
    ensures
        yes == is_path(resource@),
{
    let chars = chars_of(resource);
    if chars.len() == 0 || !word(chars[0]) || contains(resource, "..") {
        return false;
    }
    let mut i: usize = 0;
    while i < chars.len()
        invariant
            i <= chars.len(),
            chars@ == resource@,
            forall|j: int| 0 <= j < i ==> is_plain(#[trigger] resource@[j]),
        decreases chars.len() - i,
    {
        let c: char = chars[i];
        if !(word(c) || c == '_' || c == '-' || c == '.' || c == '/') {
            assert(!is_plain(resource@[i as int]));
            return false;
        }
        i += 1;
    }
    true
}

fn out_of(resource: &str) -> (yes: bool)
    ensures
        yes == leads_out(resource@),
{
    starts_with(resource, "http:") || starts_with(resource, "https:") || path(resource)
}

fn holds_text(value: &JsonValue, key: &str) -> (yes: bool)
    ensures
        yes == (field_of(value@, key@) matches Some(Json::Text(_))),
{
    match value.get(key) {
        Some(found) => found.as_str().is_some(),
        None => false,
    }
}

fn named(value: &JsonValue) -> (yes: bool)
    ensures
        yes == is_named(value@),
{
    holds_text(value, "$id") || holds_text(value, "id")
}

fn under_ends(root: &JsonValue, schema: &JsonValue, key: &str, left: usize) -> (yes: bool)
    ensures
        yes == (field_of(schema@, key@) matches Some(inner) ==> ends(root@, inner, left as nat)),
    decreases left, 5nat, 0nat, root,
{
    match schema.get(key) {
        Some(inner) => schema_ends(root, inner, left),
        None => true,
    }
}

fn under_all_end(root: &JsonValue, schema: &JsonValue, key: &str, left: usize) -> (yes: bool)
    ensures
        yes == (field_of(schema@, key@) matches Some(inner) ==> all_end(root@, inner, left as nat)),
    decreases left, 5nat, 0nat, root,
{
    match schema.get(key) {
        Some(inner) => parts_end(root, inner, left),
        None => true,
    }
}

fn schema_ends(root: &JsonValue, schema: &JsonValue, fuel: usize) -> (yes: bool)
    ensures
        yes == ends(root@, schema@, fuel as nat),
    decreases fuel, 0nat, 0nat, root,
{
    if fuel == 0 {
        return false;
    }
    let left: usize = fuel - 1;
    let reference_fits: bool = match schema.get("$ref") {
        Some(value) => match value.as_str() {
            Some(text) => link_ends(root, text.as_str(), left),
            None => true,
        },
        None => true,
    };
    reference_fits && under_ends(root, schema, "not", left) && under_ends(root, schema, "if", left)
        && under_ends(root, schema, "then", left) && under_ends(root, schema, "else", left)
        && under_all_end(root, schema, "allOf", left) && under_all_end(root, schema, "anyOf", left)
        && under_all_end(root, schema, "oneOf", left) && under_all_end(
        root,
        schema,
        "dependencies",
        left,
    ) && under_all_end(root, schema, "dependentSchemas", left)
}

fn parts_end(root: &JsonValue, value: &JsonValue, fuel: usize) -> (yes: bool)
    ensures
        yes == all_end(root@, value@, fuel as nat),
    decreases fuel, 1nat, 0nat, root,
{
    if let Some(object) = value.as_object() {
        let total: usize = object.len();
        let mut i: usize = 0;
        while i < total
            invariant
                i <= total,
                total == object@.len(),
                value@ == Json::Members(object@),
                forall|j: int|
                    0 <= j < i ==> ends(root@, (#[trigger] object@[j]).1, fuel as nat),
            decreases total - i,
        {
            if !schema_ends(root, object.value_at(i), fuel) {
                let ghost members = value@->Members_0;
                assert(!ends(root@, members[i as int].1, fuel as nat));
                return false;
            }
            i += 1;
        }
        return true;
    }
    if let Some(items) = value.as_array() {
        let mut i: usize = 0;
        while i < items.len()
            invariant
                i <= items.len(),
                value@ == Json::List(models(items@)),
                forall|j: int|
                    0 <= j < i ==> ends(root@, #[trigger] models(items@)[j], fuel as nat),
            decreases items.len() - i,
        {
            assert(models(items@)[i as int] == items@[i as int]@);
            if !schema_ends(root, &items[i], fuel) {
                let ghost all = value@->List_0;
                assert(!ends(root@, all[i as int], fuel as nat));
                return false;
            }
            i += 1;
        }
        return true;
    }
    true
}

fn link_ends(root: &JsonValue, reference: &str, fuel: usize) -> (yes: bool)
    ensures
        yes == reference_ends(root@, reference@, fuel as nat),
    decreases fuel, 4nat, 0nat, root,
{
    let text = clean(reference);
    let at: usize = find_hash(&text);
    let resource = string_of(&text[0..at]);
    assert(resource@ =~= resource_of(text@));
    let fragment: String = if at < text.len() {
        decode(&text, at + 1)
    } else {
        String::new()
    };
    assert(fragment@ =~= fragment_of(text@));
    let is_at_place: bool = place(fragment.as_str());
    let keys: Vec<String> = steps(fragment.as_str());
    assert(views(keys@).skip(0) =~= views(keys@));
    (out_of(resource.as_str()) || !is_at_place || target_ends_at(root, root, &keys, 0, fuel))
        && named_ends_at(root, root, fragment.as_str(), is_at_place, &keys, fuel)
}

fn named_ends_at(
    root: &JsonValue,
    at: &JsonValue,
    fragment: &str,
    is_at_place: bool,
    keys: &Vec<String>,
    fuel: usize,
) -> (yes: bool)
    requires
        is_at_place == is_place(fragment@),
        views(keys@) == steps_of(fragment@),
    ensures
        yes == named_end(root@, at@, fragment@, fuel as nat),
    decreases fuel, 3nat, 0nat, at,
{
    assert(views(keys@).skip(0) =~= views(keys@));
    if named(at) {
        if !schema_ends(root, at, fuel) {
            return false;
        }
        if is_at_place && !target_ends_at(root, at, keys, 0, fuel) {
            return false;
        }
    }
    if let Some(object) = at.as_object() {
        let total: usize = object.len();
        let mut i: usize = 0;
        while i < total
            invariant
                i <= total,
                total == object@.len(),
                at@ == Json::Members(object@),
                decreases_to!(at => object),
                is_at_place == is_place(fragment@),
                views(keys@) == steps_of(fragment@),
                forall|j: int|
                    0 <= j < i ==> named_end(
                        root@,
                        (#[trigger] object@[j]).1,
                        fragment@,
                        fuel as nat,
                    ),
            decreases total - i,
        {
            if !named_ends_at(root, object.value_at(i), fragment, is_at_place, keys, fuel) {
                let ghost members = at@->Members_0;
                assert(!named_end(root@, members[i as int].1, fragment@, fuel as nat));
                return false;
            }
            i += 1;
        }
        return true;
    }
    if let Some(items) = at.as_array() {
        let mut i: usize = 0;
        while i < items.len()
            invariant
                i <= items.len(),
                at@ == Json::List(models(items@)),
                decreases_to!(at => items@),
                is_at_place == is_place(fragment@),
                views(keys@) == steps_of(fragment@),
                forall|j: int|
                    0 <= j < i ==> named_end(
                        root@,
                        #[trigger] models(items@)[j],
                        fragment@,
                        fuel as nat,
                    ),
            decreases items.len() - i,
        {
            assert(decreases_to!(items@ => items@[i as int]));
            assert(models(items@)[i as int] == items@[i as int]@);
            if !named_ends_at(root, &items[i], fragment, is_at_place, keys, fuel) {
                let ghost all = at@->List_0;
                assert(!named_end(root@, all[i as int], fragment@, fuel as nat));
                return false;
            }
            i += 1;
        }
        return true;
    }
    true
}

fn target_ends_at(
    root: &JsonValue,
    at: &JsonValue,
    parts: &Vec<String>,
    from: usize,
    fuel: usize,
) -> (yes: bool)
    requires
        from <= parts@.len(),
    ensures
        yes == target_ends(root@, at@, views(parts@).skip(from as int), fuel as nat),
    decreases fuel, 2nat, parts@.len() - from, root,
{
    let ghost left = views(parts@).skip(from as int);
    if from == parts.len() {
        assert(left.len() == 0);
        return schema_ends(root, at, fuel);
    }
    assert(left[0] == parts@[from as int]@);
    assert(left.skip(1) =~= views(parts@).skip(from + 1));
    if let Some(object) = at.as_object() {
        let total: usize = object.len();
        let mut i: usize = 0;
        while i < total
            invariant
                i <= total,
                total == object@.len(),
                from < parts.len(),
                at@ == Json::Members(object@),
                left == views(parts@).skip(from as int),
                left.len() > 0,
                left[0] == parts@[from as int]@,
                left.skip(1) == views(parts@).skip(from + 1),
                forall|j: int|
                    0 <= j < i && may_name(left[0], (#[trigger] object@[j]).0) ==> target_ends(
                        root@,
                        object@[j].1,
                        left.skip(1),
                        fuel as nat,
                    ),
            decreases total - i,
        {
            let key = object.key_at(i);
            if names(parts[from].as_str(), key.as_str()) && !target_ends_at(
                root,
                object.value_at(i),
                parts,
                from + 1,
                fuel,
            ) {
                let ghost members = at@->Members_0;
                assert(may_name(left[0], members[i as int].0) && !target_ends(
                    root@,
                    members[i as int].1,
                    left.skip(1),
                    fuel as nat,
                ));
                return false;
            }
            i += 1;
        }
        return true;
    }
    if let Some(items) = at.as_array() {
        let mut i: usize = 0;
        while i < items.len()
            invariant
                i <= items.len(),
                from < parts.len(),
                at@ == Json::List(models(items@)),
                left == views(parts@).skip(from as int),
                left.len() > 0,
                left[0] == parts@[from as int]@,
                left.skip(1) == views(parts@).skip(from + 1),
                forall|j: int|
                    0 <= j < i && may_name(left[0], decimal(j as nat)) ==> target_ends(
                        root@,
                        #[trigger] models(items@)[j],
                        left.skip(1),
                        fuel as nat,
                    ),
            decreases items.len() - i,
        {
            assert(models(items@)[i as int] == items@[i as int]@);
            let index = u64_text(i as u64);
            if names(parts[from].as_str(), index.as_str()) && !target_ends_at(
                root,
                &items[i],
                parts,
                from + 1,
                fuel,
            ) {
                let ghost all = at@->List_0;
                assert(may_name(left[0], decimal(i as nat)) && !target_ends(
                    root@,
                    all[i as int],
                    left.skip(1),
                    fuel as nat,
                ));
                return false;
            }
            i += 1;
        }
        return true;
    }
    true
}

fn count(value: &JsonValue) -> (out: Option<usize>)
    ensures
        out matches Some(n) ==> n == values_in(value@),
        out is None ==> values_in(value@) > usize::MAX,
    decreases value,
{
    let mut sum: usize = 1;
    if let Some(object) = value.as_object() {
        let total: usize = object.len();
        let mut i: usize = 0;
        assert(object@.take(0).len() == 0);
        while i < total
            invariant
                i <= total,
                total == object@.len(),
                value@ == Json::Members(object@),
                decreases_to!(value => object),
                sum == 1 + members_in(object@.take(i as int)),
            decreases total - i,
        {
            proof {
                lemma_members_fit(object@, i + 1);
                assert(object@.take(i + 1).drop_last() =~= object@.take(i as int));
            }
            match count(object.value_at(i)) {
                Some(n) => match sum.checked_add(n) {
                    Some(total) => {
                        sum = total;
                    },
                    None => {
                        return None;
                    },
                },
                None => {
                    return None;
                },
            }
            i += 1;
        }
        assert(object@.take(i as int) =~= object@);
    } else if let Some(items) = value.as_array() {
        let mut i: usize = 0;
        assert(models(items@).take(0).len() == 0);
        while i < items.len()
            invariant
                i <= items.len(),
                value@ == Json::List(models(items@)),
                decreases_to!(value => items@),
                sum == 1 + items_in(models(items@).take(i as int)),
            decreases items.len() - i,
        {
            assert(decreases_to!(items@ => items@[i as int]));
            assert(models(items@)[i as int] == items@[i as int]@);
            proof {
                lemma_items_fit(models(items@), i + 1);
                assert(models(items@).take(i + 1).drop_last() =~= models(items@).take(i as int));
            }
            match count(&items[i]) {
                Some(n) => match sum.checked_add(n) {
                    Some(total) => {
                        sum = total;
                    },
                    None => {
                        return None;
                    },
                },
                None => {
                    return None;
                },
            }
            i += 1;
        }
        assert(models(items@).take(i as int) =~= models(items@));
    }
    Some(sum)
}

proof fn lemma_members_fit(members: Members, n: int)
    requires
        0 <= n <= members.len(),
    ensures
        members_in(members.take(n)) <= members_in(members),
    decreases members.len(),
{
    if n < members.len() {
        assert(members.take(n) =~= members.drop_last().take(n));
        lemma_members_fit(members.drop_last(), n);
    } else {
        assert(members.take(n) =~= members);
    }
}

proof fn lemma_items_fit(items: Seq<Json>, n: int)
    requires
        0 <= n <= items.len(),
    ensures
        items_in(items.take(n)) <= items_in(items),
    decreases items.len(),
{
    if n < items.len() {
        assert(items.take(n) =~= items.drop_last().take(n));
        lemma_items_fit(items.drop_last(), n);
    } else {
        assert(items.take(n) =~= items);
    }
}

fn ends_all_over(root: &JsonValue, value: &JsonValue, fuel: usize) -> (yes: bool)
    ensures
        yes == ends_throughout(root@, value@, fuel as nat),
    decreases value,
{
    if !schema_ends(root, value, fuel) {
        return false;
    }
    if let Some(object) = value.as_object() {
        let total: usize = object.len();
        let mut i: usize = 0;
        while i < total
            invariant
                i <= total,
                total == object@.len(),
                value@ == Json::Members(object@),
                decreases_to!(value => object),
                forall|j: int|
                    0 <= j < i ==> ends_throughout(root@, (#[trigger] object@[j]).1, fuel as nat),
            decreases total - i,
        {
            if !ends_all_over(root, object.value_at(i), fuel) {
                assert(!ends_throughout(root@, object@[i as int].1, fuel as nat));
                return false;
            }
            i += 1;
        }
        return true;
    }
    if let Some(items) = value.as_array() {
        let mut i: usize = 0;
        while i < items.len()
            invariant
                i <= items.len(),
                value@ == Json::List(models(items@)),
                decreases_to!(value => items@),
                forall|j: int|
                    0 <= j < i ==> ends_throughout(
                        root@,
                        #[trigger] models(items@)[j],
                        fuel as nat,
                    ),
            decreases items.len() - i,
        {
            assert(decreases_to!(items@ => items@[i as int]));
            assert(models(items@)[i as int] == items@[i as int]@);
            if !ends_all_over(root, &items[i], fuel) {
                let ghost all = value@->List_0;
                assert(!ends_throughout(root@, all[i as int], fuel as nat));
                return false;
            }
            i += 1;
        }
        return true;
    }
    true
}

/// Tells whether no reference of a schema leads on for ever at one place of the
/// data. Of a schema with more values than can be counted it says that one does.
pub fn references_end(schema: &JsonValue) -> (yes: bool)
    ensures
        yes == (comes_to_an_end(schema@) && values_in(schema@) <= usize::MAX),
{
    match count(schema) {
        Some(fuel) => ends_all_over(schema, schema, fuel),
        None => false,
    }
}

/// Whether a value holds a reference.
pub open spec fn has_reference(value: Json) -> bool
    decreases value,
{
    ||| (field_of(value, "$ref"@) matches Some(Json::Text(_)))
    ||| match value {
        Json::List(items) => exists|i: int|
            0 <= i < items.len() && has_reference(#[trigger] items[i]),
        Json::Members(members) => exists|i: int|
            0 <= i < members.len() && has_reference((#[trigger] members[i]).1),
        _ => false,
    }
}

proof fn lemma_item_counts(items: Seq<Json>, i: int)
    requires
        0 <= i < items.len(),
    ensures
        values_in(items[i]) <= items_in(items),
    decreases items.len(),
{
    if i < items.len() - 1 {
        lemma_item_counts(items.drop_last(), i);
    }
}

proof fn lemma_member_counts(members: Members, i: int)
    requires
        0 <= i < members.len(),
    ensures
        values_in(members[i].1) <= members_in(members),
    decreases members.len(),
{
    if i < members.len() - 1 {
        lemma_member_counts(members.drop_last(), i);
    }
}

proof fn lemma_field_is_less(value: Json, key: Seq<char>)
    requires
        !has_reference(value),
    ensures
        field_of(value, key) matches Some(inner) ==> !has_reference(inner) && values_in(inner)
            < values_in(value),
{
    if field_of(value, key) is Some {
        let members = value->Members_0;
        let i = lemma_member_index(members, key);
        lemma_member_counts(members, i);
        assert(!has_reference(members[i].1));
    }
}

proof fn lemma_ends_without(root: Json, schema: Json, fuel: nat)
    requires
        !has_reference(schema),
        values_in(schema) <= fuel,
    ensures
        ends(root, schema, fuel),
    decreases values_in(schema), 0nat,
{
    assert(values_in(schema) > 0);
    let left = (fuel - 1) as nat;
    let single = seq!["not"@, "if"@, "then"@, "else"@];
    let several = seq!["allOf"@, "anyOf"@, "oneOf"@, "dependencies"@, "dependentSchemas"@];
    assert forall|k: int| 0 <= k < single.len() implies (field_of(
        schema,
        #[trigger] single[k],
    ) matches Some(inner) ==> ends(root, inner, left)) by {
        lemma_field_is_less(schema, single[k]);
        if let Some(inner) = field_of(schema, single[k]) {
            lemma_ends_without(root, inner, left);
        }
    }
    assert forall|k: int| 0 <= k < several.len() implies (field_of(
        schema,
        #[trigger] several[k],
    ) matches Some(inner) ==> all_end(root, inner, left)) by {
        lemma_field_is_less(schema, several[k]);
        if let Some(inner) = field_of(schema, several[k]) {
            lemma_all_end_without(root, inner, left);
        }
    }
    assert(single[0] == "not"@ && single[1] == "if"@ && single[2] == "then"@ && single[3]
        == "else"@);
    assert(several[0] == "allOf"@ && several[1] == "anyOf"@ && several[2] == "oneOf"@
        && several[3] == "dependencies"@ && several[4] == "dependentSchemas"@);
}

proof fn lemma_all_end_without(root: Json, value: Json, fuel: nat)
    requires
        !has_reference(value),
        values_in(value) <= fuel,
    ensures
        all_end(root, value, fuel),
    decreases values_in(value), 1nat,
{
    match value {
        Json::List(items) => {
            assert forall|i: int| 0 <= i < items.len() implies ends(
                root,
                #[trigger] items[i],
                fuel,
            ) by {
                lemma_item_counts(items, i);
                lemma_ends_without(root, items[i], fuel);
            }
        },
        Json::Members(members) => {
            assert forall|i: int| 0 <= i < members.len() implies ends(
                root,
                (#[trigger] members[i]).1,
                fuel,
            ) by {
                lemma_member_counts(members, i);
                lemma_ends_without(root, members[i].1, fuel);
            }
        },
        _ => {},
    }
}

proof fn lemma_ends_throughout_without(root: Json, value: Json, fuel: nat)
    requires
        !has_reference(value),
        values_in(value) <= fuel,
    ensures
        ends_throughout(root, value, fuel),
    decreases value,
{
    lemma_ends_without(root, value, fuel);
    match value {
        Json::List(items) => {
            assert forall|i: int| 0 <= i < items.len() implies ends_throughout(
                root,
                #[trigger] items[i],
                fuel,
            ) by {
                lemma_item_counts(items, i);
                lemma_ends_throughout_without(root, items[i], fuel);
            }
        },
        Json::Members(members) => {
            assert forall|i: int| 0 <= i < members.len() implies ends_throughout(
                root,
                (#[trigger] members[i]).1,
                fuel,
            ) by {
                lemma_member_counts(members, i);
                lemma_ends_throughout_without(root, members[i].1, fuel);
            }
        },
        _ => {},
    }
}

/// A schema without references comes to an end.
pub proof fn law_without_references_ends(schema: Json)
    requires
        !has_reference(schema),
    ensures
        comes_to_an_end(schema),
{
    lemma_ends_throughout_without(schema, schema, values_in(schema));
}

} // verus!
