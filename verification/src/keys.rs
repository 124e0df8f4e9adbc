//! Keys in camel case and in snake case.
use crate::json::{models, with_member, Json, JsonObject, JsonValue, Members};
use crate::text::{
    ascii_lower, ascii_upper, chars_of, is_digit, lower_char, lower_of, upper_char,
};
use vstd::prelude::*;

verus! {

/// Whether a character is an ASCII letter in upper case.
pub open spec fn is_upper(c: char) -> bool {
    'A' <= c <= 'Z'
}

/// Whether a character is an ASCII letter in lower case.
pub open spec fn is_lower(c: char) -> bool {
    'a' <= c <= 'z'
}

/// Whether a text ends in an underscore.
pub open spec fn ends_in_underscore(s: Seq<char>) -> bool {
    s.len() > 0 && s.last() == '_'
}

/// The snake case form of the first `n` characters. A capital begins a word
/// where a small letter or a digit stands before it or a small letter follows;
/// a hyphen counts as an underscore, and underscores are not doubled for them.
pub open spec fn snake_prefix(s: Seq<char>, n: nat) -> Seq<char>
    decreases n,
{
    if n == 0 {
        seq![]
    } else {
        let before = snake_prefix(s, (n - 1) as nat);
        let c = s[n - 1];
        if is_upper(c) {
            let after_word = n > 1 && (is_lower(s[n - 2]) || is_digit(s[n - 2]));
            let before_word = n < s.len() && is_lower(s[n as int]);
            if before.len() > 0 && (after_word || before_word) && !ends_in_underscore(before) {
                before.push('_').push(ascii_lower(c))
            } else {
                before.push(ascii_lower(c))
            }
        } else if c == '-' {
            if ends_in_underscore(before) {
                before
            } else {
                before.push('_')
            }
        } else {
            before.push(c)
        }
    }
}

/// The snake case form of a key.
pub open spec fn snake_of(s: Seq<char>) -> Seq<char> {
    snake_prefix(s, s.len())
}

/// Puts a key in snake case.
pub fn camel_to_snake_case(input: &str) -> (out: String)
    ensures
        out@ == snake_of(input@),
{
    let chars = chars_of(input);
    let mut out = String::new();
    let mut any: bool = false;
    let mut last: char = ' ';
    let mut i: usize = 0;
    while i < chars.len()
        invariant
            i <= chars.len(),
            chars@ == input@,
            out@ == snake_prefix(input@, i as nat),
            any == (out@.len() > 0),
            any ==> last == out@.last(),
        decreases chars.len() - i,
    {
        let c = chars[i];
        if 'A' <= c && c <= 'Z' {
            let next_is_lower: bool = i + 1 < chars.len() && 'a' <= chars[i + 1] && chars[i + 1]
                <= 'z';
            let prev_is_word: bool = i > 0 && (('a' <= chars[i - 1] && chars[i - 1] <= 'z') || (
            '0' <= chars[i - 1] && chars[i - 1] <= '9'));
            if any && (prev_is_word || next_is_lower) && last != '_' {
                out.push('_');
            }
            let small = lower_char(c);
            out.push(small);
            last = small;
            any = true;
        } else if c == '-' {
            if !any || last != '_' {
                out.push('_');
                last = '_';
                any = true;
            }
        } else {
            out.push(c);
            last = c;
            any = true;
        }
        i += 1;
    }
    out
}

/// The camel case form of the first `n` characters. What stands before the first
/// underscore is kept; each word behind an underscore begins with a capital and
/// goes on in small letters.
pub open spec fn camel_prefix(s: Seq<char>, n: nat) -> Seq<char>
    decreases n,
{
    if n == 0 {
        seq![]
    } else {
        let before = camel_prefix(s, (n - 1) as nat);
        let c = s[n - 1];
        if c == '_' {
            before
        } else if !s.take(n - 1).contains('_') {
            before.push(c)
        } else if s[n - 2] == '_' {
            before.push(ascii_upper(c))
        } else {
            before.push(ascii_lower(c))
        }
    }
}

/// The camel case form of a key.
pub open spec fn camel_of(s: Seq<char>) -> Seq<char> {
    camel_prefix(s, s.len())
}

/// Puts a key in camel case.
pub fn snake_to_camel_case(value: &str) -> (out: String)
    ensures
        out@ == camel_of(value@),
{
    let chars = chars_of(value);
    let mut out = String::new();
    let mut seen: bool = false;
    let mut i: usize = 0;
    while i < chars.len()
        invariant
            i <= chars.len(),
            chars@ == value@,
            out@ == camel_prefix(value@, i as nat),
            seen == value@.take(i as int).contains('_'),
        decreases chars.len() - i,
    {
        let c = chars[i];
        proof {
            let before = value@.take(i as int);
            let after = value@.take(i + 1);
            assert(after =~= before.push(c));
            if before.contains('_') {
                let k = choose|k: int| 0 <= k < before.len() && before[k] == '_';
                assert(after[k] == '_');
            }
            if c == '_' {
                assert(after[i as int] == '_');
            }
        }
        if c == '_' {
            seen = true;
        } else if !seen {
            out.push(c);
        } else if chars[i - 1] == '_' {
            out.push(upper_char(c));
        } else {
            out.push(lower_char(c));
        }
        i += 1;
    }
    out
}

/// The two ways to write a key.
#[derive(Clone, Copy, Debug, PartialEq, Eq, Structural)]
pub enum KeyCase {
    Snake,
    Camel,
}

/// A key in the given case.
pub open spec fn key_in(case: KeyCase, key: Seq<char>) -> Seq<char> {
    match case {
        KeyCase::Snake => snake_of(key),
        KeyCase::Camel => camel_of(key),
    }
}

/// A value with the keys of all its objects in the given case. Where two keys
/// become one, the value of the later one counts.
pub open spec fn recased(case: KeyCase, value: Json) -> Json
    decreases value,
{
    match value {
        Json::List(items) => Json::List(recased_list(case, items)),
        Json::Members(members) => Json::Members(recased_members(case, members)),
        _ => value,
    }
}

/// The items of a list, each with its keys in the given case.
pub open spec fn recased_list(case: KeyCase, items: Seq<Json>) -> Seq<Json>
    decreases items,
{
    if items.len() == 0 {
        seq![]
    } else {
        recased_list(case, items.drop_last()).push(recased(case, items.last()))
    }
}

/// The members of an object, with their keys in the given case.
pub open spec fn recased_members(case: KeyCase, members: Members) -> Members
    decreases members,
{
    if members.len() == 0 {
        seq![]
    } else {
        with_member(
            recased_members(case, members.drop_last()),
            key_in(case, members.last().0),
            recased(case, members.last().1),
        )
    }
}

fn recase_key(case: KeyCase, key: &str) -> (out: String)
    ensures
        out@ == key_in(case, key@),
{
    match case {
        KeyCase::Snake => camel_to_snake_case(key),
        KeyCase::Camel => snake_to_camel_case(key),
    }
}

fn recase(case: KeyCase, value: &JsonValue) -> (out: JsonValue)
    ensures
        out@ == recased(case, value@),
    decreases value,
{
    if let Some(object) = value.as_object() {
        let mut converted = JsonObject::new();
        let total: usize = object.len();
        let mut i: usize = 0;
        assert(object@.take(0) =~= Members::empty());
        while i < total
            invariant
                i <= total,
                total == object@.len(),
                decreases_to!(value => object),
                converted@ == recased_members(case, object@.take(i as int)),
            decreases total - i,
        {
            assert(object@.take(i + 1).drop_last() =~= object@.take(i as int));
            let key = recase_key(case, object.key_at(i).as_str());
            let inner = recase(case, object.value_at(i));
            converted.insert(key.as_str(), inner);
            i += 1;
        }
        assert(object@.take(i as int) =~= object@);
        return JsonValue::object(converted);
    }
    if let Some(items) = value.as_array() {
        let mut converted: Vec<JsonValue> = Vec::new();
        let mut i: usize = 0;
        assert(models(items@.take(0)) =~= Seq::<Json>::empty());
        assert(models(converted@) =~= Seq::<Json>::empty());
        while i < items.len()
            invariant
                i <= items.len(),
                decreases_to!(value => items@),
                models(converted@) == recased_list(case, models(items@.take(i as int))),
            decreases items.len() - i,
        {
            let ghost before = models(converted@);
            assert(models(items@.take(i + 1)).drop_last() =~= models(items@.take(i as int)));
            assert(decreases_to!(items@ => items@[i as int]));
            let inner = recase(case, &items[i]);
            let ghost added = inner@;
            converted.push(inner);
            assert(models(converted@) =~= before.push(added));
            i += 1;
        }
        assert(items@.take(i as int) =~= items@);
        return JsonValue::array(converted);
    }
    value.copy()
}

/// Puts the keys of all objects in a value in snake case.
pub fn convert_keys_to_snake_case(value: &JsonValue) -> (out: JsonValue)
    ensures
        out@ == recased(KeyCase::Snake, value@),
{
    recase(KeyCase::Snake, value)
}

/// Puts the keys of all objects in a value in camel case.
pub fn convert_keys_to_camel_case(value: &JsonValue) -> (out: JsonValue)
    ensures
        out@ == recased(KeyCase::Camel, value@),
{
    recase(KeyCase::Camel, value)
}

proof fn lemma_snake_clean(s: Seq<char>, n: nat)
    requires
        n <= s.len(),
    ensures
        forall|i: int|
            0 <= i < snake_prefix(s, n).len() ==> !is_upper(#[trigger] snake_prefix(s, n)[i])
                && snake_prefix(s, n)[i] != '-',
    decreases n,
{
    if n > 0 {
        lemma_snake_clean(s, (n - 1) as nat);
        let before = snake_prefix(s, (n - 1) as nat);
        let after = snake_prefix(s, n);
        assert forall|i: int| 0 <= i < after.len() implies !is_upper(#[trigger] after[i])
            && after[i] != '-' by {
            if i < before.len() {
                assert(after[i] == before[i]);
            }
        }
    }
}

proof fn lemma_snake_kept(s: Seq<char>, n: nat)
    requires
        n <= s.len(),
        forall|i: int| 0 <= i < s.len() ==> !is_upper(#[trigger] s[i]) && s[i] != '-',
    ensures
        snake_prefix(s, n) == s.take(n as int),
    decreases n,
{
    if n > 0 {
        lemma_snake_kept(s, (n - 1) as nat);
        assert(s.take(n as int) =~= s.take(n - 1).push(s[n - 1]));
    }
}

/// A key in snake case has no capitals and no hyphens, and putting it in snake
/// case again changes nothing.
pub proof fn law_snake_case_is_stable(s: Seq<char>)
    ensures
        forall|i: int|
            0 <= i < snake_of(s).len() ==> !is_upper(#[trigger] snake_of(s)[i]) && snake_of(s)[i]
                != '-',
        snake_of(snake_of(s)) == snake_of(s),
{
    lemma_snake_clean(s, s.len());
    lemma_snake_kept(snake_of(s), snake_of(s).len());
    assert(snake_of(s).take(snake_of(s).len() as int) =~= snake_of(s));
}

proof fn lemma_camel_clean(s: Seq<char>, n: nat)
    requires
        n <= s.len(),
    ensures
        !camel_prefix(s, n).contains('_'),
    decreases n,
{
    if n > 0 {
        lemma_camel_clean(s, (n - 1) as nat);
        let before = camel_prefix(s, (n - 1) as nat);
        let after = camel_prefix(s, n);
        assert forall|i: int| 0 <= i < after.len() implies after[i] != '_' by {
            if i < before.len() {
                assert(after[i] == before[i]);
            }
        }
    }
}

proof fn lemma_camel_kept(s: Seq<char>, n: nat)
    requires
        n <= s.len(),
        !s.contains('_'),
    ensures
        camel_prefix(s, n) == s.take(n as int),
    decreases n,
{
    if n > 0 {
        lemma_camel_kept(s, (n - 1) as nat);
        assert(s.contains(s[n - 1]));
        let before = s.take(n - 1);
        if before.contains('_') {
            let k = choose|k: int| 0 <= k < before.len() && before[k] == '_';
            assert(s[k] == '_');
        }
        assert(s.take(n as int) =~= before.push(s[n - 1]));
    }
}

/// A key in camel case has no underscores, and putting it in camel case again
/// changes nothing.
pub proof fn law_camel_case_is_stable(s: Seq<char>)
    ensures
        !camel_of(s).contains('_'),
        camel_of(camel_of(s)) == camel_of(s),
        !s.contains('_') ==> camel_of(s) == s,
{
    lemma_camel_clean(s, s.len());
    lemma_camel_kept(camel_of(s), camel_of(s).len());
    assert(camel_of(s).take(camel_of(s).len() as int) =~= camel_of(s));
    if !s.contains('_') {
        lemma_camel_kept(s, s.len());
        assert(s.take(s.len() as int) =~= s);
    }
}

/// A text without the `c`s in it.
pub open spec fn without(s: Seq<char>, c: char) -> Seq<char>
    decreases s.len(),
{
    if s.len() == 0 {
        s
    } else if s.last() == c {
        without(s.drop_last(), c)
    } else {
        without(s.drop_last(), c).push(s.last())
    }
}

proof fn lemma_without_push(s: Seq<char>, x: char, c: char)
    ensures
        without(s.push(x), c) == (if x == c {
            without(s, c)
        } else {
            without(s, c).push(x)
        }),
{
    assert(s.push(x).drop_last() =~= s);
}

proof fn lemma_snake_letters(s: Seq<char>, n: nat)
    requires
        n <= s.len(),
    ensures
        without(snake_prefix(s, n), '_') == lower_of(without(without(s.take(n as int), '_'), '-')),
    decreases n,
{
    if n == 0 {
        assert(s.take(0) =~= Seq::<char>::empty());
        assert(lower_of(Seq::<char>::empty()) =~= Seq::<char>::empty());
    } else {
        let before = snake_prefix(s, (n - 1) as nat);
        let c = s[n - 1];
        let shorter = s.take(n - 1);
        lemma_snake_letters(s, (n - 1) as nat);
        assert(s.take(n as int) =~= shorter.push(c));
        lemma_without_push(shorter, c, '_');
        lemma_without_push(without(shorter, '_'), c, '-');
        lemma_without_push(before, '_', '_');
        lemma_without_push(before, c, '_');
        lemma_without_push(before, ascii_lower(c), '_');
        lemma_without_push(before.push('_'), ascii_lower(c), '_');
        let kept = without(without(shorter, '_'), '-');
        assert(lower_of(kept.push(c)) =~= lower_of(kept).push(ascii_lower(c)));
    }
}

/// A key in snake case has the letters of the key, in small letters, and nothing
/// else but underscores.
pub proof fn law_snake_case_keeps_letters(s: Seq<char>)
    ensures
        without(snake_of(s), '_') == lower_of(without(without(s, '_'), '-')),
{
    lemma_snake_letters(s, s.len());
    assert(s.take(s.len() as int) =~= s);
}

proof fn lemma_camel_letters(s: Seq<char>, n: nat)
    requires
        n <= s.len(),
    ensures
        lower_of(camel_prefix(s, n)) == lower_of(without(s.take(n as int), '_')),
    decreases n,
{
    if n == 0 {
        assert(s.take(0) =~= Seq::<char>::empty());
    } else {
        let before = camel_prefix(s, (n - 1) as nat);
        let c = s[n - 1];
        let shorter = s.take(n - 1);
        lemma_camel_letters(s, (n - 1) as nat);
        assert(s.take(n as int) =~= shorter.push(c));
        lemma_without_push(shorter, c, '_');
        let kept = without(shorter, '_');
        assert(lower_of(kept.push(c)) =~= lower_of(kept).push(ascii_lower(c)));
        assert(lower_of(before.push(c)) =~= lower_of(before).push(ascii_lower(c)));
        assert(lower_of(before.push(ascii_upper(c))) =~= lower_of(before).push(ascii_lower(c)));
        assert(lower_of(before.push(ascii_lower(c))) =~= lower_of(before).push(ascii_lower(c)));
    }
}

/// A key in camel case has the characters of the key without its underscores, and
/// only their case changes.
pub proof fn law_camel_case_keeps_letters(s: Seq<char>)
    ensures
        lower_of(camel_of(s)) == lower_of(without(s, '_')),
{
    lemma_camel_letters(s, s.len());
    assert(s.take(s.len() as int) =~= s);
}

} // verus!
