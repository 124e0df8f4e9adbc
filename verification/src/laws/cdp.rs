//! How the elements that can be scrolled are found, and what is asked of the browser.
use crate::cdp::{
    call_on, find_expression, nested, nested_number, nested_text, scroll_notes, scroll_on,
    scroll_step, texts_among, ScrollAsk, ScrollPhase, ScrollState,
};
use crate::json::{escaped, escaped_char, field_of, quoted, Json, JsonNumber};
use crate::laws::llm::lemma_put;
use crate::logging::LogLevel;
use crate::text::{begins_with, has_text};
use vstd::prelude::*;
use vstd::string::*;

verus! {

/// The texts of a list are taken in order, and everything else is passed over.
pub proof fn law_texts_are_taken_in_order(front: Seq<Json>, item: Json, back: Seq<Json>)
    ensures
        item matches Json::Text(text) ==> texts_among(front + seq![item] + back) == texts_among(
            front,
        ) + seq![text] + texts_among(back),
        !(item is Text) ==> texts_among(front + seq![item] + back) == texts_among(front)
            + texts_among(back),
    decreases back.len(),
{
    let all = front + seq![item] + back;
    if back.len() == 0 {
        assert(all.drop_last() =~= front);
        assert(all.last() == item);
        if let Json::Text(text) = item {
            assert(texts_among(all) =~= texts_among(front) + seq![text] + texts_among(back));
        } else {
            assert(texts_among(front) + texts_among(back) =~= texts_among(front));
        }
    } else {
        let less = back.drop_last();
        law_texts_are_taken_in_order(front, item, less);
        assert(all.drop_last() =~= front + seq![item] + less);
        assert(all.last() == back.last());
        if let Json::Text(text) = item {
            assert(texts_among(all) =~= texts_among(front) + seq![text] + texts_among(back));
        } else {
            assert(texts_among(all) =~= texts_among(front) + texts_among(back));
        }
    }
}

/// The next path that is not empty is looked for; when none is left, the search ends.
/// The elements found so far stay.
pub proof fn law_next_path_is_looked_for(left: Seq<Seq<char>>, ids: Set<i64>, k: int)
    requires
        0 <= k <= left.len(),
        forall|i: int| 0 <= i < k ==> (#[trigger] left[i]).len() == 0,
        k < left.len() ==> left[k].len() > 0,
    ensures
        k < left.len() ==> {
            &&& scroll_on(left, ids).0.phase == ScrollPhase::Evaluating
            &&& scroll_on(left, ids).0.current == left[k]
            &&& scroll_on(left, ids).0.left == left.skip(k + 1)
            &&& scroll_on(left, ids).1 == ScrollAsk::Evaluate(find_expression(left[k]))
        },
        k == left.len() ==> scroll_on(left, ids).0.phase == ScrollPhase::Detaching && scroll_on(
            left,
            ids,
        ).1 == ScrollAsk::Detach,
        scroll_on(left, ids).0.ids == ids,
    decreases k,
{
    if k > 0 {
        let rest = left.skip(1);
        assert forall|i: int| 0 <= i < k - 1 implies (#[trigger] rest[i]).len() == 0 by {
            assert(rest[i] == left[i + 1]);
        }
        if k < left.len() {
            assert(rest[k - 1] == left[k]);
            assert(rest.skip(k) =~= left.skip(k + 1));
        }
        assert(left[0].len() == 0);
        law_next_path_is_looked_for(rest, ids, k - 1);
    }
}

/// The element that a path led to is kept by its number, with all that were found
/// before; a path that led to none changes nothing.
pub proof fn law_described_element_is_kept(state: ScrollState, reply: Json, n: u64)
    requires
        state.phase == ScrollPhase::Describing,
    ensures
        (field_of(reply, "node"@) matches Some(node) && field_of(node, "backendNodeId"@) == Some(
            Json::Number(JsonNumber::Unsigned(n)),
        )) && n <= i64::MAX ==> scroll_step(state, Some(reply)).0.ids == state.ids.insert(n as i64)
            && scroll_step(state, Some(reply)).1 == scroll_on(
            state.left,
            state.ids.insert(n as i64),
        ).1,
        field_of(reply, "node"@) is None ==> scroll_step(state, Some(reply)) == scroll_on(
            state.left,
            state.ids,
        ),
        scroll_step(state, None) == scroll_on(state.left, state.ids),
{
    lemma_ids_stay(state.left, state.ids);
    lemma_ids_stay(state.left, state.ids.insert(n as i64));
}

proof fn lemma_ids_stay(left: Seq<Seq<char>>, ids: Set<i64>)
    ensures
        scroll_on(left, ids).0.ids == ids,
    decreases left.len(),
{
    if left.len() > 0 && left[0].len() == 0 {
        lemma_ids_stay(left.skip(1), ids);
    }
}

/// The object that a path led to is described; where it led to none, the next path is
/// looked for.
pub proof fn law_found_object_is_described(state: ScrollState, reply: Json, id: Seq<char>)
    requires
        state.phase == ScrollPhase::Evaluating,
    ensures
        (field_of(reply, "result"@) matches Some(result) && field_of(result, "objectId"@) == Some(
            Json::Text(id),
        )) ==> {
            let (after, ask) = scroll_step(state, Some(reply));
            &&& ask == ScrollAsk::Describe(id)
            &&& after.phase == ScrollPhase::Describing
            &&& after.left == state.left
            &&& after.ids == state.ids
            &&& after.current == state.current
        },
        field_of(reply, "result"@) is None ==> scroll_step(state, Some(reply)) == scroll_on(
            state.left,
            state.ids,
        ),
        scroll_step(state, None) == scroll_on(state.left, state.ids),
{
}

/// The search begins with the script, then asks for the paths, then opens a session if
/// there are any. Where one of these fails it is over.
pub proof fn law_search_begins(state: ScrollState, reply: Json, items: Seq<Json>)
    ensures
        state.phase == ScrollPhase::Injecting ==> scroll_step(state, Some(reply)).1
            == ScrollAsk::List && scroll_step(state, Some(reply)).0.phase == ScrollPhase::Listing
            && scroll_step(state, None).1 == ScrollAsk::Done,
        state.phase == ScrollPhase::Listing && texts_among(items).len() > 0 ==> scroll_step(
            state,
            Some(Json::List(items)),
        ).1 == ScrollAsk::Open && scroll_step(state, Some(Json::List(items))).0.left == texts_among(
            items,
        ) && scroll_step(state, Some(Json::List(items))).0.phase == ScrollPhase::Opening,
        state.phase == ScrollPhase::Listing && texts_among(items).len() == 0 ==> scroll_step(
            state,
            Some(Json::List(items)),
        ).1 == ScrollAsk::Done,
        state.phase == ScrollPhase::Listing && !(reply is List) ==> scroll_step(state, Some(reply)).1
            == ScrollAsk::Done,
        state.phase == ScrollPhase::Listing ==> scroll_step(state, None).1 == ScrollAsk::Done,
        state.phase == ScrollPhase::Opening ==> scroll_step(state, Some(reply)) == scroll_on(
            state.left,
            state.ids,
        ) && scroll_step(state, None).1 == ScrollAsk::Done,
        state.phase == ScrollPhase::Detaching || state.phase == ScrollPhase::Finished
            ==> scroll_step(state, Some(reply)).1 == ScrollAsk::Done && scroll_step(state, None).1
            == ScrollAsk::Done,
{
}

/// What failed is logged, with the path where one was looked for; what went well is
/// not, but for a reply to the question for the paths that is no list.
pub proof fn law_failures_are_logged(state: ScrollState, why: Seq<char>, value: Json)
    ensures
        state.phase != ScrollPhase::Finished ==> scroll_notes(state, Err(why)).len() == 1
            && scroll_notes(state, Err(why))[0].level == LogLevel::Debug && scroll_notes(
            state,
            Err(why),
        )[0].category == "a11y"@,
        state.phase == ScrollPhase::Evaluating ==> scroll_notes(state, Err(why))[0].message
            == "Error evaluating xpath "@ + state.current + ": "@ + why,
        state.phase == ScrollPhase::Describing ==> scroll_notes(state, Err(why))[0].message
            == "Error describing node for xpath "@ + state.current + ": "@ + why,
        state.phase == ScrollPhase::Opening ==> scroll_notes(state, Err(why))[0].message
            == "Error creating CDP session: "@ + why,
        state.phase == ScrollPhase::Detaching ==> scroll_notes(state, Err(why))[0].message
            == "Error detaching CDP session: "@ + why,
        state.phase == ScrollPhase::Listing ==> scroll_notes(state, Err(why))[0].message
            == "Error calling window.getScrollableElementXpaths: "@ + why,
        state.phase == ScrollPhase::Finished ==> scroll_notes(state, Err(why)).len() == 0,
        state.phase != ScrollPhase::Listing || value is List ==> scroll_notes(state, Ok(value)).len()
            == 0,
        state.phase == ScrollPhase::Listing && !(value is List) ==> scroll_notes(
            state,
            Ok(value),
        ).len() == 1,
{
}

/// A text is quoted character by character.
pub proof fn law_quoting_goes_on(front: Seq<char>, back: Seq<char>, c: char)
    ensures
        escaped(front + back) == escaped(front) + escaped(back),
        escaped(seq![c]) == escaped_char(c),
        quoted(front) == seq!['"'] + escaped(front) + seq!['"'],
    decreases back.len(),
{
    assert(seq![c].drop_last() =~= Seq::<char>::empty());
    assert(escaped(Seq::<char>::empty()) =~= Seq::<char>::empty());
    assert(escaped(seq![c]) =~= escaped_char(c));
    if back.len() == 0 {
        assert(front + back =~= front);
        assert(escaped(front) + escaped(back) =~= escaped(front));
    } else {
        law_quoting_goes_on(front, back.drop_last(), c);
        assert((front + back).drop_last() =~= front + back.drop_last());
        assert((front + back).last() == back.last());
        assert(escaped(front + back) =~= escaped(front) + escaped(back));
    }
}

/// The number that a small hexadecimal digit stands for.
pub open spec fn hex_value(c: char) -> int {
    if '0' <= c <= '9' {
        c as int - '0' as int
    } else if 'a' <= c <= 'f' {
        c as int - 'a' as int + 10
    } else {
        -1
    }
}

/// A control character without a letter of its own is written as its number, in small
/// hexadecimal digits.
pub proof fn law_control_characters_are_numbered(c: char)
    requires
        c < ' ',
        c as int != 8 && c as int != 9 && c as int != 10 && c as int != 12 && c as int != 13,
    ensures
        escaped_char(c).len() == 6,
        escaped_char(c).take(4) == seq!['\\', 'u', '0', '0'],
        0 <= hex_value(escaped_char(c)[4]) < 16,
        0 <= hex_value(escaped_char(c)[5]) < 16,
        16 * hex_value(escaped_char(c)[4]) + hex_value(escaped_char(c)[5]) == c as int,
{
}

/// Quotes and backslashes get a backslash before them, control characters are written
/// out, and every other character stands for itself.
pub proof fn law_special_characters_are_escaped(c: char)
    ensures
        c == '"' || c == '\\' ==> escaped_char(c) == seq!['\\', c],
        c == '\n' ==> escaped_char(c) == seq!['\\', 'n'],
        c == '\t' ==> escaped_char(c) == seq!['\\', 't'],
        c == '\r' ==> escaped_char(c) == seq!['\\', 'r'],
        c < ' ' ==> escaped_char(c).len() > 1 && escaped_char(c)[0] == '\\',
        c < ' ' && escaped_char(c).len() == 6 ==> escaped_char(c)[1] == 'u' && escaped_char(c)[2]
            == '0' && escaped_char(c)[3] == '0' && (escaped_char(c)[4] == '0' || escaped_char(c)[4]
            == '1'),
        c >= ' ' && c != '"' && c != '\\' ==> escaped_char(c) == seq![c],
{
}

proof fn lemma_within(front: Seq<char>, text: Seq<char>, back: Seq<char>)
    ensures
        has_text(front + text + back, text),
{
    let whole = front + text + back;
    assert(whole.skip(front.len() as int).take(text.len() as int) =~= text);
    assert(begins_with(whole.skip(front.len() as int), text));
}

/// What is evaluated for a path has the path in it, quoted.
pub proof fn law_expression_has_its_path(xpath: Seq<char>)
    ensures
        has_text(
            find_expression(xpath),
            "document.evaluate("@ + quoted(xpath) + ", document, null"@,
        ),
{
    reveal_strlit("(function() { try { const res = document.evaluate(");
    reveal_strlit("document.evaluate(");
    reveal_strlit(
        ", document, null, XPathResult.FIRST_ORDERED_NODE_TYPE, null); return res.singleNodeValue; } catch (e) { console.error('Error evaluating XPath:', ",
    );
    reveal_strlit(", document, null");
    let head = "(function() { try { const res = document.evaluate("@;
    let tail = ", document, null, XPathResult.FIRST_ORDERED_NODE_TYPE, null); return res.singleNodeValue; } catch (e) { console.error('Error evaluating XPath:', "@;
    let last = quoted(xpath) + ", e); return null; } })()"@;
    assert(head =~= head.take(32) + "document.evaluate("@);
    assert(tail =~= ", document, null"@ + tail.skip(16));
    let text = "document.evaluate("@ + quoted(xpath) + ", document, null"@;
    lemma_within(head.take(32), text, tail.skip(16) + last);
    assert(find_expression(xpath) =~= head.take(32) + text + (tail.skip(16) + last));
}

/// A function is called on its object, and its value is asked for.
pub proof fn law_calls_name_object_and_function(object_id: Seq<char>, declaration: Seq<char>)
    ensures
        field_of(call_on(object_id, declaration), "objectId"@) == Some(Json::Text(object_id)),
        field_of(call_on(object_id, declaration), "functionDeclaration"@) == Some(
            Json::Text(declaration),
        ),
        field_of(call_on(object_id, declaration), "returnByValue"@) == Some(Json::Bool(true)),
{
    broadcast use lemma_put;

    reveal_strlit("objectId");
    reveal_strlit("functionDeclaration");
    reveal_strlit("returnByValue");
    assert("objectId"@.len() == 8 && "functionDeclaration"@.len() == 19 && "returnByValue"@.len()
        == 13);
}

/// What stands under a key inside what stands under another is found, as text or as a
/// whole number.
pub proof fn law_nested_values_are_found(
    value: Json,
    outer: Seq<char>,
    inner: Seq<char>,
    object: Json,
    text: Seq<char>,
    n: i64,
)
    requires
        field_of(value, outer) == Some(object),
    ensures
        nested(value, outer, inner) == field_of(object, inner),
        field_of(object, inner) == Some(Json::Text(text)) ==> nested_text(value, outer, inner)
            == Some(text),
        field_of(object, inner) == Some(Json::Number(JsonNumber::Negative(n))) ==> nested_number(
            value,
            outer,
            inner,
        ) == Some(n),
{
}

} // verus!
