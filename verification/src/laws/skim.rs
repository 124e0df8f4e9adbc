//! How lists and objects are taken apart without being read.
use crate::skim::{
    first_value, is_gap, items_from, items_of, members_from, members_of, past_gap, text_in,
};
use vstd::prelude::*;

verus! {

/// Whether a text is gaps between values only.
pub open spec fn all_gap(s: Seq<char>) -> bool {
    forall|i: int| 0 <= i < s.len() ==> is_gap(#[trigger] s[i])
}

/// A gap at the front is passed over, all of it and nothing else.
pub proof fn law_gaps_are_passed_over(text: Seq<char>) -> (gap: Seq<char>)
    ensures
        all_gap(gap),
        text == gap + past_gap(text),
        past_gap(text).len() > 0 ==> !is_gap(past_gap(text)[0]),
    decreases text.len(),
{
    if text.len() > 0 && is_gap(text[0]) {
        let rest = law_gaps_are_passed_over(text.skip(1));
        assert(text =~= seq![text[0]] + text.skip(1));
        assert(text =~= seq![text[0]] + rest + past_gap(text));
        seq![text[0]] + rest
    } else {
        assert(text =~= Seq::<char>::empty() + text);
        seq![]
    }
}

proof fn lemma_past_gap(gap: Seq<char>, text: Seq<char>)
    requires
        all_gap(gap),
        text.len() == 0 || !is_gap(text[0]),
    ensures
        past_gap(gap + text) == text,
    decreases gap.len(),
{
    if gap.len() == 0 {
        assert(gap + text =~= text);
    } else {
        let rest = gap.skip(1);
        assert((gap + text)[0] == gap[0]);
        assert((gap + text).skip(1) =~= rest + text);
        assert forall|i: int| 0 <= i < rest.len() implies is_gap(#[trigger] rest[i]) by {
            assert(rest[i] == gap[i + 1]);
        }
        lemma_past_gap(rest, text);
    }
}

/// Whether texts are the rests of a list behind each comma: at the front of each stands
/// a value, then a gap and a comma with the next one behind it; behind the last stands
/// the end of the list.
pub open spec fn are_rests(rests: Seq<Seq<char>>, items: Seq<Seq<char>>) -> bool {
    &&& rests.len() == items.len()
    &&& forall|i: int|
        0 <= i < rests.len() ==> (first_value(#[trigger] rests[i]) matches Some((item, behind))
            && item == items[i] && past_gap(behind).len() < rests[i].len() && past_gap(behind).len()
            > 0 && (if i == rests.len() - 1 {
            past_gap(behind)[0] == ']' && all_gap(past_gap(behind).skip(1))
        } else {
            past_gap(behind) == seq![','] + rests[i + 1]
        }))
}

proof fn lemma_items_from(rests: Seq<Seq<char>>, items: Seq<Seq<char>>)
    requires
        rests.len() > 0,
        are_rests(rests, items),
    ensures
        items_from(rests[0]) == Some(items),
    decreases rests.len(),
{
    let text = rests[0];
    let behind = (first_value(text)->0).1;
    let rest = past_gap(behind);
    if rests.len() == 1 {
        lemma_past_gap(rest.skip(1), seq![]);
        assert(rest.skip(1) + Seq::<char>::empty() =~= rest.skip(1));
        assert(items =~= seq![items[0]]);
    } else {
        let later = rests.skip(1);
        assert(rest.skip(1) =~= rests[1]);
        assert forall|i: int| 0 <= i < later.len() implies (first_value(#[trigger] later[i]) matches Some(
            (item, behind),
        ) && item == items.skip(1)[i] && past_gap(behind).len() < later[i].len() && past_gap(
            behind,
        ).len() > 0 && (if i == later.len() - 1 {
            past_gap(behind)[0] == ']' && all_gap(past_gap(behind).skip(1))
        } else {
            past_gap(behind) == seq![','] + later[i + 1]
        })) by {
            assert(later[i] == rests[i + 1]);
            assert(items.skip(1)[i] == items[i + 1]);
            if i < later.len() - 1 {
                assert(later[i + 1] == rests[i + 2]);
            }
        }
        lemma_items_from(later, items.skip(1));
        assert(seq![items[0]] + items.skip(1) =~= items);
    }
}

/// A list gives all its items, in order; a list without items gives none.
pub proof fn law_list_gives_all_items(
    gap: Seq<char>,
    rests: Seq<Seq<char>>,
    items: Seq<Seq<char>>,
    end: Seq<char>,
)
    requires
        all_gap(gap),
        all_gap(end),
        rests.len() > 0,
        are_rests(rests, items),
        rests[0].len() > 0 && !is_gap(rests[0][0]) && rests[0][0] != ']',
    ensures
        items_of(gap + seq!['['] + gap + rests[0]) == Some(items),
        items_of(gap + seq!['['] + gap + seq![']'] + end) == Some(Seq::<Seq<char>>::empty()),
{
    let text = gap + seq!['['] + gap + rests[0];
    assert(text =~= gap + (seq!['['] + gap + rests[0]));
    lemma_past_gap(gap, seq!['['] + gap + rests[0]);
    assert((seq!['['] + gap + rests[0]).skip(1) =~= gap + rests[0]);
    lemma_past_gap(gap, rests[0]);
    lemma_items_from(rests, items);
    let none = gap + seq!['['] + gap + seq![']'] + end;
    assert(none =~= gap + (seq!['['] + gap + (seq![']'] + end)));
    lemma_past_gap(gap, seq!['['] + gap + (seq![']'] + end));
    assert((seq!['['] + gap + (seq![']'] + end)).skip(1) =~= gap + (seq![']'] + end));
    lemma_past_gap(gap, seq![']'] + end);
    assert((seq![']'] + end).skip(1) =~= end);
    lemma_past_gap(end, seq![]);
    assert(end + Seq::<char>::empty() =~= end);
}

/// Nothing but a gap may stand behind the end of a list or of an object.
pub proof fn law_nothing_stands_behind_the_end(
    gap: Seq<char>,
    tail: Seq<char>,
    text: Seq<char>,
    item: Seq<char>,
)
    requires
        all_gap(gap),
        tail.len() > 0,
        !is_gap(tail[0]),
    ensures
        items_of(seq!['[', ']'] + gap + tail) is None,
        members_of(seq!['{', '}'] + gap + tail) is None,
        first_value(text) == Some((item, seq![']'] + gap + tail)) ==> items_from(text) is None,
{
    lemma_past_gap(gap, tail);
    let list = seq!['[', ']'] + gap + tail;
    let object = seq!['{', '}'] + gap + tail;
    let end = seq![']'] + gap + tail;
    assert(list[0] == '[' && list[1] == ']' && object[0] == '{' && object[1] == '}' && end[0]
        == ']');
    assert(!is_gap('[') && !is_gap(']') && !is_gap('{') && !is_gap('}'));
    assert(past_gap(list) == list && past_gap(object) == object && past_gap(end) == end);
    assert(list.skip(1)[0] == ']' && object.skip(1)[0] == '}');
    assert(past_gap(list.skip(1)) == list.skip(1));
    assert(past_gap(object.skip(1)) == object.skip(1));
    assert(list.skip(1).skip(1) =~= gap + tail);
    assert(object.skip(1).skip(1) =~= gap + tail);
    assert(end.skip(1) =~= gap + tail);
}

/// What does not begin like a list is none, and what does not begin like an object is
/// none.
pub proof fn law_other_texts_give_nothing(gap: Seq<char>, text: Seq<char>)
    requires
        all_gap(gap),
        text.len() == 0 || !is_gap(text[0]),
    ensures
        text.len() == 0 || text[0] != '[' ==> items_of(gap + text) is None,
        text.len() == 0 || text[0] != '{' ==> members_of(gap + text) is None,
{
    lemma_past_gap(gap, text);
}

/// Whether texts are the rests of an object behind each comma, as for a list; each
/// begins with a quoted key, a colon and a value.
pub open spec fn are_member_rests(
    rests: Seq<Seq<char>>,
    members: Seq<(Seq<char>, Seq<char>)>,
) -> bool {
    &&& rests.len() == members.len()
    &&& forall|i: int|
        0 <= i < rests.len() ==> (#[trigger] rests[i]).len() > 0 && rests[i][0] == '"' && (
        first_value(rests[i]) matches Some((quoted, behind)) && text_in(quoted) == Some(
            members[i].0,
        ) && past_gap(behind).len() > 0 && past_gap(behind)[0] == ':' && (first_value(
            past_gap(behind).skip(1),
        ) matches Some((value, after)) && value == members[i].1 && 0 < past_gap(after).len()
            < rests[i].len() && (if i == rests.len() - 1 {
            past_gap(after)[0] == '}' && all_gap(past_gap(after).skip(1))
        } else {
            past_gap(after)[0] == ',' && past_gap(past_gap(after).skip(1)) == rests[i + 1]
                && rests[i + 1].len() < rests[i].len()
        })))
}

proof fn lemma_members_from(rests: Seq<Seq<char>>, members: Seq<(Seq<char>, Seq<char>)>)
    requires
        rests.len() > 0,
        are_member_rests(rests, members),
    ensures
        members_from(rests[0]) == Some(members),
    decreases rests.len(),
{
    let text = rests[0];
    let behind = (first_value(text)->0).1;
    let after = (first_value(past_gap(behind).skip(1))->0).1;
    let rest = past_gap(after);
    if rests.len() == 1 {
        lemma_past_gap(rest.skip(1), seq![]);
        assert(rest.skip(1) + Seq::<char>::empty() =~= rest.skip(1));
        assert(members =~= seq![members[0]]);
    } else {
        let later = rests.skip(1);
        let fewer = members.skip(1);
        assert forall|i: int| 0 <= i < later.len() implies (#[trigger] later[i]).len() > 0
            && later[i][0] == '"' && (first_value(later[i]) matches Some((quoted, behind))
            && text_in(quoted) == Some(fewer[i].0) && past_gap(behind).len() > 0 && past_gap(
            behind,
        )[0] == ':' && (first_value(past_gap(behind).skip(1)) matches Some((value, after)) && value
            == fewer[i].1 && 0 < past_gap(after).len() < later[i].len() && (if i == later.len()
            - 1 {
            past_gap(after)[0] == '}' && all_gap(past_gap(after).skip(1))
        } else {
            past_gap(after)[0] == ',' && past_gap(past_gap(after).skip(1)) == later[i + 1]
                && later[i + 1].len() < later[i].len()
        }))) by {
            assert(later[i] == rests[i + 1]);
            assert(fewer[i] == members[i + 1]);
            if i < later.len() - 1 {
                assert(later[i + 1] == rests[i + 2]);
            }
        }
        assert(later[0] == rests[1]);
        lemma_members_from(later, fewer);
        assert(seq![members[0]] + fewer =~= members);
    }
}

/// An object gives all its members, in order; one without members gives none.
pub proof fn law_object_gives_all_members(
    gap: Seq<char>,
    rests: Seq<Seq<char>>,
    members: Seq<(Seq<char>, Seq<char>)>,
    end: Seq<char>,
)
    requires
        all_gap(gap),
        all_gap(end),
        rests.len() > 0,
        are_member_rests(rests, members),
    ensures
        members_of(gap + seq!['{'] + gap + rests[0]) == Some(members),
        members_of(gap + seq!['{'] + gap + seq!['}'] + end) == Some(
            Seq::<(Seq<char>, Seq<char>)>::empty(),
        ),
{
    assert(rests[0].len() > 0 && rests[0][0] == '"');
    let text = gap + seq!['{'] + gap + rests[0];
    assert(text =~= gap + (seq!['{'] + gap + rests[0]));
    lemma_past_gap(gap, seq!['{'] + gap + rests[0]);
    assert((seq!['{'] + gap + rests[0]).skip(1) =~= gap + rests[0]);
    lemma_past_gap(gap, rests[0]);
    lemma_members_from(rests, members);
    let none = gap + seq!['{'] + gap + seq!['}'] + end;
    assert(none =~= gap + (seq!['{'] + gap + (seq!['}'] + end)));
    lemma_past_gap(gap, seq!['{'] + gap + (seq!['}'] + end));
    assert((seq!['{'] + gap + (seq!['}'] + end)).skip(1) =~= gap + (seq!['}'] + end));
    lemma_past_gap(gap, seq!['}'] + end);
    assert((seq!['}'] + end).skip(1) =~= end);
    lemma_past_gap(end, seq![]);
    assert(end + Seq::<char>::empty() =~= end);
}

} // verus!
