//! How usage adds up.
use crate::json::{field_of, Json, JsonNumber, Members};
use crate::metrics::{
    counts_fit, function_named, list_under, merged, no_counts, recorded, replay_counts, usage_of,
    with_action, with_actions, with_pages, Counts, StagehandFunctionName, Usage,
};
use crate::text::lower_of;
use vstd::prelude::*;
use vstd::string::*;

verus! {

/// Two usages added up.
pub open spec fn sum(a: Usage, b: Usage) -> Usage {
    Usage {
        prompt: a.prompt + b.prompt,
        completion: a.completion + b.completion,
        time: a.time + b.time,
    }
}

/// What a function used.
pub open spec fn used_by(counts: Counts, function: StagehandFunctionName) -> Usage {
    match function {
        StagehandFunctionName::Act => counts.act,
        StagehandFunctionName::Extract => counts.extract,
        StagehandFunctionName::Observe => counts.observe,
        StagehandFunctionName::Agent => counts.agent,
    }
}

/// Usage is added to its function and to the total, and to nothing else.
pub proof fn law_usage_is_added_once(
    counts: Counts,
    function: StagehandFunctionName,
    other: StagehandFunctionName,
    usage: Usage,
)
    ensures
        used_by(recorded(counts, Some(function), usage), function) == sum(
            used_by(counts, function),
            usage,
        ),
        recorded(counts, Some(function), usage).total == sum(counts.total, usage),
        other != function ==> used_by(recorded(counts, Some(function), usage), other) == used_by(
            counts,
            other,
        ),
        recorded(counts, None, usage).total == sum(counts.total, usage),
        used_by(recorded(counts, None, usage), other) == used_by(counts, other),
{
}

/// Usage of two clients is added up, function by function.
pub proof fn law_usage_of_two_is_added(a: Counts, b: Counts, function: StagehandFunctionName)
    ensures
        used_by(merged(a, b), function) == sum(used_by(a, function), used_by(b, function)),
        merged(a, b).total == sum(a.total, b.total),
        used_by(no_counts(), function) == (Usage { prompt: 0, completion: 0, time: 0 }),
        no_counts().total == (Usage { prompt: 0, completion: 0, time: 0 }),
{
}

/// A function is known by its name, in small or capital letters.
pub proof fn law_functions_are_named(name: Seq<char>)
    ensures
        lower_of(name) == "act"@ ==> function_named(name) == Some(StagehandFunctionName::Act),
        lower_of(name) == "extract"@ ==> function_named(name) == Some(
            StagehandFunctionName::Extract,
        ),
        lower_of(name) == "observe"@ ==> function_named(name) == Some(
            StagehandFunctionName::Observe,
        ),
        lower_of(name) == "agent"@ ==> function_named(name) == Some(StagehandFunctionName::Agent),
        lower_of(name) != "act"@ && lower_of(name) != "extract"@ && lower_of(name) != "observe"@
            && lower_of(name) != "agent"@ ==> function_named(name) is None,
{
    reveal_strlit("act");
    reveal_strlit("extract");
    reveal_strlit("observe");
    reveal_strlit("agent");
    assert("act"@.len() == 3 && "extract"@.len() == 7 && "observe"@.len() == 7 && "agent"@.len()
        == 5);
    assert("extract"@[0] == 'e' && "observe"@[0] == 'o');
}

/// The number under a key, and none where there is no such number.
pub open spec fn told(usage: Json, key: Seq<char>) -> nat {
    match field_of(usage, key) {
        Some(Json::Number(JsonNumber::Unsigned(n))) => n as nat,
        _ => 0,
    }
}

/// An action adds what it tells of its usage to its function and to the total; one
/// that tells nothing adds nothing.
pub proof fn law_action_adds_its_usage(counts: Counts, action: Json, usage: Members)
    ensures
        field_of(action, "tokenUsage"@) == Some(Json::Members(usage)) ==> {
            let added = Usage {
                prompt: told(Json::Members(usage), "inputTokens"@),
                completion: told(Json::Members(usage), "outputTokens"@),
                time: told(Json::Members(usage), "timeMs"@),
            };
            &&& with_action(counts, action).total == sum(counts.total, added)
            &&& (field_of(action, "method"@) matches Some(Json::Text(name)) ==> (function_named(
                name,
            ) matches Some(function) ==> used_by(with_action(counts, action), function) == sum(
                used_by(counts, function),
                added,
            )))
        },
        !(field_of(action, "tokenUsage"@) matches Some(Json::Members(_))) ==> with_action(
            counts,
            action,
        ) == counts,
{
}

/// An action adds to no function but the one that it names, and to none where it names
/// none that is known.
pub proof fn law_action_adds_to_no_other(
    counts: Counts,
    action: Json,
    name: Seq<char>,
    other: StagehandFunctionName,
)
    ensures
        field_of(action, "method"@) is None ==> used_by(with_action(counts, action), other)
            == used_by(counts, other),
        field_of(action, "method"@) == Some(Json::Text(name)) && function_named(name) != Some(
            other,
        ) ==> used_by(with_action(counts, action), other) == used_by(counts, other),
{
    reveal_strlit("act");
    reveal_strlit("extract");
    reveal_strlit("observe");
    reveal_strlit("agent");
    assert(lower_of(Seq::<char>::empty()) =~= Seq::<char>::empty());
    assert("act"@.len() == 3 && "extract"@.len() == 7 && "observe"@.len() == 7 && "agent"@.len()
        == 5);
}

proof fn lemma_action_apart(counts: Counts, action: Json)
    ensures
        with_action(counts, action) == merged(counts, with_action(no_counts(), action)),
{
}

proof fn lemma_actions_apart(counts: Counts, actions: Seq<Json>)
    ensures
        with_actions(counts, actions) == merged(counts, with_actions(no_counts(), actions)),
    decreases actions.len(),
{
    if actions.len() > 0 {
        let less = actions.drop_last();
        lemma_actions_apart(counts, less);
        lemma_action_apart(with_actions(counts, less), actions.last());
        lemma_action_apart(with_actions(no_counts(), less), actions.last());
    }
}

proof fn lemma_actions_in_two(counts: Counts, front: Seq<Json>, back: Seq<Json>)
    ensures
        with_actions(counts, front + back) == with_actions(with_actions(counts, front), back),
    decreases back.len(),
{
    if back.len() == 0 {
        assert(front + back =~= front);
    } else {
        lemma_actions_in_two(counts, front, back.drop_last());
        assert((front + back).drop_last() =~= front + back.drop_last());
        assert((front + back).last() == back.last());
    }
}

/// Every action of a page counts, wherever it stands: one more adds just what it adds
/// alone.
pub proof fn law_every_action_counts(
    counts: Counts,
    front: Seq<Json>,
    action: Json,
    back: Seq<Json>,
)
    ensures
        with_actions(counts, front + seq![action] + back) == merged(
            with_actions(counts, front + back),
            with_action(no_counts(), action),
        ),
{
    let one = seq![action];
    assert(front + one + back =~= front + (one + back));
    lemma_actions_in_two(counts, front, one + back);
    let first = with_actions(counts, front);
    lemma_actions_in_two(first, one, back);
    assert(one.drop_last() =~= Seq::<Json>::empty());
    assert(with_actions(first, one.drop_last()) == first);
    assert(with_actions(first, one) == with_action(first, action));
    lemma_action_apart(first, action);
    lemma_actions_apart(with_action(first, action), back);
    lemma_actions_in_two(counts, front, back);
    lemma_actions_apart(first, back);
}

/// Every page counts, wherever it stands: one more adds just what its actions add.
pub proof fn law_every_page_counts(counts: Counts, front: Seq<Json>, page: Json, back: Seq<Json>)
    ensures
        with_pages(counts, front + seq![page] + back) == merged(
            with_pages(counts, front + back),
            with_actions(no_counts(), list_under(page, "actions"@)),
        ),
    decreases back.len(),
{
    let all = front + seq![page] + back;
    if back.len() == 0 {
        assert(all.drop_last() =~= front);
        assert(all.last() == page);
        assert(front + back =~= front);
        lemma_actions_apart(with_pages(counts, front), list_under(page, "actions"@));
    } else {
        let less = back.drop_last();
        law_every_page_counts(counts, front, page, less);
        assert(all.drop_last() =~= front + seq![page] + less);
        assert(all.last() == back.last());
        assert((front + back).drop_last() =~= front + less);
        assert((front + back).last() == back.last());
        let own = list_under(back.last(), "actions"@);
        lemma_actions_apart(with_pages(counts, front + seq![page] + less), own);
        lemma_actions_apart(with_pages(counts, front + less), own);
    }
}

/// A replay counts the pages under `pages`, from nothing.
pub proof fn law_replay_counts_its_pages(data: Json, pages: Seq<Json>)
    ensures
        field_of(data, "pages"@) == Some(Json::List(pages)) ==> replay_counts(data) == with_pages(
            no_counts(),
            pages,
        ),
        !(field_of(data, "pages"@) matches Some(Json::List(_))) ==> replay_counts(data)
            == no_counts(),
        with_pages(no_counts(), Seq::<Json>::empty()) == no_counts(),
        field_of(data, "actions"@) == Some(Json::List(pages)) ==> list_under(data, "actions"@)
            == pages,
{
}

/// Counts fit where none of them is more than sixty-four bits can hold.
pub proof fn law_counts_that_fit(counts: Counts, function: StagehandFunctionName)
    ensures
        counts_fit(counts) ==> used_by(counts, function).prompt <= u64::MAX && used_by(
            counts,
            function,
        ).completion <= u64::MAX && used_by(counts, function).time <= u64::MAX,
        counts_fit(counts) ==> counts.total.prompt <= u64::MAX && counts.total.completion
            <= u64::MAX && counts.total.time <= u64::MAX,
        counts_fit(no_counts()),
        counts.act == used_by(no_counts(), function) && counts.extract == counts.act
            && counts.observe == counts.act && counts.agent == counts.act && counts.total.prompt
            <= u64::MAX && counts.total.completion <= u64::MAX && counts.total.time <= u64::MAX
            ==> counts_fit(counts),
{
}

/// What was used is counted as it is told.
pub proof fn law_usage_is_what_is_told(prompt: u64, completion: u64, time: u64)
    ensures
        usage_of(prompt, completion, time).prompt == prompt,
        usage_of(prompt, completion, time).completion == completion,
        usage_of(prompt, completion, time).time == time,
{
}

} // verus!
