//! Which scripts carry actions out.
use crate::json::quoted;
use crate::a11y::text_map;
use crate::table::Table;
use crate::prompts::{action_list, user_part, variable_lines, variables_part};
use crate::scripts::{
    action_body, action_of, action_refusal, first_argument, text_or, xpath_script, ActionKind,
};
use crate::text::{begins_with, has_text, is_blank, lower_of, str_views, trim_of};
use crate::laws::text::law_joined_in_order;
use vstd::prelude::*;
use vstd::string::*;

verus! {

/// A method is known by its name, in small or capital letters and with white space
/// around it; without one it is a click.
pub proof fn law_methods_are_known_by_name(method: Seq<char>)
    ensures
        ({
            let name = lower_of(trim_of(method));
            let kind = action_of(Some(method));
            &&& name == "click"@ ==> kind == ActionKind::Click
            &&& name == "scrollintoview"@ ==> kind == ActionKind::ScrollIntoView
            &&& name == "scroll"@ || name == "scrollto"@ || name == "mouse.wheel"@ ==> kind
                == ActionKind::ScrollTo
            &&& name == "nextchunk"@ ==> kind == ActionKind::NextChunk
            &&& name == "prevchunk"@ ==> kind == ActionKind::PrevChunk
            &&& name == "fill"@ || name == "type"@ ==> kind == ActionKind::Fill
            &&& name == "press"@ ==> kind == ActionKind::Press
            &&& name == "selectoptionfromdropdown"@ ==> kind == ActionKind::SelectOption
            &&& name == "not-supported"@ ==> kind == ActionKind::NotSupported
        }),
        action_of(None) == action_of(Some("click"@)),
{
    reveal_strlit("click");
    reveal_strlit("scrollintoview");
    reveal_strlit("scroll");
    reveal_strlit("scrollto");
    reveal_strlit("mouse.wheel");
    reveal_strlit("nextchunk");
    reveal_strlit("prevchunk");
    reveal_strlit("fill");
    reveal_strlit("type");
    reveal_strlit("press");
    reveal_strlit("selectoptionfromdropdown");
    reveal_strlit("not-supported");
    assert("click"@.len() == 5 && "scrollintoview"@.len() == 14 && "scroll"@.len() == 6
        && "scrollto"@.len() == 8 && "mouse.wheel"@.len() == 11 && "nextchunk"@.len() == 9
        && "prevchunk"@.len() == 9 && "fill"@.len() == 4 && "type"@.len() == 4 && "press"@.len()
        == 5 && "selectoptionfromdropdown"@.len() == 24 && "not-supported"@.len() == 13);
    assert("click"@[0] == 'c' && "press"@[0] == 'p' && "nextchunk"@[0] == 'n' && "prevchunk"@[0]
        == 'p');
}

proof fn lemma_has(front: Seq<char>, text: Seq<char>, back: Seq<char>)
    ensures
        has_text(front + text + back, text),
{
    let whole = front + text + back;
    assert(whole.skip(front.len() as int).take(text.len() as int) =~= text);
    assert(begins_with(whole.skip(front.len() as int), text));
}

/// The first argument goes into the script, quoted, where the action takes one; what is
/// not supported has no script.
pub proof fn law_argument_goes_into_the_script(argument: Seq<char>)
    ensures
        action_body(ActionKind::Fill, Some(argument)) matches Some(body) && has_text(
            body,
            quoted(argument),
        ),
        action_body(ActionKind::Press, Some(argument)) matches Some(body) && has_text(
            body,
            quoted(argument),
        ),
        action_body(ActionKind::SelectOption, Some(argument)) matches Some(body) && has_text(
            body,
            quoted(argument),
        ),
        action_body(ActionKind::ScrollTo, Some(argument)) matches Some(body) && has_text(
            body,
            quoted(argument),
        ),
        action_body(ActionKind::Click, Some(argument)) == action_body(ActionKind::Click, None),
        action_body(ActionKind::Click, None) is Some,
        action_body(ActionKind::ScrollIntoView, None) is Some,
        action_body(ActionKind::NextChunk, None) is Some,
        action_body(ActionKind::PrevChunk, None) is Some,
        action_body(ActionKind::NotSupported, Some(argument)) is None,
        action_body(ActionKind::Unknown, Some(argument)) is None,
        first_argument(Some(seq![argument])) == Some(argument),
        first_argument(None) is None,
        first_argument(Some(seq![])) is None,
        text_or(Some(argument), seq![]) == argument,
{
    lemma_has(crate::scripts::FILL_HEAD@, quoted(argument), crate::scripts::FILL_TAIL@);
    lemma_has(crate::scripts::PRESS_HEAD@, quoted(argument), crate::scripts::PRESS_TAIL@);
    lemma_has(crate::scripts::SELECT_HEAD@, quoted(argument), crate::scripts::SELECT_TAIL@);
    lemma_has(crate::scripts::SCROLL_TO_HEAD@, quoted(argument), crate::scripts::SCROLL_TO_TAIL@);
}

/// A script for an element has its path, quoted, and what is done with it.
pub proof fn law_script_has_path_and_body(xpath: Seq<char>, body: Seq<char>)
    ensures
        has_text(xpath_script(xpath, body), quoted(xpath)),
        has_text(xpath_script(xpath, body), body),
{
    let head = crate::scripts::XPATH_HEAD@;
    let middle = crate::scripts::XPATH_MIDDLE@;
    let tail = crate::scripts::XPATH_TAIL@;
    lemma_has(head, quoted(xpath), middle + body + tail);
    assert(xpath_script(xpath, body) =~= head + quoted(xpath) + (middle + body + tail));
    lemma_has(head + quoted(xpath) + middle, body, tail);
}

/// Every variable has its line: its name between percent signs, and its value.
pub proof fn law_variables_have_their_lines(
    front: Seq<Seq<char>>,
    name: Seq<char>,
    back: Seq<Seq<char>>,
    values: Map<Seq<char>, Seq<char>>,
)
    ensures
        variable_lines(front + seq![name] + back, values) == variable_lines(front, values)
            + "\n- %"@ + name + "%: "@ + values[name] + variable_lines(back, values),
    decreases back.len(),
{
    let all = front + seq![name] + back;
    if back.len() == 0 {
        assert(all.drop_last() =~= front);
        assert(all.last() == name);
        assert(variable_lines(back, values) =~= Seq::<char>::empty());
        assert(variable_lines(all, values) =~= variable_lines(front, values) + "\n- %"@ + name
            + "%: "@ + values[name] + variable_lines(back, values));
    } else {
        law_variables_have_their_lines(front, name, back.drop_last(), values);
        assert(all.drop_last() =~= front + seq![name] + back.drop_last());
        assert(all.last() == back.last());
        assert(variable_lines(all, values) =~= variable_lines(front, values) + "\n- %"@ + name
            + "%: "@ + values[name] + variable_lines(back, values));
    }
}

/// The variables are told under a heading, where there are any.
pub proof fn law_variables_are_told(table: &Table<String>)
    ensures
        variables_part(None).len() == 0,
        table.order().len() == 0 ==> variables_part(Some(table)).len() == 0,
        table.order().len() > 0 ==> variables_part(Some(table)) == "\n\nAvailable variables:"@
            + variable_lines(table.order(), text_map(table@)),
{
}

/// Instructions of the user are told, without the white space around them, unless they
/// are blank.
pub proof fn law_user_instructions_are_told(text: &str)
    ensures
        user_part(None) is None,
        is_blank(text@) ==> user_part(Some(text)) is None,
        !is_blank(text@) ==> (user_part(Some(text)) matches Some(part) && has_text(
            part,
            trim_of(text@),
        )),
{
    let head = crate::prompts::USER_INSTRUCTIONS_HEAD@;
    lemma_has(head, trim_of(text@), seq![]);
    assert(head + trim_of(text@) + Seq::<char>::empty() =~= head + trim_of(text@));
}

/// An action that cannot be carried out is refused for what it is.
pub proof fn law_actions_are_refused()
    ensures
        action_refusal(ActionKind::NotSupported)
            == "ObserveResult method is not supported in local mode"@,
        action_refusal(ActionKind::Unknown) == "local observe result method not supported"@,
        action_refusal(ActionKind::Click) == "local handlers currently require xpath selectors"@,
{
}

/// The actions that are supported are told one after the other, with commas between them.
pub proof fn law_supported_actions_are_told(front: Seq<&str>, back: Seq<&str>, one: &str)
    requires
        front.len() > 0,
        back.len() > 0,
    ensures
        action_list(front + back) == action_list(front) + ", "@ + action_list(back),
        action_list(seq![one]) == one@,
{
    let texts = str_views(front);
    let others = str_views(back);
    assert(str_views(front + back) =~= texts + others);
    law_joined_in_order(texts, others, ", "@, one@);
    assert(str_views(seq![one]) =~= seq![one@]);
}

} // verus!
