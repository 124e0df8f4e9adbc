//! What is told of the effects of an action, and of frames.
use crate::json::{parsed_json, Json};
use crate::logging::{plain_note, LogLevel};
use crate::observe::{
    done_note, elements_in, elements_listed, elements_named, iframe_elements, navigated_note,
    new_frames, new_ids, reply_notes,
};
use crate::text::signed_of;
use crate::types::a11y::Node;
use crate::types::page::ElementModel;
use vstd::prelude::*;
use vstd::string::*;

verus! {

/// The new pages stand in the order of the pages, and none that was there is among them.
pub proof fn law_new_pages_in_order(before: Seq<Seq<char>>, after: Seq<Seq<char>>)
    ensures
        new_ids(before, after) == after.filter(|id: Seq<char>| !before.contains(id)),
    decreases after.len(),
{
    reveal(Seq::filter);
    if after.len() > 0 {
        law_new_pages_in_order(before, after.drop_last());
    } else {
        assert(new_ids(before, after) =~= after.filter(|id: Seq<char>| !before.contains(id)));
    }
}

/// Whether a page shows another frame than before.
pub open spec fn shows_another(
    before: Map<Seq<char>, Seq<char>>,
    after: Map<Seq<char>, Seq<char>>,
    page: Seq<char>,
) -> bool {
    !before.dom().contains(page) || before[page] != after[page]
}

/// The pages that show another frame than before are told with it, in their order, and
/// no others are.
pub proof fn law_new_frames_in_order(
    before: Map<Seq<char>, Seq<char>>,
    pages: Seq<Seq<char>>,
    after: Map<Seq<char>, Seq<char>>,
)
    ensures
        new_frames(before, pages, after) == pages.filter(
            |page: Seq<char>| shows_another(before, after, page),
        ).map_values(|page: Seq<char>| (page, after[page])),
    decreases pages.len(),
{
    reveal(Seq::filter);
    let keep = |page: Seq<char>| shows_another(before, after, page);
    let with = |page: Seq<char>| (page, after[page]);
    if pages.len() > 0 {
        let less = pages.drop_last();
        law_new_frames_in_order(before, less, after);
        if keep(pages.last()) {
            assert(pages.filter(keep) == less.filter(keep).push(pages.last()));
            assert(less.filter(keep).push(pages.last()).map_values(with) =~= less.filter(
                keep,
            ).map_values(with).push(with(pages.last())));
        }
    } else {
        assert(new_frames(before, pages, after) =~= pages.filter(keep).map_values(with));
    }
}

/// Every frame whose id is a number is an element, in order: one that nothing can be
/// done with. A frame without such an id is none.
pub proof fn law_frames_are_elements(front: Seq<Node>, frame: Node, back: Seq<Node>)
    ensures
        (frame.node_id matches Some(id) && signed_of(id) is Ok) ==> {
            let element = iframe_elements(seq![frame])[0];
            &&& iframe_elements(front + seq![frame] + back) == iframe_elements(front) + seq![element]
                + iframe_elements(back)
            &&& element.element_id == signed_of(frame.node_id->0)->Ok_0 as i64
            &&& element.description == "an iframe"@
            &&& element.method == "not-supported"@
            &&& element.arguments.len() == 0
        },
        !(frame.node_id matches Some(id) && signed_of(id) is Ok) ==> iframe_elements(
            front + seq![frame] + back,
        ) == iframe_elements(front) + iframe_elements(back),
    decreases back.len(),
{
    let all = front + seq![frame] + back;
    assert(seq![frame].drop_last() =~= Seq::<Node>::empty());
    assert(iframe_elements(Seq::<Node>::empty()) =~= Seq::<ElementModel>::empty());
    let one = iframe_elements(seq![frame]);
    if back.len() == 0 {
        assert(all.drop_last() =~= front);
        assert(all.last() == frame);
        if frame.node_id matches Some(id) && signed_of(id) is Ok {
            assert(iframe_elements(all) =~= iframe_elements(front) + seq![one[0]] + iframe_elements(
                back,
            ));
        } else {
            assert(iframe_elements(front) + iframe_elements(back) =~= iframe_elements(front));
        }
    } else {
        let less = back.drop_last();
        law_frames_are_elements(front, frame, less);
        assert(all.drop_last() =~= front + seq![frame] + less);
        assert(all.last() == back.last());
        if frame.node_id matches Some(id) && signed_of(id) is Ok {
            assert(iframe_elements(all) =~= iframe_elements(front) + seq![one[0]] + iframe_elements(
                back,
            ));
        } else {
            assert(iframe_elements(all) =~= iframe_elements(front) + iframe_elements(back));
        }
    }
}

/// The elements of a reply are those of the list that it is; otherwise those that stand
/// in it as JSON; and none where it is no JSON, which is logged.
pub proof fn law_replies_name_elements(content: Seq<char>, elements: Seq<ElementModel>)
    ensures
        elements_listed(content) == Some(elements) ==> elements_named(content) == elements
            && reply_notes(content).len() == 0,
        elements_listed(content) is None ==> (parsed_json(content) matches Ok(reply)
            ==> elements_named(content) == elements_in(reply) && reply_notes(content).len() == 0),
        elements_listed(content) is None ==> (parsed_json(content) matches Err(why)
            ==> elements_named(content).len() == 0 && reply_notes(content) == seq![
            plain_note(
                LogLevel::Error,
                "observe"@,
                "Failed to parse observe response: "@ + why,
            ),
        ]),
{
}

/// What is logged of an action names its method, and the element that it was for.
pub proof fn law_actions_are_logged(method: Seq<char>, selector: Seq<char>, url: Seq<char>)
    ensures
        done_note(method, selector).message == method + " action complete; checking for navigation"@,
        done_note(method, selector).level == LogLevel::Info,
        done_note(method, selector).category == "act"@,
        done_note(method, selector).auxiliary == Some(
            Json::Members(seq![("selector"@, Json::Text(selector))]),
        ),
        navigated_note(method, selector, url).message == "Navigation detected after "@ + method
            + ": "@ + url,
        navigated_note(method, selector, url).level == LogLevel::Info,
        navigated_note(method, selector, url).auxiliary == Some(
            Json::Members(seq![("selector"@, Json::Text(selector))]),
        ),
{
    let members = crate::json::with_member(
        crate::json::Members::empty(),
        "selector"@,
        Json::Text(selector),
    );
    assert(members =~= seq![("selector"@, Json::Text(selector))]);
}

} // verus!
