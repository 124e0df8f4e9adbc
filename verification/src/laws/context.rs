//! What happens to the pages of a session, and to the others, when one changes.
use crate::browser::{BrowserRuntimeError, RuntimeTargetEvent};
use crate::context::{injected, order_holds, registered, removed, unframed, Session, Told};
use crate::observe::{law_new_pages_are_the_difference, new_ids};
use crate::page_sync::{
    adopt_tasks, all_done, event_tasks, frames_unsupported, named_frame, open_tasks, task_done,
    task_page, with_named_frame, without_all, without_unlisted, Progress, Task,
};
use crate::table::without_key;
use vstd::prelude::*;

verus! {

/// Taking a key out of a list leaves all others in their order.
pub proof fn law_other_keys_stay_in_order(keys: Seq<Seq<char>>, key: Seq<char>)
    requires
        keys.no_duplicates(),
    ensures
        without_key(keys, key) == keys.filter(|other: Seq<char>| other != key),
    decreases keys.len(),
{
    let keep = |other: Seq<char>| other != key;
    if keys.len() == 0 {
        reveal(Seq::filter);
    } else {
        let rest = keys.skip(1);
        assert(keys =~= seq![keys[0]] + rest);
        assert forall|a: int, b: int| 0 <= a < rest.len() && 0 <= b < rest.len() && a
            != b implies rest[a] != rest[b] by {
            assert(rest[a] == keys[a + 1] && rest[b] == keys[b + 1]);
        }
        Seq::filter_distributes_over_add(seq![keys[0]], rest, keep);
        lemma_filter_one(keys[0], keep);
        if keys[0] == key {
            assert forall|i: int| 0 <= i < rest.len() implies keep(#[trigger] rest[i]) by {
                assert(rest[i] == keys[i + 1]);
            }
            lemma_filter_all(rest, keep);
            assert(Seq::<Seq<char>>::empty() + rest =~= rest);
        } else {
            law_other_keys_stay_in_order(rest, key);
        }
    }
}

proof fn lemma_filter_one(key: Seq<char>, keep: spec_fn(Seq<char>) -> bool)
    ensures
        seq![key].filter(keep) == (if keep(key) {
            seq![key]
        } else {
            Seq::<Seq<char>>::empty()
        }),
{
    reveal(Seq::filter);
    assert(seq![key].drop_last() =~= Seq::<Seq<char>>::empty());
    assert(Seq::<Seq<char>>::empty().filter(keep) =~= Seq::<Seq<char>>::empty());
    assert(Seq::<Seq<char>>::empty().push(key) =~= seq![key]);
}

proof fn lemma_filter_all(keys: Seq<Seq<char>>, keep: spec_fn(Seq<char>) -> bool)
    requires
        forall|i: int| 0 <= i < keys.len() ==> keep(#[trigger] keys[i]),
    ensures
        keys.filter(keep) == keys,
    decreases keys.len(),
{
    reveal(Seq::filter);
    if keys.len() > 0 {
        let less = keys.drop_last();
        assert forall|i: int| 0 <= i < less.len() implies keep(#[trigger] less[i]) by {
            assert(less[i] == keys[i]);
        }
        lemma_filter_all(less, keep);
        assert(keep(keys[keys.len() - 1]));
        assert(less.push(keys.last()) =~= keys);
    }
}

/// Making a page known changes no other page, nor which page is active, nor the script.
/// A page that was known keeps what it is, but for its frame where one is given.
pub proof fn law_making_a_page_known(
    session: Session,
    id: Seq<char>,
    frame: Option<Seq<char>>,
    other: Seq<char>,
)
    ensures
        ({
            let after = registered(session, id, frame);
            &&& after.pages.dom().contains(id)
            &&& after.active == session.active
            &&& after.script == session.script
            &&& other != id ==> (after.pages.dom().contains(other) <==> session.pages.dom().contains(
                other,
            )) && after.pages[other] == session.pages[other]
            &&& session.pages.dom().contains(id) ==> after.order == session.order
                && after.pages[id].injected == session.pages[id].injected
            &&& !session.pages.dom().contains(id) ==> after.order == session.order.push(id)
                && !after.pages[id].injected && after.pages[id].id == id && after.pages[id].frame
                == frame
            &&& frame is Some ==> after.pages[id].frame == frame
            &&& session.pages.dom().contains(id) && frame is None ==> after.pages[id].frame
                == session.pages[id].frame
        }),
{
}

/// A page that shows a frame is found by it; the frame that it showed before leads to it
/// no longer, and every other frame leads where it led.
pub proof fn law_frames_lead_to_pages(
    session: Session,
    id: Seq<char>,
    frame: Seq<char>,
    other: Seq<char>,
)
    requires
        session.pages.dom().contains(id) ==> session.pages[id].id == id,
    ensures
        ({
            let after = registered(session, id, Some(frame));
            &&& after.frames.dom().contains(frame) && after.frames[frame] == id
            &&& other != frame && !(session.pages.dom().contains(id) && session.pages[id].frame
                == Some(other)) ==> (after.frames.dom().contains(other)
                <==> session.frames.dom().contains(other)) && (session.frames.dom().contains(other)
                ==> after.frames[other] == session.frames[other])
            &&& other != frame && session.pages.dom().contains(id) && session.pages[id].frame
                == Some(other) ==> !after.frames.dom().contains(other)
        }),
        registered(session, id, None).frames == session.frames,
{
}

/// Taking a page out changes no other page; the frame it showed leads nowhere, and no
/// page is active where it was.
pub proof fn law_taking_a_page_out(session: Session, id: Seq<char>, other: Seq<char>)
    ensures
        ({
            let after = removed(session, id);
            &&& !after.pages.dom().contains(id)
            &&& after.script == session.script
            &&& other != id ==> (after.pages.dom().contains(other) <==> session.pages.dom().contains(
                other,
            )) && (session.pages.dom().contains(other) ==> after.pages[other]
                == session.pages[other])
            &&& session.active != Some(id) ==> after.active == session.active
            &&& session.pages.dom().contains(id) && session.active == Some(id) ==> after.active
                is None
            &&& session.pages.dom().contains(id) ==> after.order == without_key(session.order, id)
            &&& !session.pages.dom().contains(id) ==> after == session
            &&& session.pages.dom().contains(id) && session.pages[id].frame != Some(other) ==> (
            after.frames.dom().contains(other) <==> session.frames.dom().contains(other)) && (
            session.frames.dom().contains(other) ==> after.frames[other] == session.frames[other])
            &&& session.pages.dom().contains(id) && session.pages[id].frame == Some(other)
                ==> !after.frames.dom().contains(other)
        }),
{
}

/// Forgetting a frame changes no other frame and no page but the one that showed it,
/// which is still known.
pub proof fn law_forgetting_a_frame(session: Session, frame: Seq<char>, other: Seq<char>)
    ensures
        ({
            let after = unframed(session, frame);
            &&& !after.frames.dom().contains(frame)
            &&& other != frame ==> (after.frames.dom().contains(other)
                <==> session.frames.dom().contains(other)) && (session.frames.dom().contains(other)
                ==> after.frames[other] == session.frames[other])
            &&& after.order == session.order
            &&& after.active == session.active
            &&& after.script == session.script
            &&& after.pages.dom() == session.pages.dom()
            &&& session.pages.dom().contains(other) && !(session.frames.dom().contains(frame)
                && session.frames[frame] == other) ==> after.pages[other] == session.pages[other]
            &&& session.pages.dom().contains(other) ==> after.pages[other].injected
                == session.pages[other].injected && after.pages[other].id == session.pages[other].id
            &&& session.frames.dom().contains(frame) && session.frames[frame] == other
                && session.pages.dom().contains(other) && session.pages[other].frame == Some(frame)
                ==> after.pages[other].frame is None
        }),
{
    assert(unframed(session, frame).pages.dom() =~= session.pages.dom());
}

/// The script goes into one page, and nothing else changes.
pub proof fn law_script_goes_into_one_page(session: Session, id: Seq<char>, other: Seq<char>)
    requires
        session.pages.dom().contains(id),
    ensures
        ({
            let after = injected(session, id);
            &&& after.pages[id].injected
            &&& after.pages[id].id == session.pages[id].id
            &&& after.pages[id].frame == session.pages[id].frame
            &&& after.pages.dom() == session.pages.dom()
            &&& other != id ==> after.pages[other] == session.pages[other]
            &&& after.order == session.order
            &&& after.frames == session.frames
            &&& after.active == session.active
        }),
{
    assert(injected(session, id).pages.dom() =~= session.pages.dom());
}

/// A page that came is known, has the script and is active, and its frame is asked for;
/// all other pages stay as they were.
pub proof fn law_page_that_came(at: Progress, id: Seq<char>, other: Seq<char>)
    ensures
        ({
            let after = task_done(at, Task::Attached(id));
            &&& after.session.pages.dom().contains(id)
            &&& after.session.pages[id].injected
            &&& after.session.active == Some(id)
            &&& after.frames == at.frames.push(id)
            &&& after.told.contains(Told::Active(id))
            &&& other != id ==> (after.session.pages.dom().contains(other)
                <==> at.session.pages.dom().contains(other)) && after.session.pages[other]
                == at.session.pages[other]
        }),
{
    let after = task_done(at, Task::Attached(id));
    assert(after.told[after.told.len() - 2] == Told::Active(id));
}

/// A page that went is no longer known. Where it was active, the first page left is
/// active; where another was, that stays active.
pub proof fn law_page_that_went(at: Progress, id: Seq<char>, other: Seq<char>)
    ensures
        ({
            let after = task_done(at, Task::Detached(id));
            let left = without_key(at.session.order, id);
            &&& !after.session.pages.dom().contains(id)
            &&& after.frames == at.frames
            &&& other != id ==> (after.session.pages.dom().contains(other)
                <==> at.session.pages.dom().contains(other)) && (at.session.pages.dom().contains(
                other,
            ) ==> after.session.pages[other] == at.session.pages[other])
            &&& at.session.active is Some && at.session.active != Some(id)
                ==> after.session.active == at.session.active && after.told == at.told
            &&& at.session.pages.dom().contains(id) && at.session.active == Some(id) && left.len()
                > 0 ==> after.session.active == Some(left[0])
            &&& at.session.pages.dom().contains(id) && at.session.active == Some(id) && left.len()
                == 0 ==> after.session.active is None
        }),
{
}

/// A page that is listed and already known changes nothing; one that is not known
/// becomes known and has the script, and is active only where none was.
pub proof fn law_page_that_is_listed(at: Progress, id: Seq<char>)
    ensures
        ({
            let after = task_done(at, Task::Adopt(id));
            &&& at.session.pages.dom().contains(id) ==> after == at
            &&& !at.session.pages.dom().contains(id) ==> {
                &&& after.session.pages.dom().contains(id)
                &&& after.session.pages[id].injected
                &&& after.frames == at.frames.push(id)
                &&& at.session.active is None ==> after.session.active == Some(id)
                &&& at.session.active is Some ==> after.session.active == at.session.active
            }
        }),
{
}

/// A page that was there at the start is known and has the script; it is active only
/// where no known page was, and its frame is not asked for.
pub proof fn law_page_at_the_start(at: Progress, id: Seq<char>)
    ensures
        ({
            let after = task_done(at, Task::Open(id));
            &&& after.session.pages.dom().contains(id)
            &&& after.session.pages[id].injected
            &&& after.frames == at.frames
            &&& (at.session.active matches Some(active) && at.session.pages.dom().contains(active))
                ==> after.session.active == at.session.active
            &&& at.session.active is None ==> after.session.active == Some(id)
        }),
{
}

proof fn lemma_task_keeps_pages(at: Progress, task: Task, id: Seq<char>)
    requires
        !(task is Detached),
        at.session.pages.dom().contains(id) && at.session.pages[id].injected,
    ensures
        task_done(at, task).session.pages.dom().contains(id),
        task_done(at, task).session.pages[id].injected,
{
}

proof fn lemma_tasks_keep_pages(at: Progress, tasks: Seq<Task>, id: Seq<char>)
    requires
        forall|k: int| 0 <= k < tasks.len() ==> !((#[trigger] tasks[k]) is Detached),
        at.session.pages.dom().contains(id) && at.session.pages[id].injected,
    ensures
        all_done(at, tasks).session.pages.dom().contains(id),
        all_done(at, tasks).session.pages[id].injected,
    decreases tasks.len(),
{
    if tasks.len() > 0 {
        let rest = tasks.skip(1);
        assert(!(tasks[0] is Detached));
        assert forall|k: int| 0 <= k < rest.len() implies !((#[trigger] rest[k]) is Detached) by {
            assert(rest[k] == tasks[k + 1]);
        }
        lemma_task_keeps_pages(at, tasks[0], id);
        lemma_tasks_keep_pages(task_done(at, tasks[0]), rest, id);
    }
}

/// All pages that come or were there at the start are known in the end and have the
/// script, however many there are, unless one goes again.
pub proof fn law_every_page_gets_the_script(at: Progress, tasks: Seq<Task>, i: int)
    requires
        forall|k: int| 0 <= k < tasks.len() ==> !((#[trigger] tasks[k]) is Detached),
        0 <= i < tasks.len(),
        tasks[i] is Attached || tasks[i] is Open,
    ensures
        all_done(at, tasks).session.pages.dom().contains(task_page(tasks[i])),
        all_done(at, tasks).session.pages[task_page(tasks[i])].injected,
    decreases tasks.len(),
{
    let rest = tasks.skip(1);
    let next = task_done(at, tasks[0]);
    assert forall|k: int| 0 <= k < rest.len() implies !((#[trigger] rest[k]) is Detached) by {
        assert(rest[k] == tasks[k + 1]);
    }
    if i == 0 {
        lemma_tasks_keep_pages(next, rest, task_page(tasks[0]));
    } else {
        assert(rest[i - 1] == tasks[i]);
        law_every_page_gets_the_script(next, rest, i - 1);
    }
}

/// Every event is one task, in order: a page that came or a page that went.
pub proof fn law_every_event_is_a_task(events: Seq<RuntimeTargetEvent>, i: int)
    requires
        0 <= i < events.len(),
    ensures
        event_tasks(events).len() == events.len(),
        events[i] matches RuntimeTargetEvent::Attached { target_id } ==> event_tasks(events)[i]
            == Task::Attached(target_id@),
        events[i] matches RuntimeTargetEvent::Detached { target_id } ==> event_tasks(events)[i]
            == Task::Detached(target_id@),
{
}

/// Every listed page is one task, in order.
pub proof fn law_every_page_is_a_task(ids: Seq<Seq<char>>, i: int)
    requires
        0 <= i < ids.len(),
    ensures
        open_tasks(ids).len() == ids.len() && open_tasks(ids)[i] == Task::Open(ids[i]),
        adopt_tasks(ids).len() == ids.len() && adopt_tasks(ids)[i] == Task::Adopt(ids[i]),
{
}

proof fn lemma_without_all(session: Session, ids: Seq<Seq<char>>, id: Seq<char>)
    ensures
        without_all(session, ids).pages.dom().contains(id) <==> session.pages.dom().contains(id)
            && !ids.contains(id),
        session.pages.dom().contains(id) && !ids.contains(id) ==> without_all(
            session,
            ids,
        ).pages[id] == session.pages[id],
    decreases ids.len(),
{
    if ids.len() > 0 {
        let less = ids.drop_last();
        lemma_without_all(session, less, id);
        if less.contains(id) {
            let k = choose|k: int| 0 <= k < less.len() && less[k] == id;
            assert(ids[k] == id);
        }
        if ids.contains(id) {
            let k = choose|k: int| 0 <= k < ids.len() && ids[k] == id;
            if k < less.len() {
                assert(less[k] == id);
            }
        }
        assert(ids[ids.len() - 1] == ids.last());
    }
}

/// Of the known pages just those that are listed stay, as they were.
pub proof fn law_listed_pages_stay(session: Session, listed: Seq<Seq<char>>, id: Seq<char>)
    requires
        order_holds(session),
    ensures
        without_unlisted(session, listed).pages.dom().contains(id)
            <==> session.pages.dom().contains(id) && listed.contains(id),
        session.pages.dom().contains(id) && listed.contains(id) ==> without_unlisted(
            session,
            listed,
        ).pages[id] == session.pages[id],
{
    law_new_pages_are_the_difference(listed, session.order);
    let gone = new_ids(listed, session.order);
    lemma_without_all(session, gone, id);
    assert(gone.contains(id) <==> session.order.contains(id) && !listed.contains(id));
    assert(session.order.contains(id) <==> session.pages.dom().contains(id));
}

/// A browser that does not name frames, or was not started, is no fault; a failure is, and
/// names no frame.
pub proof fn law_nameless_frames_are_no_fault(error: BrowserRuntimeError)
    ensures
        error == BrowserRuntimeError::NotInitialized ==> frames_unsupported(error),
        error matches BrowserRuntimeError::Unsupported(_) ==> frames_unsupported(error),
        error matches BrowserRuntimeError::Message(_) ==> !frames_unsupported(error),
        named_frame(Err(error)) is None,
        named_frame(Ok(None)) is None,
{
}

/// The frame that a browser names is the one that is heard.
pub proof fn law_named_frame_is_heard(frame: String)
    ensures
        named_frame(Ok(Some(frame))) == Some(frame@),
{
}

/// A frame that a page names becomes its frame, where the page is known and showed
/// another; otherwise nothing changes.
pub proof fn law_named_frame_is_kept(session: Session, id: Seq<char>, frame: Seq<char>)
    ensures
        session.pages.dom().contains(id) ==> with_named_frame(session, id, Some(frame)).pages[id].frame
            == Some(frame),
        !session.pages.dom().contains(id) ==> with_named_frame(session, id, Some(frame))
            == session,
        session.pages.dom().contains(id) && session.pages[id].frame == Some(frame)
            ==> with_named_frame(session, id, Some(frame)) == session,
        with_named_frame(session, id, None) == session,
{
}

} // verus!
