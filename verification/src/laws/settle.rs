//! What reports, sweeps and lists of them do to the requests under way.
use crate::json::{with_member, Json, Members};
use crate::logging::LogLevel;
use crate::settle::{
    law_report_keeps_watch, law_sweep_clears_stalled, reported, stalled_notes, swept, watch_holds,
    DomSettledEvent, Report, RequestKind, Watch, DEFAULT_SETTLE_TIMEOUT_MS, QUIET_WINDOW_MS,
    STALL_THRESHOLD_MS,
};
use crate::text::begins_with;
use vstd::prelude::*;
use vstd::string::*;

verus! {

/// Whether a request is under way in both watches, with the same address and start,
/// or in neither.
pub open spec fn same_request(before: Watch, after: Watch, id: Seq<char>) -> bool {
    &&& before.inflight.dom().contains(id) == after.inflight.dom().contains(id)
    &&& before.inflight.dom().contains(id) ==> before.inflight[id] == after.inflight[id]
}

/// Whether a frame has the same document request in both watches, or in neither.
pub open spec fn same_document(before: Watch, after: Watch, frame: Seq<char>) -> bool {
    &&& before.docs.dom().contains(frame) == after.docs.dom().contains(frame)
    &&& before.docs.dom().contains(frame) ==> before.docs[frame] == after.docs[frame]
}

/// A report that a request finished, failed or came from the cache ends that request
/// and no other. Frames whose document is another request keep it.
pub proof fn law_finish_ends_one_request(watch: Watch, id: Seq<char>, now: u64)
    ensures
        ({
            let after = reported(watch, Report::Finished(id), now);
            &&& !after.inflight.dom().contains(id)
            &&& forall|other: Seq<char>|
                other != id ==> #[trigger] same_request(watch, after, other)
            &&& forall|frame: Seq<char>| #[trigger]
                after.docs.dom().contains(frame) ==> after.docs[frame] != id
            &&& forall|frame: Seq<char>|
                watch.docs.dom().contains(frame) && watch.docs[frame] != id
                    ==> #[trigger] same_document(watch, after, frame)
        }),
{
}

/// A request that is sent is under way from then on, with its address and start, and
/// the quiet time does not run. No other request changes. The request for the
/// document of a frame is that frame's document; no other frame changes.
pub proof fn law_sent_request_is_under_way(
    watch: Watch,
    id: Seq<char>,
    url: Seq<char>,
    kind: RequestKind,
    frame_id: Option<Seq<char>>,
    now: u64,
)
    requires
        kind == RequestKind::Document || kind == RequestKind::Other,
    ensures
        ({
            let after = reported(watch, Report::Sent { request_id: id, url, kind, frame_id }, now);
            &&& after.inflight.dom().contains(id)
            &&& after.inflight[id] == (url, now)
            &&& after.quiet_since is None
            &&& forall|other: Seq<char>|
                other != id ==> #[trigger] same_request(watch, after, other)
            &&& kind == RequestKind::Document ==> (frame_id matches Some(frame)
                ==> after.docs.dom().contains(frame) && after.docs[frame] == id)
            &&& forall|frame: Seq<char>|
                (kind != RequestKind::Document || frame_id != Some(frame))
                    ==> #[trigger] same_document(watch, after, frame)
        }),
{
}

/// Connections that stay open change nothing.
pub proof fn law_open_connections_do_not_count(
    watch: Watch,
    id: Seq<char>,
    url: Seq<char>,
    frame_id: Option<Seq<char>>,
    now: u64,
)
    ensures
        reported(
            watch,
            Report::Sent { request_id: id, url, kind: RequestKind::WebSocket, frame_id },
            now,
        ) == watch,
        reported(
            watch,
            Report::Sent { request_id: id, url, kind: RequestKind::EventSource, frame_id },
            now,
        ) == watch,
{
}

/// A response ends its request where it is inline data; otherwise no request
/// changes. It never changes another request.
pub proof fn law_response_ends_inline_data(watch: Watch, id: Seq<char>, url: Seq<char>, now: u64)
    ensures
        ({
            let after = reported(watch, Report::Received { request_id: id, url }, now);
            &&& begins_with(url, "data:"@) ==> !after.inflight.dom().contains(id)
            &&& !begins_with(url, "data:"@) ==> same_request(watch, after, id)
            &&& forall|other: Seq<char>|
                other != id ==> #[trigger] same_request(watch, after, other)
        }),
{
}

/// A frame that stops ends its document request and no other; where it has none, no
/// request changes. It has no document afterwards.
pub proof fn law_stopped_frame_ends_its_document(watch: Watch, frame: Seq<char>, now: u64)
    ensures
        ({
            let after = reported(watch, Report::Stopped(frame), now);
            &&& !after.docs.dom().contains(frame)
            &&& watch.docs.dom().contains(frame) ==> !after.inflight.dom().contains(
                watch.docs[frame],
            )
            &&& forall|other: Seq<char>|
                !(watch.docs.dom().contains(frame) && watch.docs[frame] == other)
                    ==> #[trigger] same_request(watch, after, other)
            &&& forall|other: Seq<char>|
                other != frame && !(watch.docs.dom().contains(frame) && watch.docs.dom().contains(
                    other,
                ) && watch.docs[other] == watch.docs[frame]) ==> #[trigger] same_document(
                    watch,
                    after,
                    other,
                )
        }),
{
}

/// A sweep ends exactly the requests that began more than two seconds ago; the
/// others stay as they are.
pub proof fn law_sweep_spares_young_requests(watch: Watch, now: u64)
    ensures
        ({
            let after = swept(watch, now);
            &&& forall|id: Seq<char>| #[trigger]
                after.inflight.dom().contains(id) <==> watch.inflight.dom().contains(id) && now
                    <= watch.inflight[id].1 + 2000
            &&& forall|id: Seq<char>| #[trigger]
                after.inflight.dom().contains(id) ==> after.inflight[id] == watch.inflight[id]
        }),
{
    let after = swept(watch, now);
    let young = Map::new(
        |id: Seq<char>|
            watch.inflight.dom().contains(id) && !crate::settle::is_stalled(watch, id, now),
        |id: Seq<char>| watch.inflight[id],
    );
    if young == watch.inflight {
        assert forall|id: Seq<char>| watch.inflight.dom().contains(id) implies now
            <= watch.inflight[id].1 + 2000 by {
            assert(young.dom().contains(id));
        }
    }
}

/// The quiet time begins with the report after which no request is under way, and a
/// later report that starts none does not begin it anew.
pub proof fn law_quiet_time_begins_once(watch: Watch, report: Report, now: u64)
    requires
        watch_holds(watch),
    ensures
        ({
            let after = reported(watch, report, now);
            after.quiet_since matches Some(since) ==> since == (match watch.quiet_since {
                Some(earlier) => earlier,
                None => now,
            })
        }),
{
    let nothing = Map::<Seq<char>, (Seq<char>, u64)>::empty();
    if watch.quiet_since is Some {
        assert forall|frame: Seq<char>| !(#[trigger] watch.docs.dom().contains(frame)) by {
            if watch.docs.dom().contains(frame) {
                assert(nothing.dom().contains(watch.docs[frame]));
            }
        }
    }
}

/// What happens to a watch: a report, or a sweep where there is none.
pub type Step = (Option<Report>, u64);

/// A watch after one thing has happened.
pub open spec fn stepped(watch: Watch, step: Step) -> Watch {
    match step.0 {
        Some(report) => reported(watch, report, step.1),
        None => swept(watch, step.1),
    }
}

/// A watch after several things have happened, one after the other.
pub open spec fn stepped_through(watch: Watch, steps: Seq<Step>) -> Watch
    decreases steps.len(),
{
    if steps.len() == 0 {
        watch
    } else {
        stepped(stepped_through(watch, steps.drop_last()), steps.last())
    }
}

/// Whether a report says that a request was sent.
pub open spec fn is_sent(step: Step, id: Seq<char>) -> bool {
    step.0 matches Some(Report::Sent { request_id, .. }) && request_id == id
}

/// Whether something may end a request of a frame that began at `start`, or send it
/// again.
pub open spec fn may_end(step: Step, id: Seq<char>, frame_id: Option<Seq<char>>, start: u64) -> bool {
    match step.0 {
        Some(Report::Sent { request_id, .. }) => request_id == id,
        Some(Report::Finished(request_id)) => request_id == id,
        Some(Report::Received { request_id, url }) => request_id == id && begins_with(
            url,
            "data:"@,
        ),
        Some(Report::Stopped(frame)) => frame_id == Some(frame),
        None => step.1 > start + 2000,
    }
}

proof fn lemma_stepped_holds(watch: Watch, steps: Seq<Step>)
    requires
        watch_holds(watch),
    ensures
        watch_holds(stepped_through(watch, steps)),
    decreases steps.len(),
{
    if steps.len() > 0 {
        lemma_stepped_holds(watch, steps.drop_last());
        let before = stepped_through(watch, steps.drop_last());
        match steps.last().0 {
            Some(report) => law_report_keeps_watch(before, report, steps.last().1),
            None => law_sweep_clears_stalled(before, steps.last().1),
        }
    }
}

proof fn lemma_not_sent_not_there(watch: Watch, steps: Seq<Step>, id: Seq<char>)
    requires
        watch_holds(watch),
        !watch.inflight.dom().contains(id),
        forall|j: int| 0 <= j < steps.len() ==> !is_sent(#[trigger] steps[j], id),
    ensures
        !stepped_through(watch, steps).inflight.dom().contains(id),
    decreases steps.len(),
{
    if steps.len() > 0 {
        let less = steps.drop_last();
        assert forall|j: int| 0 <= j < less.len() implies !is_sent(#[trigger] less[j], id) by {
            assert(steps[j] == less[j]);
        }
        lemma_not_sent_not_there(watch, less, id);
        let before = stepped_through(watch, less);
        assert(!is_sent(steps[steps.len() - 1], id));
        match steps.last().0 {
            Some(report) => {},
            None => law_sweep_spares_young_requests(before, steps.last().1),
        }
    }
}

/// A request that was sent is under way, with its address and start, as long as it
/// has not finished, failed, come from the cache or as inline data, its frame has not
/// stopped, it has not been swept and it has not been sent again. The quiet time does
/// not run meanwhile, whatever else is reported.
pub proof fn law_request_stays_under_way(
    watch: Watch,
    steps: Seq<Step>,
    k: int,
    id: Seq<char>,
    url: Seq<char>,
    kind: RequestKind,
    frame_id: Option<Seq<char>>,
)
    requires
        watch_holds(watch),
        !watch.inflight.dom().contains(id),
        0 <= k < steps.len(),
        kind == RequestKind::Document || kind == RequestKind::Other,
        steps[k].0 == Some(Report::Sent { request_id: id, url, kind, frame_id }),
        forall|j: int| 0 <= j < k ==> !is_sent(#[trigger] steps[j], id),
        forall|j: int|
            k < j < steps.len() ==> !may_end(#[trigger] steps[j], id, frame_id, steps[k].1),
    ensures
        stepped_through(watch, steps).inflight.dom().contains(id),
        stepped_through(watch, steps).inflight[id] == (url, steps[k].1),
        stepped_through(watch, steps).quiet_since is None,
        forall|frame: Seq<char>| #[trigger]
            stepped_through(watch, steps).docs.dom().contains(frame) && stepped_through(
                watch,
                steps,
            ).docs[frame] == id ==> frame_id == Some(frame),
    decreases steps.len(),
{
    let less = steps.drop_last();
    let before = stepped_through(watch, less);
    let after = stepped_through(watch, steps);
    lemma_stepped_holds(watch, less);
    lemma_stepped_holds(watch, steps);
    if k == steps.len() - 1 {
        assert forall|j: int| 0 <= j < less.len() implies !is_sent(#[trigger] less[j], id) by {
            assert(steps[j] == less[j]);
        }
        lemma_not_sent_not_there(watch, less, id);
        assert forall|frame: Seq<char>| #[trigger]
            after.docs.dom().contains(frame) && after.docs[frame] == id implies frame_id == Some(
            frame,
        ) by {
            if frame_id != Some(frame) {
                assert(before.docs.dom().contains(frame));
            }
        }
    } else {
        assert(less[k] == steps[k]);
        assert forall|j: int| 0 <= j < k implies !is_sent(#[trigger] less[j], id) by {
            assert(steps[j] == less[j]);
        }
        assert forall|j: int| k < j < less.len() implies !may_end(
            #[trigger] less[j],
            id,
            frame_id,
            steps[k].1,
        ) by {
            assert(steps[j] == less[j]);
        }
        law_request_stays_under_way(watch, less, k, id, url, kind, frame_id);
        let last = steps[steps.len() - 1];
        assert(!may_end(last, id, frame_id, steps[k].1));
        match last.0 {
            Some(report) => {},
            None => law_sweep_spares_young_requests(before, last.1),
        }
        assert(after.inflight.dom().contains(id));
        assert forall|frame: Seq<char>| #[trigger]
            after.docs.dom().contains(frame) && after.docs[frame] == id implies frame_id == Some(
            frame,
        ) by {
            assert(before.docs.dom().contains(frame) && before.docs[frame] == id);
        }
    }
}

/// A request that has finished, failed or come from the cache is no longer under way
/// until it is sent again.
pub proof fn law_finished_request_is_gone(watch: Watch, steps: Seq<Step>, k: int, id: Seq<char>)
    requires
        watch_holds(watch),
        0 <= k < steps.len(),
        steps[k].0 == Some(Report::Finished(id)),
        forall|j: int| k < j < steps.len() ==> !is_sent(#[trigger] steps[j], id),
    ensures
        !stepped_through(watch, steps).inflight.dom().contains(id),
    decreases steps.len(),
{
    let less = steps.drop_last();
    if k < steps.len() - 1 {
        assert(less[k] == steps[k]);
        assert forall|j: int| k < j < less.len() implies !is_sent(#[trigger] less[j], id) by {
            assert(steps[j] == less[j]);
        }
        law_finished_request_is_gone(watch, less, k, id);
        let before = stepped_through(watch, less);
        assert(!is_sent(steps[steps.len() - 1], id));
        match steps.last().0 {
            Some(report) => {},
            None => law_sweep_spares_young_requests(before, steps.last().1),
        }
    }
}

/// Quiet begins as soon as nothing is under way: with the report that ends the last
/// request, and with the sweep that gives it up.
pub proof fn law_quiet_begins_with_the_last_request(watch: Watch, report: Report, now: u64)
    requires
        !(report is Sent),
    ensures
        reported(watch, report, now).inflight == Map::<Seq<char>, (Seq<char>, u64)>::empty()
            ==> reported(watch, report, now).quiet_since is Some,
        watch.inflight != Map::<Seq<char>, (Seq<char>, u64)>::empty() && swept(watch, now).inflight
            == Map::<Seq<char>, (Seq<char>, u64)>::empty() ==> swept(watch, now).quiet_since
            == Some(now),
        swept(watch, now).inflight == watch.inflight ==> swept(watch, now) == watch,
{
    let young = Map::new(
        |id: Seq<char>|
            watch.inflight.dom().contains(id) && !crate::settle::is_stalled(watch, id, now),
        |id: Seq<char>| watch.inflight[id],
    );
    if young != watch.inflight {
        assert(swept(watch, now).inflight == young);
    }
}

/// A request that failed or came from the cache has ended as one that was loaded has.
pub proof fn law_every_end_is_an_end(id: String, url: String)
    ensures
        DomSettledEvent::LoadingFinished(id)@ == Report::Finished(id@),
        DomSettledEvent::LoadingFailed(id)@ == Report::Finished(id@),
        DomSettledEvent::RequestServedFromCache(id)@ == Report::Finished(id@),
        DomSettledEvent::FrameStopped(id)@ == Report::Stopped(id@),
        (DomSettledEvent::ResponseReceived { request_id: id, url })@ == (Report::Received {
            request_id: id@,
            url: url@,
        }),
{
}

/// Every request that is given up is logged with its address.
pub proof fn law_given_up_requests_are_logged(watch: Watch, ids: Seq<Seq<char>>, i: int)
    requires
        0 <= i < ids.len(),
    ensures
        stalled_notes(watch, ids).len() == ids.len(),
        stalled_notes(watch, ids)[i].level == LogLevel::Debug,
        stalled_notes(watch, ids)[i].category == "dom-settle"@,
        stalled_notes(watch, ids)[i].message == "forcing completion of stalled request"@,
        stalled_notes(watch, ids)[i].auxiliary == Some(
            Json::Members(seq![("url"@, Json::Text(watch.inflight[ids[i]].0))]),
        ),
{
    let members = with_member(
        Members::empty(),
        "url"@,
        Json::Text(watch.inflight[ids[i]].0),
    );
    assert(members =~= seq![("url"@, Json::Text(watch.inflight[ids[i]].0))]);
}

/// A page is quiet after half a second, a request is given up after two seconds, and
/// a wait without a limit of its own ends after thirty.
pub proof fn law_settle_times()
    ensures
        QUIET_WINDOW_MS == 500,
        STALL_THRESHOLD_MS == 2000,
        DEFAULT_SETTLE_TIMEOUT_MS == 30_000,
{
}

} // verus!
