//! How the runtime of a browser is addressed and what it keeps.
use crate::browser::RuntimeTargetEvent;
use crate::runtime::{
    asked, endpoint_of, event_pages, launch_args, refusal, runs, with_page, without_page,
    SessionReply, SessionRequest, Targets,
};
use crate::table::without_key;
use crate::text::lower_of;
use vstd::prelude::*;
use vstd::string::*;

verus! {

/// One slash stands between the address of a service and the path behind it, however
/// many there were.
pub proof fn law_one_slash_between(base: Seq<char>, path: Seq<char>)
    requires
        base.len() == 0 || base.last() != '/',
        path.len() == 0 || path[0] != '/',
    ensures
        endpoint_of(base, path) == base + "/"@ + path,
        endpoint_of(base.push('/'), path) == base + "/"@ + path,
        endpoint_of(base, seq!['/'] + path) == base + "/"@ + path,
        endpoint_of(base.push('/').push('/'), seq!['/'] + path) == base + "/"@ + path,
{
    assert(base.push('/').drop_last() =~= base);
    assert(base.push('/').push('/').drop_last() =~= base.push('/'));
    assert((seq!['/'] + path).drop_first() =~= path);
    assert(crate::text::trim_end_char_of(base, '/') == base);
    assert(crate::text::trim_end_char_of(base.push('/'), '/') == base);
    assert(crate::text::trim_end_char_of(base.push('/').push('/'), '/') == base);
    assert(crate::text::trim_start_char_of(path, '/') == path);
    assert(crate::text::trim_start_char_of(seq!['/'] + path, '/') == path);
}

/// A session runs where its status says so, in small or capital letters.
pub proof fn law_running_is_running(status: Seq<char>)
    ensures
        runs(Some(status)) <==> lower_of(status) == "running"@,
        !runs(None),
{
    reveal_strlit("running");
    assert(lower_of("running"@) =~= "running"@);
}

/// A browser is launched with the arguments given, in order, and behind them the
/// language and the time zone where they are named.
pub proof fn law_launch_arguments(
    args: Seq<Seq<char>>,
    locale: Seq<char>,
    timezone: Seq<char>,
)
    ensures
        launch_args(args, locale, timezone).take(args.len() as int) == args,
        locale.len() > 0 ==> launch_args(args, locale, timezone)[args.len() as int] == "--lang="@
            + locale,
        timezone.len() > 0 ==> launch_args(args, locale, timezone).last() == "--timezone="@
            + timezone,
        launch_args(args, locale, timezone).len() == args.len() + (if locale.len() > 0 {
            1nat
        } else {
            0nat
        }) + (if timezone.len() > 0 {
            1nat
        } else {
            0nat
        }),
{
    assert(launch_args(args, locale, timezone).take(args.len() as int) =~= args);
}

/// A reply that gives no session is refused with what was asked and why.
pub proof fn law_refusals_say_why(
    why: String,
    status: String,
    body: String,
    id: String,
)
    ensures
        asked(SessionRequest::Create) == "create session"@,
        asked(SessionRequest::Retrieve(id)) == "retrieve session "@ + id@,
        refusal(SessionReply::Unreachable(why), SessionRequest::Create)
            == "Browserbase session creation failed: "@ + why@,
        refusal(SessionReply::Unreachable(why), SessionRequest::Retrieve(id))
            == "Browserbase session retrieval failed: "@ + why@,
        refusal(SessionReply::Refused { status, body: Some(body) }, SessionRequest::Create)
            == "Browserbase API call to "@ + "create session"@ + " failed ("@ + status@ + "): "@
            + body@,
        refusal(SessionReply::Refused { status, body: None }, SessionRequest::Create)
            == "Browserbase API call to "@ + "create session"@ + " failed ("@ + status@ + "): "@
            + "<unavailable>"@,
        refusal(SessionReply::Unreadable(why), SessionRequest::Create)
            == "failed to parse Browserbase response while attempting to "@ + "create session"@
            + ": "@ + why@,
{
}

/// A page that comes is kept under its id and no other page changes; one that goes is
/// gone and no other page changes.
pub proof fn law_one_page_comes_and_goes<P>(
    targets: Targets<P>,
    id: Seq<char>,
    page: P,
    other: Seq<char>,
)
    ensures
        with_page(targets, id, page).pages.dom().contains(id),
        with_page(targets, id, page).pages[id] == page,
        !without_page(targets, id).pages.dom().contains(id),
        other != id ==> (with_page(targets, id, page).pages.dom().contains(other)
            <==> targets.pages.dom().contains(other)) && (without_page(
            targets,
            id,
        ).pages.dom().contains(other) <==> targets.pages.dom().contains(other)),
        other != id && targets.pages.dom().contains(other) ==> with_page(
            targets,
            id,
            page,
        ).pages[other] == targets.pages[other] && without_page(targets, id).pages[other]
            == targets.pages[other],
        with_page(targets, id, page).sessions == targets.sessions,
        without_page(targets, id).sessions == targets.sessions,
        !targets.pages.dom().contains(id) ==> with_page(targets, id, page).order
            == targets.order.push(id),
        targets.pages.dom().contains(id) ==> with_page(targets, id, page).order == targets.order,
        without_page(targets, id).order == without_key(targets.order, id),
{
}

/// Every event is about its page, in order.
pub proof fn law_events_are_about_pages(events: Seq<RuntimeTargetEvent>, i: int)
    requires
        0 <= i < events.len(),
    ensures
        event_pages(events).len() == events.len(),
        event_pages(events)[i] == (match events[i] {
            RuntimeTargetEvent::Attached { target_id } => target_id@,
            RuntimeTargetEvent::Detached { target_id } => target_id@,
        }),
{
}

} // verus!
