//! When a page has settled: no request has been under way for a while.
use crate::a11y::text_map;
use crate::logging::{
    beside, note_models, note_plain, plain_note, put_beside, LogLevel, Note, NoteModel,
};
use crate::table::Table;
use crate::text::{begins_with, decimal, opt_view, starts_with, str_eq, u64_text};
use vstd::prelude::*;
use vstd::string::*;

verus! {

/// How long, in milliseconds, no request may be under way.
pub const QUIET_WINDOW_MS: u64 = 500;

/// How long, in milliseconds, a request may take before it no longer counts.
pub const STALL_THRESHOLD_MS: u64 = 2000;

/// How long, in milliseconds, to wait where nothing else is configured.
pub const DEFAULT_SETTLE_TIMEOUT_MS: u64 = 30000;

/// The kinds of requests that are told apart.
#[derive(Clone, Copy, Debug, PartialEq, Eq, Structural)]
pub enum RequestKind {
    Document,
    WebSocket,
    EventSource,
    Other,
}

/// A request that is under way.
#[derive(Debug)]
pub struct RequestMeta {
    pub url: String,
    pub started_at_ms: u64,
}

/// What the browser reports about requests and frames.
#[derive(Debug)]
pub enum DomSettledEvent {
    RequestWillBeSent {
        request_id: String,
        url: String,
        kind: RequestKind,
        frame_id: Option<String>,
    },
    LoadingFinished(String),
    LoadingFailed(String),
    RequestServedFromCache(String),
    ResponseReceived { request_id: String, url: String },
    FrameStopped(String),
}

/// What a report stands for.
pub enum Report {
    Sent {
        request_id: Seq<char>,
        url: Seq<char>,
        kind: RequestKind,
        frame_id: Option<Seq<char>>,
    },
    Finished(Seq<char>),
    Received { request_id: Seq<char>, url: Seq<char> },
    Stopped(Seq<char>),
}

impl View for DomSettledEvent {
    type V = Report;

    open spec fn view(&self) -> Report {
        match self {
            DomSettledEvent::RequestWillBeSent { request_id, url, kind, frame_id } => Report::Sent {
                request_id: request_id@,
                url: url@,
                kind: *kind,
                frame_id: opt_view(*frame_id),
            },
            DomSettledEvent::LoadingFinished(id) => Report::Finished(id@),
            DomSettledEvent::LoadingFailed(id) => Report::Finished(id@),
            DomSettledEvent::RequestServedFromCache(id) => Report::Finished(id@),
            DomSettledEvent::ResponseReceived { request_id, url } => Report::Received {
                request_id: request_id@,
                url: url@,
            },
            DomSettledEvent::FrameStopped(id) => Report::Stopped(id@),
        }
    }
}

/// A watch over the requests of a page.
#[derive(Debug)]
pub struct DomSettle {
    inflight: Table<RequestMeta>,
    doc_by_frame: Table<String>,
    quiet_since: Option<u64>,
}

/// What a watch stands for: the requests under way with their address and start,
/// the document request of each frame, and since when it has been quiet.
#[verifier::ext_equal]
pub struct Watch {
    pub inflight: Map<Seq<char>, (Seq<char>, u64)>,
    pub docs: Map<Seq<char>, Seq<char>>,
    pub quiet_since: Option<u64>,
}

/// The requests of a table.
pub open spec fn meta_map(requests: Map<Seq<char>, RequestMeta>) -> Map<
    Seq<char>,
    (Seq<char>, u64),
> {
    requests.map_values(|meta: RequestMeta| (meta.url@, meta.started_at_ms))
}

impl View for DomSettle {
    type V = Watch;

    closed spec fn view(&self) -> Watch {
        Watch {
            inflight: meta_map(self.inflight@),
            docs: text_map(self.doc_by_frame@),
            quiet_since: self.quiet_since,
        }
    }
}

/// A watch whose quiet time begins at `now`, unless it is running or a request
/// is under way.
pub open spec fn quieted(watch: Watch, now: u64) -> Watch {
    if watch.inflight == Map::<Seq<char>, (Seq<char>, u64)>::empty() && watch.quiet_since is None {
        Watch { quiet_since: Some(now), ..watch }
    } else {
        watch
    }
}

/// The frames whose document request is not `request_id`.
pub open spec fn docs_without(docs: Map<Seq<char>, Seq<char>>, request_id: Seq<char>) -> Map<
    Seq<char>,
    Seq<char>,
> {
    Map::new(
        |frame: Seq<char>| docs.dom().contains(frame) && docs[frame] != request_id,
        |frame: Seq<char>| docs[frame],
    )
}

/// A watch after a request has come to its end.
pub open spec fn finished(watch: Watch, request_id: Seq<char>, now: u64) -> Watch {
    quieted(
        Watch {
            inflight: watch.inflight.remove(request_id),
            docs: docs_without(watch.docs, request_id),
            quiet_since: if watch.inflight.dom().contains(request_id) {
                None
            } else {
                watch.quiet_since
            },
        },
        now,
    )
}

/// A watch after a report.
pub open spec fn reported(watch: Watch, report: Report, now: u64) -> Watch {
    match report {
        Report::Sent { request_id, url, kind, frame_id } => {
            if kind == RequestKind::WebSocket || kind == RequestKind::EventSource {
                watch
            } else {
                Watch {
                    inflight: watch.inflight.insert(request_id, (url, now)),
                    docs: match frame_id {
                        Some(frame) if kind == RequestKind::Document => watch.docs.insert(
                            frame,
                            request_id,
                        ),
                        _ => watch.docs,
                    },
                    quiet_since: None,
                }
            }
        },
        Report::Finished(id) => finished(watch, id, now),
        Report::Received { request_id, url } => {
            if begins_with(url, "data:"@) {
                finished(watch, request_id, now)
            } else {
                quieted(watch, now)
            }
        },
        Report::Stopped(frame) => {
            if watch.docs.dom().contains(frame) {
                finished(
                    Watch { docs: watch.docs.remove(frame), ..watch },
                    watch.docs[frame],
                    now,
                )
            } else {
                quieted(watch, now)
            }
        },
    }
}

/// Whether a request has taken too long.
pub open spec fn is_stalled(watch: Watch, request_id: Seq<char>, now: u64) -> bool {
    watch.inflight.dom().contains(request_id) && now - watch.inflight[request_id].1
        > STALL_THRESHOLD_MS
}

/// A watch after the requests that take too long have been given up.
pub open spec fn swept(watch: Watch, now: u64) -> Watch {
    let inflight = Map::new(
        |id: Seq<char>| watch.inflight.dom().contains(id) && !is_stalled(watch, id, now),
        |id: Seq<char>| watch.inflight[id],
    );
    if inflight == watch.inflight {
        watch
    } else {
        quieted(
            Watch {
                inflight,
                docs: Map::new(
                    |frame: Seq<char>|
                        watch.docs.dom().contains(frame) && !is_stalled(
                            watch,
                            watch.docs[frame],
                            now,
                        ),
                    |frame: Seq<char>| watch.docs[frame],
                ),
                quiet_since: None,
            },
            now,
        )
    }
}

/// What can happen while a page is watched.
#[derive(Debug)]
pub enum SettleInput {
    /// The browser reported something.
    Event(DomSettledEvent),
    /// The browser will report nothing more.
    StreamEnded,
    /// The quiet time has passed.
    QuietElapsed,
    /// It is time to look for requests that take too long.
    StallTick,
    /// The whole wait has taken too long.
    TimedOut,
}

/// How a wait goes on.
#[derive(Clone, Copy, Debug, PartialEq, Eq, Structural)]
pub enum SettleStep {
    /// The page has not settled yet.
    Waiting,
    /// The page has settled, or nothing more will be known about it.
    Settled,
    /// The wait is over with so many requests still under way.
    TimedOut { inflight: usize },
}

impl DomSettle {
    /// A watch that begins at `now`, with nothing under way.
    pub fn new(now_ms: u64) -> (out: DomSettle)
        ensures
            out@ == (Watch {
                inflight: Map::empty(),
                docs: Map::empty(),
                quiet_since: Some(now_ms),
            }),
    {
        let out = DomSettle {
            inflight: Table::new(),
            doc_by_frame: Table::new(),
            quiet_since: Some(now_ms),
        };
        assert(out@.inflight =~= Map::empty());
        assert(out@.docs =~= Map::empty());
        out
    }

    /// When the quiet time will have passed, where it is running.
    pub fn quiet_deadline_ms(&self) -> (out: Option<u64>)
        ensures
            out == (match self@.quiet_since {
                Some(since) if since + QUIET_WINDOW_MS <= u64::MAX => Some(
                    (since + QUIET_WINDOW_MS) as u64,
                ),
                Some(since) => Some(u64::MAX),
                None => None,
            }),
    {
        match self.quiet_since {
            Some(since) => Some(since.saturating_add(QUIET_WINDOW_MS)),
            None => None,
        }
    }

    fn start_quiet_timer(&mut self, now_ms: u64)
        ensures
            final(self)@ == quieted(old(self)@, now_ms),
    {
        proof {
            if self.inflight@ == Map::<Seq<char>, RequestMeta>::empty() {
                assert(meta_map(self.inflight@) =~= Map::<Seq<char>, (Seq<char>, u64)>::empty());
            }
            if meta_map(self.inflight@) == Map::<Seq<char>, (Seq<char>, u64)>::empty() {
                assert(meta_map(self.inflight@).dom() =~= self.inflight@.dom());
                assert(self.inflight@ =~= Map::<Seq<char>, RequestMeta>::empty());
            }
        }
        if self.inflight.is_empty() && self.quiet_since.is_none() {
            self.quiet_since = Some(now_ms);
        }
    }

    fn forget_documents(&mut self, request_id: &str)
        ensures
            final(self)@ == (Watch {
                docs: docs_without(old(self)@.docs, request_id@),
                ..old(self)@
            }),
    {
        let ghost before = self.doc_by_frame@;
        let total: usize = self.doc_by_frame.len();
        let ghost order = self.doc_by_frame.order();
        let mut kept: Table<String> = Table::new();
        let mut i: usize = 0;
        while i < total
            invariant
                i <= total,
                total == order.len(),
                order == self.doc_by_frame.order(),
                before == self.doc_by_frame@,
                *self == *old(self),
                forall|frame: Seq<char>| #[trigger]
                    kept@.dom().contains(frame) <==> order.take(i as int).contains(frame)
                        && before[frame]@ != request_id@,
                forall|frame: Seq<char>| #[trigger]
                    kept@.dom().contains(frame) ==> kept@[frame]@ == before[frame]@,
            decreases total - i,
        {
            assert(order.take(i + 1) =~= order.take(i as int).push(order[i as int]));
            let ghost was = kept@;
            let frame = self.doc_by_frame.key_at(i);
            let document = self.doc_by_frame.value_at(i);
            if !str_eq(document.as_str(), request_id) {
                kept.insert(frame.as_str(), document.clone());
            }
            proof {
                assert forall|f: Seq<char>| #[trigger] kept@.dom().contains(f) <==> order.take(
                    i + 1,
                ).contains(f) && before[f]@ != request_id@ by {
                    lemma_push_contains(order.take(i as int), order[i as int], f);
                    assert(was.dom().contains(f) <==> order.take(i as int).contains(f)
                        && before[f]@ != request_id@);
                }
                assert forall|f: Seq<char>| #[trigger] kept@.dom().contains(f) implies kept@[f]@
                    == before[f]@ by {
                    if was.dom().contains(f) {
                    }
                }
            }
            i += 1;
        }
        assert(order.take(i as int) =~= order);
        self.doc_by_frame = kept;
        assert(self@.docs =~= docs_without(text_map(before), request_id@)) by {
            assert forall|f: Seq<char>| self@.docs.dom().contains(f) <==> docs_without(
                text_map(before),
                request_id@,
            ).dom().contains(f) by {
                assert(order.contains(f) <==> before.dom().contains(f));
                assert(kept@.dom().contains(f) <==> order.contains(f) && before[f]@ != request_id@);
            }
        }
        assert(self@ =~= Watch { docs: docs_without(old(self)@.docs, request_id@), ..old(self)@ });
    }

    /// Notes that a request has come to its end.
    pub fn finish_request(&mut self, request_id: &str, now_ms: u64)
        ensures
            final(self)@ == finished(old(self)@, request_id@, now_ms),
    {
        let ghost before = self.inflight@;
        let ghost start = self@;
        let was_inflight: bool = self.inflight.remove(request_id).is_some();
        assert(self@.inflight =~= meta_map(before).remove(request_id@));
        self.forget_documents(request_id);
        if was_inflight {
            self.quiet_since = None;
        }
        assert(self@.inflight == start.inflight.remove(request_id@));
        self.start_quiet_timer(now_ms);
    }

    /// Takes a report of the browser.
    pub fn handle_dom_event(&mut self, event: DomSettledEvent, now_ms: u64)
        ensures
            final(self)@ == reported(old(self)@, event@, now_ms),
    {
        let ghost start = self@;
        match event {
            DomSettledEvent::RequestWillBeSent { request_id, url, kind, frame_id } => {
                if kind == RequestKind::WebSocket || kind == RequestKind::EventSource {
                    return;
                }
                let ghost address = url@;
                self.inflight.insert(
                    request_id.as_str(),
                    RequestMeta { url, started_at_ms: now_ms },
                );
                assert(self@.inflight =~= start.inflight.insert(request_id@, (address, now_ms)));
                if kind == RequestKind::Document {
                    if let Some(frame) = frame_id {
                        self.doc_by_frame.insert(frame.as_str(), request_id.clone());
                        assert(self@.docs =~= start.docs.insert(frame@, request_id@));
                    }
                }
                self.quiet_since = None;
                proof {
                    assert(self@.inflight.dom().contains(request_id@));
                }
            },
            DomSettledEvent::LoadingFinished(id) => self.finish_request(id.as_str(), now_ms),
            DomSettledEvent::LoadingFailed(id) => self.finish_request(id.as_str(), now_ms),
            DomSettledEvent::RequestServedFromCache(id) => self.finish_request(
                id.as_str(),
                now_ms,
            ),
            DomSettledEvent::ResponseReceived { request_id, url } => {
                if starts_with(url.as_str(), "data:") {
                    self.finish_request(request_id.as_str(), now_ms);
                }
            },
            DomSettledEvent::FrameStopped(frame) => {
                let ghost docs = self.doc_by_frame@;
                if let Some(request_id) = self.doc_by_frame.remove(frame.as_str()) {
                    assert(self@.docs =~= start.docs.remove(frame@));
                    assert(self@ =~= Watch { docs: start.docs.remove(frame@), ..start });
                    self.finish_request(request_id.as_str(), now_ms);
                } else {
                    assert(docs.remove(frame@) =~= docs);
                    assert(self@ =~= start);
                }
            },
        }
        self.start_quiet_timer(now_ms);
    }
}

spec fn is_gone(watch: Watch, ids: Seq<Seq<char>>, id: Seq<char>, now: u64) -> bool {
    ids.contains(id) && is_stalled(watch, id, now)
}

/// The requests that have not been given up yet, where those among `ids` that
/// take too long have been.
spec fn partly_swept(watch: Watch, ids: Seq<Seq<char>>, now: u64) -> Watch {
    let inflight = Map::new(
        |id: Seq<char>| watch.inflight.dom().contains(id) && !is_gone(watch, ids, id, now),
        |id: Seq<char>| watch.inflight[id],
    );
    let docs = Map::new(
        |frame: Seq<char>| watch.docs.dom().contains(frame) && !is_gone(watch, ids, watch.docs[frame], now),
        |frame: Seq<char>| watch.docs[frame],
    );
    if exists|id: Seq<char>| is_gone(watch, ids, id, now) {
        quieted(Watch { inflight, docs, quiet_since: None }, now)
    } else {
        watch
    }
}

proof fn lemma_sweep_one(watch: Watch, ids: Seq<Seq<char>>, id: Seq<char>, now: u64)
    requires
        !ids.contains(id),
        watch.inflight.dom().contains(id),
    ensures
        partly_swept(watch, ids.push(id), now) == (if is_stalled(watch, id, now) {
            finished(partly_swept(watch, ids, now), id, now)
        } else {
            partly_swept(watch, ids, now)
        }),
{
    assert forall|k: Seq<char>| #[trigger] ids.push(id).contains(k) <==> ids.contains(k) || k
        == id by {
        lemma_push_contains(ids, id, k);
    }
    let before = partly_swept(watch, ids, now);
    let after = partly_swept(watch, ids.push(id), now);
    if is_stalled(watch, id, now) {
        assert(is_gone(watch, ids.push(id), id, now));
        let ended = finished(before, id, now);
        assert forall|k: Seq<char>| #[trigger] is_gone(watch, ids.push(id), k, now) <==> is_gone(
            watch,
            ids,
            k,
            now,
        ) || k == id by {
            assert(ids.push(id).contains(k) <==> ids.contains(k) || k == id);
        }
        if !(exists|k: Seq<char>| is_gone(watch, ids, k, now)) {
            assert forall|k: Seq<char>| !#[trigger] is_gone(watch, ids, k, now) by {}
        }
        assert(after.inflight =~= ended.inflight);
        assert(after.docs =~= ended.docs);
        assert(before.inflight.dom().contains(id));
        assert(after =~= ended);
    } else {
        assert forall|k: Seq<char>| #[trigger] is_gone(watch, ids, k, now) == is_gone(watch, ids.push(id), k, now) by {}
        if exists|k: Seq<char>| is_gone(watch, ids, k, now) {
            let k = choose|k: Seq<char>| is_gone(watch, ids, k, now);
            assert(is_gone(watch, ids.push(id), k, now));
        }
        if exists|k: Seq<char>| is_gone(watch, ids.push(id), k, now) {
            let k = choose|k: Seq<char>| is_gone(watch, ids.push(id), k, now);
            assert(is_gone(watch, ids, k, now));
        }
        assert(after.inflight =~= before.inflight);
        assert(after.docs =~= before.docs);
        assert(after =~= before);
    }
}

proof fn lemma_swept_all(watch: Watch, ids: Seq<Seq<char>>, now: u64)
    requires
        forall|id: Seq<char>| #[trigger] ids.contains(id) <==> watch.inflight.dom().contains(id),
    ensures
        partly_swept(watch, ids, now) == swept(watch, now),
{
    let part = partly_swept(watch, ids, now);
    let whole = swept(watch, now);
    let inflight = Map::new(
        |id: Seq<char>| watch.inflight.dom().contains(id) && !is_stalled(watch, id, now),
        |id: Seq<char>| watch.inflight[id],
    );
    if exists|id: Seq<char>| is_gone(watch, ids, id, now) {
        let id = choose|id: Seq<char>| is_gone(watch, ids, id, now);
        assert(watch.inflight.dom().contains(id));
        assert(!inflight.dom().contains(id));
        assert(part.inflight =~= whole.inflight);
        assert(part.docs =~= whole.docs);
        assert(part =~= whole);
    } else {
        assert forall|id: Seq<char>| watch.inflight.dom().contains(id) implies !is_stalled(
            watch,
            id,
            now,
        ) by {
            assert(!is_gone(watch, ids, id, now));
            assert(ids.contains(id));
        }
        assert(inflight =~= watch.inflight);
    }
}

/// What is logged of a request that is given up.
pub open spec fn stalled_note(url: Seq<char>) -> NoteModel {
    NoteModel {
        level: LogLevel::Debug,
        message: "forcing completion of stalled request"@,
        category: "dom-settle"@,
        auxiliary: beside("url"@, url),
    }
}

/// What is logged of requests that are given up, one after the other.
pub open spec fn stalled_notes(watch: Watch, ids: Seq<Seq<char>>) -> Seq<NoteModel> {
    ids.map_values(|id: Seq<char>| stalled_note(watch.inflight[id].0))
}

/// Whether a list names each request once that takes too long, and no other. Their
/// order is left open.
pub open spec fn lists_stalled(watch: Watch, ids: Seq<Seq<char>>, now: u64) -> bool {
    &&& ids.no_duplicates()
    &&& forall|id: Seq<char>| #[trigger]
        ids.contains(id) <==> is_stalled(watch, id, now)
}

fn note_stalled(notes: &mut Vec<Note>, url: &str)
    ensures
        note_models(final(notes)@) == note_models(old(notes)@).push(stalled_note(url@)),
{
    let ghost before = note_models(notes@);
    let note = Note {
        level: LogLevel::Debug,
        message: "forcing completion of stalled request".to_owned(),
        category: "dom-settle".to_owned(),
        auxiliary: put_beside("url", url),
    };
    let ghost added = note@;
    notes.push(note);
    assert(note_models(notes@) =~= before.push(added));
}

impl DomSettle {
    /// Gives up the requests that take too long and notes each of them.
    pub fn sweep_stalled_requests(&mut self, now_ms: u64, notes: &mut Vec<Note>)
        ensures
            final(self)@ == swept(old(self)@, now_ms),
            exists|ids: Seq<Seq<char>>| #[trigger]
                lists_stalled(old(self)@, ids, now_ms) && note_models(final(notes)@)
                    == note_models(old(notes)@) + stalled_notes(old(self)@, ids),
    {
        let ghost start = self@;
        let ghost requests = self.inflight@;
        let ghost order = self.inflight.order();
        let total: usize = self.inflight.len();
        let mut stalled: Vec<(String, bool, String)> = Vec::new();
        let mut i: usize = 0;
        assert(start.inflight.dom() =~= requests.dom());
        while i < total
            invariant
                i <= total,
                total == order.len(),
                order == self.inflight.order(),
                requests == self.inflight@,
                start == self@,
                start == old(self)@,
                start.inflight == meta_map(requests),
                stalled.len() == i,
                forall|k: int|
                    0 <= k < i ==> (#[trigger] stalled@[k]).0@ == order[k] && stalled@[k].1
                        == is_stalled(start, order[k], now_ms) && stalled@[k].2@
                        == start.inflight[order[k]].0,
            decreases total - i,
        {
            let meta = self.inflight.value_at(i);
            let late: bool = now_ms > meta.started_at_ms && now_ms - meta.started_at_ms
                > STALL_THRESHOLD_MS;
            assert(late == is_stalled(start, order[i as int], now_ms));
            stalled.push((self.inflight.key_at(i).clone(), late, meta.url.clone()));
            i += 1;
        }
        let mut k: usize = 0;
        proof {
            assert forall|id: Seq<char>| !#[trigger] is_gone(start, order.take(0), id, now_ms) by {}
            assert(partly_swept(start, order.take(0), now_ms) =~= start);
        }
        let ghost told = note_models(notes@);
        let ghost mut ids: Seq<Seq<char>> = seq![];
        assert(told + stalled_notes(start, ids) =~= told);
        while k < stalled.len()
            invariant
                k <= stalled.len(),
                stalled.len() == order.len(),
                order.no_duplicates(),
                forall|id: Seq<char>| #[trigger]
                    order.contains(id) <==> start.inflight.dom().contains(id),
                forall|n: int|
                    0 <= n < stalled.len() ==> (#[trigger] stalled@[n]).0@ == order[n]
                        && stalled@[n].1 == is_stalled(start, order[n], now_ms) && stalled@[n].2@
                        == start.inflight[order[n]].0,
                self@ == partly_swept(start, order.take(k as int), now_ms),
                ids.no_duplicates(),
                forall|id: Seq<char>| #[trigger]
                    ids.contains(id) <==> is_gone(start, order.take(k as int), id, now_ms),
                note_models(notes@) == told + stalled_notes(start, ids),
            decreases stalled.len() - k,
        {
            proof {
                let id = order[k as int];
                assert(order.contains(id));
                assert(order.take(k + 1) =~= order.take(k as int).push(id));
                if order.take(k as int).contains(id) {
                    let n = choose|n: int|
                        0 <= n < order.take(k as int).len() && order.take(k as int)[n] == id;
                    assert(order[n] == order[k as int]);
                }
                lemma_sweep_one(start, order.take(k as int), id, now_ms);
            }
            let ghost id = order[k as int];
            let ghost listed = ids;
            let ghost noted = note_models(notes@);
            if stalled[k].1 {
                note_stalled(notes, stalled[k].2.as_str());
                self.finish_request(stalled[k].0.as_str(), now_ms);
                proof {
                    ids = listed.push(id);
                    assert(!listed.contains(id)) by {
                        assert(is_gone(start, order.take(k as int), id, now_ms)
                            ==> order.take(k as int).contains(id));
                    }
                    assert(stalled_notes(start, ids) =~= stalled_notes(start, listed).push(
                        stalled_note(start.inflight[id].0),
                    ));
                    assert(note_models(notes@) =~= told + stalled_notes(start, ids));
                }
            }
            proof {
                assert forall|x: Seq<char>| #[trigger] ids.contains(x) <==> is_gone(
                    start,
                    order.take(k + 1),
                    x,
                    now_ms,
                ) by {
                    lemma_push_contains(order.take(k as int), id, x);
                    lemma_push_contains(listed, id, x);
                    assert(listed.contains(x) <==> is_gone(start, order.take(k as int), x, now_ms));
                }
            }
            k += 1;
        }
        assert(order.take(k as int) =~= order);
        proof {
            lemma_swept_all(start, order, now_ms);
            assert(lists_stalled(start, ids, now_ms));
        }
    }

    /// Takes what happened and says how the wait goes on. Requests that are given
    /// up, or still under way when the wait is over, are noted.
    pub fn step(&mut self, input: SettleInput, now_ms: u64, notes: &mut Vec<Note>) -> (out:
        SettleStep)
        ensures
            final(self)@ == (match input {
                SettleInput::Event(event) => reported(old(self)@, event@, now_ms),
                SettleInput::StallTick => swept(old(self)@, now_ms),
                _ => old(self)@,
            }),
            match input {
                SettleInput::Event(_) | SettleInput::StallTick => out == SettleStep::Waiting,
                SettleInput::StreamEnded | SettleInput::QuietElapsed => out == SettleStep::Settled,
                SettleInput::TimedOut => out is TimedOut && out->inflight
                    == old(self)@.inflight.dom().len(),
            },
            match input {
                SettleInput::StallTick => exists|ids: Seq<Seq<char>>| #[trigger]
                    lists_stalled(old(self)@, ids, now_ms) && note_models(final(notes)@)
                        == note_models(old(notes)@) + stalled_notes(old(self)@, ids),
                SettleInput::TimedOut if old(self)@.inflight.dom().len() > 0 => note_models(
                    final(notes)@,
                ) == note_models(old(notes)@).push(
                    plain_note(
                        LogLevel::Debug,
                        "dom-settle"@,
                        "DOM settle timeout reached with "@ + decimal(
                            old(self)@.inflight.dom().len(),
                        ) + " inflight requests"@,
                    ),
                ),
                _ => note_models(final(notes)@) == note_models(old(notes)@),
            },
    {
        match input {
            SettleInput::Event(event) => {
                self.handle_dom_event(event, now_ms);
                SettleStep::Waiting
            },
            SettleInput::StallTick => {
                self.sweep_stalled_requests(now_ms, notes);
                SettleStep::Waiting
            },
            SettleInput::StreamEnded => SettleStep::Settled,
            SettleInput::QuietElapsed => SettleStep::Settled,
            SettleInput::TimedOut => {
                let n: usize = self.inflight.len();
                proof {
                    let order = self.inflight.order();
                    order.unique_seq_to_set();
                    assert(order.to_set() =~= self@.inflight.dom());
                }
                if n > 0 {
                    let mut message = "DOM settle timeout reached with ".to_owned();
                    message.append(u64_text(n as u64).as_str());
                    message.append(" inflight requests");
                    note_plain(notes, LogLevel::Debug, "dom-settle", message);
                }
                SettleStep::TimedOut { inflight: n }
            },
        }
    }
}

/// How long, in milliseconds, a wait may take: as asked for, else as configured.
pub fn settle_timeout_ms(requested: Option<u64>, configured: Option<u64>) -> (out: u64)
    ensures
        out == (match (requested, configured) {
            (Some(ms), _) => ms,
            (None, Some(ms)) => ms,
            (None, None) => DEFAULT_SETTLE_TIMEOUT_MS,
        }),
{
    match (requested, configured) {
        (Some(ms), _) => ms,
        (None, Some(ms)) => ms,
        (None, None) => DEFAULT_SETTLE_TIMEOUT_MS,
    }
}

/// The quiet time runs exactly while no request is under way, and every document
/// request of a frame is under way.
pub open spec fn watch_holds(watch: Watch) -> bool {
    &&& watch.quiet_since is Some <==> watch.inflight == Map::<
        Seq<char>,
        (Seq<char>, u64),
    >::empty()
    &&& forall|frame: Seq<char>| #[trigger]
        watch.docs.dom().contains(frame) ==> watch.inflight.dom().contains(watch.docs[frame])
}

/// The quiet time runs exactly while no request is under way, from the start of
/// a watch on.
pub proof fn law_new_watch_holds(now: u64)
    ensures
        watch_holds(
            Watch { inflight: Map::empty(), docs: Map::empty(), quiet_since: Some(now) },
        ),
{
}

proof fn lemma_finished_holds(watch: Watch, request_id: Seq<char>, now: u64)
    requires
        forall|frame: Seq<char>| #[trigger]
            watch.docs.dom().contains(frame) ==> watch.inflight.dom().contains(watch.docs[frame]),
        watch.inflight.dom().contains(request_id) || (watch.quiet_since is Some
            <==> watch.inflight == Map::<Seq<char>, (Seq<char>, u64)>::empty()),
    ensures
        watch_holds(finished(watch, request_id, now)),
{
    let after = finished(watch, request_id, now);
    if !watch.inflight.dom().contains(request_id) {
        assert(watch.inflight.remove(request_id) =~= watch.inflight);
    }
    assert forall|frame: Seq<char>| #[trigger]
        after.docs.dom().contains(frame) implies after.inflight.dom().contains(
        after.docs[frame],
    ) by {
        assert(watch.docs.dom().contains(frame));
    }
}

/// Every report of the browser keeps it so that the quiet time runs exactly
/// while no request is under way.
pub proof fn law_report_keeps_watch(watch: Watch, report: Report, now: u64)
    requires
        watch_holds(watch),
    ensures
        watch_holds(reported(watch, report, now)),
{
    let after = reported(watch, report, now);
    match report {
        Report::Sent { request_id, url, kind, frame_id } => {
            if kind != RequestKind::WebSocket && kind != RequestKind::EventSource {
                assert(after.inflight.dom().contains(request_id));
            }
        },
        Report::Finished(id) => lemma_finished_holds(watch, id, now),
        Report::Received { request_id, url } => lemma_finished_holds(watch, request_id, now),
        Report::Stopped(frame) => {
            if watch.docs.dom().contains(frame) {
                let less = Watch { docs: watch.docs.remove(frame), ..watch };
                assert forall|f: Seq<char>| #[trigger]
                    less.docs.dom().contains(f) implies less.inflight.dom().contains(
                    less.docs[f],
                ) by {
                    assert(watch.docs.dom().contains(f));
                }
                lemma_finished_holds(less, watch.docs[frame], now);
            }
        },
    }
}

/// After a sweep no request under way has taken too long, no other request is
/// given up, and the quiet time still runs exactly while none is under way.
pub proof fn law_sweep_clears_stalled(watch: Watch, now: u64)
    requires
        watch_holds(watch),
    ensures
        watch_holds(swept(watch, now)),
        forall|id: Seq<char>| #[trigger]
            swept(watch, now).inflight.dom().contains(id) <==> watch.inflight.dom().contains(id)
                && !is_stalled(watch, id, now),
{
    let after = swept(watch, now);
    let inflight = Map::new(
        |id: Seq<char>| watch.inflight.dom().contains(id) && !is_stalled(watch, id, now),
        |id: Seq<char>| watch.inflight[id],
    );
    if inflight == watch.inflight {
        assert forall|id: Seq<char>| watch.inflight.dom().contains(id) implies !is_stalled(
            watch,
            id,
            now,
        ) by {
            assert(inflight.dom().contains(id));
        }
    } else {
        assert forall|frame: Seq<char>| #[trigger]
            after.docs.dom().contains(frame) implies after.inflight.dom().contains(
            after.docs[frame],
        ) by {
            assert(watch.docs.dom().contains(frame));
        }
    }
}

proof fn lemma_push_contains(keys: Seq<Seq<char>>, last: Seq<char>, key: Seq<char>)
    ensures
        keys.push(last).contains(key) <==> keys.contains(key) || key == last,
{
    if keys.contains(key) {
        let i = choose|i: int| 0 <= i < keys.len() && keys[i] == key;
        assert(keys.push(last)[i] == key);
    }
    if key == last {
        assert(keys.push(last)[keys.len() as int] == key);
    }
}

} // verus!
