//! The pages of a session: which there are, which frame each shows, which one is
//! active and which already hold the helper script.
use crate::a11y::text_map;
use crate::table::{without_key, Table};
use crate::text::{copy_opt, opt_is, opt_view, views};
use vstd::prelude::*;
use vstd::string::*;

verus! {

/// The id of a page.
pub type PageId = String;

/// Why an operation on the pages of a session failed.
#[derive(Debug, PartialEq, Eq)]
pub enum StagehandContextError {
    PageNotFound(PageId),
    ScriptInjection { page_id: PageId, source: StagehandAdapterError },
}

/// Why the adapter of a session failed.
#[derive(Debug, PartialEq, Eq)]
pub enum StagehandAdapterError {
    Message(String),
}

impl StagehandAdapterError {
    /// The error as text.
    pub open spec fn text(self) -> Seq<char> {
        match self {
            StagehandAdapterError::Message(message) => message@,
        }
    }

    /// Gives the error as text.
    pub fn message(&self) -> (out: String)
        ensures
            out@ == self.text(),
    {
        match self {
            StagehandAdapterError::Message(message) => message.clone(),
        }
    }
}

impl StagehandContextError {
    /// The error as text.
    pub open spec fn text(self) -> Seq<char> {
        match self {
            StagehandContextError::PageNotFound(page_id) => "page '"@ + page_id@
                + "' is not registered"@,
            StagehandContextError::ScriptInjection { page_id, source } =>
                "failed to inject DOM script for '"@ + page_id@ + "'"@,
        }
    }

    /// Gives the error as text.
    pub fn message(&self) -> (out: String)
        ensures
            out@ == self.text(),
    {
        match self {
            StagehandContextError::PageNotFound(page_id) => {
                let mut out = "page '".to_owned();
                out.append(page_id.as_str());
                out.append("' is not registered");
                out
            },
            StagehandContextError::ScriptInjection { page_id, source } => {
                let mut out = "failed to inject DOM script for '".to_owned();
                out.append(page_id.as_str());
                out.append("'");
                out
            },
        }
    }
}

/// What the adapter of a session is to be told.
#[derive(Debug, PartialEq, Eq)]
pub enum AdapterCall {
    /// The active page is now this one.
    NotifyActivePage(PageId),
    /// A message for the debug log.
    LogDebug { message: String, category: String },
    /// A message for the error log.
    LogError { message: String, category: String },
}

/// What the adapter is told, as characters.
pub enum Told {
    Active(Seq<char>),
    Debug { message: Seq<char>, category: Seq<char> },
    Error { message: Seq<char>, category: Seq<char> },
}

impl View for AdapterCall {
    type V = Told;

    open spec fn view(&self) -> Told {
        match self {
            AdapterCall::NotifyActivePage(page_id) => Told::Active(page_id@),
            AdapterCall::LogDebug { message, category } => Told::Debug {
                message: message@,
                category: category@,
            },
            AdapterCall::LogError { message, category } => Told::Error {
                message: message@,
                category: category@,
            },
        }
    }
}

/// A page of the session.
#[derive(Clone, Debug, PartialEq, Eq)]
pub struct StagehandPage {
    id: PageId,
    frame_id: Option<String>,
    dom_script_injected: bool,
}

/// What a page stands for.
#[verifier::ext_equal]
pub struct Page {
    pub id: Seq<char>,
    pub frame: Option<Seq<char>>,
    pub injected: bool,
}

impl View for StagehandPage {
    type V = Page;

    closed spec fn view(&self) -> Page {
        Page { id: self.id@, frame: opt_view(self.frame_id), injected: self.dom_script_injected }
    }
}

impl StagehandPage {
    fn new(id: &str) -> (out: StagehandPage)
        ensures
            out@ == (Page { id: id@, frame: None, injected: false }),
    {
        StagehandPage { id: id.to_owned(), frame_id: None, dom_script_injected: false }
    }

    fn copy(&self) -> (out: StagehandPage)
        ensures
            out@ == self@,
    {
        StagehandPage {
            id: self.id.clone(),
            frame_id: copy_opt(&self.frame_id),
            dom_script_injected: self.dom_script_injected,
        }
    }

    /// The id of the page.
    pub fn id(&self) -> (out: &PageId)
        ensures
            out@ == self@.id,
    {
        &self.id
    }

    /// The root frame of the page, where it is known.
    pub fn frame_id(&self) -> (out: Option<&str>)
        ensures
            out is Some <==> self@.frame is Some,
            out matches Some(frame) ==> self@.frame == Some(frame@),
    {
        match &self.frame_id {
            Some(frame) => Some(frame.as_str()),
            None => None,
        }
    }

    /// Whether the page already holds the helper script.
    pub fn dom_script_injected(&self) -> (out: bool)
        ensures
            out == self@.injected,
    {
        self.dom_script_injected
    }
}

/// The pages of a session.
#[derive(Debug)]
pub struct StagehandContext {
    dom_script: String,
    pages: Table<StagehandPage>,
    frame_index: Table<PageId>,
    active_page: Option<PageId>,
}

/// What the pages of a session stand for.
#[verifier::ext_equal]
pub struct Session {
    pub script: Seq<char>,
    pub pages: Map<Seq<char>, Page>,
    pub order: Seq<Seq<char>>,
    pub frames: Map<Seq<char>, Seq<char>>,
    pub active: Option<Seq<char>>,
}

/// The pages of a table.
pub open spec fn page_map(pages: Map<Seq<char>, StagehandPage>) -> Map<Seq<char>, Page> {
    pages.map_values(|page: StagehandPage| page@)
}

impl View for StagehandContext {
    type V = Session;

    closed spec fn view(&self) -> Session {
        Session {
            script: self.dom_script@,
            pages: page_map(self.pages@),
            order: self.pages.order(),
            frames: text_map(self.frame_index@),
            active: opt_view(self.active_page),
        }
    }
}

/// The frames after `frame` has become the frame of a page.
pub open spec fn reframed(
    frames: Map<Seq<char>, Seq<char>>,
    page: Page,
    frame: Seq<char>,
) -> Map<Seq<char>, Seq<char>> {
    match page.frame {
        Some(old) => frames.remove(old).insert(frame, page.id),
        None => frames.insert(frame, page.id),
    }
}

/// A session after a page has been made known, with its frame where that is known.
pub open spec fn registered(session: Session, id: Seq<char>, frame: Option<Seq<char>>) -> Session {
    let known = session.pages.dom().contains(id);
    let page = if known {
        session.pages[id]
    } else {
        Page { id, frame: None, injected: false }
    };
    Session {
        pages: session.pages.insert(
            id,
            match frame {
                Some(_) => Page { frame, ..page },
                None => page,
            },
        ),
        order: if known {
            session.order
        } else {
            session.order.push(id)
        },
        frames: match frame {
            Some(frame) => reframed(session.frames, page, frame),
            None => session.frames,
        },
        ..session
    }
}

/// A session after a frame is no longer known.
pub open spec fn unframed(session: Session, frame: Seq<char>) -> Session {
    if session.frames.dom().contains(frame) {
        let id = session.frames[frame];
        Session {
            pages: if session.pages.dom().contains(id) && session.pages[id].frame == Some(frame) {
                session.pages.insert(id, Page { frame: None, ..session.pages[id] })
            } else {
                session.pages
            },
            frames: session.frames.remove(frame),
            ..session
        }
    } else {
        session
    }
}

/// A session after a page has gone.
pub open spec fn removed(session: Session, id: Seq<char>) -> Session {
    if session.pages.dom().contains(id) {
        Session {
            pages: session.pages.remove(id),
            order: without_key(session.order, id),
            frames: match session.pages[id].frame {
                Some(frame) => session.frames.remove(frame),
                None => session.frames,
            },
            active: if session.active == Some(id) {
                None
            } else {
                session.active
            },
            ..session
        }
    } else {
        session
    }
}

/// The page that shows a frame.
pub open spec fn page_showing(session: Session, frame: Seq<char>) -> Option<Page> {
    if session.frames.dom().contains(frame) && session.pages.dom().contains(session.frames[frame]) {
        Some(session.pages[session.frames[frame]])
    } else {
        None
    }
}

/// What has to be done so that a page holds the helper script.
#[derive(Debug, PartialEq, Eq)]
pub enum DomScriptStep {
    /// Nothing: the page already holds it.
    AlreadyInjected,
    /// This script has to be put into the page.
    Inject(String),
}

/// Whether the order of the pages names each page once, and nothing else.
pub open spec fn order_holds(session: Session) -> bool {
    &&& session.order.no_duplicates()
    &&& forall|id: Seq<char>| #[trigger]
        session.order.contains(id) <==> session.pages.dom().contains(id)
}

/// A list of what the adapter is told, as characters.
pub open spec fn told(calls: Seq<AdapterCall>) -> Seq<Told> {
    calls.map_values(|call: AdapterCall| call@)
}

impl StagehandContext {
    /// A session without pages, which puts `dom_script` into the pages it gets.
    pub fn new(dom_script: &str) -> (out: StagehandContext)
        ensures
            out@ == (Session {
                script: dom_script@,
                pages: Map::empty(),
                order: Seq::empty(),
                frames: Map::empty(),
                active: None,
            }),
    {
        let out = StagehandContext {
            dom_script: dom_script.to_owned(),
            pages: Table::new(),
            frame_index: Table::new(),
            active_page: None,
        };
        assert(out@.pages =~= Map::empty());
        assert(out@.frames =~= Map::empty());
        out
    }

    fn index_frame(&mut self, page_id: &str, shown: Option<String>, frame: &str)
        ensures
            final(self)@ == (Session {
                frames: match opt_view(shown) {
                    Some(old_frame) => old(self)@.frames.remove(old_frame).insert(
                        frame@,
                        page_id@,
                    ),
                    None => old(self)@.frames.insert(frame@, page_id@),
                },
                ..old(self)@
            }),
    {
        let ghost start = self@.frames;
        if let Some(previous) = shown {
            self.frame_index.remove(previous.as_str());
            assert(self@.frames =~= start.remove(previous@));
        }
        let ghost middle = self@.frames;
        self.frame_index.insert(frame, page_id.to_owned());
        assert(self@.frames =~= middle.insert(frame@, page_id@));
    }

    /// Makes a page known, with its frame where that is known. A page that is
    /// already known only gets the frame.
    pub fn register_page(&mut self, page_id: &str, frame_id: Option<String>) -> (out: StagehandPage)
        ensures
            final(self)@ == registered(old(self)@, page_id@, opt_view(frame_id)),
            out@ == final(self)@.pages[page_id@],
    {
        let ghost start = self@;
        let ghost table = self.pages@;
        let known = match self.pages.get(page_id) {
            Some(page) => page.copy(),
            None => StagehandPage::new(page_id),
        };
        let mut page = known.copy();
        if frame_id.is_some() {
            page.frame_id = copy_opt(&frame_id);
        }
        let out = page.copy();
        let ghost added = page@;
        assert(start.pages.dom() =~= table.dom());
        self.pages.insert(page_id, page);
        assert(self@.pages =~= start.pages.insert(page_id@, added));
        if let Some(frame) = frame_id {
            self.index_frame(known.id.as_str(), known.frame_id, frame.as_str());
        }
        assert(self@ =~= registered(start, page_id@, opt_view(frame_id)));
        out
    }

    /// The page with the given id.
    pub fn page(&self, page_id: &str) -> (out: Option<&StagehandPage>)
        ensures
            out is Some <==> self@.pages.dom().contains(page_id@),
            out matches Some(page) ==> page@ == self@.pages[page_id@],
    {
        assert(self@.pages.dom() =~= self.pages@.dom());
        self.pages.get(page_id)
    }

    /// The ids of the pages, in the order in which they became known.
    pub fn page_ids(&self) -> (out: Vec<PageId>)
        ensures
            views(out@) == self@.order,
            order_holds(self@),
    {
        assert(self@.pages.dom() =~= self.pages@.dom());
        self.pages.keys()
    }

    /// Makes a page the active one. The adapter is to be told.
    pub fn set_active_page(&mut self, page_id: &str) -> (out: Result<
        Vec<AdapterCall>,
        StagehandContextError,
    >)
        ensures
            match out {
                Ok(calls) => {
                    &&& old(self)@.pages.dom().contains(page_id@)
                    &&& final(self)@ == (Session { active: Some(page_id@), ..old(self)@ })
                    &&& told(calls@) == seq![
                        Told::Active(page_id@),
                        Told::Debug {
                            message: "Set active page to "@ + page_id@,
                            category: "context"@,
                        },
                    ]
                },
                Err(error) => {
                    &&& !old(self)@.pages.dom().contains(page_id@)
                    &&& final(self)@ == old(self)@
                    &&& error matches StagehandContextError::PageNotFound(id) && id@ == page_id@
                },
            },
    {
        assert(self@.pages.dom() =~= self.pages@.dom());
        if !self.pages.contains_key(page_id) {
            return Err(StagehandContextError::PageNotFound(page_id.to_owned()));
        }
        self.active_page = Some(page_id.to_owned());
        let mut calls: Vec<AdapterCall> = Vec::new();
        let mut message = "Set active page to ".to_owned();
        message.append(page_id);
        calls.push(AdapterCall::NotifyActivePage(page_id.to_owned()));
        calls.push(AdapterCall::LogDebug { message, category: "context".to_owned() });
        assert(told(calls@) =~= seq![calls@[0]@, calls@[1]@]);
        Ok(calls)
    }

    /// The id of the active page, where one has been chosen.
    pub fn active_page_id(&self) -> (out: Option<PageId>)
        ensures
            opt_view(out) == self@.active,
    {
        copy_opt(&self.active_page)
    }

    /// The active page, where one has been chosen.
    pub fn active_page(&self) -> (out: Option<&StagehandPage>)
        ensures
            out is Some <==> self@.active is Some && self@.pages.dom().contains(self@.active->0),
            out matches Some(page) ==> page@ == self@.pages[self@.active->0],
    {
        match &self.active_page {
            Some(id) => self.page(id.as_str()),
            None => None,
        }
    }

    /// Notes the frame that a page shows.
    pub fn register_frame_id(&mut self, page_id: &str, frame_id: &str) -> (out: Result<
        (),
        StagehandContextError,
    >)
        ensures
            match out {
                Ok(()) => {
                    &&& old(self)@.pages.dom().contains(page_id@)
                    &&& final(self)@ == registered(old(self)@, page_id@, Some(frame_id@))
                },
                Err(error) => {
                    &&& !old(self)@.pages.dom().contains(page_id@)
                    &&& final(self)@ == old(self)@
                    &&& error matches StagehandContextError::PageNotFound(id) && id@ == page_id@
                },
            },
    {
        assert(self@.pages.dom() =~= self.pages@.dom());
        if !self.pages.contains_key(page_id) {
            return Err(StagehandContextError::PageNotFound(page_id.to_owned()));
        }
        self.register_page(page_id, Some(frame_id.to_owned()));
        Ok(())
    }

    /// Notes the frame that a page shows.
    pub fn update_frame_id(&mut self, page_id: &str, frame_id: &str) -> (out: Result<
        (),
        StagehandContextError,
    >)
        ensures
            match out {
                Ok(()) => {
                    &&& old(self)@.pages.dom().contains(page_id@)
                    &&& final(self)@ == registered(old(self)@, page_id@, Some(frame_id@))
                },
                Err(error) => {
                    &&& !old(self)@.pages.dom().contains(page_id@)
                    &&& final(self)@ == old(self)@
                    &&& error matches StagehandContextError::PageNotFound(id) && id@ == page_id@
                },
            },
    {
        self.register_frame_id(page_id, frame_id)
    }

    /// Forgets a frame. Says whether it was known.
    pub fn unregister_frame_id(&mut self, frame_id: &str) -> (out: bool)
        ensures
            out == old(self)@.frames.dom().contains(frame_id@),
            final(self)@ == unframed(old(self)@, frame_id@),
    {
        let ghost start = self@;
        let ghost frames = self.frame_index@;
        let ghost table = self.pages@;
        assert(start.frames.dom() =~= frames.dom());
        assert(start.pages.dom() =~= table.dom());
        match self.frame_index.remove(frame_id) {
            Some(page_id) => {
                assert(self@.frames =~= start.frames.remove(frame_id@));
                let mut changed: Option<StagehandPage> = None;
                if let Some(page) = self.pages.get(page_id.as_str()) {
                    if opt_is(&page.frame_id, frame_id) {
                        let mut copy = page.copy();
                        copy.frame_id = None;
                        changed = Some(copy);
                    }
                }
                if let Some(page) = changed {
                    let ghost added = page@;
                    self.pages.insert(page_id.as_str(), page);
                    assert(self@.pages =~= start.pages.insert(page_id@, added));
                }
                assert(self@ =~= unframed(start, frame_id@));
                true
            },
            None => {
                assert(frames.remove(frame_id@) =~= frames);
                false
            },
        }
    }

    /// The page that shows a frame.
    pub fn page_by_frame_id(&self, frame_id: &str) -> (out: Option<&StagehandPage>)
        ensures
            out is Some <==> page_showing(self@, frame_id@) is Some,
            out matches Some(page) ==> page_showing(self@, frame_id@) == Some(page@),
    {
        assert(self@.frames.dom() =~= self.frame_index@.dom());
        match self.frame_index.get(frame_id) {
            Some(page_id) => self.page(page_id.as_str()),
            None => None,
        }
    }

    /// Forgets a page with its frame. Says whether it was known.
    pub fn remove_page(&mut self, page_id: &str) -> (out: bool)
        ensures
            out == old(self)@.pages.dom().contains(page_id@),
            final(self)@ == removed(old(self)@, page_id@),
    {
        let ghost start = self@;
        let ghost table = self.pages@;
        assert(start.pages.dom() =~= table.dom());
        if !self.pages.contains_key(page_id) {
            return false;
        }
        if let Some(page) = self.pages.remove(page_id) {
            assert(self@.pages =~= start.pages.remove(page_id@));
            if let Some(frame) = page.frame_id {
                self.frame_index.remove(frame.as_str());
                assert(self@.frames =~= start.frames.remove(frame@));
            }
            if opt_is(&self.active_page, page_id) {
                self.active_page = None;
            }
        }
        assert(self@ =~= removed(start, page_id@));
        true
    }

    /// The frame that a page shows, where it is known.
    pub fn frame_id_for(&self, page_id: &str) -> (out: Option<String>)
        ensures
            opt_view(out) == (if self@.pages.dom().contains(page_id@) {
                self@.pages[page_id@].frame
            } else {
                None
            }),
    {
        match self.page(page_id) {
            Some(page) => copy_opt(&page.frame_id),
            None => None,
        }
    }

    /// Says what has to be done so that a page holds the helper script.
    pub fn ensure_dom_script(&self, page_id: &str) -> (out: Result<
        DomScriptStep,
        StagehandContextError,
    >)
        ensures
            match out {
                Ok(DomScriptStep::AlreadyInjected) => self@.pages.dom().contains(page_id@)
                    && self@.pages[page_id@].injected,
                Ok(DomScriptStep::Inject(script)) => self@.pages.dom().contains(page_id@)
                    && !self@.pages[page_id@].injected && script@ == self@.script,
                Err(error) => {
                    &&& !self@.pages.dom().contains(page_id@)
                    &&& error matches StagehandContextError::PageNotFound(id) && id@ == page_id@
                },
            },
    {
        match self.page(page_id) {
            Some(page) => {
                if page.dom_script_injected {
                    Ok(DomScriptStep::AlreadyInjected)
                } else {
                    Ok(DomScriptStep::Inject(self.dom_script.clone()))
                }
            },
            None => Err(StagehandContextError::PageNotFound(page_id.to_owned())),
        }
    }

    /// Takes what came of putting the helper script into a page. Where it went
    /// well the page holds it from now on and the adapter is to be told.
    pub fn finish_dom_script(
        &mut self,
        page_id: &str,
        outcome: Result<(), StagehandAdapterError>,
    ) -> (out: Result<AdapterCall, StagehandContextError>)
        ensures
            match out {
                Ok(call) => {
                    &&& outcome is Ok
                    &&& old(self)@.pages.dom().contains(page_id@)
                    &&& final(self)@ == injected(old(self)@, page_id@)
                    &&& call@ == (Told::Debug {
                        message: "Injected DOM script into "@ + page_id@,
                        category: "context"@,
                    })
                },
                Err(StagehandContextError::ScriptInjection { page_id: id, source }) => {
                    &&& old(self)@.pages.dom().contains(page_id@)
                    &&& outcome == Result::<(), StagehandAdapterError>::Err(source)
                    &&& id@ == page_id@
                    &&& final(self)@ == old(self)@
                },
                Err(StagehandContextError::PageNotFound(id)) => {
                    &&& !old(self)@.pages.dom().contains(page_id@)
                    &&& id@ == page_id@
                    &&& final(self)@ == old(self)@
                },
            },
    {
        let ghost start = self@;
        let ghost table = self.pages@;
        assert(start.pages.dom() =~= table.dom());
        let mut page = match self.pages.get(page_id) {
            Some(page) => page.copy(),
            None => return Err(StagehandContextError::PageNotFound(page_id.to_owned())),
        };
        match outcome {
            Ok(()) => {
                page.dom_script_injected = true;
                let ghost added = page@;
                self.pages.insert(page_id, page);
                assert(self@.pages =~= start.pages.insert(page_id@, added));
                assert(self@ =~= injected(start, page_id@));
                let mut message = "Injected DOM script into ".to_owned();
                message.append(page_id);
                Ok(AdapterCall::LogDebug { message, category: "context".to_owned() })
            },
            Err(source) => Err(
                StagehandContextError::ScriptInjection { page_id: page_id.to_owned(), source },
            ),
        }
    }
}

/// A session after a page has got the helper script.
pub open spec fn injected(session: Session, id: Seq<char>) -> Session {
    Session {
        pages: session.pages.insert(id, Page { injected: true, ..session.pages[id] }),
        ..session
    }
}

/// What holds of every session: each known frame is the frame of the page it is
/// known for, each page is found under its own id, and the active page is known.
pub open spec fn session_holds(session: Session) -> bool {
    &&& forall|frame: Seq<char>| #[trigger]
        session.frames.dom().contains(frame) ==> session.pages.dom().contains(session.frames[frame])
            && session.pages[session.frames[frame]].frame == Some(frame)
    &&& forall|id: Seq<char>| #[trigger]
        session.pages.dom().contains(id) ==> session.pages[id].id == id
    &&& session.active is Some ==> session.pages.dom().contains(session.active->0)
}

/// Making a page or a frame known keeps what holds of every session.
pub proof fn law_register_keeps_session(
    session: Session,
    id: Seq<char>,
    frame: Option<Seq<char>>,
)
    requires
        session_holds(session),
    ensures
        session_holds(registered(session, id, frame)),
{
    let after = registered(session, id, frame);
    assert forall|f: Seq<char>| #[trigger] after.frames.dom().contains(f) implies after.pages.dom().contains(
        after.frames[f],
    ) && after.pages[after.frames[f]].frame == Some(f) by {
        if frame != Some(f) {
            assert(session.frames.dom().contains(f));
        }
    }
}

/// Forgetting a frame keeps what holds of every session, and the frame is not
/// known afterwards.
pub proof fn law_unregister_keeps_session(session: Session, frame: Seq<char>)
    requires
        session_holds(session),
    ensures
        session_holds(unframed(session, frame)),
        page_showing(unframed(session, frame), frame) is None,
        unframed(unframed(session, frame), frame) == unframed(session, frame),
{
    let after = unframed(session, frame);
    assert forall|f: Seq<char>| #[trigger] after.frames.dom().contains(f) implies after.pages.dom().contains(
        after.frames[f],
    ) && after.pages[after.frames[f]].frame == Some(f) by {
        assert(session.frames.dom().contains(f));
    }
}

/// Forgetting a page keeps what holds of every session; neither the page nor its
/// frame is known afterwards, and it is not active.
pub proof fn law_remove_keeps_session(session: Session, id: Seq<char>)
    requires
        session_holds(session),
    ensures
        session_holds(removed(session, id)),
        !removed(session, id).pages.dom().contains(id),
        removed(session, id).active != Some(id),
        session.pages.dom().contains(id) && session.pages[id].frame is Some ==> page_showing(
            removed(session, id),
            session.pages[id].frame->0,
        ) is None,
{
    let after = removed(session, id);
    assert forall|f: Seq<char>| #[trigger] after.frames.dom().contains(f) implies after.pages.dom().contains(
        after.frames[f],
    ) && after.pages[after.frames[f]].frame == Some(f) by {
        assert(session.frames.dom().contains(f));
    }
}

/// A page found by its frame shows that frame.
pub proof fn law_found_page_shows_frame(session: Session, frame: Seq<char>)
    requires
        session_holds(session),
    ensures
        page_showing(session, frame) matches Some(page) ==> page.frame == Some(frame),
{
}

/// A page is found by the frame it was made known with.
pub proof fn law_registered_frame_is_found(session: Session, id: Seq<char>, frame: Seq<char>)
    requires
        session_holds(session),
    ensures
        page_showing(registered(session, id, Some(frame)), frame) == Some(
            registered(session, id, Some(frame)).pages[id],
        ),
        registered(session, id, Some(frame)).pages[id].id == id,
        registered(session, id, Some(frame)).pages[id].frame == Some(frame),
{
}

/// Making a page known again with the same frame changes nothing.
pub proof fn law_register_is_idempotent(session: Session, id: Seq<char>, frame: Option<Seq<char>>)
    ensures
        registered(registered(session, id, frame), id, frame) == registered(session, id, frame),
        registered(registered(session, id, frame), id, None) == registered(session, id, frame),
{
    let once = registered(session, id, frame);
    let twice = registered(once, id, frame);
    assert(twice.pages =~= once.pages);
    assert(twice.frames =~= once.frames);
    assert(registered(once, id, None).pages =~= once.pages);
}

/// Choosing the active page and putting the script into a page keep what holds of
/// every session, and the script goes into a page only once.
pub proof fn law_script_goes_in_once(session: Session, id: Seq<char>)
    requires
        session_holds(session),
        session.pages.dom().contains(id),
    ensures
        session_holds(Session { active: Some(id), ..session }),
        session_holds(injected(session, id)),
        injected(session, id).pages[id].injected,
        forall|frame: Option<Seq<char>>| #[trigger]
            registered(injected(session, id), id, frame).pages[id].injected,
{
    let after = injected(session, id);
    assert forall|f: Seq<char>| #[trigger] after.frames.dom().contains(f) implies after.pages.dom().contains(
        after.frames[f],
    ) && after.pages[after.frames[f]].frame == Some(f) by {
        assert(session.frames.dom().contains(f));
    }
}

} // verus!
