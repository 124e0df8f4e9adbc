//! Sessions and targets of a running browser.
use crate::browser::{
    session_body, BrowserRuntimeError, BrowserbasePlan, BrowserbaseSessionStrategy, CloudStrategy,
    LocalLaunchStrategy, LocalPlan, LocalStrategy, RuntimeTargetEvent, Viewport,
};
use crate::observe::{ids_added, law_new_pages_are_the_difference, new_ids};
use crate::table::Table;
use crate::text::{
    copy_opt, copy_texts, eq_ignore_case, lower_of, opt_view, str_eq, trim_end_char,
    trim_end_char_of, trim_start_char, trim_start_char_of, views,
};
use vstd::prelude::*;
use vstd::string::*;

verus! {

/// Where the session service is reached unless it is said otherwise.
pub const DEFAULT_BROWSERBASE_API_URL: &'static str = "https://api.browserbase.com/v1";

/// What is known of a session.
#[derive(Debug, PartialEq, Eq)]
pub struct BrowserbaseSessionInfo {
    pub id: String,
    pub status: Option<String>,
    pub connect_url: String,
}

/// A session as the service describes it.
#[derive(Debug, PartialEq, Eq)]
pub struct BrowserbaseSessionResponse {
    pub id: String,
    pub status: Option<String>,
    pub connect_url: Option<String>,
}

/// Whether a status says that a session runs.
pub open spec fn runs(status: Option<Seq<char>>) -> bool {
    status matches Some(status) && lower_of(status) == lower_of("running"@)
}

impl BrowserbaseSessionInfo {
    /// Whether the session runs.
    pub fn is_running(&self) -> (yes: bool)
        ensures
            yes == runs(opt_view(self.status)),
    {
        match &self.status {
            Some(status) => eq_ignore_case(status.as_str(), "running"),
            None => false,
        }
    }

    /// Takes what is needed from the description of a session; it has to say where
    /// the session is reached.
    pub fn try_from(value: BrowserbaseSessionResponse) -> (out: Result<
        BrowserbaseSessionInfo,
        BrowserRuntimeError,
    >)
        ensures
            match out {
                Ok(info) => {
                    &&& info.id == value.id
                    &&& info.status == value.status
                    &&& value.connect_url == Some(info.connect_url)
                },
                Err(error) => {
                    &&& value.connect_url is None
                    &&& error matches BrowserRuntimeError::Message(message) && message@
                        == "Browserbase session "@ + value.id@ + " did not include a connect URL"@
                },
            },
    {
        match value.connect_url {
            Some(connect_url) => Ok(
                BrowserbaseSessionInfo { id: value.id, status: value.status, connect_url },
            ),
            None => {
                let mut message = "Browserbase session ".to_owned();
                message.append(value.id.as_str());
                message.append(" did not include a connect URL");
                Err(BrowserRuntimeError::Message(message))
            },
        }
    }
}

/// The address of a resource of the service.
pub open spec fn endpoint_of(base: Seq<char>, path: Seq<char>) -> Seq<char> {
    trim_end_char_of(base, '/') + "/"@ + trim_start_char_of(path, '/')
}

/// Makes the address of a resource of the service.
pub fn endpoint(base: &str, path: &str) -> (out: String)
    ensures
        out@ == endpoint_of(base@, path@),
{
    let mut out = trim_end_char(base, '/');
    out.append("/");
    let rest = trim_start_char(path, '/');
    out.append(rest.as_str());
    out
}

/// What came back from the service when a session was asked for.
#[derive(Debug, PartialEq, Eq)]
pub enum SessionReply {
    /// It described the session.
    Described(BrowserbaseSessionResponse),
    /// It agreed, but its answer could not be read.
    Unreadable(String),
    /// It refused, with a status and as much of an answer as there was.
    Refused { status: String, body: Option<String> },
    /// It could not be reached.
    Unreachable(String),
}

/// What was asked of the service.
#[derive(Debug, PartialEq, Eq)]
pub enum SessionRequest {
    Retrieve(String),
    Create,
}

/// What was asked of the service, in words.
pub open spec fn asked(request: SessionRequest) -> Seq<char> {
    match request {
        SessionRequest::Retrieve(id) => "retrieve session "@ + id@,
        SessionRequest::Create => "create session"@,
    }
}

/// What an answer that is no description of a session is reported as.
pub open spec fn refusal(reply: SessionReply, request: SessionRequest) -> Seq<char> {
    match reply {
        SessionReply::Described(response) => "Browserbase session "@ + response.id@
            + " did not include a connect URL"@,
        SessionReply::Unreadable(why) =>
            "failed to parse Browserbase response while attempting to "@ + asked(request) + ": "@
            + why@,
        SessionReply::Refused { status, body } => "Browserbase API call to "@ + asked(request)
            + " failed ("@ + status@ + "): "@ + (match body {
            Some(body) => body@,
            None => "<unavailable>"@,
        }),
        SessionReply::Unreachable(why) => (match request {
            SessionRequest::Retrieve(_) => "Browserbase session retrieval failed: "@,
            SessionRequest::Create => "Browserbase session creation failed: "@,
        }) + why@,
    }
}

fn asked_text(request: &SessionRequest) -> (out: String)
    ensures
        out@ == asked(*request),
{
    match request {
        SessionRequest::Retrieve(id) => {
            let mut out = "retrieve session ".to_owned();
            out.append(id.as_str());
            out
        },
        SessionRequest::Create => "create session".to_owned(),
    }
}

/// Takes the session from what came back from the service.
pub fn handle_session_response(reply: SessionReply, request: &SessionRequest) -> (out: Result<
    BrowserbaseSessionInfo,
    BrowserRuntimeError,
>)
    ensures
        match out {
            Ok(info) => {
                &&& reply matches SessionReply::Described(response)
                &&& info.id == response.id
                &&& info.status == response.status
                &&& response.connect_url == Some(info.connect_url)
            },
            Err(error) => {
                &&& reply matches SessionReply::Described(response) ==> response.connect_url is None
                &&& error matches BrowserRuntimeError::Message(message) && message@ == refusal(
                    reply,
                    *request,
                )
            },
        },
{
    match reply {
        SessionReply::Described(response) => BrowserbaseSessionInfo::try_from(response),
        SessionReply::Unreadable(why) => {
            let mut message =
                "failed to parse Browserbase response while attempting to ".to_owned();
            let context = asked_text(request);
            message.append(context.as_str());
            message.append(": ");
            message.append(why.as_str());
            Err(BrowserRuntimeError::Message(message))
        },
        SessionReply::Refused { status, body } => {
            let mut message = "Browserbase API call to ".to_owned();
            let context = asked_text(request);
            message.append(context.as_str());
            message.append(" failed (");
            message.append(status.as_str());
            message.append("): ");
            match &body {
                Some(body) => message.append(body.as_str()),
                None => message.append("<unavailable>"),
            }
            Err(BrowserRuntimeError::Message(message))
        },
        SessionReply::Unreachable(why) => {
            let mut message = match request {
                SessionRequest::Retrieve(_) => "Browserbase session retrieval failed: ".to_owned(),
                SessionRequest::Create => "Browserbase session creation failed: ".to_owned(),
            };
            message.append(why.as_str());
            Err(BrowserRuntimeError::Message(message))
        },
    }
}

/// A session that the browser is connected to.
#[derive(Debug, PartialEq, Eq)]
pub struct BrowserbaseRuntimeState {
    pub session_id: String,
    pub connect_url: String,
    pub api_key: String,
    pub project_id: Option<String>,
}

impl BrowserbaseRuntimeState {
    /// The same session again.
    pub fn copy(&self) -> (out: Self)
        ensures
            out.session_id@ == self.session_id@,
            out.connect_url@ == self.connect_url@,
            out.api_key@ == self.api_key@,
            opt_view(out.project_id) == opt_view(self.project_id),
    {
        BrowserbaseRuntimeState {
            session_id: self.session_id.clone(),
            connect_url: self.connect_url.clone(),
            api_key: self.api_key.clone(),
            project_id: copy_opt(&self.project_id),
        }
    }
}

/// What has to be sent to the service to get a session.
#[derive(Debug, PartialEq)]
pub enum ConnectStep {
    /// Nothing: the browser is connected.
    Connected,
    /// A question for the session at this address.
    Retrieve { url: String, api_key: String, request: SessionRequest },
    /// An order for a new session at this address.
    Create { url: String, api_key: String, body: crate::json::JsonObject, request: SessionRequest },
}

/// Decides what to send to the service, whose address is `base`.
pub fn begin_connect(plan: &BrowserbasePlan, connected: bool, base: &str) -> (out: Result<
    ConnectStep,
    BrowserRuntimeError,
>)
    ensures
        match out {
            Ok(ConnectStep::Connected) => connected,
            Ok(ConnectStep::Retrieve { url, api_key, request }) => {
                &&& !connected
                &&& plan@.api_key == Some(api_key@)
                &&& plan@.strategy matches CloudStrategy::Existing(session_id)
                &&& url@ == endpoint_of(base@, "sessions/"@ + session_id)
                &&& request matches SessionRequest::Retrieve(id) && id@ == session_id
            },
            Ok(ConnectStep::Create { url, api_key, body, request }) => {
                &&& !connected
                &&& plan@.api_key == Some(api_key@)
                &&& plan@.strategy matches CloudStrategy::New(params)
                &&& url@ == endpoint_of(base@, "sessions"@)
                &&& body@ == crate::browser::params_json(params)
                &&& request is Create
            },
            Err(error) => {
                &&& !connected
                &&& plan@.api_key is None
                &&& error matches BrowserRuntimeError::Message(message) && message@
                    == "Browserbase API key is required to connect to Browserbase"@
            },
        },
{
    if connected {
        return Ok(ConnectStep::Connected);
    }
    let api_key = match &plan.api_key {
        Some(api_key) => api_key.clone(),
        None => {
            return Err(
                BrowserRuntimeError::Message(
                    "Browserbase API key is required to connect to Browserbase".to_owned(),
                ),
            );
        },
    };
    match &plan.strategy {
        BrowserbaseSessionStrategy::UseExisting { session_id } => {
            let mut path = "sessions/".to_owned();
            path.append(session_id.as_str());
            Ok(
                ConnectStep::Retrieve {
                    url: endpoint(base, path.as_str()),
                    api_key,
                    request: SessionRequest::Retrieve(session_id.clone()),
                },
            )
        },
        BrowserbaseSessionStrategy::CreateNew { params } => Ok(
            ConnectStep::Create {
                url: endpoint(base, "sessions"),
                api_key,
                body: session_body(params),
                request: SessionRequest::Create,
            },
        ),
    }
}

/// Takes up the session that the service gave. One that was asked for has to run.
pub fn accept_session(
    plan: &BrowserbasePlan,
    api_key: String,
    session: &BrowserbaseSessionInfo,
) -> (out: Result<BrowserbaseRuntimeState, BrowserRuntimeError>)
    ensures
        match out {
            Ok(state) => {
                &&& plan@.strategy is Existing ==> runs(opt_view(session.status))
                &&& state.session_id@ == session.id@
                &&& state.connect_url@ == session.connect_url@
                &&& state.api_key == api_key
                &&& opt_view(state.project_id) == plan@.project_id
            },
            Err(error) => {
                &&& plan@.strategy matches CloudStrategy::Existing(session_id)
                &&& !runs(opt_view(session.status))
                &&& error matches BrowserRuntimeError::Message(message)
                &&& message@ == "Browserbase session "@ + session_id
                    + " is not running (status: "@ + (match opt_view(session.status) {
                    Some(status) => status,
                    None => "UNKNOWN"@,
                }) + ")"@
            },
        },
{
    if let BrowserbaseSessionStrategy::UseExisting { session_id } = &plan.strategy {
        if !session.is_running() {
            let mut message = "Browserbase session ".to_owned();
            message.append(session_id.as_str());
            message.append(" is not running (status: ");
            match &session.status {
                Some(status) => message.append(status.as_str()),
                None => message.append("UNKNOWN"),
            }
            message.append(")");
            return Err(BrowserRuntimeError::Message(message));
        }
    }
    Ok(
        BrowserbaseRuntimeState {
            session_id: session.id.clone(),
            connect_url: session.connect_url.clone(),
            api_key,
            project_id: copy_opt(&plan.project_id),
        },
    )
}

/// What has to be done so that the browser answers.
#[derive(Debug, PartialEq, Eq)]
pub enum AliveAction {
    /// Nothing.
    Ready,
    /// Connect again.
    Reconnect(BrowserbaseRuntimeState),
    /// It cannot be reached.
    Fail(BrowserRuntimeError),
}

/// Whether a connection is the same as another.
pub open spec fn same_session(a: BrowserbaseRuntimeState, b: BrowserbaseRuntimeState) -> bool {
    &&& a.session_id@ == b.session_id@
    &&& a.connect_url@ == b.connect_url@
    &&& a.api_key@ == b.api_key@
    &&& opt_view(a.project_id) == opt_view(b.project_id)
}

/// Decides what has to be done so that the browser answers. `probe` is what the
/// browser said when there is one, `current` the session it is connected to, and
/// `remembered` the session that was last connected to.
pub fn ensure_browser_alive(
    probe: Option<Result<(), BrowserRuntimeError>>,
    current: &Option<BrowserbaseRuntimeState>,
    remembered: &Option<BrowserbaseRuntimeState>,
) -> (out: AliveAction)
    ensures
        match out {
            AliveAction::Ready => probe matches Some(Ok(_)),
            AliveAction::Reconnect(state) => {
                &&& !(probe matches Some(Ok(_)))
                &&& if probe is Some && *current is Some {
                    same_session(state, current->0)
                } else {
                    *remembered is Some && same_session(state, remembered->0)
                }
            },
            AliveAction::Fail(error) => {
                &&& *remembered is None
                &&& match probe {
                    Some(Ok(_)) => false,
                    Some(Err(why)) => *current is None && error == why,
                    None => error == BrowserRuntimeError::NotInitialized,
                }
            },
        },
{
    match probe {
        Some(Ok(_)) => AliveAction::Ready,
        Some(Err(why)) => {
            if let Some(state) = current {
                return AliveAction::Reconnect(state.copy());
            }
            match remembered {
                Some(state) => AliveAction::Reconnect(state.copy()),
                None => AliveAction::Fail(why),
            }
        },
        None => match remembered {
            Some(state) => AliveAction::Reconnect(state.copy()),
            None => AliveAction::Fail(BrowserRuntimeError::NotInitialized),
        },
    }
}

/// The settings with which a browser process is started.
#[derive(Debug, PartialEq)]
pub struct LaunchSettings {
    pub chrome_executable: Option<String>,
    pub viewport: Viewport,
    pub is_landscape: bool,
    pub args: Vec<String>,
    pub with_head: bool,
    pub respect_https_errors: bool,
    pub user_data_dir: Option<String>,
}

/// The arguments of a browser process: the given ones, then the language and the
/// time zone unless they are empty.
pub open spec fn launch_args(
    args: Seq<Seq<char>>,
    locale: Seq<char>,
    timezone: Seq<char>,
) -> Seq<Seq<char>> {
    args + (if locale.len() == 0 {
        Seq::empty()
    } else {
        seq!["--lang="@ + locale]
    }) + (if timezone.len() == 0 {
        Seq::empty()
    } else {
        seq!["--timezone="@ + timezone]
    })
}

/// Makes the settings with which a browser process is started.
pub fn build_config(plan: &LocalPlan) -> (out: LaunchSettings)
    ensures
        opt_view(out.chrome_executable) == plan@.chrome_executable,
        out.viewport == plan@.launch.viewport,
        out.is_landscape == (out.viewport.width >= out.viewport.height),
        views(out.args@) == launch_args(
            plan@.launch.args,
            plan@.launch.locale,
            plan@.launch.timezone_id,
        ),
        out.with_head == !plan@.launch.headless,
        out.respect_https_errors == !plan@.launch.ignore_https_errors,
        opt_view(out.user_data_dir) == (match plan@.strategy {
            LocalStrategy::Attach { .. } => None,
            LocalStrategy::Launch { user_data_dir } => user_data_dir,
        }),
{
    let launch = &plan.launch_options;
    let mut args = copy_texts(&launch.args);
    let ghost given = views(args@);
    if !launch.locale.as_str().is_empty() {
        let mut arg = "--lang=".to_owned();
        arg.append(launch.locale.as_str());
        args.push(arg);
        assert(views(args@) =~= given.push("--lang="@ + launch.locale@));
    }
    let ghost before = views(args@);
    if !launch.timezone_id.as_str().is_empty() {
        let mut arg = "--timezone=".to_owned();
        arg.append(launch.timezone_id.as_str());
        args.push(arg);
        assert(views(args@) =~= before.push("--timezone="@ + launch.timezone_id@));
    }
    assert(views(args@) =~= launch_args(given, launch.locale@, launch.timezone_id@));
    LaunchSettings {
        chrome_executable: copy_opt(&plan.chrome_executable),
        viewport: launch.viewport,
        is_landscape: launch.viewport.width >= launch.viewport.height,
        args,
        with_head: !launch.headless,
        respect_https_errors: !launch.ignore_https_errors,
        user_data_dir: match &plan.strategy {
            LocalLaunchStrategy::AttachCdp { .. } => None,
            LocalLaunchStrategy::LaunchPersistent { user_data_dir } => copy_opt(user_data_dir),
        },
    }
}

/// The pages of a browser, each with the handle by which it is reached, and which
/// session shows which page.
#[derive(Debug)]
pub struct TargetRegistry<P> {
    pages: Table<P>,
    session_targets: Table<String>,
}

/// What a registry of pages stands for.
#[verifier::ext_equal]
#[verifier::reject_recursive_types(P)]
pub struct Targets<P> {
    /// The handle of each page.
    pub pages: Map<Seq<char>, P>,
    /// The pages in the order in which they came.
    pub order: Seq<Seq<char>>,
    /// The page of each session.
    pub sessions: Map<Seq<char>, Seq<char>>,
}

/// The texts under their keys, as characters.
pub open spec fn text_values(map: Map<Seq<char>, String>) -> Map<Seq<char>, Seq<char>> {
    map.map_values(|text: String| text@)
}

/// The id of the page that an event is about.
pub open spec fn event_page(event: RuntimeTargetEvent) -> Seq<char> {
    match event {
        RuntimeTargetEvent::Attached { target_id } => target_id@,
        RuntimeTargetEvent::Detached { target_id } => target_id@,
    }
}

/// The ids of the pages that events are about.
pub open spec fn event_pages(events: Seq<RuntimeTargetEvent>) -> Seq<Seq<char>> {
    events.map_values(|event: RuntimeTargetEvent| event_page(event))
}

/// A registry after a page came.
pub open spec fn with_page<P>(targets: Targets<P>, id: Seq<char>, page: P) -> Targets<P> {
    Targets {
        pages: targets.pages.insert(id, page),
        order: if targets.pages.dom().contains(id) {
            targets.order
        } else {
            targets.order.push(id)
        },
        sessions: targets.sessions,
    }
}

/// A registry after a page went.
pub open spec fn without_page<P>(targets: Targets<P>, id: Seq<char>) -> Targets<P> {
    Targets {
        pages: targets.pages.remove(id),
        order: crate::table::without_key(targets.order, id),
        sessions: targets.sessions,
    }
}

/// A registry after pages went, one after the other.
pub open spec fn without_pages<P>(targets: Targets<P>, ids: Seq<Seq<char>>) -> Targets<P>
    decreases ids.len(),
{
    if ids.len() == 0 {
        targets
    } else {
        without_page(without_pages(targets, ids.drop_last()), ids.last())
    }
}

impl<P> View for TargetRegistry<P> {
    type V = Targets<P>;

    closed spec fn view(&self) -> Targets<P> {
        Targets {
            pages: self.pages@,
            order: self.pages.order(),
            sessions: text_values(self.session_targets@),
        }
    }
}

impl<P> TargetRegistry<P> {
    /// A registry without pages.
    pub fn new() -> (out: Self)
        ensures
            out@ == (Targets::<P> {
                pages: Map::empty(),
                order: Seq::empty(),
                sessions: Map::empty(),
            }),
    {
        let out = TargetRegistry { pages: Table::new(), session_targets: Table::new() };
        assert(out@.sessions =~= Map::empty());
        out
    }

    /// Whether a target is shown as a page.
    pub fn is_page(kind: &str) -> (yes: bool)
        ensures
            yes == (kind@ == "page"@),
    {
        str_eq(kind, "page")
    }

    /// Takes in a page that was open before; one that is known stays as it is.
    pub fn add_existing(&mut self, id: &str, page: P)
        ensures
            final(self)@ == (if old(self)@.pages.dom().contains(id@) {
                old(self)@
            } else {
                with_page(old(self)@, id@, page)
            }),
    {
        if !self.pages.contains_key(id) {
            self.pages.insert(id, page);
        }
    }

    /// Takes in a page that was opened here.
    pub fn add_opened(&mut self, id: &str, page: P) -> (event: RuntimeTargetEvent)
        ensures
            final(self)@ == with_page(old(self)@, id@, page),
            event is Attached,
            event_page(event) == id@,
    {
        self.pages.insert(id, page);
        RuntimeTargetEvent::Attached { target_id: id.to_owned() }
    }

    /// Takes in a page that a session was attached to.
    pub fn attached(&mut self, id: &str, session_id: &str, page: P) -> (event: RuntimeTargetEvent)
        ensures
            final(self)@ == (Targets {
                sessions: old(self)@.sessions.insert(session_id@, id@),
                ..with_page(old(self)@, id@, page)
            }),
            event is Attached,
            event_page(event) == id@,
    {
        let ghost before = self@;
        self.pages.insert(id, page);
        self.session_targets.insert(session_id, id.to_owned());
        assert(self@.sessions =~= before.sessions.insert(session_id@, id@));
        RuntimeTargetEvent::Attached { target_id: id.to_owned() }
    }

    /// Lets go of the page of a session that was detached. Where the session is
    /// not known nothing happens, and the pages have to be looked at.
    pub fn detached(&mut self, session_id: &str) -> (event: Option<RuntimeTargetEvent>)
        ensures
            match event {
                Some(event) => {
                    &&& event is Detached
                    &&& old(self)@.sessions.dom().contains(session_id@)
                    &&& event_page(event) == old(self)@.sessions[session_id@]
                    &&& final(self)@ == (Targets {
                        sessions: old(self)@.sessions.remove(session_id@),
                        ..without_page(old(self)@, old(self)@.sessions[session_id@])
                    })
                },
                None => {
                    &&& !old(self)@.sessions.dom().contains(session_id@)
                    &&& final(self)@ == old(self)@
                },
            },
    {
        let ghost before = self@;
        match self.session_targets.remove(session_id) {
            Some(target_id) => {
                self.pages.remove(target_id.as_str());
                assert(self@.sessions =~= before.sessions.remove(session_id@));
                Some(RuntimeTargetEvent::Detached { target_id })
            },
            None => {
                assert(self@.sessions =~= before.sessions);
                None
            },
        }
    }

    /// Lets go of the pages that are not among the ones the browser has.
    pub fn refresh(&mut self, existing: &Vec<String>) -> (events: Vec<RuntimeTargetEvent>)
        ensures
            event_pages(events@) == new_ids(views(existing@), old(self)@.order),
            forall|i: int| 0 <= i < events@.len() ==> (#[trigger] events@[i]) is Detached,
            final(self)@ == without_pages(
                old(self)@,
                new_ids(views(existing@), old(self)@.order),
            ),
    {
        let ghost before = self@;
        let keys = self.pages.keys();
        let stale = ids_added(existing, &keys);
        let mut events: Vec<RuntimeTargetEvent> = Vec::new();
        let mut i: usize = 0;
        assert(views(stale@.take(0)) =~= Seq::<Seq<char>>::empty());
        assert(event_pages(events@) =~= Seq::<Seq<char>>::empty());
        while i < stale.len()
            invariant
                i <= stale.len(),
                event_pages(events@) == views(stale@.take(i as int)),
                forall|k: int| 0 <= k < events@.len() ==> (#[trigger] events@[k]) is Detached,
                self@ == without_pages(before, views(stale@.take(i as int))),
            decreases stale.len() - i,
        {
            let ghost told = event_pages(events@);
            let ghost id = stale@[i as int]@;
            self.pages.remove(stale[i].as_str());
            events.push(RuntimeTargetEvent::Detached { target_id: stale[i].clone() });
            assert(event_pages(events@) =~= told.push(id));
            assert(views(stale@.take(i + 1)) =~= views(stale@.take(i as int)).push(id));
            assert(views(stale@.take(i + 1)).drop_last() =~= views(stale@.take(i as int)));
            i += 1;
        }
        assert(stale@.take(i as int) =~= stale@);
        events
    }

    /// The handle of a page.
    pub fn page(&self, id: &str) -> (out: Option<&P>)
        ensures
            match out {
                Some(page) => self@.pages.dom().contains(id@) && *page == self@.pages[id@],
                None => !self@.pages.dom().contains(id@),
            },
    {
        self.pages.get(id)
    }

    /// The ids of the pages.
    pub fn list_pages(&self) -> (out: Vec<String>)
        ensures
            views(out@) == self@.order,
            self@.order.no_duplicates(),
            forall|id: Seq<char>| #[trigger]
                self@.order.contains(id) <==> self@.pages.dom().contains(id),
    {
        self.pages.keys()
    }

    /// Forgets every page.
    pub fn clear(&mut self)
        ensures
            final(self)@ == (Targets::<P> {
                pages: Map::empty(),
                order: Seq::empty(),
                sessions: Map::empty(),
            }),
    {
        self.pages.clear();
        self.session_targets.clear();
        assert(self@.sessions =~= Map::empty());
    }
}

proof fn lemma_without_pages<P>(targets: Targets<P>, ids: Seq<Seq<char>>, id: Seq<char>)
    ensures
        without_pages(targets, ids).pages.dom().contains(id) <==> targets.pages.dom().contains(id)
            && !ids.contains(id),
        without_pages(targets, ids).pages.dom().contains(id) ==> without_pages(targets, ids).pages[id]
            == targets.pages[id],
        without_pages(targets, ids).sessions == targets.sessions,
    decreases ids.len(),
{
    if ids.len() > 0 {
        let front = ids.drop_last();
        lemma_without_pages(targets, front, id);
        assert(ids =~= front.push(ids.last()));
        if front.contains(id) {
            let i = choose|i: int| 0 <= i < front.len() && front[i] == id;
            assert(ids[i] == id);
        }
        if ids.contains(id) && id != ids.last() {
            let i = choose|i: int| 0 <= i < ids.len() && ids[i] == id;
            assert(front[i] == id);
        }
        assert(ids[ids.len() - 1] == ids.last());
    }
}

/// After the pages were looked at, those that are left are the ones that were
/// there and that the browser still has, each with its handle.
pub proof fn law_refresh_keeps_existing<P>(targets: Targets<P>, existing: Seq<Seq<char>>)
    requires
        forall|id: Seq<char>| #[trigger]
            targets.order.contains(id) <==> targets.pages.dom().contains(id),
    ensures
        forall|id: Seq<char>| #[trigger]
            without_pages(targets, new_ids(existing, targets.order)).pages.dom().contains(id) <==> (
            targets.pages.dom().contains(id) && existing.contains(id)),
        forall|id: Seq<char>|
            without_pages(targets, new_ids(existing, targets.order)).pages.dom().contains(id)
                ==> #[trigger] without_pages(targets, new_ids(existing, targets.order)).pages[id]
                == targets.pages[id],
{
    law_new_pages_are_the_difference(existing, targets.order);
    let stale = new_ids(existing, targets.order);
    assert forall|id: Seq<char>| #[trigger]
        without_pages(targets, stale).pages.dom().contains(id) <==> (targets.pages.dom().contains(
            id,
        ) && existing.contains(id)) by {
        lemma_without_pages(targets, stale, id);
        assert(stale.contains(id) <==> targets.order.contains(id) && !existing.contains(id));
        assert(targets.order.contains(id) <==> targets.pages.dom().contains(id));
    }
    assert forall|id: Seq<char>|
        without_pages(targets, stale).pages.dom().contains(id) implies #[trigger] without_pages(
        targets,
        stale,
    ).pages[id] == targets.pages[id] by {
        lemma_without_pages(targets, stale, id);
    }
}

/// A page that a session was attached to and then detached from is gone, and its
/// session is forgotten.
pub proof fn law_detach_undoes_attach<P>(
    targets: Targets<P>,
    id: Seq<char>,
    session_id: Seq<char>,
    page: P,
)
    requires
        !targets.pages.dom().contains(id),
        !targets.sessions.dom().contains(session_id),
    ensures
        ({
            let attached = Targets {
                sessions: targets.sessions.insert(session_id, id),
                ..with_page(targets, id, page)
            };
            let detached = Targets {
                sessions: attached.sessions.remove(session_id),
                ..without_page(attached, attached.sessions[session_id])
            };
            detached.pages == targets.pages && detached.sessions == targets.sessions
        }),
{
    assert(targets.pages.insert(id, page).remove(id) =~= targets.pages);
    assert(targets.sessions.insert(session_id, id).remove(session_id) =~= targets.sessions);
}

} // verus!
