//! Models leave nothing out: values with the same model agree in every part.
use crate::a11y::{node_map, raw_nodes, text_map};
use crate::browser::{
    BrowserbaseConnection, BrowserbaseSessionCreateParams, LocalBrowserConnection,
    LocalLaunchOptions, LocalPlan,
};
use crate::cdp::{ScrollAction, ScrollAsk};
use crate::client::{header_pairs, Effect, Header, MetricsUpdate, StreamEffect};
use crate::config::{Issue, StagehandConfig, StagehandConfigError};
use crate::context::{page_map, told, AdapterCall, StagehandPage, Told};
use crate::json::{models, JsonValue};
use crate::logging::{note_models, Note, StagehandLogRecord};
use crate::metrics::StagehandMetrics;
use crate::observe::element_models;
use crate::page_sync::{task_page, tasks_of, PageTask, Task};
use crate::runtime::text_values;
use crate::selectors::{found_models, Ask, SelectorAsk};
use crate::text::{opt_view, opt_views, pair_views, str_views, views, NumberError};
use crate::types::a11y::{inner, nodes_of, opt_ax, AccessibilityNode, AxNode, AxValue};
use crate::types::page::{ActResult, ObserveElementSchema, ObserveResult};
use vstd::prelude::*;

verus! {

/// Whether two texts that may be absent are the same.
pub open spec fn same_text(a: Option<String>, b: Option<String>) -> bool {
    match (a, b) {
        (Some(a), Some(b)) => a@ == b@,
        (None, None) => true,
        _ => false,
    }
}

/// Whether two lists of texts are the same.
pub open spec fn same_texts(a: Seq<String>, b: Seq<String>) -> bool {
    a.len() == b.len() && forall|i: int| 0 <= i < a.len() ==> (#[trigger] a[i])@ == b[i]@
}

proof fn lemma_same_texts(a: Seq<String>, b: Seq<String>)
    requires
        views(a) == views(b),
    ensures
        same_texts(a, b),
{
    assert(views(a).len() == a.len());
    assert(views(b).len() == b.len());
    assert forall|i: int| 0 <= i < a.len() implies (#[trigger] a[i])@ == b[i]@ by {
        assert(views(a)[i] == a[i]@);
        assert(views(b)[i] == b[i]@);
    }
}

/// Reported nodes with the same model agree in every part.
pub proof fn law_reports_are_shown_whole(a: AxNode, b: AxNode)
    requires
        a@ == b@,
    ensures
        a.node_id@ == b.node_id@,
        same_text(a.parent_id, b.parent_id),
        a.backend_dom_node_id == b.backend_dom_node_id,
        a.child_ids is Some <==> b.child_ids is Some,
        a.child_ids is Some ==> same_texts(a.child_ids->0@, b.child_ids->0@),
        a.properties is Some <==> b.properties is Some,
        a.properties is Some ==> a.properties->0@.len() == b.properties->0@.len(),
        a.role is Some <==> b.role is Some,
        a.role is Some ==> a.role->0.value_type@ == b.role->0.value_type@,
        inner(opt_ax(a.role)) == inner(opt_ax(b.role)),
        inner(opt_ax(a.name)) == inner(opt_ax(b.name)),
        inner(opt_ax(a.description)) == inner(opt_ax(b.description)),
        inner(opt_ax(a.value)) == inner(opt_ax(b.value)),
{
    if a.child_ids is Some {
        lemma_same_texts(a.child_ids->0@, b.child_ids->0@);
    }
    if a.properties is Some {
        assert(a@.properties->0.len() == a.properties->0@.len());
        assert(b@.properties->0.len() == b.properties->0@.len());
    }
}

/// The value inside a reported value is shown.
pub proof fn law_reported_values_are_shown(value: AxValue)
    ensures
        inner(opt_ax(None)) is None,
        value.value matches Some(json) ==> inner(opt_ax(Some(value))) == Some(json@),
        value.value is None ==> inner(opt_ax(Some(value))) is None,
{
}

/// Nodes of a tree with the same model agree in every part, and below them.
pub proof fn law_nodes_are_shown_whole(a: AccessibilityNode, b: AccessibilityNode)
    requires
        a@ == b@,
    ensures
        same_text(a.node_id, b.node_id),
        same_text(a.role, b.role),
        same_text(a.name, b.name),
        same_text(a.description, b.description),
        same_text(a.value, b.value),
        same_text(a.parent_id, b.parent_id),
        a.backend_dom_node_id == b.backend_dom_node_id,
        a.child_ids is Some <==> b.child_ids is Some,
        a.child_ids is Some ==> same_texts(a.child_ids->0@, b.child_ids->0@),
        a.children is Some <==> b.children is Some,
        a.children is Some ==> a.children->0@.len() == b.children->0@.len(),
        a.children is Some ==> forall|i: int|
            0 <= i < a.children->0@.len() ==> (#[trigger] a.children->0@[i])@ == b.children->0@[i]@,
        a.properties is Some <==> b.properties is Some,
{
    broadcast use crate::types::a11y::lemma_children;

    if a.child_ids is Some {
        lemma_same_texts(a.child_ids->0@, b.child_ids->0@);
    }
    if a.children is Some {
        let one = nodes_of(a.children->0@);
        let other = nodes_of(b.children->0@);
        assert(a@.children == Some(one));
        assert(b@.children == Some(other));
        assert(one.len() == a.children->0@.len());
        assert(other.len() == b.children->0@.len());
        assert forall|i: int| 0 <= i < a.children->0@.len() implies (
        #[trigger] a.children->0@[i])@ == b.children->0@[i]@ by {
            assert(one[i] == a.children->0@[i]@);
            assert(other[i] == b.children->0@[i]@);
        }
    }
}

/// Elements with the same model agree in every part.
pub proof fn law_elements_are_shown_whole(a: ObserveElementSchema, b: ObserveElementSchema)
    requires
        a@ == b@,
    ensures
        a.element_id == b.element_id,
        a.description@ == b.description@,
        a.method@ == b.method@,
        same_texts(a.arguments@, b.arguments@),
{
    lemma_same_texts(a.arguments@, b.arguments@);
}

/// Found elements with the same model agree in every part.
pub proof fn law_found_elements_are_shown_whole(a: ObserveResult, b: ObserveResult)
    requires
        a@ == b@,
    ensures
        a.selector@ == b.selector@,
        a.description@ == b.description@,
        a.backend_node_id == b.backend_node_id,
        same_text(a.method, b.method),
        a.arguments is Some <==> b.arguments is Some,
        a.arguments is Some ==> same_texts(a.arguments->0@, b.arguments->0@),
{
    if a.arguments is Some {
        lemma_same_texts(a.arguments->0@, b.arguments->0@);
    }
}

/// Outcomes of actions with the same model agree in every part.
pub proof fn law_outcomes_are_shown_whole(a: ActResult, b: ActResult)
    requires
        a@ == b@,
    ensures
        a.success == b.success,
        a.message@ == b.message@,
        a.action@ == b.action@,
{
}

/// Settings with the same model agree in every part.
pub proof fn law_settings_are_shown_whole(a: StagehandConfig, b: StagehandConfig)
    requires
        a@ == b@,
    ensures
        a.env == b.env,
        same_text(a.api_key, b.api_key),
        same_text(a.project_id, b.project_id),
        a.api_url@ == b.api_url@,
        same_text(a.browserbase_session_id, b.browserbase_session_id),
        a.model_name == b.model_name,
        same_text(a.model_api_key, b.model_api_key),
        a.verbose == b.verbose,
        a.use_rich_logging == b.use_rich_logging,
        a.dom_settle_timeout_ms == b.dom_settle_timeout_ms,
        a.enable_caching == b.enable_caching,
        a.self_heal == b.self_heal,
        a.wait_for_captcha_solves == b.wait_for_captcha_solves,
        a.act_timeout_ms == b.act_timeout_ms,
        same_text(a.system_prompt, b.system_prompt),
        a.local_browser_launch_options@ == b.local_browser_launch_options@,
        a.use_api == b.use_api,
        a.experimental == b.experimental,
        a.headless == b.headless,
        a.browserbase_session_create_params is Some <==> b.browserbase_session_create_params
            is Some,
        a.browserbase_session_create_params is Some ==> a.browserbase_session_create_params->0@
            == b.browserbase_session_create_params->0@,
        a.model_client_options is Some <==> b.model_client_options is Some,
        a.model_client_options is Some ==> a.model_client_options->0@
            == b.model_client_options->0@,
{
}

/// Parameters and connections with the same model agree in every part.
pub proof fn law_cloud_connections_are_shown_whole(
    a: BrowserbaseConnection,
    b: BrowserbaseConnection,
    p: BrowserbaseSessionCreateParams,
    q: BrowserbaseSessionCreateParams,
)
    requires
        a@ == b@,
        p@ == q@,
    ensures
        same_text(a.api_key, b.api_key),
        same_text(a.project_id, b.project_id),
        same_text(a.session_id, b.session_id),
        a.create_params is Some <==> b.create_params is Some,
        a.create_params is Some ==> a.create_params->0@ == b.create_params->0@,
        same_text(p.project_id, q.project_id),
        p.browser_settings.viewport == q.browser_settings.viewport,
        p.browser_settings.extra@ == q.browser_settings.extra@,
        p.extra@ == q.extra@,
{
}

/// Launches with the same model agree in every part.
pub proof fn law_launches_are_shown_whole(a: LocalLaunchOptions, b: LocalLaunchOptions)
    requires
        a@ == b@,
    ensures
        a.headless == b.headless,
        a.accept_downloads == b.accept_downloads,
        same_texts(a.args@, b.args@),
        a.viewport == b.viewport,
        a.locale@ == b.locale@,
        a.timezone_id@ == b.timezone_id@,
        a.bypass_csp == b.bypass_csp,
        a.ignore_https_errors == b.ignore_https_errors,
        a.proxy is Some <==> b.proxy is Some,
        a.proxy is Some ==> a.proxy->0@ == b.proxy->0@,
{
    lemma_same_texts(a.args@, b.args@);
}

/// Connections and plans for a browser here with the same model agree in every part.
pub proof fn law_local_connections_are_shown_whole(
    a: LocalBrowserConnection,
    b: LocalBrowserConnection,
    p: LocalPlan,
    q: LocalPlan,
)
    requires
        a@ == b@,
        p@ == q@,
    ensures
        same_text(a.cdp_url, b.cdp_url),
        same_text(a.user_data_dir, b.user_data_dir),
        a.downloads_path@ == b.downloads_path@,
        a.launch_options@ == b.launch_options@,
        same_text(a.chrome_executable, b.chrome_executable),
        a.headers is Some <==> b.headers is Some,
        a.headers is Some ==> a.headers->0@ == b.headers->0@,
        a.cookies is Some <==> b.cookies is Some,
        p.launch_options@ == q.launch_options@,
        p.downloads_path@ == q.downloads_path@,
        same_text(p.chrome_executable, q.chrome_executable),
        p.cookies is Some <==> q.cookies is Some,
{
}

/// Records and notes with the same model agree in every part.
pub proof fn law_records_are_shown_whole(
    a: StagehandLogRecord,
    b: StagehandLogRecord,
    n: Note,
    m: Note,
)
    requires
        a@ == b@,
        n@ == m@,
    ensures
        a.timestamp@ == b.timestamp@,
        a.message@ == b.message@,
        a.level == b.level,
        same_text(a.category, b.category),
        a.auxiliary is Some <==> b.auxiliary is Some,
        a.auxiliary is Some ==> a.auxiliary->0@ == b.auxiliary->0@,
        n.level == m.level,
        n.message@ == m.message@,
        n.category@ == m.category@,
        n.auxiliary is Some <==> m.auxiliary is Some,
        n.auxiliary is Some ==> n.auxiliary->0@ == m.auxiliary->0@,
{
}

/// Counts are shown function by function.
pub proof fn law_counts_are_shown_whole(a: StagehandMetrics)
    ensures
        a@.act.prompt == a.act_prompt_tokens,
        a@.act.completion == a.act_completion_tokens,
        a@.act.time == a.act_inference_time_ms,
        a@.extract.prompt == a.extract_prompt_tokens,
        a@.extract.completion == a.extract_completion_tokens,
        a@.extract.time == a.extract_inference_time_ms,
        a@.observe.prompt == a.observe_prompt_tokens,
        a@.observe.completion == a.observe_completion_tokens,
        a@.observe.time == a.observe_inference_time_ms,
        a@.agent.prompt == a.agent_prompt_tokens,
        a@.agent.completion == a.agent_completion_tokens,
        a@.agent.time == a.agent_inference_time_ms,
        a@.total.prompt == a.total_prompt_tokens,
        a@.total.completion == a.total_completion_tokens,
        a@.total.time == a.total_inference_time_ms,
{
}

/// Lists of texts are shown text by text.
pub proof fn law_texts_are_shown_one_by_one(
    texts: Seq<String>,
    pairs: Seq<(String, String)>,
    parts: Seq<&str>,
    i: int,
)
    ensures
        views(texts).len() == texts.len(),
        0 <= i < texts.len() ==> views(texts)[i] == texts[i]@,
        pair_views(pairs).len() == pairs.len(),
        0 <= i < pairs.len() ==> pair_views(pairs)[i] == (pairs[i].0@, pairs[i].1@),
        str_views(parts).len() == parts.len(),
        0 <= i < parts.len() ==> str_views(parts)[i] == parts[i]@,
{
}

/// A text that may be absent is shown where it is there.
pub proof fn law_optional_texts_are_shown(text: String, texts: Vec<String>)
    ensures
        opt_view(Some(text)) == Some(text@),
        opt_view(None) is None,
        opt_views(Some(texts)) == Some(views(texts@)),
        opt_views(None) is None,
{
}

/// Lists of nodes, elements, notes and values are shown one by one.
pub proof fn law_items_are_shown_one_by_one(
    nodes: Seq<AccessibilityNode>,
    reports: Seq<AxNode>,
    elements: Seq<ObserveElementSchema>,
    found: Seq<ObserveResult>,
    notes: Seq<Note>,
    values: Seq<JsonValue>,
    i: int,
)
    ensures
        nodes_of(nodes).len() == nodes.len(),
        0 <= i < nodes.len() ==> nodes_of(nodes)[i] == nodes[i]@,
        raw_nodes(reports).len() == reports.len(),
        0 <= i < reports.len() ==> raw_nodes(reports)[i] == reports[i]@,
        element_models(elements).len() == elements.len(),
        0 <= i < elements.len() ==> element_models(elements)[i] == elements[i]@,
        found_models(found).len() == found.len(),
        0 <= i < found.len() ==> found_models(found)[i] == found[i]@,
        note_models(notes).len() == notes.len(),
        0 <= i < notes.len() ==> note_models(notes)[i] == notes[i]@,
        models(values).len() == values.len(),
        0 <= i < values.len() ==> models(values)[i] == values[i]@,
{
}

/// Tasks, calls and headers are shown one by one.
pub proof fn law_calls_are_shown_one_by_one(
    tasks: Seq<PageTask>,
    calls: Seq<AdapterCall>,
    headers: Seq<Header>,
    i: int,
)
    ensures
        tasks_of(tasks).len() == tasks.len(),
        0 <= i < tasks.len() ==> tasks_of(tasks)[i] == tasks[i]@,
        told(calls).len() == calls.len(),
        0 <= i < calls.len() ==> told(calls)[i] == calls[i]@,
        header_pairs(headers).len() == headers.len(),
        0 <= i < headers.len() ==> header_pairs(headers)[i] == (
            headers[i].name@,
            headers[i].value@,
        ),
{
}

/// Tables are shown entry by entry.
pub proof fn law_tables_are_shown_entry_by_entry(
    texts: Map<Seq<char>, String>,
    nodes: Map<Seq<char>, AccessibilityNode>,
    pages: Map<Seq<char>, StagehandPage>,
    key: Seq<char>,
)
    ensures
        text_map(texts).dom() == texts.dom(),
        texts.dom().contains(key) ==> text_map(texts)[key] == texts[key]@,
        text_values(texts).dom() == texts.dom(),
        texts.dom().contains(key) ==> text_values(texts)[key] == texts[key]@,
        node_map(nodes).dom() == nodes.dom(),
        nodes.dom().contains(key) ==> node_map(nodes)[key] == nodes[key]@,
        page_map(pages).dom() == pages.dom(),
        pages.dom().contains(key) ==> page_map(pages)[key] == pages[key]@,
{
    assert(text_map(texts).dom() =~= texts.dom());
    assert(text_values(texts).dom() =~= texts.dom());
    assert(node_map(nodes).dom() =~= nodes.dom());
    assert(page_map(pages).dom() =~= pages.dom());
}

/// A task is about its page, whatever has to be done with it; a call says what it says.
pub proof fn law_tasks_and_calls_are_shown_whole(id: String, text: String)
    ensures
        PageTask::Attached(id)@ == Task::Attached(id@),
        PageTask::Detached(id)@ == Task::Detached(id@),
        PageTask::Adopt(id)@ == Task::Adopt(id@),
        PageTask::Open(id)@ == Task::Open(id@),
        task_page(Task::Attached(id@)) == id@,
        task_page(Task::Detached(id@)) == id@,
        task_page(Task::Adopt(id@)) == id@,
        task_page(Task::Open(id@)) == id@,
        AdapterCall::NotifyActivePage(id)@ == Told::Active(id@),
        (AdapterCall::LogDebug { message: id, category: text })@ == (Told::Debug {
            message: id@,
            category: text@,
        }),
        (AdapterCall::LogError { message: id, category: text })@ == (Told::Error {
            message: id@,
            category: text@,
        }),
{
}

/// What comes over a stream is shown as it is.
pub proof fn law_effects_are_shown_whole(
    value: JsonValue,
    update: MetricsUpdate,
    text: String,
)
    ensures
        StreamEffect::Nothing@ == Effect::Nothing,
        StreamEffect::Finished(value)@ == Effect::Finished(value@),
        StreamEffect::Log(value)@ == Effect::Log(value@),
        StreamEffect::Metrics(update)@ == Effect::Metrics(update),
        (StreamEffect::Unhandled { kind: text, message: value })@ == (Effect::Unhandled {
            kind: text@,
            message: value@,
        }),
        (StreamEffect::Failed { reason: text, data: value })@ == (Effect::Failed {
            reason: text@,
            data: value@,
        }),
{
}

/// What is asked while elements are looked for is shown as it is.
pub proof fn law_questions_are_shown_whole(text: String, id: i64)
    ensures
        ScrollAction::EnsureInjection@ == ScrollAsk::Inject,
        ScrollAction::ListXpaths@ == ScrollAsk::List,
        ScrollAction::OpenSession@ == ScrollAsk::Open,
        ScrollAction::Evaluate(text)@ == ScrollAsk::Evaluate(text@),
        ScrollAction::Describe(text)@ == ScrollAsk::Describe(text@),
        ScrollAction::Detach@ == ScrollAsk::Detach,
        ScrollAction::Done@ == ScrollAsk::Done,
        SelectorAsk::Resolve(id)@ == Ask::Resolve(id),
        SelectorAsk::Path(text)@ == Ask::Path(text@),
        SelectorAsk::Done@ == Ask::Done,
{
}

/// Faults of settings are shown with the variable and what it said.
pub proof fn law_faults_are_shown_whole(
    field: &'static str,
    value: String,
    source: NumberError,
)
    ensures
        (StagehandConfigError::InvalidEnumVariant { field, value })@ == (Issue::Enum {
            field: field@,
            value: value@,
        }),
        (StagehandConfigError::InvalidBool { field, value })@ == (Issue::Bool {
            field: field@,
            value: value@,
        }),
        (StagehandConfigError::InvalidNumber { field, value, source })@ == (Issue::Number {
            field: field@,
            value: value@,
            source,
        }),
        (StagehandConfigError::InvalidJsonType { field })@ == (Issue::JsonType { field: field@ }),
        (StagehandConfigError::InvalidJson { field, source: value })@ == (Issue::Json {
            field: field@,
            source: value@,
        }),
{
}

} // verus!
