//! Browser plans: from the configuration to what has to be connected or launched.
use crate::config::{
    copy_object, opt_members, with_project, Environment, Settings, StagehandConfig,
};
use crate::json::{
    field_of, law_insert_then_get, member_of, models, text_of, unsigned_in, with_member, without_member, Json,
    JsonNumber, JsonObject, JsonValue, Members,
};
use crate::merge::{members_over, merge_json_objects};
use crate::observe::all_texts;
use crate::text::{copy_opt, copy_texts, eq_ignore_case, lower_of, opt_view, opt_views, views};
use vstd::prelude::*;
use vstd::string::*;

verus! {

/// Why an operation of the browser failed.
#[derive(Debug, PartialEq, Eq)]
pub enum BrowserRuntimeError {
    Message(String),
    NotInitialized,
    Unsupported(String),
}

impl BrowserRuntimeError {
    /// The error as text.
    pub open spec fn text(self) -> Seq<char> {
        match self {
            BrowserRuntimeError::Message(message) => "browser runtime error: "@ + message@,
            BrowserRuntimeError::NotInitialized => "browser runtime not initialized"@,
            BrowserRuntimeError::Unsupported(feature) => "browser runtime feature unsupported: "@
                + feature@,
        }
    }

    /// Gives the error as text.
    pub fn message(&self) -> (out: String)
        ensures
            out@ == self.text(),
    {
        match self {
            BrowserRuntimeError::Message(message) => {
                let mut out = "browser runtime error: ".to_owned();
                out.append(message.as_str());
                out
            },
            BrowserRuntimeError::NotInitialized => "browser runtime not initialized".to_owned(),
            BrowserRuntimeError::Unsupported(feature) => {
                let mut out = "browser runtime feature unsupported: ".to_owned();
                out.append(feature.as_str());
                out
            },
        }
    }
}

/// Why a browser connection cannot be described.
#[derive(Debug, PartialEq, Eq)]
pub enum BrowserError {
    /// The directory for downloads is not known.
    DownloadsPath { source: String },
    /// A session parameter does not have the form it should have.
    InvalidBrowserbaseParams { field: &'static str },
    /// A launch option does not have the form it should have.
    InvalidLocalOptions { field: &'static str },
}

impl BrowserError {
    /// The error as text.
    pub open spec fn text(self) -> Seq<char> {
        match self {
            BrowserError::DownloadsPath { source } => "failed to determine downloads directory: "@
                + source@,
            BrowserError::InvalidBrowserbaseParams { field } =>
                "failed to parse Browserbase session parameters: "@ + field@,
            BrowserError::InvalidLocalOptions { field } =>
                "failed to parse local browser launch options: "@ + field@,
        }
    }

    /// Gives the error as text.
    pub fn message(&self) -> (out: String)
        ensures
            out@ == self.text(),
    {
        match self {
            BrowserError::DownloadsPath { source } => {
                let mut out = "failed to determine downloads directory: ".to_owned();
                out.append(source.as_str());
                out
            },
            BrowserError::InvalidBrowserbaseParams { field } => {
                let mut out = "failed to parse Browserbase session parameters: ".to_owned();
                out.append(*field);
                out
            },
            BrowserError::InvalidLocalOptions { field } => {
                let mut out = "failed to parse local browser launch options: ".to_owned();
                out.append(*field);
                out
            },
        }
    }
}

/// The size of a page.
#[derive(Clone, Copy, Debug, PartialEq, Eq, Structural)]
pub struct Viewport {
    pub width: u32,
    pub height: u32,
}

impl Default for Viewport {
    fn default() -> (out: Self)
        ensures
            out.width == 1288 && out.height == 711,
    {
        Viewport { width: 1288, height: 711 }
    }
}

/// The settings of a browser in a session.
#[derive(Clone, Debug, PartialEq)]
pub struct BrowserSettings {
    pub viewport: Viewport,
    pub extra: JsonObject,
}

/// The parameters of a new session.
#[derive(Clone, Debug, PartialEq)]
pub struct BrowserbaseSessionCreateParams {
    pub project_id: Option<String>,
    pub browser_settings: BrowserSettings,
    pub extra: JsonObject,
}

/// What the parameters of a new session stand for.
#[verifier::ext_equal]
pub struct Params {
    pub project_id: Option<Seq<char>>,
    pub viewport: Viewport,
    pub settings_extra: Members,
    pub extra: Members,
}

impl View for BrowserbaseSessionCreateParams {
    type V = Params;

    open spec fn view(&self) -> Params {
        Params {
            project_id: opt_view(self.project_id),
            viewport: self.browser_settings.viewport,
            settings_extra: self.browser_settings.extra@,
            extra: self.extra@,
        }
    }
}

/// The parameters where none are given.
pub open spec fn default_params() -> Params {
    Params {
        project_id: None,
        viewport: Viewport { width: 1288, height: 711 },
        settings_extra: Members::empty(),
        extra: Members::empty(),
    }
}

impl Default for BrowserSettings {
    fn default() -> (out: Self)
        ensures
            out.viewport == (Viewport { width: 1288, height: 711 }),
            out.extra@ == Members::empty(),
    {
        BrowserSettings { viewport: Viewport::default(), extra: JsonObject::new() }
    }
}

impl Default for BrowserbaseSessionCreateParams {
    fn default() -> (out: Self)
        ensures
            out@ == default_params(),
    {
        BrowserbaseSessionCreateParams {
            project_id: None,
            browser_settings: BrowserSettings::default(),
            extra: JsonObject::new(),
        }
    }
}

impl BrowserbaseSessionCreateParams {
    /// The same parameters again.
    pub fn copy(&self) -> (out: Self)
        ensures
            out@ == self@,
    {
        BrowserbaseSessionCreateParams {
            project_id: copy_opt(&self.project_id),
            browser_settings: BrowserSettings {
                viewport: self.browser_settings.viewport,
                extra: self.browser_settings.extra.copy(),
            },
            extra: self.extra.copy(),
        }
    }
}

/// The number of 32 bits a value holds.
pub open spec fn small_in(value: Json) -> Option<u32> {
    match unsigned_in(value) {
        Some(n) if n <= u32::MAX => Some(n as u32),
        _ => None,
    }
}

fn read_small(value: &JsonValue) -> (out: Option<u32>)
    ensures
        out == small_in(value@),
{
    match value.as_u64() {
        Some(n) => {
            if n <= 0xffff_ffff {
                Some(n as u32)
            } else {
                None
            }
        },
        None => None,
    }
}

/// A size from its two parts.
pub open spec fn viewport_from(width: Option<Json>, height: Option<Json>) -> Option<Viewport> {
    match (width, height) {
        (Some(w), Some(h)) => match (small_in(w), small_in(h)) {
            (Some(width), Some(height)) => Some(Viewport { width, height }),
            _ => None,
        },
        _ => None,
    }
}

/// The size that a value describes: an object with its two parts, or a list of
/// them in order.
pub open spec fn viewport_in(value: Json) -> Option<Viewport> {
    match value {
        Json::Members(members) => viewport_from(
            member_of(members, "width"@),
            member_of(members, "height"@),
        ),
        Json::List(items) => if items.len() == 2 {
            viewport_from(Some(items[0]), Some(items[1]))
        } else {
            None
        },
        _ => None,
    }
}

fn make_viewport(width: Option<&JsonValue>, height: Option<&JsonValue>) -> (out: Option<Viewport>)
    ensures
        out == viewport_from(crate::cdp::opt_reply(width), crate::cdp::opt_reply(height)),
{
    match (width, height) {
        (Some(w), Some(h)) => match (read_small(w), read_small(h)) {
            (Some(width), Some(height)) => Some(Viewport { width, height }),
            _ => None,
        },
        _ => None,
    }
}

/// Reads the size that a value describes.
pub fn read_viewport(value: &JsonValue) -> (out: Option<Viewport>)
    ensures
        out == viewport_in(value@),
{
    if let Some(object) = value.as_object() {
        return make_viewport(object.get("width"), object.get("height"));
    }
    if let Some(items) = value.as_array() {
        if items.len() == 2 {
            assert(models(items@)[0] == items@[0]@ && models(items@)[1] == items@[1]@);
            return make_viewport(Some(&items[0]), Some(&items[1]));
        }
    }
    None
}

/// What is not as it should be in the parameters of a session.
pub open spec fn params_issue(members: Members) -> Option<Seq<char>> {
    let settings = member_of(members, "browser_settings"@);
    if (member_of(members, "project_id"@) matches Some(value) && value != Json::Null && text_of(value)
        is None) {
        Some("project_id"@)
    } else if settings is Some && !(settings->0 is Members) {
        Some("browser_settings"@)
    } else if settings is Some && (field_of(settings->0, "viewport"@) matches Some(value)
        && viewport_in(value) is None) {
        Some("viewport"@)
    } else {
        None
    }
}

/// The parameters of a session that an object describes; what it has beyond them
/// is kept.
pub open spec fn params_in(members: Members) -> Params {
    let settings = match member_of(members, "browser_settings"@) {
        Some(Json::Members(settings)) => settings,
        _ => Members::empty(),
    };
    Params {
        project_id: match member_of(members, "project_id"@) {
            Some(value) => text_of(value),
            None => None,
        },
        viewport: match member_of(settings, "viewport"@) {
            Some(value) => viewport_in(value)->0,
            None => Viewport { width: 1288, height: 711 },
        },
        settings_extra: without_member(settings, "viewport"@),
        extra: without_member(without_member(members, "browser_settings"@), "project_id"@),
    }
}

/// Reads the parameters of a session from an object.
pub fn read_params(object: &JsonObject) -> (out: Result<
    BrowserbaseSessionCreateParams,
    BrowserError,
>)
    ensures
        match out {
            Ok(params) => params_issue(object@) is None && params@ == params_in(object@),
            Err(error) => {
                &&& error matches BrowserError::InvalidBrowserbaseParams { field } && params_issue(
                    object@,
                ) == Some(field@)
            },
        },
{
    let project_id = match object.get("project_id") {
        Some(value) => match value.as_str() {
            Some(text) => Some(text.clone()),
            None => {
                if !value.is_null() {
                    return Err(BrowserError::InvalidBrowserbaseParams { field: "project_id" });
                }
                None
            },
        },
        None => None,
    };
    let mut settings = JsonObject::new();
    if let Some(value) = object.get("browser_settings") {
        match value.as_object() {
            Some(inner) => {
                settings = inner.copy();
            },
            None => {
                return Err(BrowserError::InvalidBrowserbaseParams { field: "browser_settings" });
            },
        }
    }
    let viewport = match settings.get("viewport") {
        Some(value) => match read_viewport(value) {
            Some(viewport) => viewport,
            None => return Err(BrowserError::InvalidBrowserbaseParams { field: "viewport" }),
        },
        None => Viewport::default(),
    };
    settings.remove("viewport");
    let mut extra = object.copy();
    extra.remove("browser_settings");
    extra.remove("project_id");
    let out = BrowserbaseSessionCreateParams {
        project_id,
        browser_settings: BrowserSettings { viewport, extra: settings },
        extra,
    };
    assert(out@ =~= params_in(object@));
    Ok(out)
}

/// The parameters of a session as they are sent.
pub open spec fn params_json(params: Params) -> Members {
    let size = with_member(
        with_member(
            Members::empty(),
            "width"@,
            Json::Number(JsonNumber::Unsigned(params.viewport.width as u64)),
        ),
        "height"@,
        Json::Number(JsonNumber::Unsigned(params.viewport.height as u64)),
    );
    with_member(
        with_member(
            params.extra,
            "project_id"@,
            match params.project_id {
                Some(id) => Json::Text(id),
                None => Json::Null,
            },
        ),
        "browser_settings"@,
        Json::Members(with_member(params.settings_extra, "viewport"@, Json::Members(size))),
    )
}

/// Makes the body with which a session is asked for.
pub fn session_body(params: &BrowserbaseSessionCreateParams) -> (out: JsonObject)
    ensures
        out@ == params_json(params@),
{
    let mut size = JsonObject::new();
    size.insert("width", JsonValue::unsigned(params.browser_settings.viewport.width as u64));
    size.insert("height", JsonValue::unsigned(params.browser_settings.viewport.height as u64));
    let mut settings = params.browser_settings.extra.copy();
    settings.insert("viewport", JsonValue::object(size));
    let mut out = params.extra.copy();
    match &params.project_id {
        Some(id) => out.insert("project_id", JsonValue::text(id.as_str())),
        None => out.insert("project_id", JsonValue::null()),
    }
    out.insert("browser_settings", JsonValue::object(settings));
    out
}

proof fn lemma_insert_then_remove(members: Members, key: Seq<char>, value: Json)
    requires
        member_of(members, key) is None,
    ensures
        without_member(with_member(members, key, value), key) == members,
    decreases members.len(),
{
    let with = with_member(members, key, value);
    if members.len() == 0 || crate::text::lex_less(key, members[0].0) {
        assert(with.skip(1) =~= members);
    } else {
        assert(with.skip(1) =~= with_member(members.skip(1), key, value));
        lemma_insert_then_remove(members.skip(1), key, value);
        assert(seq![members[0]] + members.skip(1) =~= members);
    }
}

/// Parameters that are sent are read back as they were, as long as what they hold
/// beyond the known ones does not repeat those.
pub proof fn law_params_read_back(params: Params)
    requires
        member_of(params.extra, "project_id"@) is None,
        member_of(params.extra, "browser_settings"@) is None,
        member_of(params.settings_extra, "viewport"@) is None,
    ensures
        params_issue(params_json(params)) is None,
        params_in(params_json(params)) == params,
{
    reveal_strlit("project_id");
    reveal_strlit("browser_settings");
    reveal_strlit("width");
    reveal_strlit("height");
    assert("project_id"@.len() != "browser_settings"@.len());
    assert("width"@.len() != "height"@.len());
    let width = Json::Number(JsonNumber::Unsigned(params.viewport.width as u64));
    let height = Json::Number(JsonNumber::Unsigned(params.viewport.height as u64));
    let narrow = with_member(Members::empty(), "width"@, width);
    let size = with_member(narrow, "height"@, height);
    law_insert_then_get(Members::empty(), "width"@, width, "width"@);
    law_insert_then_get(narrow, "height"@, height, "width"@);
    law_insert_then_get(narrow, "height"@, height, "height"@);
    let settings = with_member(params.settings_extra, "viewport"@, Json::Members(size));
    law_insert_then_get(params.settings_extra, "viewport"@, Json::Members(size), "viewport"@);
    lemma_insert_then_remove(params.settings_extra, "viewport"@, Json::Members(size));
    let project = match params.project_id {
        Some(id) => Json::Text(id),
        None => Json::Null,
    };
    let named = with_member(params.extra, "project_id"@, project);
    law_insert_then_get(params.extra, "project_id"@, project, "project_id"@);
    law_insert_then_get(params.extra, "project_id"@, project, "browser_settings"@);
    law_insert_then_get(named, "browser_settings"@, Json::Members(settings), "project_id"@);
    law_insert_then_get(named, "browser_settings"@, Json::Members(settings), "browser_settings"@);
    lemma_insert_then_remove(named, "browser_settings"@, Json::Members(settings));
    lemma_insert_then_remove(params.extra, "project_id"@, project);
    assert(params_in(params_json(params)) =~= params);
}

/// The parameters of a session before the configured ones are laid over them.
pub open spec fn base_params(project_id: Option<Seq<char>>) -> Members {
    let size = with_member(
        with_member(Members::empty(), "width"@, Json::Number(JsonNumber::Unsigned(1288))),
        "height"@,
        Json::Number(JsonNumber::Unsigned(711)),
    );
    let settings = with_member(Members::empty(), "viewport"@, Json::Members(size));
    with_member(
        match project_id {
            Some(id) => with_member(Members::empty(), "project_id"@, Json::Text(id)),
            None => Members::empty(),
        },
        "browser_settings"@,
        Json::Members(settings),
    )
}

/// Makes the parameters of a session before the configured ones are laid over them.
pub fn default_browserbase_params(project_id: &Option<String>) -> (out: JsonObject)
    ensures
        out@ == base_params(opt_view(*project_id)),
{
    let mut params = JsonObject::new();
    if let Some(id) = project_id {
        params.insert("project_id", JsonValue::text(id.as_str()));
    }
    let mut size = JsonObject::new();
    size.insert("width", JsonValue::unsigned(1288));
    size.insert("height", JsonValue::unsigned(711));
    let mut settings = JsonObject::new();
    settings.insert("viewport", JsonValue::object(size));
    params.insert("browser_settings", JsonValue::object(settings));
    params
}

/// How a session in the cloud is reached.
#[derive(Clone, Debug, PartialEq)]
pub struct BrowserbaseConnection {
    pub api_key: Option<String>,
    pub project_id: Option<String>,
    pub session_id: Option<String>,
    pub create_params: Option<BrowserbaseSessionCreateParams>,
}

/// What a connection to a session stands for.
#[verifier::ext_equal]
pub struct CloudModel {
    pub api_key: Option<Seq<char>>,
    pub project_id: Option<Seq<char>>,
    pub session_id: Option<Seq<char>>,
    pub create_params: Option<Params>,
}

/// The model of parameters that may be absent.
pub open spec fn opt_params(params: Option<BrowserbaseSessionCreateParams>) -> Option<Params> {
    match params {
        Some(params) => Some(params@),
        None => None,
    }
}

impl View for BrowserbaseConnection {
    type V = CloudModel;

    open spec fn view(&self) -> CloudModel {
        CloudModel {
            api_key: opt_view(self.api_key),
            project_id: opt_view(self.project_id),
            session_id: opt_view(self.session_id),
            create_params: opt_params(self.create_params),
        }
    }
}

/// The parameters of a session as they are asked for: the configured ones laid
/// over the defaults. There are none where a session is given and no parameters.
pub open spec fn wanted_params(settings: Settings) -> Option<Members> {
    match (settings.browserbase_session_id, with_project(settings).browserbase_session_create_params) {
        (Some(_), None) => None,
        (_, Some(custom)) => Some(members_over(base_params(settings.project_id), custom)),
        (None, None) => Some(base_params(settings.project_id)),
    }
}

/// The connection to a session that a configuration describes.
pub open spec fn cloud_connection(settings: Settings) -> CloudModel {
    CloudModel {
        api_key: settings.api_key,
        project_id: settings.project_id,
        session_id: settings.browserbase_session_id,
        create_params: match wanted_params(settings) {
            Some(members) => Some(
                Params {
                    project_id: match params_in(members).project_id {
                        Some(id) => Some(id),
                        None => settings.project_id,
                    },
                    ..params_in(members)
                },
            ),
            None => None,
        },
    }
}

impl BrowserbaseConnection {
    /// Describes the connection to a session.
    pub fn from_config(config: &StagehandConfig) -> (out: Result<Self, BrowserError>)
        ensures
            match out {
                Ok(connection) => {
                    &&& wanted_params(config@) matches Some(members) ==> params_issue(members) is None
                    &&& connection@ == cloud_connection(config@)
                },
                Err(error) => {
                    &&& wanted_params(config@) is Some
                    &&& error matches BrowserError::InvalidBrowserbaseParams { field }
                        && params_issue(wanted_params(config@)->0) == Some(field@)
                },
            },
    {
        let custom = config.browserbase_session_create_params();
        let mut create_params: Option<BrowserbaseSessionCreateParams> = None;
        if config.browserbase_session_id.is_none() || custom.is_some() {
            let mut params = default_browserbase_params(&config.project_id);
            if let Some(custom) = custom {
                params = merge_json_objects(params, &custom);
            }
            let mut typed = match read_params(&params) {
                Ok(typed) => typed,
                Err(error) => return Err(error),
            };
            if typed.project_id.is_none() {
                typed.project_id = copy_opt(&config.project_id);
            }
            create_params = Some(typed);
        }
        let out = BrowserbaseConnection {
            api_key: copy_opt(&config.api_key),
            project_id: copy_opt(&config.project_id),
            session_id: copy_opt(&config.browserbase_session_id),
            create_params,
        };
        assert(out@ =~= cloud_connection(config@));
        Ok(out)
    }

    /// What has to be done to reach the session.
    pub fn plan(&self) -> (out: BrowserbasePlan)
        ensures
            out@ == cloud_plan(self@),
    {
        let strategy = match &self.session_id {
            Some(session_id) => BrowserbaseSessionStrategy::UseExisting {
                session_id: session_id.clone(),
            },
            None => BrowserbaseSessionStrategy::CreateNew {
                params: match &self.create_params {
                    Some(params) => params.copy(),
                    None => BrowserbaseSessionCreateParams::default(),
                },
            },
        };
        BrowserbasePlan {
            api_key: copy_opt(&self.api_key),
            project_id: copy_opt(&self.project_id),
            strategy,
        }
    }
}

/// How a session is got.
#[derive(Clone, Debug, PartialEq)]
pub enum BrowserbaseSessionStrategy {
    UseExisting { session_id: String },
    CreateNew { params: BrowserbaseSessionCreateParams },
}

/// What has to be done to reach a session in the cloud.
#[derive(Clone, Debug, PartialEq)]
pub struct BrowserbasePlan {
    pub api_key: Option<String>,
    pub project_id: Option<String>,
    pub strategy: BrowserbaseSessionStrategy,
}

/// How a session is got, as characters.
pub enum CloudStrategy {
    Existing(Seq<char>),
    New(Params),
}

/// What a plan for a session stands for.
pub struct CloudPlan {
    pub api_key: Option<Seq<char>>,
    pub project_id: Option<Seq<char>>,
    pub strategy: CloudStrategy,
}

impl View for BrowserbasePlan {
    type V = CloudPlan;

    open spec fn view(&self) -> CloudPlan {
        CloudPlan {
            api_key: opt_view(self.api_key),
            project_id: opt_view(self.project_id),
            strategy: match self.strategy {
                BrowserbaseSessionStrategy::UseExisting { session_id } => CloudStrategy::Existing(
                    session_id@,
                ),
                BrowserbaseSessionStrategy::CreateNew { params } => CloudStrategy::New(params@),
            },
        }
    }
}

/// The plan for a connection to a session: a given session is used, else one is
/// created.
pub open spec fn cloud_plan(connection: CloudModel) -> CloudPlan {
    CloudPlan {
        api_key: connection.api_key,
        project_id: connection.project_id,
        strategy: match (connection.session_id, connection.create_params) {
            (Some(session_id), _) => CloudStrategy::Existing(session_id),
            (None, Some(params)) => CloudStrategy::New(params),
            (None, None) => CloudStrategy::New(default_params()),
        },
    }
}

/// The launch options as they are configured.
#[derive(Clone, Debug, PartialEq)]
pub struct LocalLaunchOverrides {
    pub cdp_url: Option<String>,
    pub headers: Option<JsonObject>,
    pub user_data_dir: Option<String>,
    pub downloads_path: Option<String>,
    pub cookies: Option<Vec<JsonValue>>,
    pub headless: Option<bool>,
    pub accept_downloads: Option<bool>,
    pub bypass_csp: Option<bool>,
    pub ignore_https_errors: Option<bool>,
    pub locale: Option<String>,
    pub timezone_id: Option<String>,
    pub proxy: Option<JsonObject>,
    pub args: Option<Vec<String>>,
    pub viewport: Option<Viewport>,
}

/// What configured launch options stand for.
#[verifier::ext_equal]
pub struct LaunchModel {
    pub cdp_url: Option<Seq<char>>,
    pub headers: Option<Members>,
    pub user_data_dir: Option<Seq<char>>,
    pub downloads_path: Option<Seq<char>>,
    pub cookies: Option<Seq<Json>>,
    pub headless: Option<bool>,
    pub accept_downloads: Option<bool>,
    pub bypass_csp: Option<bool>,
    pub ignore_https_errors: Option<bool>,
    pub locale: Option<Seq<char>>,
    pub timezone_id: Option<Seq<char>>,
    pub proxy: Option<Members>,
    pub args: Option<Seq<Seq<char>>>,
    pub viewport: Option<Viewport>,
}

/// The model of a list of values that may be absent.
pub open spec fn opt_list(items: Option<Vec<JsonValue>>) -> Option<Seq<Json>> {
    match items {
        Some(items) => Some(models(items@)),
        None => None,
    }
}

impl View for LocalLaunchOverrides {
    type V = LaunchModel;

    open spec fn view(&self) -> LaunchModel {
        LaunchModel {
            cdp_url: opt_view(self.cdp_url),
            headers: opt_members(self.headers),
            user_data_dir: opt_view(self.user_data_dir),
            downloads_path: opt_view(self.downloads_path),
            cookies: opt_list(self.cookies),
            headless: self.headless,
            accept_downloads: self.accept_downloads,
            bypass_csp: self.bypass_csp,
            ignore_https_errors: self.ignore_https_errors,
            locale: opt_view(self.locale),
            timezone_id: opt_view(self.timezone_id),
            proxy: opt_members(self.proxy),
            args: opt_views(self.args),
            viewport: self.viewport,
        }
    }
}

/// The value of an option that may be written in two ways: no value where it is
/// not given or null, and an error where it is given both ways.
pub open spec fn slot_of(options: Members, key: Seq<char>, alias: Option<Seq<char>>) -> Result<
    Option<Json>,
    (),
> {
    let named = member_of(options, key);
    let aliased = match alias {
        Some(alias) => member_of(options, alias),
        None => None,
    };
    match (named, aliased) {
        (Some(_), Some(_)) => Err(()),
        (Some(Json::Null), None) | (None, Some(Json::Null)) | (None, None) => Ok(None),
        (Some(value), None) => Ok(Some(value)),
        (None, Some(value)) => Ok(Some(value)),
    }
}

/// Whether an option is not as it should be, given whether a value of it is.
pub open spec fn is_bad(slot: Result<Option<Json>, ()>, fits: bool) -> bool {
    slot is Err || (slot->Ok_0 is Some && !fits)
}

fn find_slot<'a>(options: &'a JsonObject, key: &str, alias: Option<&str>) -> (out: Result<
    Option<&'a JsonValue>,
    (),
>)
    ensures
        match (out, slot_of(options@, key@, crate::logging::str_view(alias))) {
            (Ok(Some(value)), Ok(Some(model))) => value@ == model,
            (Ok(None), Ok(None)) => true,
            (Err(()), Err(())) => true,
            _ => false,
        },
{
    let named = options.get(key);
    let aliased = match alias {
        Some(alias) => options.get(alias),
        None => None,
    };
    match (named, aliased) {
        (Some(_), Some(_)) => Err(()),
        (Some(value), None) => {
            if value.is_null() {
                Ok(None)
            } else {
                Ok(Some(value))
            }
        },
        (None, Some(value)) => {
            if value.is_null() {
                Ok(None)
            } else {
                Ok(Some(value))
            }
        },
        (None, None) => Ok(None),
    }
}

/// The same values again.
pub fn copy_values(items: &Vec<JsonValue>) -> (out: Vec<JsonValue>)
    ensures
        models(out@) == models(items@),
{
    let mut out: Vec<JsonValue> = Vec::new();
    let mut i: usize = 0;
    while i < items.len()
        invariant
            i <= items.len(),
            models(out@) == models(items@.take(i as int)),
        decreases items.len() - i,
    {
        let ghost before = models(out@);
        out.push(items[i].copy());
        assert(models(out@) =~= before.push(items@[i as int]@));
        assert(models(items@.take(i + 1)) =~= before.push(items@[i as int]@));
        i += 1;
    }
    assert(items@.take(i as int) =~= items@);
    out
}

/// Whether a value is as an option of this kind should be.
pub open spec fn text_fits(slot: Result<Option<Json>, ()>) -> bool {
    match slot {
        Ok(Some(value)) => text_of(value) is Some,
        _ => false,
    }
}

/// The value of an option of this kind.
pub open spec fn text_slot(slot: Result<Option<Json>, ()>) -> Option<Seq<char>> {
    match slot {
        Ok(Some(value)) => Some(text_of(value)->0),
        _ => None,
    }
}

fn read_text_slot(options: &JsonObject, key: &str, alias: Option<&str>) -> (out: Result<
    Option<String>,
    (),
>)
    ensures
        ({
            let slot = slot_of(options@, key@, crate::logging::str_view(alias));
            &&& out is Err <==> is_bad(slot, text_fits(slot))
            &&& out matches Ok(value) ==> opt_view(value) == text_slot(slot)
        }),
{
    let found = match find_slot(options, key, alias) {
        Ok(found) => found,
        Err(()) => return Err(()),
    };
    match found {
        Some(value) => match value.as_str() {
            Some(text) => Ok(Some(text.clone())),
            None => Err(()),
        },
        None => Ok(None),
    }
}

/// Whether a value is as an option of this kind should be.
pub open spec fn object_fits(slot: Result<Option<Json>, ()>) -> bool {
    match slot {
        Ok(Some(value)) => value is Members,
        _ => false,
    }
}

/// The value of an option of this kind.
pub open spec fn object_slot(slot: Result<Option<Json>, ()>) -> Option<Members> {
    match slot {
        Ok(Some(value)) => Some(value->Members_0),
        _ => None,
    }
}

fn read_object_slot(options: &JsonObject, key: &str, alias: Option<&str>) -> (out: Result<
    Option<JsonObject>,
    (),
>)
    ensures
        ({
            let slot = slot_of(options@, key@, crate::logging::str_view(alias));
            &&& out is Err <==> is_bad(slot, object_fits(slot))
            &&& out matches Ok(value) ==> opt_members(value) == object_slot(slot)
        }),
{
    let found = match find_slot(options, key, alias) {
        Ok(found) => found,
        Err(()) => return Err(()),
    };
    match found {
        Some(value) => match value.as_object() {
            Some(object) => Ok(Some(object.copy())),
            None => Err(()),
        },
        None => Ok(None),
    }
}

/// Whether a value is as an option of this kind should be.
pub open spec fn list_fits(slot: Result<Option<Json>, ()>) -> bool {
    match slot {
        Ok(Some(value)) => value is List,
        _ => false,
    }
}

/// The value of an option of this kind.
pub open spec fn list_slot(slot: Result<Option<Json>, ()>) -> Option<Seq<Json>> {
    match slot {
        Ok(Some(value)) => Some(value->List_0),
        _ => None,
    }
}

fn read_list_slot(options: &JsonObject, key: &str, alias: Option<&str>) -> (out: Result<
    Option<Vec<JsonValue>>,
    (),
>)
    ensures
        ({
            let slot = slot_of(options@, key@, crate::logging::str_view(alias));
            &&& out is Err <==> is_bad(slot, list_fits(slot))
            &&& out matches Ok(value) ==> opt_list(value) == list_slot(slot)
        }),
{
    let found = match find_slot(options, key, alias) {
        Ok(found) => found,
        Err(()) => return Err(()),
    };
    match found {
        Some(value) => match value.as_array() {
            Some(items) => Ok(Some(copy_values(items))),
            None => Err(()),
        },
        None => Ok(None),
    }
}

/// Whether a value is as an option of this kind should be.
pub open spec fn bool_fits(slot: Result<Option<Json>, ()>) -> bool {
    match slot {
        Ok(Some(value)) => value is Bool,
        _ => false,
    }
}

/// The value of an option of this kind.
pub open spec fn bool_slot(slot: Result<Option<Json>, ()>) -> Option<bool> {
    match slot {
        Ok(Some(value)) => Some(value->Bool_0),
        _ => None,
    }
}

fn read_bool_slot(options: &JsonObject, key: &str, alias: Option<&str>) -> (out: Result<
    Option<bool>,
    (),
>)
    ensures
        ({
            let slot = slot_of(options@, key@, crate::logging::str_view(alias));
            &&& out is Err <==> is_bad(slot, bool_fits(slot))
            &&& out matches Ok(value) ==> value == bool_slot(slot)
        }),
{
    let found = match find_slot(options, key, alias) {
        Ok(found) => found,
        Err(()) => return Err(()),
    };
    match found {
        Some(value) => match value.as_bool() {
            Some(flag) => Ok(Some(flag)),
            None => Err(()),
        },
        None => Ok(None),
    }
}

/// Whether a value is as an option of this kind should be.
pub open spec fn texts_fits(slot: Result<Option<Json>, ()>) -> bool {
    match slot {
        Ok(Some(value)) => value is List && all_texts(value->List_0) is Some,
        _ => false,
    }
}

/// The value of an option of this kind.
pub open spec fn texts_slot(slot: Result<Option<Json>, ()>) -> Option<Seq<Seq<char>>> {
    match slot {
        Ok(Some(value)) => Some(all_texts(value->List_0)->0),
        _ => None,
    }
}

fn read_texts_slot(options: &JsonObject, key: &str, alias: Option<&str>) -> (out: Result<
    Option<Vec<String>>,
    (),
>)
    ensures
        ({
            let slot = slot_of(options@, key@, crate::logging::str_view(alias));
            &&& out is Err <==> is_bad(slot, texts_fits(slot))
            &&& out matches Ok(value) ==> opt_views(value) == texts_slot(slot)
        }),
{
    let found = match find_slot(options, key, alias) {
        Ok(found) => found,
        Err(()) => return Err(()),
    };
    match found {
        Some(value) => match value.as_array() {
            Some(items) => match crate::observe::read_texts(items) {
                Some(texts) => Ok(Some(texts)),
                None => Err(()),
            },
            None => Err(()),
        },
        None => Ok(None),
    }
}

/// Whether a value is as an option of this kind should be.
pub open spec fn viewport_fits(slot: Result<Option<Json>, ()>) -> bool {
    match slot {
        Ok(Some(value)) => viewport_in(value) is Some,
        _ => false,
    }
}

/// The value of an option of this kind.
pub open spec fn viewport_slot(slot: Result<Option<Json>, ()>) -> Option<Viewport> {
    match slot {
        Ok(Some(value)) => Some(viewport_in(value)->0),
        _ => None,
    }
}

fn read_viewport_slot(options: &JsonObject, key: &str, alias: Option<&str>) -> (out: Result<
    Option<Viewport>,
    (),
>)
    ensures
        ({
            let slot = slot_of(options@, key@, crate::logging::str_view(alias));
            &&& out is Err <==> is_bad(slot, viewport_fits(slot))
            &&& out matches Ok(value) ==> value == viewport_slot(slot)
        }),
{
    let found = match find_slot(options, key, alias) {
        Ok(found) => found,
        Err(()) => return Err(()),
    };
    match found {
        Some(value) => match read_viewport(value) {
            Some(viewport) => Ok(Some(viewport)),
            None => Err(()),
        },
        None => Ok(None),
    }
}

/// The first launch option, in this order, that is not as it should be.
pub open spec fn launch_issue(options: Members) -> Option<Seq<char>> {
    let s1 = slot_of(options, "cdpUrl"@, Some("cdp_url"@));
    let s2 = slot_of(options, "headers"@, None);
    let s3 = slot_of(options, "userDataDir"@, Some("user_data_dir"@));
    let s4 = slot_of(options, "downloadsPath"@, Some("downloads_path"@));
    let s5 = slot_of(options, "cookies"@, None);
    let s6 = slot_of(options, "headless"@, None);
    let s7 = slot_of(options, "acceptDownloads"@, Some("accept_downloads"@));
    let s8 = slot_of(options, "bypassCsp"@, Some("bypass_csp"@));
    let s9 = slot_of(options, "ignoreHttpsErrors"@, Some("ignore_https_errors"@));
    let s10 = slot_of(options, "locale"@, None);
    let s11 = slot_of(options, "timezoneId"@, Some("timezone_id"@));
    let s12 = slot_of(options, "proxy"@, None);
    let s13 = slot_of(options, "args"@, None);
    let s14 = slot_of(options, "viewport"@, None);
    if is_bad(s1, text_fits(s1)) {
        Some("cdp_url"@)
    } else if is_bad(s2, object_fits(s2)) {
        Some("headers"@)
    } else if is_bad(s3, text_fits(s3)) {
        Some("user_data_dir"@)
    } else if is_bad(s4, text_fits(s4)) {
        Some("downloads_path"@)
    } else if is_bad(s5, list_fits(s5)) {
        Some("cookies"@)
    } else if is_bad(s6, bool_fits(s6)) {
        Some("headless"@)
    } else if is_bad(s7, bool_fits(s7)) {
        Some("accept_downloads"@)
    } else if is_bad(s8, bool_fits(s8)) {
        Some("bypass_csp"@)
    } else if is_bad(s9, bool_fits(s9)) {
        Some("ignore_https_errors"@)
    } else if is_bad(s10, text_fits(s10)) {
        Some("locale"@)
    } else if is_bad(s11, text_fits(s11)) {
        Some("timezone_id"@)
    } else if is_bad(s12, object_fits(s12)) {
        Some("proxy"@)
    } else if is_bad(s13, texts_fits(s13)) {
        Some("args"@)
    } else if is_bad(s14, viewport_fits(s14)) {
        Some("viewport"@)
    } else {
        None
    }
}

/// The launch options that an object gives.
pub open spec fn launch_in(options: Members) -> LaunchModel {
    LaunchModel {
        cdp_url: text_slot(slot_of(options, "cdpUrl"@, Some("cdp_url"@))),
        headers: object_slot(slot_of(options, "headers"@, None)),
        user_data_dir: text_slot(slot_of(options, "userDataDir"@, Some("user_data_dir"@))),
        downloads_path: text_slot(slot_of(options, "downloadsPath"@, Some("downloads_path"@))),
        cookies: list_slot(slot_of(options, "cookies"@, None)),
        headless: bool_slot(slot_of(options, "headless"@, None)),
        accept_downloads: bool_slot(slot_of(options, "acceptDownloads"@, Some("accept_downloads"@))),
        bypass_csp: bool_slot(slot_of(options, "bypassCsp"@, Some("bypass_csp"@))),
        ignore_https_errors: bool_slot(slot_of(options, "ignoreHttpsErrors"@, Some("ignore_https_errors"@))),
        locale: text_slot(slot_of(options, "locale"@, None)),
        timezone_id: text_slot(slot_of(options, "timezoneId"@, Some("timezone_id"@))),
        proxy: object_slot(slot_of(options, "proxy"@, None)),
        args: texts_slot(slot_of(options, "args"@, None)),
        viewport: viewport_slot(slot_of(options, "viewport"@, None)),
    }
}

/// Reads the launch options from an object. Keys that are not known are passed
/// over.
pub fn read_launch_overrides(options: &JsonObject) -> (out: Result<
    LocalLaunchOverrides,
    BrowserError,
>)
    ensures
        match out {
            Ok(overrides) => launch_issue(options@) is None && overrides@ == launch_in(options@),
            Err(error) => {
                &&& error matches BrowserError::InvalidLocalOptions { field } && launch_issue(
                    options@,
                ) == Some(field@)
            },
        },
{
    let cdp_url = match read_text_slot(options, "cdpUrl", Some("cdp_url")) {
        Ok(value) => value,
        Err(()) => return Err(BrowserError::InvalidLocalOptions { field: "cdp_url" }),
    };
    let headers = match read_object_slot(options, "headers", None) {
        Ok(value) => value,
        Err(()) => return Err(BrowserError::InvalidLocalOptions { field: "headers" }),
    };
    let user_data_dir = match read_text_slot(options, "userDataDir", Some("user_data_dir")) {
        Ok(value) => value,
        Err(()) => return Err(BrowserError::InvalidLocalOptions { field: "user_data_dir" }),
    };
    let downloads_path = match read_text_slot(options, "downloadsPath", Some("downloads_path")) {
        Ok(value) => value,
        Err(()) => return Err(BrowserError::InvalidLocalOptions { field: "downloads_path" }),
    };
    let cookies = match read_list_slot(options, "cookies", None) {
        Ok(value) => value,
        Err(()) => return Err(BrowserError::InvalidLocalOptions { field: "cookies" }),
    };
    let headless = match read_bool_slot(options, "headless", None) {
        Ok(value) => value,
        Err(()) => return Err(BrowserError::InvalidLocalOptions { field: "headless" }),
    };
    let accept_downloads = match read_bool_slot(options, "acceptDownloads", Some("accept_downloads")) {
        Ok(value) => value,
        Err(()) => return Err(BrowserError::InvalidLocalOptions { field: "accept_downloads" }),
    };
    let bypass_csp = match read_bool_slot(options, "bypassCsp", Some("bypass_csp")) {
        Ok(value) => value,
        Err(()) => return Err(BrowserError::InvalidLocalOptions { field: "bypass_csp" }),
    };
    let ignore_https_errors = match read_bool_slot(options, "ignoreHttpsErrors", Some("ignore_https_errors")) {
        Ok(value) => value,
        Err(()) => return Err(BrowserError::InvalidLocalOptions { field: "ignore_https_errors" }),
    };
    let locale = match read_text_slot(options, "locale", None) {
        Ok(value) => value,
        Err(()) => return Err(BrowserError::InvalidLocalOptions { field: "locale" }),
    };
    let timezone_id = match read_text_slot(options, "timezoneId", Some("timezone_id")) {
        Ok(value) => value,
        Err(()) => return Err(BrowserError::InvalidLocalOptions { field: "timezone_id" }),
    };
    let proxy = match read_object_slot(options, "proxy", None) {
        Ok(value) => value,
        Err(()) => return Err(BrowserError::InvalidLocalOptions { field: "proxy" }),
    };
    let args = match read_texts_slot(options, "args", None) {
        Ok(value) => value,
        Err(()) => return Err(BrowserError::InvalidLocalOptions { field: "args" }),
    };
    let viewport = match read_viewport_slot(options, "viewport", None) {
        Ok(value) => value,
        Err(()) => return Err(BrowserError::InvalidLocalOptions { field: "viewport" }),
    };
    let out = LocalLaunchOverrides {
        cdp_url,
        headers,
        user_data_dir,
        downloads_path,
        cookies,
        headless,
        accept_downloads,
        bypass_csp,
        ignore_https_errors,
        locale,
        timezone_id,
        proxy,
        args,
        viewport,
    };
    assert(out@ =~= launch_in(options@));
    Ok(out)
}

/// How a browser on this machine is launched.
#[derive(Clone, Debug, PartialEq)]
pub struct LocalLaunchOptions {
    pub headless: bool,
    pub accept_downloads: bool,
    pub args: Vec<String>,
    pub viewport: Viewport,
    pub locale: String,
    pub timezone_id: String,
    pub bypass_csp: bool,
    pub proxy: Option<JsonObject>,
    pub ignore_https_errors: bool,
}

/// What launch options stand for.
#[verifier::ext_equal]
pub struct Launch {
    pub headless: bool,
    pub accept_downloads: bool,
    pub args: Seq<Seq<char>>,
    pub viewport: Viewport,
    pub locale: Seq<char>,
    pub timezone_id: Seq<char>,
    pub bypass_csp: bool,
    pub proxy: Option<Members>,
    pub ignore_https_errors: bool,
}

impl View for LocalLaunchOptions {
    type V = Launch;

    open spec fn view(&self) -> Launch {
        Launch {
            headless: self.headless,
            accept_downloads: self.accept_downloads,
            args: views(self.args@),
            viewport: self.viewport,
            locale: self.locale@,
            timezone_id: self.timezone_id@,
            bypass_csp: self.bypass_csp,
            proxy: opt_members(self.proxy),
            ignore_https_errors: self.ignore_https_errors,
        }
    }
}

impl LocalLaunchOptions {
    /// The same options again.
    pub fn copy(&self) -> (out: Self)
        ensures
            out@ == self@,
    {
        LocalLaunchOptions {
            headless: self.headless,
            accept_downloads: self.accept_downloads,
            args: copy_texts(&self.args),
            viewport: self.viewport,
            locale: self.locale.clone(),
            timezone_id: self.timezone_id.clone(),
            bypass_csp: self.bypass_csp,
            proxy: copy_object(&self.proxy),
            ignore_https_errors: self.ignore_https_errors,
        }
    }
}

/// How a browser on this machine is reached.
#[derive(Clone, Debug, PartialEq)]
pub struct LocalBrowserConnection {
    pub cdp_url: Option<String>,
    pub headers: Option<JsonObject>,
    pub user_data_dir: Option<String>,
    pub downloads_path: String,
    pub cookies: Option<Vec<JsonValue>>,
    pub launch_options: LocalLaunchOptions,
    pub chrome_executable: Option<String>,
}

/// What a connection to a browser on this machine stands for.
#[verifier::ext_equal]
pub struct LocalModel {
    pub cdp_url: Option<Seq<char>>,
    pub headers: Option<Members>,
    pub user_data_dir: Option<Seq<char>>,
    pub downloads_path: Seq<char>,
    pub cookies: Option<Seq<Json>>,
    pub launch: Launch,
    pub chrome_executable: Option<Seq<char>>,
}

impl View for LocalBrowserConnection {
    type V = LocalModel;

    open spec fn view(&self) -> LocalModel {
        LocalModel {
            cdp_url: opt_view(self.cdp_url),
            headers: opt_members(self.headers),
            user_data_dir: opt_view(self.user_data_dir),
            downloads_path: self.downloads_path@,
            cookies: opt_list(self.cookies),
            launch: self.launch_options@,
            chrome_executable: opt_view(self.chrome_executable),
        }
    }
}

/// A value that may be absent, or `other` where it is.
pub open spec fn or_else<T>(value: Option<T>, other: T) -> T {
    match value {
        Some(value) => value,
        None => other,
    }
}

/// The text under the first of two keys that has one.
pub open spec fn text_under_either(members: Members, a: Seq<char>, b: Seq<char>) -> Option<
    Seq<char>,
> {
    match member_of(members, a) {
        Some(Json::Text(text)) => Some(text),
        _ => match member_of(members, b) {
            Some(Json::Text(text)) => Some(text),
            _ => None,
        },
    }
}

/// Reads the text under the first of two keys that has one.
pub fn string_from(map: &JsonObject, first: &str, second: &str) -> (out: Option<String>)
    ensures
        opt_view(out) == text_under_either(map@, first@, second@),
{
    if let Some(value) = map.get(first) {
        if let Some(text) = value.as_str() {
            return Some(text.clone());
        }
    }
    match map.get(second) {
        Some(value) => match value.as_str() {
            Some(text) => Some(text.clone()),
            None => None,
        },
        None => None,
    }
}

/// The connection to a browser on this machine that a configuration describes,
/// given where downloads go unless it says so.
pub open spec fn local_connection(settings: Settings, downloads: Seq<char>) -> LocalModel {
    let given = launch_in(settings.local_browser_launch_options);
    LocalModel {
        cdp_url: given.cdp_url,
        headers: given.headers,
        user_data_dir: given.user_data_dir,
        downloads_path: or_else(given.downloads_path, downloads),
        cookies: given.cookies,
        launch: Launch {
            headless: or_else(given.headless, settings.headless),
            accept_downloads: or_else(given.accept_downloads, true),
            args: or_else(given.args, seq!["--disable-blink-features=AutomationControlled"@]),
            viewport: or_else(given.viewport, Viewport { width: 1288, height: 711 }),
            locale: or_else(given.locale, "en-US"@),
            timezone_id: or_else(given.timezone_id, "America/New_York"@),
            bypass_csp: or_else(given.bypass_csp, true),
            proxy: given.proxy,
            ignore_https_errors: or_else(given.ignore_https_errors, true),
        },
        chrome_executable: text_under_either(
            settings.local_browser_launch_options,
            "chrome_executable"@,
            "chromeExecutable"@,
        ),
    }
}

fn text_or(value: Option<String>, other: &str) -> (out: String)
    ensures
        out@ == or_else(opt_view(value), other@),
{
    match value {
        Some(value) => value,
        None => other.to_owned(),
    }
}

fn flag_or(value: Option<bool>, other: bool) -> (out: bool)
    ensures
        out == or_else(value, other),
{
    match value {
        Some(value) => value,
        None => other,
    }
}

impl LocalBrowserConnection {
    /// Describes the connection to a browser on this machine. `default_downloads`
    /// is where downloads go unless the configuration says so, or why that is not
    /// known.
    pub fn from_config(
        config: &StagehandConfig,
        default_downloads: Result<String, String>,
    ) -> (out: Result<Self, BrowserError>)
        ensures
            match out {
                Ok(connection) => {
                    &&& launch_issue(config@.local_browser_launch_options) is None
                    &&& launch_in(config@.local_browser_launch_options).downloads_path is Some
                        || default_downloads is Ok
                    &&& connection@ == local_connection(
                        config@,
                        match default_downloads {
                            Ok(path) => path@,
                            Err(_) => Seq::empty(),
                        },
                    )
                },
                Err(BrowserError::InvalidLocalOptions { field }) => launch_issue(
                    config@.local_browser_launch_options,
                ) == Some(field@),
                Err(BrowserError::DownloadsPath { source }) => {
                    &&& launch_issue(config@.local_browser_launch_options) is None
                    &&& launch_in(config@.local_browser_launch_options).downloads_path is None
                    &&& default_downloads matches Err(why) && why@ == source@
                },
                Err(_) => false,
            },
    {
        let map = &config.local_browser_launch_options;
        let overrides = match read_launch_overrides(map) {
            Ok(overrides) => overrides,
            Err(error) => return Err(error),
        };
        let chrome_executable = string_from(map, "chrome_executable", "chromeExecutable");
        let downloads_path = match overrides.downloads_path {
            Some(path) => path,
            None => match default_downloads {
                Ok(path) => path,
                Err(source) => return Err(BrowserError::DownloadsPath { source }),
            },
        };
        let args = match overrides.args {
            Some(args) => args,
            None => {
                let mut args: Vec<String> = Vec::new();
                args.push("--disable-blink-features=AutomationControlled".to_owned());
                assert(views(args@) =~= seq!["--disable-blink-features=AutomationControlled"@]);
                args
            },
        };
        let viewport = match overrides.viewport {
            Some(viewport) => viewport,
            None => Viewport::default(),
        };
        let launch_options = LocalLaunchOptions {
            headless: flag_or(overrides.headless, config.headless),
            accept_downloads: flag_or(overrides.accept_downloads, true),
            args,
            viewport,
            locale: text_or(overrides.locale, "en-US"),
            timezone_id: text_or(overrides.timezone_id, "America/New_York"),
            bypass_csp: flag_or(overrides.bypass_csp, true),
            proxy: overrides.proxy,
            ignore_https_errors: flag_or(overrides.ignore_https_errors, true),
        };
        Ok(
            LocalBrowserConnection {
                cdp_url: overrides.cdp_url,
                headers: overrides.headers,
                user_data_dir: overrides.user_data_dir,
                downloads_path,
                cookies: overrides.cookies,
                launch_options,
                chrome_executable,
            },
        )
    }

    /// What has to be done to reach the browser.
    pub fn plan(&self) -> (out: LocalPlan)
        ensures
            out@ == local_plan(self@),
    {
        let strategy = match &self.cdp_url {
            Some(url) => LocalLaunchStrategy::AttachCdp {
                url: url.clone(),
                headers: copy_object(&self.headers),
            },
            None => LocalLaunchStrategy::LaunchPersistent {
                user_data_dir: copy_opt(&self.user_data_dir),
            },
        };
        LocalPlan {
            strategy,
            launch_options: self.launch_options.copy(),
            downloads_path: self.downloads_path.clone(),
            cookies: match &self.cookies {
                Some(cookies) => Some(copy_values(cookies)),
                None => None,
            },
            chrome_executable: copy_opt(&self.chrome_executable),
        }
    }
}

/// How a browser on this machine is got.
#[derive(Clone, Debug, PartialEq)]
pub enum LocalLaunchStrategy {
    AttachCdp { url: String, headers: Option<JsonObject> },
    LaunchPersistent { user_data_dir: Option<String> },
}

/// What has to be done to reach a browser on this machine.
#[derive(Clone, Debug, PartialEq)]
pub struct LocalPlan {
    pub strategy: LocalLaunchStrategy,
    pub launch_options: LocalLaunchOptions,
    pub downloads_path: String,
    pub cookies: Option<Vec<JsonValue>>,
    pub chrome_executable: Option<String>,
}

/// How a browser on this machine is got, as characters.
pub enum LocalStrategy {
    Attach { url: Seq<char>, headers: Option<Members> },
    Launch { user_data_dir: Option<Seq<char>> },
}

/// What a plan for a browser on this machine stands for.
pub struct LocalPlanModel {
    pub strategy: LocalStrategy,
    pub launch: Launch,
    pub downloads_path: Seq<char>,
    pub cookies: Option<Seq<Json>>,
    pub chrome_executable: Option<Seq<char>>,
}

impl View for LocalPlan {
    type V = LocalPlanModel;

    open spec fn view(&self) -> LocalPlanModel {
        LocalPlanModel {
            strategy: match self.strategy {
                LocalLaunchStrategy::AttachCdp { url, headers } => LocalStrategy::Attach {
                    url: url@,
                    headers: opt_members(headers),
                },
                LocalLaunchStrategy::LaunchPersistent { user_data_dir } => LocalStrategy::Launch {
                    user_data_dir: opt_view(user_data_dir),
                },
            },
            launch: self.launch_options@,
            downloads_path: self.downloads_path@,
            cookies: opt_list(self.cookies),
            chrome_executable: opt_view(self.chrome_executable),
        }
    }
}

/// The plan for a connection to a browser on this machine: a browser that runs is
/// attached to, else one is launched.
pub open spec fn local_plan(connection: LocalModel) -> LocalPlanModel {
    LocalPlanModel {
        strategy: match connection.cdp_url {
            Some(url) => LocalStrategy::Attach { url, headers: connection.headers },
            None => LocalStrategy::Launch { user_data_dir: connection.user_data_dir },
        },
        launch: connection.launch,
        downloads_path: connection.downloads_path,
        cookies: connection.cookies,
        chrome_executable: connection.chrome_executable,
    }
}

/// A page that came or went.
#[derive(Clone, Debug, PartialEq, Eq)]
pub enum RuntimeTargetEvent {
    Attached { target_id: String },
    Detached { target_id: String },
}

/// How the browser is reached.
#[derive(Clone, Debug, PartialEq)]
pub enum BrowserConnectionSpec {
    Browserbase(BrowserbaseConnection),
    Local(LocalBrowserConnection),
}

/// What has to be done to reach the browser.
#[derive(Clone, Debug, PartialEq)]
pub enum BrowserPlan {
    Browserbase(BrowserbasePlan),
    Local(LocalPlan),
}

/// What a connection to the browser stands for.
pub enum Connection {
    Cloud(CloudModel),
    Local(LocalModel),
}

/// What a plan for the browser stands for.
pub enum Plan {
    Cloud(CloudPlan),
    Local(LocalPlanModel),
}

impl View for BrowserConnectionSpec {
    type V = Connection;

    open spec fn view(&self) -> Connection {
        match self {
            BrowserConnectionSpec::Browserbase(connection) => Connection::Cloud(connection@),
            BrowserConnectionSpec::Local(connection) => Connection::Local(connection@),
        }
    }
}

impl View for BrowserPlan {
    type V = Plan;

    open spec fn view(&self) -> Plan {
        match self {
            BrowserPlan::Browserbase(plan) => Plan::Cloud(plan@),
            BrowserPlan::Local(plan) => Plan::Local(plan@),
        }
    }
}

/// The plan for a connection.
pub open spec fn plan_for(connection: Connection) -> Plan {
    match connection {
        Connection::Cloud(connection) => Plan::Cloud(cloud_plan(connection)),
        Connection::Local(connection) => Plan::Local(local_plan(connection)),
    }
}

/// Where downloads go, as far as it is known.
pub open spec fn downloads_of(default_downloads: Result<String, String>) -> Result<
    Seq<char>,
    Seq<char>,
> {
    match default_downloads {
        Ok(path) => Ok(path@),
        Err(why) => Err(why@),
    }
}

/// Whether a configuration does not describe a connection.
pub open spec fn connection_fails(settings: Settings, downloads: Result<Seq<char>, Seq<char>>) -> bool {
    match settings.env {
        Environment::Browserbase => wanted_params(settings) matches Some(members) && params_issue(
            members,
        ) is Some,
        Environment::Local => {
            ||| launch_issue(settings.local_browser_launch_options) is Some
            ||| launch_in(settings.local_browser_launch_options).downloads_path is None
                && downloads is Err
        },
    }
}

/// The connection that a configuration describes.
pub open spec fn connection_for(settings: Settings, downloads: Result<Seq<char>, Seq<char>>) -> Connection {
    match settings.env {
        Environment::Browserbase => Connection::Cloud(cloud_connection(settings)),
        Environment::Local => Connection::Local(
            local_connection(
                settings,
                match downloads {
                    Ok(path) => path,
                    Err(_) => Seq::empty(),
                },
            ),
        ),
    }
}

/// Whether an error says what keeps a configuration from describing a connection.
pub open spec fn explains(
    error: BrowserError,
    settings: Settings,
    downloads: Result<Seq<char>, Seq<char>>,
) -> bool {
    match error {
        BrowserError::InvalidBrowserbaseParams { field } => {
            &&& settings.env == Environment::Browserbase
            &&& wanted_params(settings) matches Some(members) && params_issue(members) == Some(
                field@,
            )
        },
        BrowserError::InvalidLocalOptions { field } => {
            &&& settings.env == Environment::Local
            &&& launch_issue(settings.local_browser_launch_options) == Some(field@)
        },
        BrowserError::DownloadsPath { source } => {
            &&& settings.env == Environment::Local
            &&& launch_issue(settings.local_browser_launch_options) is None
            &&& downloads == Result::<Seq<char>, Seq<char>>::Err(source@)
        },
    }
}

impl BrowserConnectionSpec {
    /// Describes the connection to the browser.
    pub fn from_config(
        config: &StagehandConfig,
        default_downloads: Result<String, String>,
    ) -> (out: Result<Self, BrowserError>)
        ensures
            match out {
                Ok(spec) => !connection_fails(config@, downloads_of(default_downloads)) && spec@
                    == connection_for(config@, downloads_of(default_downloads)),
                Err(error) => connection_fails(config@, downloads_of(default_downloads))
                    && explains(error, config@, downloads_of(default_downloads)),
            },
    {
        match config.env {
            Environment::Browserbase => match BrowserbaseConnection::from_config(config) {
                Ok(connection) => Ok(BrowserConnectionSpec::Browserbase(connection)),
                Err(error) => Err(error),
            },
            Environment::Local => match LocalBrowserConnection::from_config(
                config,
                default_downloads,
            ) {
                Ok(connection) => Ok(BrowserConnectionSpec::Local(connection)),
                Err(error) => Err(error),
            },
        }
    }
}

/// A configuration with the connection it describes.
#[derive(Clone, Debug)]
pub struct BrowserManager {
    config: StagehandConfig,
    spec: BrowserConnectionSpec,
}

impl BrowserManager {
    /// The settings of the manager.
    pub closed spec fn settings(&self) -> Settings {
        self.config@
    }

    /// The connection of the manager.
    pub closed spec fn connection(&self) -> Connection {
        self.spec@
    }

    /// A manager for a configuration.
    pub fn new(config: StagehandConfig, default_downloads: Result<String, String>) -> (out: Result<
        Self,
        BrowserError,
    >)
        ensures
            match out {
                Ok(manager) => {
                    &&& !connection_fails(config@, downloads_of(default_downloads))
                    &&& manager.settings() == config@
                    &&& manager.connection() == connection_for(
                        config@,
                        downloads_of(default_downloads),
                    )
                },
                Err(error) => connection_fails(config@, downloads_of(default_downloads))
                    && explains(error, config@, downloads_of(default_downloads)),
            },
    {
        match BrowserConnectionSpec::from_config(&config, default_downloads) {
            Ok(spec) => Ok(BrowserManager { config, spec }),
            Err(error) => Err(error),
        }
    }

    /// The configuration.
    pub fn config(&self) -> (out: &StagehandConfig)
        ensures
            out@ == self.settings(),
    {
        &self.config
    }

    /// The connection.
    pub fn spec(&self) -> (out: &BrowserConnectionSpec)
        ensures
            out@ == self.connection(),
    {
        &self.spec
    }

    /// What has to be done to reach the browser.
    pub fn plan(&self) -> (out: BrowserPlan)
        ensures
            out@ == plan_for(self.connection()),
    {
        match &self.spec {
            BrowserConnectionSpec::Browserbase(connection) => BrowserPlan::Browserbase(
                connection.plan(),
            ),
            BrowserConnectionSpec::Local(connection) => BrowserPlan::Local(connection.plan()),
        }
    }
}

/// Whether the service is used: not for a browser on this machine, and not for a
/// session in another region than the one it serves.
pub open spec fn uses_api(settings: Settings) -> bool {
    settings.use_api && settings.env == Environment::Browserbase && !(
    settings.browserbase_session_create_params matches Some(params) && (member_of(
        params,
        "region"@,
    ) matches Some(Json::Text(region)) && lower_of(region) != lower_of("us-west-2"@)))
}

/// A browser: how it is reached, and what reaches it.
#[derive(Debug)]
pub struct StagehandBrowser<R> {
    manager: BrowserManager,
    runtime: R,
}

impl<R> StagehandBrowser<R> {
    /// The manager of the browser.
    pub closed spec fn managed(&self) -> BrowserManager {
        self.manager
    }

    /// What reaches the browser.
    pub closed spec fn engine(&self) -> R {
        self.runtime
    }

    /// A browser for a configuration. Whether the service is used is settled here.
    pub fn new(
        config: StagehandConfig,
        runtime: R,
        default_downloads: Result<String, String>,
    ) -> (out: Result<Self, BrowserError>)
        ensures
            ({
                let settings = Settings { use_api: uses_api(config@), ..config@ };
                match out {
                    Ok(browser) => {
                        &&& !connection_fails(settings, downloads_of(default_downloads))
                        &&& browser.managed().settings() == settings
                        &&& browser.managed().connection() == connection_for(
                            settings,
                            downloads_of(default_downloads),
                        )
                        &&& browser.engine() == runtime
                    },
                    Err(error) => connection_fails(settings, downloads_of(default_downloads))
                        && explains(error, settings, downloads_of(default_downloads)),
                }
            }),
    {
        let mut config = config;
        let ghost start = config@;
        if config.env == Environment::Local {
            config.use_api = false;
        } else {
            let mut elsewhere: bool = false;
            if let Some(params) = &config.browserbase_session_create_params {
                if let Some(value) = params.get("region") {
                    if let Some(region) = value.as_str() {
                        elsewhere = !eq_ignore_case(region.as_str(), "us-west-2");
                    }
                }
            }
            if elsewhere {
                config.use_api = false;
            }
        }
        assert(config@ =~= Settings { use_api: uses_api(start), ..start });
        match BrowserManager::new(config, default_downloads) {
            Ok(manager) => Ok(StagehandBrowser { manager, runtime }),
            Err(error) => Err(error),
        }
    }

    /// The manager of the browser.
    pub fn manager(&self) -> (out: &BrowserManager)
        ensures
            *out == self.managed(),
    {
        &self.manager
    }

    /// What reaches the browser.
    pub fn runtime(&self) -> (out: &R)
        ensures
            *out == self.engine(),
    {
        &self.runtime
    }

    /// The configuration.
    pub fn config(&self) -> (out: &StagehandConfig)
        ensures
            out@ == self.managed().settings(),
    {
        self.manager.config()
    }

    /// What has to be done to reach the browser.
    pub fn plan(&self) -> (out: BrowserPlan)
        ensures
            out@ == plan_for(self.managed().connection()),
    {
        self.manager.plan()
    }
}

/// A given session is always used, whatever the parameters say; a browser on this
/// machine never uses the service.
pub proof fn law_plans(settings: Settings, downloads: Result<Seq<char>, Seq<char>>)
    ensures
        settings.env == Environment::Browserbase && settings.browserbase_session_id is Some
            ==> (plan_for(connection_for(settings, downloads)) matches Plan::Cloud(plan)
            && plan.strategy == CloudStrategy::Existing(settings.browserbase_session_id->0)),
        settings.env == Environment::Browserbase && settings.browserbase_session_id is None
            ==> (plan_for(connection_for(settings, downloads)) matches Plan::Cloud(plan)
            && plan.strategy is New),
        settings.env == Environment::Local ==> !uses_api(settings),
        uses_api(settings) ==> settings.use_api,
{
}

} // verus!
