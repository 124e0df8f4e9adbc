//! The client of a session.
use crate::browser::{
    connection_fails, connection_for, downloads_of, explains, plan_for, uses_api, BrowserError,
    BrowserPlan, BrowserRuntimeError, StagehandBrowser,
};
use crate::config::{with_project, Settings, StagehandConfig};
use crate::context::{AdapterCall, Session, StagehandContext, StagehandContextError, Told};
use crate::dom_scripts::{stagehand_dom_script, STAGEHAND_DOM_SCRIPT};
use crate::json::{
    bool_in, field_of, member_of, parsed_json, read_json, text_of, with_member, without_member, Json,
    JsonNumber, JsonObject, JsonValue, Members,
};
use crate::keys::{convert_keys_to_camel_case, recased, KeyCase};
use crate::llm::StagehandLlmError;
use crate::logging::{
    read_text, text_under, LogConfig, LogLevel, Record, StagehandLogRecord, StagehandLogger,
};
use crate::metrics::{
    checked_replay_metrics, count_under, counts_fit, function_named, no_counts, read_count, recorded,
    replay_counts, stagehand_function_from_str, usage_of, Counts, StagehandFunctionName,
    StagehandMetrics,
};
use crate::text::{
    begins_with, decimal, opt_view, starts_with, str_eq, strip_prefix, trim, trim_end_char,
    trim_end_char_of, trim_of, u64_text,
};
use crate::types::a11y::opt_json;
use vstd::prelude::*;
use vstd::string::*;

verus! {

/// Why an operation of the client failed.
#[derive(Debug, PartialEq, Eq)]
pub enum StagehandClientError {
    Browser(BrowserRuntimeError),
    Context(StagehandContextError),
    Llm(StagehandLlmError),
    Http(String),
    Json(String),
    Api(String),
    Unsupported(&'static str),
    Cdp(String),
}

fn prefixed(head: &str, text: &str) -> (out: String)
    ensures
        out@ == head@ + text@,
{
    let mut out = head.to_owned();
    out.append(text);
    out
}

impl StagehandClientError {
    /// The error as text.
    pub open spec fn text(self) -> Seq<char> {
        match self {
            StagehandClientError::Browser(error) => error.text(),
            StagehandClientError::Context(error) => error.text(),
            StagehandClientError::Llm(error) => error.text(),
            StagehandClientError::Http(why) => "http error: "@ + why@,
            StagehandClientError::Json(why) => why@,
            StagehandClientError::Api(why) => "stagehand API error: "@ + why@,
            StagehandClientError::Unsupported(what) => "operation unsupported: "@ + what@,
            StagehandClientError::Cdp(why) => "cdp error: "@ + why@,
        }
    }

    /// Gives the error as text.
    pub fn message(&self) -> (out: String)
        ensures
            out@ == self.text(),
    {
        match self {
            StagehandClientError::Browser(error) => error.message(),
            StagehandClientError::Context(error) => error.message(),
            StagehandClientError::Llm(error) => error.message(),
            StagehandClientError::Http(why) => prefixed("http error: ", why.as_str()),
            StagehandClientError::Json(why) => why.clone(),
            StagehandClientError::Api(why) => prefixed("stagehand API error: ", why.as_str()),
            StagehandClientError::Unsupported(what) => prefixed("operation unsupported: ", what),
            StagehandClientError::Cdp(why) => prefixed("cdp error: ", why.as_str()),
        }
    }
}

/// An answer of the service.
#[derive(Clone, Debug, PartialEq, Eq)]
pub struct HttpResponse {
    pub status: u16,
    pub body: String,
}

/// The longest line that is read from a stream of the service.
pub const MAX_SSE_LINE_LENGTH: usize = 1_048_576;

/// A header of a request.
#[derive(Debug, PartialEq, Eq)]
pub struct Header {
    pub name: &'static str,
    pub value: String,
}

/// A request to the service.
#[derive(Debug, PartialEq)]
pub struct ApiRequest {
    pub url: String,
    pub headers: Vec<Header>,
    pub body: JsonValue,
}

/// The headers of a list, as characters.
pub open spec fn header_pairs(headers: Seq<Header>) -> Seq<(Seq<char>, Seq<char>)> {
    headers.map_values(|header: Header| (header.name@, header.value@))
}

/// Whether a character can stand in the value of a header.
pub open spec fn fits_header(c: char) -> bool {
    c == '\t' || (' ' <= c && c != '\u{7f}')
}

/// Whether a text can be the value of a header.
pub open spec fn header_fits(value: Seq<char>) -> bool {
    forall|i: int| 0 <= i < value.len() ==> fits_header(#[trigger] value[i])
}

/// `reqwest::header::HeaderValue::from_str` takes a text as the value of a header
/// unless it holds a control character other than a tab.
#[verifier::external_body]
fn is_header_value(value: &str) -> (yes: bool)
    ensures
        yes == header_fits(value@),
{
    reqwest::header::HeaderValue::from_str(value).is_ok()
}

fn push_header(headers: &mut Vec<Header>, name: &'static str, value: &str) -> (done: bool)
    ensures
        done == header_fits(value@),
        header_pairs(final(headers)@) == (if done {
            header_pairs(old(headers)@).push((name@, value@))
        } else {
            header_pairs(old(headers)@)
        }),
{
    if !is_header_value(value) {
        return false;
    }
    let ghost before = header_pairs(headers@);
    headers.push(Header { name, value: value.to_owned() });
    assert(header_pairs(headers@) =~= before.push((name@, value@)));
    true
}

fn bad_header() -> (out: StagehandClientError)
    ensures
        out matches StagehandClientError::Api(why) && why@ == "failed to parse header value"@,
{
    StagehandClientError::Api("failed to parse header value".to_owned())
}

/// Whether an error is an error of the service with the given text.
pub open spec fn is_api_error(error: StagehandClientError, why: Seq<char>) -> bool {
    error matches StagehandClientError::Api(text) && text@ == why
}

/// The headers of every request, or why there are none.
pub open spec fn base_headers_of(
    api_key: Seq<char>,
    project_id: Seq<char>,
    sent_at: Seq<char>,
) -> Result<Seq<(Seq<char>, Seq<char>)>, Seq<char>> {
    if header_fits(api_key) && header_fits(project_id) && header_fits(sent_at) {
        Ok(
            seq![
                ("content-type"@, "application/json"@),
                ("x-bb-api-key"@, api_key),
                ("x-bb-project-id"@, project_id),
                ("x-sent-at"@, sent_at),
            ],
        )
    } else {
        Err("failed to parse header value"@)
    }
}

/// Makes the headers of every request.
pub fn base_headers(api_key: &str, project_id: &str, sent_at: &str) -> (out: Result<
    Vec<Header>,
    StagehandClientError,
>)
    ensures
        match (out, base_headers_of(api_key@, project_id@, sent_at@)) {
            (Ok(headers), Ok(pairs)) => header_pairs(headers@) == pairs,
            (Err(error), Err(why)) => is_api_error(error, why),
            _ => false,
        },
{
    let mut headers: Vec<Header> = Vec::new();
    headers.push(Header { name: "content-type", value: "application/json".to_owned() });
    assert(header_pairs(headers@) =~= seq![("content-type"@, "application/json"@)]);
    if push_header(&mut headers, "x-bb-api-key", api_key) && push_header(
        &mut headers,
        "x-bb-project-id",
        project_id,
    ) && push_header(&mut headers, "x-sent-at", sent_at) {
        assert(header_pairs(headers@) =~= base_headers_of(
            api_key@,
            project_id@,
            sent_at@,
        )->Ok_0);
        Ok(headers)
    } else {
        Err(bad_header())
    }
}

/// The headers of a request that runs an operation, or why there are none.
pub open spec fn execute_headers_of(settings: Settings, sent_at: Seq<char>) -> Result<
    Seq<(Seq<char>, Seq<char>)>,
    Seq<char>,
> {
    if settings.api_key is None {
        Err("browserbase API key is required"@)
    } else if settings.project_id is None {
        Err("browserbase project id is required"@)
    } else {
        match base_headers_of(settings.api_key->0, settings.project_id->0, sent_at) {
            Err(why) => Err(why),
            Ok(base) => {
                let rest = seq![
                    ("x-stream-response"@, "true"@),
                    ("connection"@, "keep-alive"@),
                ];
                match settings.model_api_key {
                    Some(key) => if header_fits(key) {
                        Ok(base.push(("x-model-api-key"@, key)) + rest)
                    } else {
                        Err("failed to parse header value"@)
                    },
                    None => Ok(base + rest),
                }
            },
        }
    }
}

/// Makes the headers of a request that runs an operation.
pub fn build_execute_headers(config: &StagehandConfig, sent_at: &str) -> (out: Result<
    Vec<Header>,
    StagehandClientError,
>)
    ensures
        match (out, execute_headers_of(config@, sent_at@)) {
            (Ok(headers), Ok(pairs)) => header_pairs(headers@) == pairs,
            (Err(error), Err(why)) => is_api_error(error, why),
            _ => false,
        },
{
    let api_key = match &config.api_key {
        Some(key) => key,
        None => {
            return Err(StagehandClientError::Api("browserbase API key is required".to_owned()));
        },
    };
    let project_id = match &config.project_id {
        Some(id) => id,
        None => {
            return Err(StagehandClientError::Api("browserbase project id is required".to_owned()));
        },
    };
    let mut headers = match base_headers(api_key.as_str(), project_id.as_str(), sent_at) {
        Ok(headers) => headers,
        Err(error) => return Err(error),
    };
    if let Some(key) = &config.model_api_key {
        if !push_header(&mut headers, "x-model-api-key", key.as_str()) {
            return Err(bad_header());
        }
    }
    let ghost before = header_pairs(headers@);
    headers.push(Header { name: "x-stream-response", value: "true".to_owned() });
    headers.push(Header { name: "connection", value: "keep-alive".to_owned() });
    assert(header_pairs(headers@) =~= before + seq![
        ("x-stream-response"@, "true"@),
        ("connection"@, "keep-alive"@),
    ]);
    Ok(headers)
}

/// The address of the service without the slashes at its end.
pub open spec fn api_base(settings: Settings) -> Seq<char> {
    trim_end_char_of(settings.api_url, '/')
}

/// Gives the address of the service without the slashes at its end.
pub fn base_api_url(config: &StagehandConfig) -> (out: String)
    ensures
        out@ == api_base(config@),
{
    trim_end_char(config.api_url.as_str(), '/')
}

/// A number that may be absent, as JSON.
pub open spec fn opt_number(n: Option<u64>) -> Json {
    match n {
        Some(n) => Json::Number(JsonNumber::Unsigned(n)),
        None => Json::Null,
    }
}

/// A text that may be absent, as JSON.
pub open spec fn opt_text(text: Option<Seq<char>>) -> Json {
    match text {
        Some(text) => Json::Text(text),
        None => Json::Null,
    }
}

fn number_json(n: Option<u64>) -> (out: JsonValue)
    ensures
        out@ == opt_number(n),
{
    match n {
        Some(n) => JsonValue::unsigned(n),
        None => JsonValue::null(),
    }
}

fn text_json(text: &Option<String>) -> (out: JsonValue)
    ensures
        out@ == opt_text(opt_view(*text)),
{
    match text {
        Some(text) => JsonValue::text(text.as_str()),
        None => JsonValue::null(),
    }
}

/// The parameters of a session where none are configured.
pub open spec fn default_session_members() -> Members {
    let size = with_member(
        with_member(Members::empty(), "width"@, Json::Number(JsonNumber::Unsigned(1024))),
        "height"@,
        Json::Number(JsonNumber::Unsigned(768)),
    );
    let settings = with_member(
        with_member(Members::empty(), "blockAds"@, Json::Bool(true)),
        "viewport"@,
        Json::Members(size),
    );
    with_member(Members::empty(), "browserSettings"@, Json::Members(settings))
}

/// Makes the parameters of a session where none are configured.
pub fn default_session_params() -> (out: JsonValue)
    ensures
        out@ == Json::Members(default_session_members()),
{
    let mut size = JsonObject::new();
    size.insert("width", JsonValue::unsigned(1024));
    size.insert("height", JsonValue::unsigned(768));
    let mut settings = JsonObject::new();
    settings.insert("blockAds", JsonValue::boolean(true));
    settings.insert("viewport", JsonValue::object(size));
    let mut out = JsonObject::new();
    out.insert("browserSettings", JsonValue::object(settings));
    JsonValue::object(out)
}

/// The parameters of a session as the service wants them: in camel case, and with
/// the timeout under its own name.
pub open spec fn prepared_params(value: Json) -> Json {
    match recased(KeyCase::Camel, value) {
        Json::Members(members) => Json::Members(
            match member_of(members, "apiTimeout"@) {
                Some(timeout) => with_member(
                    without_member(members, "apiTimeout"@),
                    "timeout"@,
                    timeout,
                ),
                None => members,
            },
        ),
        other => other,
    }
}

/// Puts the parameters of a session into the form that the service wants.
pub fn prepare_session_create_params(value: &JsonValue) -> (out: JsonValue)
    ensures
        out@ == prepared_params(value@),
{
    let converted = convert_keys_to_camel_case(value);
    match converted.as_object() {
        Some(object) => {
            let mut object = object.copy();
            let timeout = match object.get("apiTimeout") {
                Some(timeout) => Some(timeout.copy()),
                None => None,
            };
            if let Some(timeout) = timeout {
                object.remove("apiTimeout");
                object.insert("timeout", timeout);
            }
            JsonValue::object(object)
        },
        None => converted.copy(),
    }
}

/// The body of the request for a session.
pub open spec fn session_payload_of(settings: Settings) -> Members {
    let create_params = prepared_params(
        Json::Members(
            match with_project(settings).browserbase_session_create_params {
                Some(params) => params,
                None => default_session_members(),
            },
        ),
    );
    let m1 = with_member(Members::empty(), "modelName"@, Json::Text(settings.model_name.name()));
    let m2 = with_member(
        m1,
        "verbose"@,
        Json::Number(JsonNumber::Unsigned(settings.verbose.number() as u64)),
    );
    let m3 = with_member(m2, "domSettleTimeoutMs"@, opt_number(settings.dom_settle_timeout_ms));
    let m4 = with_member(m3, "browserbaseSessionId"@, opt_text(settings.browserbase_session_id));
    let m5 = with_member(m4, "browserbaseSessionCreateParams"@, create_params);
    let m6 = with_member(m5, "selfHeal"@, Json::Bool(settings.self_heal));
    let m7 = with_member(
        m6,
        "waitForCaptchaSolves"@,
        Json::Bool(settings.wait_for_captcha_solves),
    );
    let m8 = with_member(m7, "actTimeoutMs"@, opt_number(settings.act_timeout_ms));
    let m9 = with_member(m8, "experimental"@, Json::Bool(settings.experimental));
    let m10 = match settings.system_prompt {
        Some(prompt) => with_member(m9, "systemPrompt"@, Json::Text(prompt)),
        None => m9,
    };
    match settings.model_client_options {
        Some(options) => with_member(m10, "modelClientOptions"@, Json::Members(options)),
        None => m10,
    }
}

/// Makes the body of the request for a session.
pub fn session_payload(config: &StagehandConfig) -> (out: JsonObject)
    ensures
        out@ == session_payload_of(config@),
{
    let params = match config.browserbase_session_create_params() {
        Some(params) => JsonValue::object(params),
        None => default_session_params(),
    };
    let create_params = prepare_session_create_params(&params);
    let mut payload = JsonObject::new();
    payload.insert("modelName", JsonValue::text(config.model_name.to_text().as_str()));
    payload.insert("verbose", JsonValue::unsigned(config.verbose.as_u8() as u64));
    payload.insert("domSettleTimeoutMs", number_json(config.dom_settle_timeout_ms));
    payload.insert("browserbaseSessionId", text_json(&config.browserbase_session_id));
    payload.insert("browserbaseSessionCreateParams", create_params);
    payload.insert("selfHeal", JsonValue::boolean(config.self_heal));
    payload.insert("waitForCaptchaSolves", JsonValue::boolean(config.wait_for_captcha_solves));
    payload.insert("actTimeoutMs", number_json(config.act_timeout_ms));
    payload.insert("experimental", JsonValue::boolean(config.experimental));
    if let Some(prompt) = &config.system_prompt {
        payload.insert("systemPrompt", JsonValue::text(prompt.as_str()));
    }
    if let Some(options) = &config.model_client_options {
        payload.insert("modelClientOptions", JsonValue::object(options.copy()));
    }
    payload
}

/// The headers of the request for a session, or why there are none.
pub open spec fn session_headers_of(
    settings: Settings,
    sent_at: Seq<char>,
    version: Seq<char>,
) -> Result<Seq<(Seq<char>, Seq<char>)>, Seq<char>> {
    if settings.api_key is None {
        Err("browserbase API key is required"@)
    } else if settings.project_id is None {
        Err("browserbase project id is required"@)
    } else if settings.model_api_key is None {
        Err("model API key is required"@)
    } else {
        match base_headers_of(settings.api_key->0, settings.project_id->0, sent_at) {
            Err(why) => Err(why),
            Ok(base) => if header_fits(settings.model_api_key->0) && header_fits(version) {
                Ok(
                    base + seq![
                        ("x-model-api-key"@, settings.model_api_key->0),
                        ("x-language"@, "rust"@),
                        ("x-sdk-version"@, version),
                    ],
                )
            } else {
                Err("failed to parse header value"@)
            },
        }
    }
}

/// Makes the request for a session. `version` is the version of this client.
pub fn create_session(config: &StagehandConfig, sent_at: &str, version: &str) -> (out: Result<
    ApiRequest,
    StagehandClientError,
>)
    ensures
        match (out, session_headers_of(config@, sent_at@, version@)) {
            (Ok(request), Ok(pairs)) => {
                &&& request.url@ == api_base(config@) + "/sessions/start"@
                &&& header_pairs(request.headers@) == pairs
                &&& request.body@ == Json::Members(session_payload_of(config@))
            },
            (Err(error), Err(why)) => is_api_error(error, why),
            _ => false,
        },
{
    let api_key = match &config.api_key {
        Some(key) => key,
        None => {
            return Err(StagehandClientError::Api("browserbase API key is required".to_owned()));
        },
    };
    let project_id = match &config.project_id {
        Some(id) => id,
        None => {
            return Err(StagehandClientError::Api("browserbase project id is required".to_owned()));
        },
    };
    let model_key = match &config.model_api_key {
        Some(key) => key,
        None => {
            return Err(StagehandClientError::Api("model API key is required".to_owned()));
        },
    };
    let mut headers = match base_headers(api_key.as_str(), project_id.as_str(), sent_at) {
        Ok(headers) => headers,
        Err(error) => return Err(error),
    };
    if !push_header(&mut headers, "x-model-api-key", model_key.as_str()) {
        return Err(bad_header());
    }
    let ghost before = header_pairs(headers@);
    headers.push(Header { name: "x-language", value: "rust".to_owned() });
    assert(header_pairs(headers@) =~= before.push(("x-language"@, "rust"@)));
    if !push_header(&mut headers, "x-sdk-version", version) {
        return Err(bad_header());
    }
    assert(header_pairs(headers@) =~= session_headers_of(config@, sent_at@, version@)->Ok_0);
    let mut url = base_api_url(config);
    url.append("/sessions/start");
    Ok(ApiRequest { url, headers, body: JsonValue::object(session_payload(config)) })
}

/// The id of the session in the answer to the request for one.
pub open spec fn session_id_in(body: Json) -> Option<Seq<char>> {
    match field_of(body, "data"@) {
        Some(data) => text_under(data, "sessionId"@),
        None => None,
    }
}

/// Reads the id of the session from the body of an answer.
pub fn session_from_parsed(body: &JsonValue) -> (out: Result<String, StagehandClientError>)
    ensures
        match out {
            Ok(id) => session_id_in(body@) == Some(id@),
            Err(error) => session_id_in(body@) is None && is_api_error(
                error,
                "session response missing sessionId"@,
            ),
        },
{
    if let Some(data) = body.get("data") {
        if let Some(value) = data.get("sessionId") {
            if let Some(id) = value.as_str() {
                return Ok(id.clone());
            }
        }
    }
    Err(StagehandClientError::Api("session response missing sessionId".to_owned()))
}

fn status_message(head: &str, response: &HttpResponse) -> (out: String)
    ensures
        out@ == head@ + decimal(response.status as nat) + ": "@ + response.body@,
{
    let mut out = head.to_owned();
    let status = u64_text(response.status as u64);
    out.append(status.as_str());
    out.append(": ");
    out.append(response.body.as_str());
    out
}

/// Reads the id of the session from the answer to the request for one.
pub fn session_from_response(response: &HttpResponse) -> (out: Result<String, StagehandClientError>)
    ensures
        match out {
            Ok(id) => {
                &&& response.status == 200
                &&& parsed_json(response.body@) matches Ok(body) && session_id_in(body) == Some(id@)
            },
            Err(error) => if response.status != 200 {
                is_api_error(
                    error,
                    "session start failed with status "@ + decimal(response.status as nat) + ": "@
                        + response.body@,
                )
            } else {
                match parsed_json(response.body@) {
                    Err(why) => error matches StagehandClientError::Json(text) && text@ == why,
                    Ok(body) => session_id_in(body) is None && is_api_error(
                        error,
                        "session response missing sessionId"@,
                    ),
                }
            },
        },
{
    if response.status != 200 {
        return Err(
            StagehandClientError::Api(status_message("session start failed with status ", response)),
        );
    }
    match read_json(response.body.as_str()) {
        Ok(body) => session_from_parsed(&body),
        Err(why) => Err(StagehandClientError::Json(why)),
    }
}

/// The first text that is not empty among the places where the address of the model
/// service may be given.
pub open spec fn first_base_url(payload: Option<Members>, config: Option<Members>) -> Option<
    Seq<char>,
> {
    let places = seq![
        option_text(payload, "baseURL"@),
        option_text(payload, "api_base"@),
        option_text(config, "baseURL"@),
        option_text(config, "api_base"@),
    ];
    first_full(places)
}

/// The first text that is there and not empty.
pub open spec fn first_full(places: Seq<Option<Seq<char>>>) -> Option<Seq<char>>
    decreases places.len(),
{
    if places.len() == 0 {
        None
    } else {
        match places[0] {
            Some(text) if text.len() > 0 => Some(text),
            _ => first_full(places.skip(1)),
        }
    }
}

/// The text under a key in an object that may be absent.
pub open spec fn option_text(options: Option<Members>, key: Seq<char>) -> Option<Seq<char>> {
    match options {
        Some(members) => match member_of(members, key) {
            Some(value) => text_of(value),
            None => None,
        },
        None => None,
    }
}

fn read_option(options: Option<&JsonObject>, key: &str) -> (out: Option<String>)
    ensures
        match out {
            Some(text) => text@.len() > 0 && option_text(object_view(options), key@) == Some(text@),
            None => option_text(object_view(options), key@) matches Some(text) ==> text.len() == 0,
        },
{
    if let Some(options) = options {
        if let Some(value) = options.get(key) {
            if let Some(text) = value.as_str() {
                if !text.as_str().is_empty() {
                    return Some(text.clone());
                }
            }
        }
    }
    None
}

/// The members of an object that may be absent.
pub open spec fn object_view(options: Option<&JsonObject>) -> Option<Members> {
    match options {
        Some(options) => Some(options@),
        None => None,
    }
}

/// Finds the address of the model service: what the request says comes before what
/// is configured.
pub fn lookup_base_url(payload_options: Option<&JsonObject>, config_options: Option<&JsonObject>) -> (out:
    Option<String>)
    ensures
        opt_view(out) == first_base_url(object_view(payload_options), object_view(config_options)),
{
    proof {
        let a = option_text(object_view(payload_options), "baseURL"@);
        let b = option_text(object_view(payload_options), "api_base"@);
        let c = option_text(object_view(config_options), "baseURL"@);
        let d = option_text(object_view(config_options), "api_base"@);
        let places = seq![a, b, c, d];
        reveal_with_fuel(first_full, 5);
        assert(places.skip(1) =~= seq![b, c, d]);
        assert(places.skip(1).skip(1) =~= seq![c, d]);
        assert(places.skip(1).skip(1).skip(1) =~= seq![d]);
        assert(places.skip(1).skip(1).skip(1).skip(1) =~= Seq::empty());
    }
    if let Some(url) = read_option(payload_options, "baseURL") {
        return Some(url);
    }
    if let Some(url) = read_option(payload_options, "api_base") {
        return Some(url);
    }
    if let Some(url) = read_option(config_options, "baseURL") {
        return Some(url);
    }
    read_option(config_options, "api_base")
}

/// The members of a value that is an object.
pub open spec fn members_in(value: Json) -> Option<Members> {
    match value {
        Json::Members(members) => Some(members),
        _ => None,
    }
}

/// The options for the model in a request.
pub open spec fn payload_options(payload: Json) -> Option<Members> {
    match field_of(payload, "modelClientOptions"@) {
        Some(value) => members_in(value),
        None => None,
    }
}

/// A request with the address of the model service among the options for the model.
/// Options that are no object stay as they are.
pub open spec fn with_base_url(payload: Json, url: Option<Seq<char>>) -> Json {
    match (payload, url) {
        (Json::Members(members), Some(url)) => {
            let options = match member_of(members, "modelClientOptions"@) {
                Some(value) => value,
                None => Json::Members(Members::empty()),
            };
            Json::Members(
                with_member(
                    members,
                    "modelClientOptions"@,
                    match options {
                        Json::Members(options) => Json::Members(
                            without_member(
                                with_member(options, "baseURL"@, Json::Text(url)),
                                "api_base"@,
                            ),
                        ),
                        other => other,
                    },
                ),
            )
        },
        _ => payload,
    }
}

/// Finds the address of the model service for a request.
pub fn resolve_model_base_url(config: &StagehandConfig, payload: &JsonValue) -> (out: Option<String>)
    ensures
        opt_view(out) == first_base_url(payload_options(payload@), config@.model_client_options),
{
    let options = match payload.get("modelClientOptions") {
        Some(value) => value.as_object(),
        None => None,
    };
    let configured = match &config.model_client_options {
        Some(options) => Some(options),
        None => None,
    };
    lookup_base_url(options, configured)
}

/// Puts a request into the form that the service wants: with the address of the
/// model service, and in camel case.
pub fn prepare_execute_payload(config: &StagehandConfig, payload: &JsonValue) -> (out: JsonValue)
    ensures
        out@ == recased(
            KeyCase::Camel,
            with_base_url(
                payload@,
                first_base_url(payload_options(payload@), config@.model_client_options),
            ),
        ),
{
    let mut prepared = payload.copy();
    if let Some(url) = resolve_model_base_url(config, payload) {
        if let Some(object) = payload.as_object() {
            let mut object = object.copy();
            let value = match object.get("modelClientOptions") {
                Some(value) => value.copy(),
                None => JsonValue::object(JsonObject::new()),
            };
            let updated = match value.as_object() {
                Some(options) => {
                    let mut options = options.copy();
                    options.insert("baseURL", JsonValue::text(url.as_str()));
                    options.remove("api_base");
                    JsonValue::object(options)
                },
                None => value.copy(),
            };
            object.insert("modelClientOptions", updated);
            prepared = JsonValue::object(object);
        }
    }
    convert_keys_to_camel_case(&prepared)
}

/// Makes the request that runs an operation in a session.
pub fn execute_api(
    config: &StagehandConfig,
    session_id: &str,
    method: &str,
    payload: &JsonValue,
    sent_at: &str,
) -> (out: Result<ApiRequest, StagehandClientError>)
    ensures
        match (out, execute_headers_of(config@, sent_at@)) {
            (Ok(request), Ok(pairs)) => {
                &&& request.url@ == api_base(config@) + "/sessions/"@ + session_id@ + "/"@ + method@
                &&& header_pairs(request.headers@) == pairs
                &&& request.body@ == recased(
                    KeyCase::Camel,
                    with_base_url(
                        payload@,
                        first_base_url(payload_options(payload@), config@.model_client_options),
                    ),
                )
            },
            (Err(error), Err(why)) => is_api_error(error, why),
            _ => false,
        },
{
    let mut url = base_api_url(config);
    url.append("/sessions/");
    url.append(session_id);
    url.append("/");
    url.append(method);
    let body = prepare_execute_payload(config, payload);
    match build_execute_headers(config, sent_at) {
        Ok(headers) => Ok(ApiRequest { url, headers, body }),
        Err(error) => Err(error),
    }
}

/// Which session of the service is used.
#[derive(Debug, PartialEq, Eq)]
pub struct ApiSessionState {
    pub session_id: Option<String>,
}

/// What has to be done to have a session.
#[derive(Debug, PartialEq, Eq)]
pub enum SessionStep {
    /// Nothing: it is this one.
    Known(String),
    /// One has to be asked for.
    Create,
}

impl ApiSessionState {
    /// No session yet.
    pub fn new() -> (out: Self)
        ensures
            out.session_id is None,
    {
        ApiSessionState { session_id: None }
    }

    /// Says which session is used: the configured one, or else the one that was
    /// created; where there is neither one has to be asked for.
    pub fn ensure_session(&mut self, config: &StagehandConfig) -> (out: Result<
        SessionStep,
        StagehandClientError,
    >)
        ensures
            match out {
                Err(error) => {
                    &&& !config@.use_api
                    &&& error matches StagehandClientError::Unsupported(what) && what@
                        == "Stagehand API usage is disabled in this configuration"@
                    &&& *final(self) == *old(self)
                },
                Ok(SessionStep::Known(id)) => {
                    &&& config@.use_api
                    &&& match config@.browserbase_session_id {
                        Some(configured) => {
                            &&& id@ == configured
                            &&& opt_view(final(self).session_id) == (match opt_view(
                                old(self).session_id,
                            ) {
                                Some(held) => Some(held),
                                None => Some(configured),
                            })
                        },
                        None => {
                            &&& opt_view(old(self).session_id) == Some(id@)
                            &&& *final(self) == *old(self)
                        },
                    }
                },
                Ok(SessionStep::Create) => {
                    &&& config@.use_api
                    &&& config@.browserbase_session_id is None
                    &&& old(self).session_id is None
                    &&& *final(self) == *old(self)
                },
            },
    {
        if !config.use_api {
            return Err(
                StagehandClientError::Unsupported(
                    "Stagehand API usage is disabled in this configuration",
                ),
            );
        }
        if let Some(configured) = &config.browserbase_session_id {
            if self.session_id.is_none() {
                self.session_id = Some(configured.clone());
            }
            return Ok(SessionStep::Known(configured.clone()));
        }
        match &self.session_id {
            Some(held) => Ok(SessionStep::Known(held.clone())),
            None => Ok(SessionStep::Create),
        }
    }

    /// Notes the session that was created.
    pub fn session_created(&mut self, id: &str)
        ensures
            opt_view(final(self).session_id) == Some(id@),
    {
        self.session_id = Some(id.to_owned());
    }

    /// Forgets the session.
    pub fn shutdown(&mut self)
        ensures
            final(self).session_id is None,
    {
        self.session_id = None;
    }
}

/// Usage that the service reported.
#[derive(Clone, Copy, Debug, PartialEq, Eq, Structural)]
pub struct MetricsUpdate {
    /// The operation, where it is one of the four.
    pub function: Option<StagehandFunctionName>,
    pub prompt_tokens: u64,
    pub completion_tokens: u64,
    pub inference_time_ms: u64,
}

/// The operation that a report of usage names.
pub open spec fn reported_function(payload: Json) -> Option<Seq<char>> {
    match field_of(payload, "function"@) {
        Some(value) => text_of(value),
        None => text_under(payload, "functionName"@),
    }
}

/// What a report of usage says. One that names no operation says nothing, and so
/// does one for another operation than the four where nothing was used.
pub open spec fn metrics_in(payload: Json) -> Option<MetricsUpdate> {
    match reported_function(payload) {
        None => None,
        Some(name) => {
            let update = MetricsUpdate {
                function: function_named(name),
                prompt_tokens: count_under(payload, "promptTokens"@),
                completion_tokens: count_under(payload, "completionTokens"@),
                inference_time_ms: count_under(payload, "inferenceTimeMs"@),
            };
            if update.function is Some || update.prompt_tokens > 0 || update.completion_tokens > 0
                || update.inference_time_ms > 0 {
                Some(update)
            } else {
                None
            }
        },
    }
}

/// Reads a report of usage.
pub fn handle_metrics_payload(payload: &JsonValue) -> (out: Option<MetricsUpdate>)
    ensures
        out == metrics_in(payload@),
{
    let named = match payload.get("function") {
        Some(value) => value.as_str(),
        None => match payload.get("functionName") {
            Some(value) => value.as_str(),
            None => None,
        },
    };
    let prompt_tokens: u64 = read_count(payload, "promptTokens");
    let completion_tokens: u64 = read_count(payload, "completionTokens");
    let inference_time_ms: u64 = read_count(payload, "inferenceTimeMs");
    match named {
        Some(name) => {
            let function = stagehand_function_from_str(name.as_str());
            if function.is_some() || prompt_tokens > 0 || completion_tokens > 0 || inference_time_ms
                > 0 {
                Some(
                    MetricsUpdate {
                        function,
                        prompt_tokens,
                        completion_tokens,
                        inference_time_ms,
                    },
                )
            } else {
                None
            }
        },
        None => None,
    }
}

/// What a message of the service asks for.
#[derive(Debug, PartialEq)]
pub enum StreamEffect {
    /// Nothing.
    Nothing,
    /// To keep this result of the operation.
    Finished(JsonValue),
    /// To log what this message describes.
    Log(JsonValue),
    /// To count this usage.
    Metrics(MetricsUpdate),
    /// To note that messages of this kind are not known, with this message.
    Unhandled { kind: String, message: JsonValue },
    /// To give up: the operation failed for this reason, as this message says.
    Failed { reason: String, data: JsonValue },
}

/// What a message of the service asks for, as values.
pub enum Effect {
    Nothing,
    Finished(Json),
    Log(Json),
    Metrics(MetricsUpdate),
    Unhandled { kind: Seq<char>, message: Json },
    Failed { reason: Seq<char>, data: Json },
}

impl View for StreamEffect {
    type V = Effect;

    open spec fn view(&self) -> Effect {
        match self {
            StreamEffect::Nothing => Effect::Nothing,
            StreamEffect::Finished(value) => Effect::Finished(value@),
            StreamEffect::Log(value) => Effect::Log(value@),
            StreamEffect::Metrics(update) => Effect::Metrics(*update),
            StreamEffect::Unhandled { kind, message } => Effect::Unhandled {
                kind: kind@,
                message: message@,
            },
            StreamEffect::Failed { reason, data } => Effect::Failed {
                reason: reason@,
                data: data@,
            },
        }
    }
}

/// What a message on the state of an operation asks for.
pub open spec fn system_effect(data: Json) -> Effect {
    match text_under(data, "status"@) {
        Some(status) => if status == "error"@ {
            Effect::Failed {
                reason: match text_under(data, "error"@) {
                    Some(reason) => reason,
                    None => "Unknown error"@,
                },
                data,
            }
        } else if status == "finished"@ {
            match field_of(data, "result"@) {
                Some(result) => Effect::Finished(result),
                None => Effect::Nothing,
            }
        } else {
            Effect::Nothing
        },
        None => Effect::Nothing,
    }
}

/// What a message of the service asks for.
pub open spec fn message_effect(message: Json) -> Effect {
    match text_under(message, "type"@) {
        None => Effect::Nothing,
        Some(kind) => if kind == "system"@ {
            match field_of(message, "data"@) {
                Some(data) => system_effect(data),
                None => Effect::Nothing,
            }
        } else if kind == "log"@ {
            match field_of(message, "data"@) {
                Some(data) => Effect::Log(data),
                None => Effect::Nothing,
            }
        } else if kind == "metrics"@ {
            match field_of(message, "data"@) {
                Some(data) => match metrics_in(data) {
                    Some(update) => Effect::Metrics(update),
                    None => Effect::Nothing,
                },
                None => Effect::Nothing,
            }
        } else {
            Effect::Unhandled { kind, message }
        },
    }
}

/// Reads a message on the state of an operation.
pub fn handle_system_message(data: &JsonValue) -> (out: StreamEffect)
    ensures
        out@ == system_effect(data@),
{
    let status = match read_text(data, "status") {
        Some(status) => status,
        None => return StreamEffect::Nothing,
    };
    if str_eq(status.as_str(), "error") {
        let reason = match read_text(data, "error") {
            Some(reason) => reason,
            None => "Unknown error".to_owned(),
        };
        return StreamEffect::Failed { reason, data: data.copy() };
    }
    if str_eq(status.as_str(), "finished") {
        return match data.get("result") {
            Some(result) => StreamEffect::Finished(result.copy()),
            None => StreamEffect::Nothing,
        };
    }
    StreamEffect::Nothing
}

/// Reads a message of the service.
pub fn handle_stream_message(message: &JsonValue) -> (out: StreamEffect)
    ensures
        out@ == message_effect(message@),
{
    let kind = match read_text(message, "type") {
        Some(kind) => kind,
        None => return StreamEffect::Nothing,
    };
    let data = message.get("data");
    if str_eq(kind.as_str(), "system") {
        return match data {
            Some(data) => handle_system_message(data),
            None => StreamEffect::Nothing,
        };
    }
    if str_eq(kind.as_str(), "log") {
        return match data {
            Some(data) => StreamEffect::Log(data.copy()),
            None => StreamEffect::Nothing,
        };
    }
    if str_eq(kind.as_str(), "metrics") {
        return match data {
            Some(data) => match handle_metrics_payload(data) {
                Some(update) => StreamEffect::Metrics(update),
                None => StreamEffect::Nothing,
            },
            None => StreamEffect::Nothing,
        };
    }
    StreamEffect::Unhandled { kind, message: message.copy() }
}

/// The message in a line of a stream; comments and empty lines hold none.
pub open spec fn line_data(line: Seq<char>) -> Option<Seq<char>> {
    let trimmed = trim_of(line);
    let data = if begins_with(trimmed, "data: "@) {
        trimmed.skip("data: "@.len() as int)
    } else {
        trimmed
    };
    if trimmed.len() == 0 || begins_with(trimmed, ":"@) || trim_of(data).len() == 0 {
        None
    } else {
        Some(data)
    }
}

/// Takes the message from a line of a stream.
pub fn stream_line_data(line: &str) -> (out: Option<String>)
    ensures
        opt_view(out) == line_data(line@),
{
    let trimmed = trim(line);
    if trimmed.as_str().is_empty() || starts_with(trimmed.as_str(), ":") {
        return None;
    }
    let data = match strip_prefix(trimmed.as_str(), "data: ") {
        Some(rest) => rest,
        None => trimmed,
    };
    let rest = trim(data.as_str());
    if rest.as_str().is_empty() {
        return None;
    }
    Some(data)
}

/// What came of a line of a stream.
#[derive(Debug, PartialEq)]
pub enum LineOutcome {
    /// The line holds no message.
    Skipped,
    /// The line holds a message that asks for this.
    Message(StreamEffect),
    /// The line holds what is no message; this is to be logged.
    Unreadable(String),
}

/// The answer of the service to a request that runs an operation, line by line.
#[derive(Debug, PartialEq)]
pub struct ApiStream {
    pub result: Option<JsonValue>,
}

/// The result of an operation after a message.
pub open spec fn result_after(result: Option<Json>, effect: Effect) -> Option<Json> {
    match effect {
        Effect::Finished(value) => Some(value),
        _ => result,
    }
}

/// The result of an operation after a list of messages.
pub open spec fn result_of(messages: Seq<Json>) -> Option<Json>
    decreases messages.len(),
{
    if messages.len() == 0 {
        None
    } else {
        result_after(result_of(messages.drop_last()), message_effect(messages.last()))
    }
}

impl ApiStream {
    /// A stream of which nothing was read.
    pub fn new() -> (out: Self)
        ensures
            opt_json(out.result) == None::<Json>,
    {
        ApiStream { result: None }
    }

    /// Takes a message. The result of a finished operation is kept.
    pub fn on_message(&mut self, message: &JsonValue) -> (out: StreamEffect)
        ensures
            out@ == message_effect(message@),
            opt_json(final(self).result) == result_after(opt_json(old(self).result), out@),
    {
        let effect = handle_stream_message(message);
        if let StreamEffect::Finished(value) = &effect {
            self.result = Some(value.copy());
        }
        effect
    }

    /// Takes a line.
    pub fn on_line(&mut self, line: &str) -> (out: LineOutcome)
        ensures
            match line_data(line@) {
                None => out == LineOutcome::Skipped && *final(self) == *old(self),
                Some(data) => match parsed_json(data) {
                    Ok(message) => {
                        &&& out matches LineOutcome::Message(effect)
                        &&& effect@ == message_effect(message)
                        &&& opt_json(final(self).result) == result_after(
                            opt_json(old(self).result),
                            effect@,
                        )
                    },
                    Err(why) => {
                        &&& out matches LineOutcome::Unreadable(text)
                        &&& text@ == "Could not parse SSE line: "@ + data + " ("@ + why + ")"@
                        &&& *final(self) == *old(self)
                    },
                },
            },
    {
        let data = match stream_line_data(line) {
            Some(data) => data,
            None => return LineOutcome::Skipped,
        };
        match read_json(data.as_str()) {
            Ok(message) => LineOutcome::Message(self.on_message(&message)),
            Err(why) => {
                let mut text = "Could not parse SSE line: ".to_owned();
                text.append(data.as_str());
                text.append(" (");
                text.append(why.as_str());
                text.append(")");
                LineOutcome::Unreadable(text)
            },
        }
    }

    /// Gives the result once the stream has ended.
    pub fn finish(self) -> (out: Result<JsonValue, StagehandClientError>)
        ensures
            match out {
                Ok(value) => self.result == Some(value),
                Err(error) => self.result is None && is_api_error(
                    error,
                    "API stream finished without a result"@,
                ),
            },
    {
        match self.result {
            Some(value) => Ok(value),
            None => Err(
                StagehandClientError::Api("API stream finished without a result".to_owned()),
            ),
        }
    }
}

/// What has to be done to report the usage of a session.
#[derive(Debug, PartialEq, Eq)]
pub enum ReplayStep {
    /// Nothing: what was counted here is reported.
    Local,
    /// The service has to be asked with this key for this project.
    Ask { api_key: String, project_id: String },
}

/// Decides how the usage of a session is found.
pub fn fetch_replay_metrics(config: &StagehandConfig) -> (out: Result<
    ReplayStep,
    StagehandClientError,
>)
    ensures
        match out {
            Ok(ReplayStep::Local) => !config@.use_api,
            Ok(ReplayStep::Ask { api_key, project_id }) => {
                &&& config@.use_api
                &&& config@.api_key == Some(api_key@)
                &&& config@.project_id == Some(project_id@)
            },
            Err(error) => {
                &&& config@.use_api
                &&& if config@.api_key is None {
                    is_api_error(error, "browserbase API key is required"@)
                } else {
                    config@.project_id is None && is_api_error(
                        error,
                        "browserbase project id is required"@,
                    )
                }
            },
        },
{
    if !config.use_api {
        return Ok(ReplayStep::Local);
    }
    match (&config.api_key, &config.project_id) {
        (None, _) => Err(StagehandClientError::Api("browserbase API key is required".to_owned())),
        (Some(_), None) => Err(
            StagehandClientError::Api("browserbase project id is required".to_owned()),
        ),
        (Some(api_key), Some(project_id)) => Ok(
            ReplayStep::Ask { api_key: api_key.clone(), project_id: project_id.clone() },
        ),
    }
}

/// The address at which the usage of a session is found.
pub fn replay_url(config: &StagehandConfig, session_id: &str) -> (out: String)
    ensures
        out@ == api_base(config@) + "/sessions/"@ + session_id@ + "/replay"@,
{
    let mut url = base_api_url(config);
    url.append("/sessions/");
    url.append(session_id);
    url.append("/replay");
    url
}

/// Whether an answer of the service says that it could do what was asked.
pub open spec fn succeeded(body: Json) -> bool {
    match field_of(body, "success"@) {
        Some(value) => bool_in(value) == Some(true),
        None => false,
    }
}

/// The usage in the body of an answer.
pub open spec fn replay_usage(body: Json) -> Counts {
    replay_counts(
        match field_of(body, "data"@) {
            Some(data) => data,
            None => Json::Null,
        },
    )
}

/// What an answer that reports no usage says.
pub open spec fn replay_refusal(body: Json) -> Seq<char> {
    match text_under(body, "error"@) {
        Some(why) => why,
        None => "Unknown error"@,
    }
}

/// Adds up the usage in the body of an answer. There is no result where a count
/// would not fit in 64 bits.
pub fn replay_from_parsed(body: &JsonValue) -> (out: Result<
    Option<StagehandMetrics>,
    StagehandClientError,
>)
    ensures
        match out {
            Ok(metrics) => {
                &&& succeeded(body@)
                &&& metrics is Some <==> counts_fit(replay_usage(body@))
                &&& metrics matches Some(metrics) ==> metrics@ == replay_usage(body@)
            },
            Err(error) => !succeeded(body@) && is_api_error(error, replay_refusal(body@)),
        },
{
    let success = match body.get("success") {
        Some(value) => match value.as_bool() {
            Some(flag) => flag,
            None => false,
        },
        None => false,
    };
    if !success {
        let why = match read_text(body, "error") {
            Some(why) => why,
            None => "Unknown error".to_owned(),
        };
        return Err(StagehandClientError::Api(why));
    }
    match body.get("data") {
        Some(data) => Ok(checked_replay_metrics(data)),
        None => {
            let empty = JsonValue::null();
            Ok(checked_replay_metrics(&empty))
        },
    }
}

/// Adds up the usage in an answer of the service. There is no result where a count
/// would not fit in 64 bits.
pub fn replay_from_response(response: &HttpResponse) -> (out: Result<
    Option<StagehandMetrics>,
    StagehandClientError,
>)
    ensures
        match out {
            Ok(metrics) => {
                &&& response.status == 200
                &&& parsed_json(response.body@) matches Ok(body)
                &&& succeeded(body)
                &&& metrics is Some <==> counts_fit(replay_usage(body))
                &&& metrics matches Some(metrics) ==> metrics@ == replay_usage(body)
            },
            Err(error) => if response.status != 200 {
                is_api_error(
                    error,
                    "failed to fetch replay metrics: status "@ + decimal(response.status as nat)
                        + ": "@ + response.body@,
                )
            } else {
                match parsed_json(response.body@) {
                    Err(why) => error matches StagehandClientError::Json(text) && text@ == why,
                    Ok(body) => !succeeded(body) && is_api_error(error, replay_refusal(body)),
                }
            },
        },
{
    if response.status != 200 {
        return Err(
            StagehandClientError::Api(
                status_message("failed to fetch replay metrics: status ", response),
            ),
        );
    }
    match read_json(response.body.as_str()) {
        Ok(body) => replay_from_parsed(&body),
        Err(why) => Err(StagehandClientError::Json(why)),
    }
}

/// What is done with a message of the client: the record for the logger, where one
/// of its level is kept, and what the adapter is told.
#[derive(Debug, PartialEq)]
pub struct LogCalls {
    pub record: Option<StagehandLogRecord>,
    pub adapter: AdapterCall,
}

/// The client of a session.
#[derive(Debug)]
pub struct StagehandClient<R> {
    browser: StagehandBrowser<R>,
    dom_script: String,
    logger: StagehandLogger,
    metrics: StagehandMetrics,
    api_state: ApiSessionState,
}

impl<R> StagehandClient<R> {
    /// The browser of the client.
    pub closed spec fn browsed(&self) -> StagehandBrowser<R> {
        self.browser
    }

    /// The settings of the client.
    pub open spec fn settings(&self) -> Settings {
        self.browsed().managed().settings()
    }

    /// The script that goes into the pages.
    pub closed spec fn script(&self) -> Seq<char> {
        self.dom_script@
    }

    /// The logger of the client.
    pub closed spec fn logs(&self) -> StagehandLogger {
        self.logger
    }

    /// What was used so far.
    pub closed spec fn counts(&self) -> Counts {
        self.metrics@
    }

    /// The session of the service that is used.
    pub closed spec fn session(&self) -> Option<Seq<char>> {
        opt_view(self.api_state.session_id)
    }

    /// A client for a configuration. `external_logger` says whether the session has
    /// a logger of its own.
    pub fn new(
        config: StagehandConfig,
        runtime: R,
        dom_script: &str,
        external_logger: bool,
        default_downloads: Result<String, String>,
    ) -> (out: Result<Self, BrowserError>)
        ensures
            ({
                let settings = Settings { use_api: uses_api(config@), ..config@ };
                let downloads = downloads_of(default_downloads);
                match out {
                    Ok(client) => {
                        &&& !connection_fails(settings, downloads)
                        &&& client.settings() == settings
                        &&& client.browsed().managed().connection() == connection_for(
                            settings,
                            downloads,
                        )
                        &&& client.browsed().engine() == runtime
                        &&& client.script() == dom_script@
                        &&& client.logs().settings().verbose == config@.verbose
                        &&& client.logs().settings().use_rich == config@.use_rich_logging
                        &&& client.logs().settings().env@ == config@.env.name()
                        &&& client.logs().settings().external_logger == external_logger
                        &&& client.counts() == no_counts()
                        &&& client.session() is None
                    },
                    Err(error) => connection_fails(settings, downloads) && explains(
                        error,
                        settings,
                        downloads,
                    ),
                }
            }),
    {
        let logger = StagehandLogger::with_config(LogConfig::for_session(&config, external_logger));
        match StagehandBrowser::new(config, runtime, default_downloads) {
            Ok(browser) => Ok(
                StagehandClient {
                    browser,
                    dom_script: dom_script.to_owned(),
                    logger,
                    metrics: StagehandMetrics::default(),
                    api_state: ApiSessionState::new(),
                },
            ),
            Err(error) => Err(error),
        }
    }

    /// A client for a configuration, with the helper script of this library.
    pub fn new_with_default_dom_script(
        config: StagehandConfig,
        runtime: R,
        external_logger: bool,
        default_downloads: Result<String, String>,
    ) -> (out: Result<Self, BrowserError>)
        ensures
            ({
                let settings = Settings { use_api: uses_api(config@), ..config@ };
                let downloads = downloads_of(default_downloads);
                match out {
                    Ok(client) => {
                        &&& !connection_fails(settings, downloads)
                        &&& client.settings() == settings
                        &&& client.browsed().managed().connection() == connection_for(
                            settings,
                            downloads,
                        )
                        &&& client.browsed().engine() == runtime
                        &&& client.script() == STAGEHAND_DOM_SCRIPT@
                        &&& client.logs().settings().verbose == config@.verbose
                        &&& client.logs().settings().external_logger == external_logger
                        &&& client.counts() == no_counts()
                        &&& client.session() is None
                    },
                    Err(error) => connection_fails(settings, downloads) && explains(
                        error,
                        settings,
                        downloads,
                    ),
                }
            }),
    {
        StagehandClient::new(
            config,
            runtime,
            stagehand_dom_script(),
            external_logger,
            default_downloads,
        )
    }

    /// The configuration.
    pub fn config(&self) -> (out: &StagehandConfig)
        ensures
            out@ == self.settings(),
    {
        self.browser.config()
    }

    /// Whether the service is used.
    pub fn use_api(&self) -> (yes: bool)
        ensures
            yes == self.settings().use_api,
    {
        self.config().use_api
    }

    /// The browser.
    pub fn browser(&self) -> (out: &StagehandBrowser<R>)
        ensures
            *out == self.browsed(),
    {
        &self.browser
    }

    /// What has to be done to reach the browser.
    pub fn plan(&self) -> (out: BrowserPlan)
        ensures
            out@ == plan_for(self.browsed().managed().connection()),
    {
        self.browser.plan()
    }

    /// The script that goes into the pages.
    pub fn dom_script(&self) -> (out: &str)
        ensures
            out@ == self.script(),
    {
        self.dom_script.as_str()
    }

    /// The logger.
    pub fn logger(&self) -> (out: &StagehandLogger)
        ensures
            *out == self.logs(),
    {
        &self.logger
    }

    /// What was used so far.
    pub fn metrics(&self) -> (out: &StagehandMetrics)
        ensures
            out@ == self.counts(),
    {
        &self.metrics
    }

    /// Counts what an operation used, unless a count would no longer fit in 64
    /// bits. Says whether it was counted.
    pub fn update_metrics(&mut self, update: MetricsUpdate) -> (done: bool)
        ensures
            ({
                let counts = recorded(
                    old(self).counts(),
                    update.function,
                    usage_of(
                        update.prompt_tokens,
                        update.completion_tokens,
                        update.inference_time_ms,
                    ),
                );
                &&& done == counts_fit(counts)
                &&& final(self).counts() == (if done {
                    counts
                } else {
                    old(self).counts()
                })
            }),
            final(self).browsed() == old(self).browsed(),
            final(self).script() == old(self).script(),
            final(self).logs() == old(self).logs(),
            final(self).session() == old(self).session(),
    {
        self.metrics.try_record(
            update.function,
            update.prompt_tokens,
            update.completion_tokens,
            update.inference_time_ms,
        )
    }

    /// Logs a message for debugging, here and with the adapter.
    pub fn log_debug(&self, timestamp: &str, message: &str, category: &str) -> (out: LogCalls)
        ensures
            out.adapter@ == (Told::Debug { message: message@, category: category@ }),
            out.record is Some <==> self.logs().settings().verbose.number() >= 2,
            out.record matches Some(record) ==> record@ == (Record {
                timestamp: timestamp@,
                message: message@,
                level: LogLevel::Debug,
                category: Some(category@),
                auxiliary: None,
            }),
    {
        LogCalls {
            record: self.logger.debug(timestamp, message, Some(category), None),
            adapter: AdapterCall::LogDebug {
                message: message.to_owned(),
                category: category.to_owned(),
            },
        }
    }

    /// Logs an error, here and with the adapter.
    pub fn log_error(&self, timestamp: &str, message: &str, category: &str) -> (out: LogCalls)
        ensures
            out.adapter@ == (Told::Error { message: message@, category: category@ }),
            out.record matches Some(record) && record@ == (Record {
                timestamp: timestamp@,
                message: message@,
                level: LogLevel::Error,
                category: Some(category@),
                auxiliary: None,
            }),
    {
        LogCalls {
            record: self.logger.error(timestamp, message, Some(category), None),
            adapter: AdapterCall::LogError {
                message: message.to_owned(),
                category: category.to_owned(),
            },
        }
    }

    /// Says which session of the service is used, or that one has to be asked for.
    pub fn ensure_session(&mut self) -> (out: Result<SessionStep, StagehandClientError>)
        ensures
            final(self).browsed() == old(self).browsed(),
            final(self).script() == old(self).script(),
            final(self).logs() == old(self).logs(),
            final(self).counts() == old(self).counts(),
            match out {
                Err(error) => {
                    &&& !old(self).settings().use_api
                    &&& error matches StagehandClientError::Unsupported(what) && what@
                        == "Stagehand API usage is disabled in this configuration"@
                    &&& final(self).session() == old(self).session()
                },
                Ok(SessionStep::Known(id)) => {
                    &&& old(self).settings().use_api
                    &&& match old(self).settings().browserbase_session_id {
                        Some(configured) => {
                            &&& id@ == configured
                            &&& final(self).session() == (match old(self).session() {
                                Some(held) => Some(held),
                                None => Some(configured),
                            })
                        },
                        None => old(self).session() == Some(id@) && final(self).session()
                            == old(self).session(),
                    }
                },
                Ok(SessionStep::Create) => {
                    &&& old(self).settings().use_api
                    &&& old(self).settings().browserbase_session_id is None
                    &&& old(self).session() is None
                    &&& final(self).session() is None
                },
            },
    {
        self.api_state.ensure_session(self.browser.config())
    }

    /// Notes the session that was created.
    pub fn session_created(&mut self, id: &str)
        ensures
            final(self).session() == Some(id@),
            final(self).browsed() == old(self).browsed(),
            final(self).script() == old(self).script(),
            final(self).logs() == old(self).logs(),
            final(self).counts() == old(self).counts(),
    {
        self.api_state.session_created(id);
    }

    /// Forgets the session.
    pub fn shutdown(&mut self)
        ensures
            final(self).session() is None,
            final(self).browsed() == old(self).browsed(),
            final(self).script() == old(self).script(),
            final(self).logs() == old(self).logs(),
            final(self).counts() == old(self).counts(),
    {
        self.api_state.shutdown();
    }
}

/// Gives the pages of the session, which are none where it has just begun.
pub fn open_context(context: Option<StagehandContext>, dom_script: &str) -> (out: StagehandContext)
    ensures
        match context {
            Some(context) => out == context,
            None => out@ == (Session {
                script: dom_script@,
                pages: Map::empty(),
                order: Seq::empty(),
                frames: Map::empty(),
                active: None,
            }),
        },
{
    match context {
        Some(context) => context,
        None => StagehandContext::new(dom_script),
    }
}

/// The result of an operation is that of the last message that finished it.
pub proof fn law_last_result_counts(messages: Seq<Json>, last: Json)
    ensures
        message_effect(last) matches Effect::Finished(value) ==> result_of(messages.push(last))
            == Some(value),
        !(message_effect(last) is Finished) ==> result_of(messages.push(last)) == result_of(messages),
{
    assert(messages.push(last).drop_last() =~= messages);
}

/// An address of the model service in the request comes before all others.
pub proof fn law_request_url_comes_first(payload: Option<Members>, config: Option<Members>, url: Seq<char>)
    requires
        option_text(payload, "baseURL"@) == Some(url),
        url.len() > 0,
    ensures
        first_base_url(payload, config) == Some(url),
{
}

} // verus!
