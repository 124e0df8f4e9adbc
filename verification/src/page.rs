//! The operations on a page: where they run, what is sent, and what comes back.
use crate::client::{MetricsUpdate, StagehandClientError};
use crate::json::{
    field_of, signed_in, unsigned_in, with_member, Json, JsonObject, JsonValue, Members,
};
use crate::llm::{
    count_json, count_value, flag_json, flag_value, say, text_json, text_value, with_said,
};
use crate::metrics::StagehandFunctionName;
use crate::table::Table;
use crate::text::{opt_view, str_eq};
use crate::types::a11y::opt_json;
use crate::types::page::{ActOptions, ExtractOptions, ObserveOptions};
use vstd::prelude::*;
use vstd::string::*;

verus! {

/// An operation on a page.
#[derive(Clone, Copy, Debug, PartialEq, Eq, Structural)]
pub enum Operation {
    Act,
    Navigate,
    Observe,
    Extract,
}

/// Where an operation runs.
#[derive(Clone, Copy, Debug, PartialEq, Eq, Structural)]
pub enum Place {
    /// In the browser on this machine.
    Local,
    /// With the service.
    Remote,
}

/// Why an operation cannot run in the browser on this machine.
pub open spec fn no_local(operation: Operation) -> Seq<char> {
    match operation {
        Operation::Act => "local act handler unsupported for this runtime"@,
        Operation::Navigate => "local navigation unsupported for this runtime"@,
        Operation::Observe => "local observe handler unsupported for this runtime"@,
        Operation::Extract => "local extract handler unsupported for this runtime"@,
    }
}

/// Decides where an operation runs. The service cannot navigate, and only a browser
/// on this machine that can be driven directly runs operations itself.
pub fn place_of(operation: Operation, use_api: bool, drives_browser: bool) -> (out: Result<
    Place,
    StagehandClientError,
>)
    ensures
        match out {
            Ok(Place::Local) => !use_api && drives_browser,
            Ok(Place::Remote) => use_api && operation != Operation::Navigate,
            Err(error) => {
                &&& error matches StagehandClientError::Unsupported(what)
                &&& if use_api {
                    operation == Operation::Navigate && what@
                        == "remote navigation not yet implemented"@
                } else {
                    !drives_browser && what@ == no_local(operation)
                }
            },
        },
{
    if use_api {
        if operation == Operation::Navigate {
            return Err(StagehandClientError::Unsupported("remote navigation not yet implemented"));
        }
        return Ok(Place::Remote);
    }
    if drives_browser {
        return Ok(Place::Local);
    }
    Err(
        StagehandClientError::Unsupported(
            match operation {
                Operation::Act => "local act handler unsupported for this runtime",
                Operation::Navigate => "local navigation unsupported for this runtime",
                Operation::Observe => "local observe handler unsupported for this runtime",
                Operation::Extract => "local extract handler unsupported for this runtime",
            },
        ),
    )
}

/// The name of an operation at the service.
pub fn method_name(operation: Operation) -> (out: &'static str)
    ensures
        out@ == (match operation {
            Operation::Act => "act"@,
            Operation::Navigate => "navigate"@,
            Operation::Observe => "observe"@,
            Operation::Extract => "extract"@,
        }),
{
    match operation {
        Operation::Act => "act",
        Operation::Navigate => "navigate",
        Operation::Observe => "observe",
        Operation::Extract => "extract",
    }
}

/// The values of a table, as members of an object.
pub open spec fn table_members(
    names: Seq<Seq<char>>,
    values: Map<Seq<char>, Seq<char>>,
) -> Members
    decreases names.len(),
{
    if names.len() == 0 {
        Members::empty()
    } else {
        with_member(
            table_members(names.drop_last(), values),
            names.last(),
            Json::Text(values[names.last()]),
        )
    }
}

/// The variables of a request, as JSON.
pub open spec fn variables_json(variables: Option<Table<String>>) -> Option<Json> {
    match variables {
        Some(table) => Some(
            Json::Members(table_members(table.order(), crate::a11y::text_map(table@))),
        ),
        None => None,
    }
}

fn variables_value(variables: &Option<Table<String>>) -> (out: Option<JsonValue>)
    ensures
        opt_json(out) == variables_json(*variables),
{
    match variables {
        Some(table) => {
            let mut object = JsonObject::new();
            let total: usize = table.len();
            let ghost order = table.order();
            let mut i: usize = 0;
            assert(order.take(0) =~= Seq::<Seq<char>>::empty());
            while i < total
                invariant
                    i <= total,
                    order == table.order(),
                    total == order.len(),
                    object@ == table_members(
                        order.take(i as int),
                        crate::a11y::text_map(table@),
                    ),
                decreases total - i,
            {
                assert(order.take(i + 1).drop_last() =~= order.take(i as int));
                object.insert(
                    table.key_at(i).as_str(),
                    JsonValue::text(table.value_at(i).as_str()),
                );
                i += 1;
            }
            assert(order.take(i as int) =~= order);
            Some(JsonValue::object(object))
        },
        None => None,
    }
}

fn json_value(value: &Option<JsonValue>) -> (out: Option<JsonValue>)
    ensures
        opt_json(out) == opt_json(*value),
{
    match value {
        Some(value) => Some(value.copy()),
        None => None,
    }
}

/// What is sent to the service to act, with the frame of the page where it is known.
pub open spec fn act_members(options: ActOptions, frame: Option<Seq<char>>) -> Members {
    let m1 = with_member(Members::empty(), "action"@, Json::Text(options.action@));
    let m2 = with_said(m1, "variables"@, variables_json(options.variables));
    let m3 = with_said(m2, "modelName"@, text_json(opt_view(options.model_name)));
    let m4 = with_said(m3, "domSettleTimeoutMs"@, count_json(options.dom_settle_timeout_ms));
    let m5 = with_said(m4, "timeoutMs"@, count_json(options.timeout_ms));
    let m6 = with_said(m5, "modelClientOptions"@, opt_json(options.model_client_options));
    with_said(m6, "frameId"@, text_json(frame))
}

/// Makes what is sent to the service to act.
pub fn act_payload(options: &ActOptions, frame_id: &Option<String>) -> (out: JsonValue)
    ensures
        out@ == Json::Members(act_members(*options, opt_view(*frame_id))),
{
    let mut payload = JsonObject::new();
    payload.insert("action", JsonValue::text(options.action.as_str()));
    say(&mut payload, "variables", variables_value(&options.variables));
    say(&mut payload, "modelName", text_value(&options.model_name));
    say(&mut payload, "domSettleTimeoutMs", count_value(options.dom_settle_timeout_ms));
    say(&mut payload, "timeoutMs", count_value(options.timeout_ms));
    say(&mut payload, "modelClientOptions", json_value(&options.model_client_options));
    say(&mut payload, "frameId", text_value(frame_id));
    JsonValue::object(payload)
}

/// What is sent to the service to observe, with the frame of the page where it is
/// known.
pub open spec fn observe_members(options: ObserveOptions, frame: Option<Seq<char>>) -> Members {
    let m1 = with_member(Members::empty(), "instruction"@, Json::Text(options.instruction@));
    let m2 = with_said(m1, "modelName"@, text_json(opt_view(options.model_name)));
    let m3 = with_said(m2, "drawOverlay"@, flag_json(options.draw_overlay));
    let m4 = with_said(m3, "domSettleTimeoutMs"@, count_json(options.dom_settle_timeout_ms));
    let m5 = with_said(m4, "modelClientOptions"@, opt_json(options.model_client_options));
    with_said(m5, "frameId"@, text_json(frame))
}

/// Makes what is sent to the service to observe.
pub fn observe_payload(options: &ObserveOptions, frame_id: &Option<String>) -> (out: JsonValue)
    ensures
        out@ == Json::Members(observe_members(*options, opt_view(*frame_id))),
{
    let mut payload = JsonObject::new();
    payload.insert("instruction", JsonValue::text(options.instruction.as_str()));
    say(&mut payload, "modelName", text_value(&options.model_name));
    say(&mut payload, "drawOverlay", flag_value(options.draw_overlay));
    say(&mut payload, "domSettleTimeoutMs", count_value(options.dom_settle_timeout_ms));
    say(&mut payload, "modelClientOptions", json_value(&options.model_client_options));
    say(&mut payload, "frameId", text_value(frame_id));
    JsonValue::object(payload)
}

/// What is sent to the service to extract, with the frame of the page where it is
/// known.
pub open spec fn extract_members(options: ExtractOptions, frame: Option<Seq<char>>) -> Members {
    let m1 = with_member(Members::empty(), "instruction"@, Json::Text(options.instruction@));
    let m2 = with_said(m1, "modelName"@, text_json(opt_view(options.model_name)));
    let m3 = with_said(m2, "selector"@, text_json(opt_view(options.selector)));
    let m4 = with_said(m3, "schemaDefinition"@, opt_json(options.schema_definition));
    let m5 = with_said(m4, "useTextExtract"@, flag_json(options.use_text_extract));
    let m6 = with_said(m5, "domSettleTimeoutMs"@, count_json(options.dom_settle_timeout_ms));
    let m7 = with_said(m6, "modelClientOptions"@, opt_json(options.model_client_options));
    with_said(m7, "frameId"@, text_json(frame))
}

/// Makes what is sent to the service to extract.
pub fn extract_payload(options: &ExtractOptions, frame_id: &Option<String>) -> (out: JsonValue)
    ensures
        out@ == Json::Members(extract_members(*options, opt_view(*frame_id))),
{
    let mut payload = JsonObject::new();
    payload.insert("instruction", JsonValue::text(options.instruction.as_str()));
    say(&mut payload, "modelName", text_value(&options.model_name));
    say(&mut payload, "selector", text_value(&options.selector));
    say(&mut payload, "schemaDefinition", json_value(&options.schema_definition));
    say(&mut payload, "useTextExtract", flag_value(options.use_text_extract));
    say(&mut payload, "domSettleTimeoutMs", count_value(options.dom_settle_timeout_ms));
    say(&mut payload, "modelClientOptions", json_value(&options.model_client_options));
    say(&mut payload, "frameId", text_value(frame_id));
    JsonValue::object(payload)
}

/// The part of an answer that is the result: the first of three members that it has,
/// or all of it.
pub open spec fn result_in(value: Json) -> Json {
    match field_of(value, "result"@) {
        Some(inner) => inner,
        None => match field_of(value, "data"@) {
            Some(inner) => inner,
            None => match field_of(value, "elements"@) {
                Some(inner) => inner,
                None => value,
            },
        },
    }
}

/// Takes the result from an answer.
pub fn resolve_result_value(value: &JsonValue) -> (out: JsonValue)
    ensures
        out@ == result_in(value@),
{
    if let Some(inner) = value.get("result") {
        return inner.copy();
    }
    if let Some(inner) = value.get("data") {
        return inner.copy();
    }
    if let Some(inner) = value.get("elements") {
        return inner.copy();
    }
    value.copy()
}

/// What an answer says about itself.
pub open spec fn metadata_in(value: Json) -> Option<Json> {
    match field_of(value, "metadata"@) {
        Some(meta) => Some(meta),
        None => match field_of(value, "result"@) {
            Some(inner) => field_of(inner, "metadata"@),
            None => None,
        },
    }
}

/// Finds what an answer says about itself.
pub fn find_metadata<'a>(value: &'a JsonValue) -> (out: Option<&'a JsonValue>)
    ensures
        match (out, metadata_in(value@)) {
            (Some(meta), Some(model)) => meta@ == model,
            (None, None) => true,
            _ => false,
        },
{
    if let Some(meta) = value.get("metadata") {
        return Some(meta);
    }
    match value.get("result") {
        Some(inner) => inner.get("metadata"),
        None => None,
    }
}

/// The unsigned integer under a key.
pub open spec fn count_at(value: Json, key: Seq<char>) -> Option<u64> {
    match field_of(value, key) {
        Some(found) => unsigned_in(found),
        None => None,
    }
}

fn read_count_at(value: &JsonValue, key: &str) -> (out: Option<u64>)
    ensures
        out == count_at(value@, key@),
{
    match value.get(key) {
        Some(found) => found.as_u64(),
        None => None,
    }
}

/// The usage that an answer reports; it has to report all of it.
pub open spec fn usage_in(value: Json, function: StagehandFunctionName) -> Option<MetricsUpdate> {
    match metadata_in(value) {
        None => None,
        Some(meta) => match (
            count_at(meta, "promptTokens"@),
            count_at(meta, "completionTokens"@),
            count_at(meta, "inferenceTimeMs"@),
        ) {
            (Some(prompt_tokens), Some(completion_tokens), Some(inference_time_ms)) => Some(
                MetricsUpdate {
                    function: Some(function),
                    prompt_tokens,
                    completion_tokens,
                    inference_time_ms,
                },
            ),
            _ => None,
        },
    }
}

/// Reads the usage that an answer reports.
pub fn record_metrics(value: &JsonValue, function: StagehandFunctionName) -> (out: Option<
    MetricsUpdate,
>)
    ensures
        out == usage_in(value@, function),
{
    match find_metadata(value) {
        Some(meta) => match (
            read_count_at(meta, "promptTokens"),
            read_count_at(meta, "completionTokens"),
            read_count_at(meta, "inferenceTimeMs"),
        ) {
            (Some(prompt_tokens), Some(completion_tokens), Some(inference_time_ms)) => Some(
                MetricsUpdate {
                    function: Some(function),
                    prompt_tokens,
                    completion_tokens,
                    inference_time_ms,
                },
            ),
            _ => None,
        },
        None => None,
    }
}

/// The elements in a result: those of a list, or a single one, or none.
pub open spec fn observed_items(value: Json) -> Seq<Json> {
    match value {
        Json::List(items) => items,
        Json::Members(members) => seq![value],
        _ => seq![],
    }
}

/// Takes the elements from the result of an observation.
pub fn observed_values(value: &JsonValue) -> (out: Vec<JsonValue>)
    ensures
        crate::json::models(out@) == observed_items(value@),
{
    if let Some(items) = value.as_array() {
        return crate::browser::copy_values(items);
    }
    let mut out: Vec<JsonValue> = Vec::new();
    if value.as_object().is_some() {
        out.push(value.copy());
        assert(crate::json::models(out@) =~= seq![value@]);
        return out;
    }
    assert(crate::json::models(out@) =~= Seq::<Json>::empty());
    out
}

/// A part of the browser's protocol that can be switched on and off.
#[derive(Clone, Copy, Debug, PartialEq, Eq, Structural)]
pub enum CdpDomain {
    Network,
    Page,
    Dom,
    Accessibility,
}

/// The part of the protocol with the given name.
pub open spec fn domain_named(name: Seq<char>) -> Option<CdpDomain> {
    if name == "Network"@ {
        Some(CdpDomain::Network)
    } else if name == "Page"@ {
        Some(CdpDomain::Page)
    } else if name == "DOM"@ {
        Some(CdpDomain::Dom)
    } else if name == "Accessibility"@ {
        Some(CdpDomain::Accessibility)
    } else {
        None
    }
}

/// Finds the part of the protocol with the given name.
pub fn cdp_domain(name: &str) -> (out: Result<CdpDomain, StagehandClientError>)
    ensures
        match out {
            Ok(domain) => domain_named(name@) == Some(domain),
            Err(error) => {
                &&& domain_named(name@) is None
                &&& error matches StagehandClientError::Unsupported(what) && what@
                    == "unsupported CDP domain"@
            },
        },
{
    if str_eq(name, "Network") {
        Ok(CdpDomain::Network)
    } else if str_eq(name, "Page") {
        Ok(CdpDomain::Page)
    } else if str_eq(name, "DOM") {
        Ok(CdpDomain::Dom)
    } else if str_eq(name, "Accessibility") {
        Ok(CdpDomain::Accessibility)
    } else {
        Err(StagehandClientError::Unsupported("unsupported CDP domain"))
    }
}

/// A command of the browser's protocol.
#[derive(Debug, PartialEq)]
pub enum CdpCommand {
    ResolveNode(i64),
    GetFullAxTree(Option<JsonValue>),
    CallFunctionOn(JsonValue),
    Evaluate(JsonValue),
    DescribeNode(JsonValue),
}

/// The node that is to be resolved.
pub open spec fn backend_node(params: Json) -> Option<i64> {
    match field_of(params, "backendNodeId"@) {
        Some(value) => signed_in(value),
        None => None,
    }
}

/// Makes the command with the given name and parameters.
pub fn cdp_command(method: &str, params: Option<JsonValue>) -> (out: Result<
    CdpCommand,
    StagehandClientError,
>)
    ensures
        match out {
            Ok(CdpCommand::ResolveNode(id)) => method@ == "DOM.resolveNode"@ && params is Some
                && backend_node(params->0@) == Some(id),
            Ok(CdpCommand::GetFullAxTree(given)) => method@ == "Accessibility.getFullAXTree"@
                && given == params,
            Ok(CdpCommand::CallFunctionOn(given)) => method@ == "Runtime.callFunctionOn"@ && params
                == Some(given),
            Ok(CdpCommand::Evaluate(given)) => method@ == "Runtime.evaluate"@ && params == Some(
                given,
            ),
            Ok(CdpCommand::DescribeNode(given)) => method@ == "DOM.describeNode"@ && params == Some(
                given,
            ),
            Err(error) => {
                &&& error matches StagehandClientError::Unsupported(what)
                &&& if method@ == "DOM.resolveNode"@ {
                    if params is None {
                        what@ == "backendNodeId required for DOM.resolveNode"@
                    } else {
                        backend_node(params->0@) is None && what@ == "backendNodeId required"@
                    }
                } else if method@ == "Runtime.callFunctionOn"@ {
                    params is None && what@ == "Runtime.callFunctionOn requires params"@
                } else if method@ == "Runtime.evaluate"@ {
                    params is None && what@ == "Runtime.evaluate requires params"@
                } else if method@ == "DOM.describeNode"@ {
                    params is None && what@ == "DOM.describeNode requires params"@
                } else {
                    method@ != "Accessibility.getFullAXTree"@ && what@ == "unsupported CDP method"@
                }
            },
        },
{
    if str_eq(method, "DOM.resolveNode") {
        return match params {
            Some(params) => match params.get("backendNodeId") {
                Some(value) => match value.as_i64() {
                    Some(id) => Ok(CdpCommand::ResolveNode(id)),
                    None => Err(StagehandClientError::Unsupported("backendNodeId required")),
                },
                None => Err(StagehandClientError::Unsupported("backendNodeId required")),
            },
            None => Err(
                StagehandClientError::Unsupported("backendNodeId required for DOM.resolveNode"),
            ),
        };
    }
    if str_eq(method, "Accessibility.getFullAXTree") {
        return Ok(CdpCommand::GetFullAxTree(params));
    }
    if str_eq(method, "Runtime.callFunctionOn") {
        return match params {
            Some(params) => Ok(CdpCommand::CallFunctionOn(params)),
            None => Err(
                StagehandClientError::Unsupported("Runtime.callFunctionOn requires params"),
            ),
        };
    }
    if str_eq(method, "Runtime.evaluate") {
        return match params {
            Some(params) => Ok(CdpCommand::Evaluate(params)),
            None => Err(StagehandClientError::Unsupported("Runtime.evaluate requires params")),
        };
    }
    if str_eq(method, "DOM.describeNode") {
        return match params {
            Some(params) => Ok(CdpCommand::DescribeNode(params)),
            None => Err(StagehandClientError::Unsupported("DOM.describeNode requires params")),
        };
    }
    Err(StagehandClientError::Unsupported("unsupported CDP method"))
}

/// Why the tree of a page could not be read.
#[derive(Debug, PartialEq, Eq)]
pub enum AccessibilityError {
    Cdp(String),
    Evaluation(String),
    Unexpected(String),
    Serialization(String),
}

impl AccessibilityError {
    /// The error as text.
    pub open spec fn text(self) -> Seq<char> {
        match self {
            AccessibilityError::Cdp(why) => "CDP operation failed: "@ + why@,
            AccessibilityError::Evaluation(why) => "evaluation failed: "@ + why@,
            AccessibilityError::Unexpected(why) => "unexpected response: "@ + why@,
            AccessibilityError::Serialization(why) => "serialization error: "@ + why@,
        }
    }

    /// Gives the error as text.
    pub fn message(&self) -> (out: String)
        ensures
            out@ == self.text(),
    {
        let (head, why) = match self {
            AccessibilityError::Cdp(why) => ("CDP operation failed: ", why),
            AccessibilityError::Evaluation(why) => ("evaluation failed: ", why),
            AccessibilityError::Unexpected(why) => ("unexpected response: ", why),
            AccessibilityError::Serialization(why) => ("serialization error: ", why),
        };
        let mut out = head.to_owned();
        out.append(why.as_str());
        out
    }
}

/// Gives an error of the client as one of reading the tree of a page.
pub fn map_client_error(error: StagehandClientError) -> (out: AccessibilityError)
    ensures
        match error {
            StagehandClientError::Cdp(why) => out == AccessibilityError::Cdp(why),
            StagehandClientError::Json(why) => out == AccessibilityError::Serialization(why),
            other => out matches AccessibilityError::Unexpected(why) && why@ == other.text(),
        },
{
    match error {
        StagehandClientError::Cdp(why) => AccessibilityError::Cdp(why),
        StagehandClientError::Json(why) => AccessibilityError::Serialization(why),
        other => AccessibilityError::Unexpected(other.message()),
    }
}

/// Gives an error of reading the tree of a page as one of the client.
pub fn map_accessibility_error(error: &AccessibilityError) -> (out: StagehandClientError)
    ensures
        out matches StagehandClientError::Cdp(why) && why@ == error.text(),
{
    StagehandClientError::Cdp(error.message())
}

/// What the log says about an action on the page: that it was done, or why not.
pub fn action_line(method: &Option<String>, error: Option<&str>) -> (out: String)
    ensures
        ({
            let name = match opt_view(*method) {
                Some(method) => method,
                None => "click"@,
            };
            out@ == (match error {
                None => "Executed local action via "@ + name,
                Some(why) => "Failed to execute "@ + name + ": "@ + why@,
            })
        }),
{
    let name = match method {
        Some(method) => method.as_str(),
        None => "click",
    };
    match error {
        None => {
            let mut out = "Executed local action via ".to_owned();
            out.append(name);
            out
        },
        Some(why) => {
            let mut out = "Failed to execute ".to_owned();
            out.append(name);
            out.append(": ");
            out.append(why);
            out
        },
    }
}

/// An answer that wraps its result gives the result, and taking it again from a
/// result that wraps nothing changes nothing.
pub proof fn law_result_is_unwrapped(value: Json)
    ensures
        field_of(value, "result"@) matches Some(inner) ==> result_in(value) == inner,
        field_of(value, "result"@) is None && field_of(value, "data"@) is None && field_of(
            value,
            "elements"@,
        ) is None ==> result_in(value) == value,
{
}

} // verus!
