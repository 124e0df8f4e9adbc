//! What is sent for the operations on a page, and what is taken from the reply.
use crate::json::{field_of, law_insert_then_get, member_of, unsigned_in, Json, JsonNumber, Members};
use crate::laws::llm::lemma_said;
use crate::llm::{count_json, flag_json, text_json};
use crate::metrics::StagehandFunctionName;
use crate::page::{
    act_members, backend_node, domain_named, extract_members, metadata_in, no_local,
    observe_members, observed_items, result_in, table_members, usage_in, variables_json, CdpDomain,
    Operation,
};
use crate::text::opt_view;
use crate::types::a11y::opt_json;
use crate::types::page::{ActOptions, ExtractOptions, ObserveOptions};
use vstd::prelude::*;
use vstd::string::*;

verus! {

/// Every variable is sent under its name, and no others are.
pub proof fn law_variables_are_sent(
    names: Seq<Seq<char>>,
    values: Map<Seq<char>, Seq<char>>,
    name: Seq<char>,
)
    ensures
        names.contains(name) ==> member_of(table_members(names, values), name) == Some(
            Json::Text(values[name]),
        ),
        !names.contains(name) ==> member_of(table_members(names, values), name) is None,
    decreases names.len(),
{
    if names.len() > 0 {
        let less = names.drop_last();
        law_variables_are_sent(less, values, name);
        law_insert_then_get(
            table_members(less, values),
            names.last(),
            Json::Text(values[names.last()]),
            name,
        );
        if names.contains(name) {
            let i = choose|i: int| 0 <= i < names.len() && names[i] == name;
            if i < less.len() {
                assert(less[i] == name);
            }
        }
        if less.contains(name) {
            let i = choose|i: int| 0 <= i < less.len() && less[i] == name;
            assert(names[i] == name);
        }
        assert(names[names.len() - 1] == names.last());
    }
}

/// Whether what was given stands under a key, and nothing where nothing was given.
pub open spec fn sends(members: Members, key: Seq<char>, value: Option<Json>) -> bool {
    member_of(members, key) == value
}

/// A request to act has what was given, each under its own key.
pub proof fn law_act_request(options: ActOptions, frame: Option<Seq<char>>)
    ensures
        ({
            let sent = act_members(options, frame);
            &&& member_of(sent, "action"@) == Some(Json::Text(options.action@))
            &&& sends(sent, "variables"@, variables_json(options.variables))
            &&& sends(sent, "modelName"@, text_json(opt_view(options.model_name)))
            &&& sends(sent, "domSettleTimeoutMs"@, count_json(options.dom_settle_timeout_ms))
            &&& sends(sent, "timeoutMs"@, count_json(options.timeout_ms))
            &&& sends(sent, "modelClientOptions"@, opt_json(options.model_client_options))
            &&& sends(sent, "frameId"@, text_json(frame))
        }),
        forall|key: Seq<char>| #![trigger member_of(act_members(options, frame), key)]
            key != "action"@ && key != "variables"@ && key != "modelName"@ && key
                != "domSettleTimeoutMs"@ && key != "timeoutMs"@ && key != "modelClientOptions"@
                && key != "frameId"@ ==> member_of(act_members(options, frame), key) is None,
{
    broadcast use {lemma_said, crate::laws::llm::lemma_put};

    lemma_request_names();
}

/// A request to observe has what was given, each under its own key.
pub proof fn law_observe_request(options: ObserveOptions, frame: Option<Seq<char>>)
    ensures
        ({
            let sent = observe_members(options, frame);
            &&& member_of(sent, "instruction"@) == Some(Json::Text(options.instruction@))
            &&& sends(sent, "modelName"@, text_json(opt_view(options.model_name)))
            &&& sends(sent, "drawOverlay"@, flag_json(options.draw_overlay))
            &&& sends(sent, "domSettleTimeoutMs"@, count_json(options.dom_settle_timeout_ms))
            &&& sends(sent, "modelClientOptions"@, opt_json(options.model_client_options))
            &&& sends(sent, "frameId"@, text_json(frame))
        }),
        forall|key: Seq<char>| #![trigger member_of(observe_members(options, frame), key)]
            key != "instruction"@ && key != "modelName"@ && key != "drawOverlay"@ && key
                != "domSettleTimeoutMs"@ && key != "modelClientOptions"@ && key != "frameId"@
                ==> member_of(observe_members(options, frame), key) is None,
{
    broadcast use {lemma_said, crate::laws::llm::lemma_put};

    lemma_request_names();
}

/// A request to extract has what was given, each under its own key.
pub proof fn law_extract_request(options: ExtractOptions, frame: Option<Seq<char>>)
    ensures
        ({
            let sent = extract_members(options, frame);
            &&& member_of(sent, "instruction"@) == Some(Json::Text(options.instruction@))
            &&& sends(sent, "modelName"@, text_json(opt_view(options.model_name)))
            &&& sends(sent, "selector"@, text_json(opt_view(options.selector)))
            &&& sends(sent, "schemaDefinition"@, opt_json(options.schema_definition))
            &&& sends(sent, "useTextExtract"@, flag_json(options.use_text_extract))
            &&& sends(sent, "domSettleTimeoutMs"@, count_json(options.dom_settle_timeout_ms))
            &&& sends(sent, "modelClientOptions"@, opt_json(options.model_client_options))
            &&& sends(sent, "frameId"@, text_json(frame))
        }),
        forall|key: Seq<char>| #![trigger member_of(extract_members(options, frame), key)]
            key != "instruction"@ && key != "modelName"@ && key != "selector"@ && key
                != "schemaDefinition"@ && key != "useTextExtract"@ && key != "domSettleTimeoutMs"@
                && key != "modelClientOptions"@ && key != "frameId"@ ==> member_of(
                extract_members(options, frame),
                key,
            ) is None,
{
    broadcast use {lemma_said, crate::laws::llm::lemma_put};

    lemma_request_names();
}

proof fn lemma_request_names()
    ensures
        "action"@.len() == 6,
        "frameId"@.len() == 7,
        "selector"@.len() == 8,
        "variables"@.len() == 9 && "variables"@[0] == 'v',
        "modelName"@.len() == 9 && "modelName"@[0] == 'm',
        "timeoutMs"@.len() == 9 && "timeoutMs"@[0] == 't',
        "instruction"@.len() == 11 && "instruction"@[0] == 'i',
        "drawOverlay"@.len() == 11 && "drawOverlay"@[0] == 'd',
        "useTextExtract"@.len() == 14,
        "schemaDefinition"@.len() == 16,
        "domSettleTimeoutMs"@.len() == 18 && "domSettleTimeoutMs"@[0] == 'd',
        "modelClientOptions"@.len() == 18 && "modelClientOptions"@[0] == 'm',
{
    reveal_strlit("action");
    reveal_strlit("frameId");
    reveal_strlit("selector");
    reveal_strlit("variables");
    reveal_strlit("modelName");
    reveal_strlit("timeoutMs");
    reveal_strlit("instruction");
    reveal_strlit("drawOverlay");
    reveal_strlit("useTextExtract");
    reveal_strlit("schemaDefinition");
    reveal_strlit("domSettleTimeoutMs");
    reveal_strlit("modelClientOptions");
}

/// A flag, a number or a text is sent as such, and nothing where none was given.
pub proof fn law_values_are_sent(flag: bool, count: u64, text: Seq<char>)
    ensures
        flag_json(Some(flag)) == Some(Json::Bool(flag)),
        count_json(Some(count)) == Some(Json::Number(JsonNumber::Unsigned(count))),
        text_json(Some(text)) == Some(Json::Text(text)),
        flag_json(None) is None,
        count_json(None) is None,
        text_json(None) is None,
{
}

/// The result is what stands under the first of its names that is there, or else the
/// reply itself.
pub proof fn law_first_result_counts(reply: Json)
    ensures
        field_of(reply, "result"@) matches Some(found) ==> result_in(reply) == found,
        field_of(reply, "result"@) is None ==> (field_of(reply, "data"@) matches Some(found)
            ==> result_in(reply) == found),
        field_of(reply, "result"@) is None && field_of(reply, "data"@) is None ==> (field_of(
            reply,
            "elements"@,
        ) matches Some(found) ==> result_in(reply) == found),
        field_of(reply, "result"@) is None && field_of(reply, "data"@) is None && field_of(
            reply,
            "elements"@,
        ) is None ==> result_in(reply) == reply,
{
}

/// Usage is told where all three counts stand under `metadata`, in the reply or in its
/// result, and not otherwise.
pub proof fn law_usage_needs_all_counts(
    reply: Json,
    meta: Json,
    function: StagehandFunctionName,
    prompt: u64,
    completion: u64,
    time: u64,
)
    ensures
        field_of(reply, "metadata"@) == Some(meta) ==> metadata_in(reply) == Some(meta),
        field_of(reply, "metadata"@) is None ==> (field_of(reply, "result"@) matches Some(inner)
            ==> metadata_in(reply) == field_of(inner, "metadata"@)),
        field_of(reply, "metadata"@) is None && field_of(reply, "result"@) is None
            ==> usage_in(reply, function) is None,
        metadata_in(reply) == Some(meta) && field_of(meta, "promptTokens"@) == Some(
            Json::Number(JsonNumber::Unsigned(prompt)),
        ) && field_of(meta, "completionTokens"@) == Some(
            Json::Number(JsonNumber::Unsigned(completion)),
        ) && field_of(meta, "inferenceTimeMs"@) == Some(
            Json::Number(JsonNumber::Unsigned(time)),
        ) ==> (usage_in(reply, function) matches Some(usage) && usage.function == Some(function)
            && usage.prompt_tokens == prompt && usage.completion_tokens == completion
            && usage.inference_time_ms == time),
        metadata_in(reply) == Some(meta) && (!(field_of(
            meta,
            "promptTokens"@,
        ) matches Some(value) && unsigned_in(value) is Some) || !(field_of(
            meta,
            "completionTokens"@,
        ) matches Some(value) && unsigned_in(value) is Some) || !(field_of(
            meta,
            "inferenceTimeMs"@,
        ) matches Some(value) && unsigned_in(value) is Some)) ==> usage_in(reply, function) is None,
{
}

/// All items of a list were observed, in order; an object is one item.
pub proof fn law_all_items_were_observed(items: Seq<Json>, members: Members)
    ensures
        observed_items(Json::List(items)) == items,
        observed_items(Json::Members(members)) == seq![Json::Members(members)],
        observed_items(Json::Null).len() == 0,
{
}

/// The domains of the protocol are known by their names, and no others.
pub proof fn law_domains_are_named(name: Seq<char>)
    ensures
        name == "Network"@ ==> domain_named(name) == Some(CdpDomain::Network),
        name == "Page"@ ==> domain_named(name) == Some(CdpDomain::Page),
        name == "DOM"@ ==> domain_named(name) == Some(CdpDomain::Dom),
        name == "Accessibility"@ ==> domain_named(name) == Some(CdpDomain::Accessibility),
        name != "Network"@ && name != "Page"@ && name != "DOM"@ && name != "Accessibility"@
            ==> domain_named(name) is None,
{
    reveal_strlit("Network");
    reveal_strlit("Page");
    reveal_strlit("DOM");
    reveal_strlit("Accessibility");
    assert("Network"@.len() == 7 && "Page"@.len() == 4 && "DOM"@.len() == 3
        && "Accessibility"@.len() == 13);
}

/// The element that a request is about is the whole number under `backendNodeId`.
pub proof fn law_backend_node_is_read(params: Json, n: u64, below: i64)
    ensures
        field_of(params, "backendNodeId"@) is None ==> backend_node(params) is None,
        field_of(params, "backendNodeId"@) == Some(Json::Number(JsonNumber::Unsigned(n))) && n
            <= i64::MAX ==> backend_node(params) == Some(n as i64),
        field_of(params, "backendNodeId"@) == Some(Json::Number(JsonNumber::Unsigned(n))) && n
            > i64::MAX ==> backend_node(params) is None,
        field_of(params, "backendNodeId"@) == Some(Json::Number(JsonNumber::Negative(below)))
            ==> backend_node(params) == Some(below),
{
}

/// An operation that cannot run in the browser here is refused by its name.
pub proof fn law_operations_are_refused_by_name()
    ensures
        no_local(Operation::Act) == "local act handler unsupported for this runtime"@,
        no_local(Operation::Navigate) == "local navigation unsupported for this runtime"@,
        no_local(Operation::Observe) == "local observe handler unsupported for this runtime"@,
        no_local(Operation::Extract) == "local extract handler unsupported for this runtime"@,
{
}

} // verus!
