//! What requests to a model say.
use crate::json::{law_insert_then_get, member_of, with_member, Json, JsonNumber, Members};
use crate::llm::{
    closed_schema, extract_format, first_text, format_json, list_schema, message_json, model_key,
    model_option, observe_schema, observe_task, request_of, with_model_options, with_output_options,
    with_said, with_tool_options, ChatCompletionOptions,
};
use crate::text::is_blank;
use crate::types::a11y::opt_json;
use vstd::prelude::*;
use vstd::string::*;

verus! {

/// What stands under a key after something may have been said under another.
pub broadcast proof fn lemma_said(request: Members, key: Seq<char>, value: Option<Json>, other: Seq<char>)
    ensures
        #[trigger] member_of(with_said(request, key, value), other) == (if other == key && value
            is Some {
            value
        } else {
            member_of(request, other)
        }),
{
    if let Some(said) = value {
        law_insert_then_get(request, key, said, other);
    }
}

/// What stands under a key after something was put under another.
pub broadcast proof fn lemma_put(request: Members, key: Seq<char>, value: Json, other: Seq<char>)
    ensures
        #[trigger] member_of(with_member(request, key, value), other) == (if other == key {
            Some(value)
        } else {
            member_of(request, other)
        }),
{
    law_insert_then_get(request, key, value, other);
}

/// Whether what stands under a key is what was said, or else what stood there before.
pub open spec fn says(now: Members, before: Members, key: Seq<char>, value: Option<Json>) -> bool {
    member_of(now, key) == (if value is Some {
        value
    } else {
        member_of(before, key)
    })
}

/// The options about the model and the tokens are each said under their own key.
pub proof fn law_model_options_are_said(request: Members, options: ChatCompletionOptions)
    ensures
        ({
            let now = with_model_options(request, options);
            &&& (options.store matches Some(store) ==> member_of(now, "store"@) == Some(
                Json::Bool(store),
            ))
            &&& says(now, request, "reasoning_effort"@, opt_json(options.reasoning_effort))
            &&& says(now, request, "metadata"@, opt_json(options.metadata))
            &&& (options.frequency_penalty matches Some(number) ==> member_of(
                now,
                "frequency_penalty"@,
            ) == Some(Json::Number(number)))
            &&& (options.logit_bias matches Some(bias) ==> member_of(now, "logit_bias"@) == Some(
                Json::Members(bias@),
            ))
            &&& (options.logprobs matches Some(flag) ==> member_of(now, "logprobs"@) == Some(
                Json::Bool(flag),
            ))
            &&& (options.top_logprobs matches Some(n) ==> member_of(now, "top_logprobs"@) == Some(
                Json::Number(JsonNumber::Unsigned(n as u64)),
            ))
            &&& (options.max_tokens matches Some(n) ==> member_of(now, "max_tokens"@) == Some(
                Json::Number(JsonNumber::Unsigned(n as u64)),
            ))
            &&& (options.max_completion_tokens matches Some(n) ==> member_of(
                now,
                "max_completion_tokens"@,
            ) == Some(Json::Number(JsonNumber::Unsigned(n as u64))))
            &&& (options.n matches Some(n) ==> member_of(now, "n"@) == Some(
                Json::Number(JsonNumber::Unsigned(n as u64)),
            ))
        }),
        forall|key: Seq<char>| #![trigger member_of(with_model_options(request, options), key)]
            key != "store"@ && key != "reasoning_effort"@ && key != "metadata"@ && key
                != "frequency_penalty"@ && key != "logit_bias"@ && key != "logprobs"@ && key
                != "top_logprobs"@ && key != "max_tokens"@ && key != "max_completion_tokens"@
                && key != "n"@ ==> member_of(with_model_options(request, options), key)
                == member_of(request, key),
{
    broadcast use lemma_said;

    reveal_strlit("store");
    reveal_strlit("reasoning_effort");
    reveal_strlit("metadata");
    reveal_strlit("frequency_penalty");
    reveal_strlit("logit_bias");
    reveal_strlit("logprobs");
    reveal_strlit("top_logprobs");
    reveal_strlit("max_tokens");
    reveal_strlit("max_completion_tokens");
    reveal_strlit("n");
    assert("store"@.len() == 5 && "reasoning_effort"@.len() == 16 && "metadata"@.len() == 8 && "frequency_penalty"@.len() == 17 && "logit_bias"@.len() == 10 && "logprobs"@.len() == 8 && "top_logprobs"@.len() == 12 && "max_tokens"@.len() == 10 && "max_completion_tokens"@.len() == 21 && "n"@.len() == 1);
    assert("metadata"@[0] == 'm' && "logprobs"@[0] == 'l');
    assert("logit_bias"@[0] == 'l' && "max_tokens"@[0] == 'm');
}

/// The options about the answer are each said under their own key.
pub proof fn law_output_options_are_said(request: Members, options: ChatCompletionOptions)
    ensures
        ({
            let now = with_output_options(request, options);
            &&& says(now, request, "modalities"@, opt_json(options.modalities))
            &&& says(now, request, "prediction"@, opt_json(options.prediction))
            &&& says(now, request, "audio"@, opt_json(options.audio))
            &&& (options.presence_penalty matches Some(number) ==> member_of(
                now,
                "presence_penalty"@,
            ) == Some(Json::Number(number)))
            &&& says(now, request, "response_format"@, opt_json(options.response_format))
            &&& (options.seed matches Some(n) ==> member_of(now, "seed"@) == Some(
                Json::Number(
                    if n >= 0 {
                        JsonNumber::Unsigned(n as u64)
                    } else {
                        JsonNumber::Negative(n)
                    },
                ),
            ))
            &&& says(now, request, "service_tier"@, opt_json(options.service_tier))
            &&& says(now, request, "stop"@, opt_json(options.stop))
            &&& (options.stream matches Some(flag) ==> member_of(now, "stream"@) == Some(
                Json::Bool(flag),
            ))
            &&& says(now, request, "stream_options"@, opt_json(options.stream_options))
        }),
        forall|key: Seq<char>| #![trigger member_of(with_output_options(request, options), key)]
            key != "modalities"@ && key != "prediction"@ && key != "audio"@ && key
                != "presence_penalty"@ && key != "response_format"@ && key != "seed"@ && key
                != "service_tier"@ && key != "stop"@ && key != "stream"@ && key
                != "stream_options"@ ==> member_of(with_output_options(request, options), key)
                == member_of(request, key),
{
    broadcast use lemma_said;

    reveal_strlit("modalities");
    reveal_strlit("prediction");
    reveal_strlit("audio");
    reveal_strlit("presence_penalty");
    reveal_strlit("response_format");
    reveal_strlit("seed");
    reveal_strlit("service_tier");
    reveal_strlit("stop");
    reveal_strlit("stream");
    reveal_strlit("stream_options");
    assert("modalities"@.len() == 10 && "prediction"@.len() == 10 && "audio"@.len() == 5 && "presence_penalty"@.len() == 16 && "response_format"@.len() == 15 && "seed"@.len() == 4 && "service_tier"@.len() == 12 && "stop"@.len() == 4 && "stream"@.len() == 6 && "stream_options"@.len() == 14);
    assert("modalities"@[0] == 'm' && "prediction"@[0] == 'p');
    assert("seed"@[1] == 'e' && "stop"@[1] == 't');
}

/// The options about tools and the user are each said under their own key.
pub proof fn law_tool_options_are_said(request: Members, options: ChatCompletionOptions)
    ensures
        ({
            let now = with_tool_options(request, options);
            &&& (options.temperature matches Some(number) ==> member_of(now, "temperature"@)
                == Some(Json::Number(number)))
            &&& (options.top_p matches Some(number) ==> member_of(now, "top_p"@) == Some(
                Json::Number(number),
            ))
            &&& says(now, request, "tools"@, opt_json(options.tools))
            &&& says(now, request, "tool_choice"@, opt_json(options.tool_choice))
            &&& (options.parallel_tool_calls matches Some(flag) ==> member_of(
                now,
                "parallel_tool_calls"@,
            ) == Some(Json::Bool(flag)))
            &&& (options.user matches Some(user) ==> member_of(now, "user"@) == Some(
                Json::Text(user@),
            ))
            &&& says(now, request, "web_search_options"@, opt_json(options.web_search_options))
            &&& says(now, request, "function_call"@, opt_json(options.function_call))
            &&& says(now, request, "functions"@, opt_json(options.functions))
        }),
        forall|key: Seq<char>| #![trigger member_of(with_tool_options(request, options), key)]
            key != "temperature"@ && key != "top_p"@ && key != "tools"@ && key != "tool_choice"@
                && key != "parallel_tool_calls"@ && key != "user"@ && key
                != "web_search_options"@ && key != "function_call"@ && key != "functions"@
                ==> member_of(with_tool_options(request, options), key) == member_of(request, key),
{
    broadcast use lemma_said;

    reveal_strlit("temperature");
    reveal_strlit("top_p");
    reveal_strlit("tools");
    reveal_strlit("tool_choice");
    reveal_strlit("parallel_tool_calls");
    reveal_strlit("user");
    reveal_strlit("web_search_options");
    reveal_strlit("function_call");
    reveal_strlit("functions");
    assert("temperature"@.len() == 11 && "top_p"@.len() == 5 && "tools"@.len() == 5 && "tool_choice"@.len() == 11 && "parallel_tool_calls"@.len() == 19 && "user"@.len() == 4 && "web_search_options"@.len() == 18 && "function_call"@.len() == 13 && "functions"@.len() == 9);
    assert("temperature"@[1] == 'e' && "tool_choice"@[1] == 'o');
    assert("top_p"@[2] == 'p' && "tools"@[2] == 'o');
}

/// Every request names its model and has its messages, in order, whatever the options.
pub proof fn law_request_has_model_and_messages(
    model: Seq<char>,
    messages: Seq<Json>,
    options: ChatCompletionOptions,
)
    ensures
        member_of(request_of(model, messages, options), "model"@) == Some(Json::Text(model)),
        member_of(request_of(model, messages, options), "messages"@) == Some(
            Json::List(messages),
        ),
{
    let start = with_member(
        with_member(Members::empty(), "model"@, Json::Text(model)),
        "messages"@,
        Json::List(messages),
    );
    let first = with_model_options(start, options);
    let second = with_output_options(first, options);
    let third = with_tool_options(second, options);
    law_model_options_are_said(start, options);
    law_output_options_are_said(first, options);
    law_tool_options_are_said(second, options);
    lemma_put(Members::empty(), "model"@, Json::Text(model), "model"@);
    lemma_put(
        with_member(Members::empty(), "model"@, Json::Text(model)),
        "messages"@,
        Json::List(messages),
        "model"@,
    );
    lemma_put(
        with_member(Members::empty(), "model"@, Json::Text(model)),
        "messages"@,
        Json::List(messages),
        "messages"@,
    );
    reveal_strlit("model");
    reveal_strlit("messages");
    lemma_option_names();
    assert(member_of(first, "model"@) == member_of(start, "model"@));
    assert(member_of(second, "model"@) == member_of(first, "model"@));
    assert(member_of(third, "model"@) == member_of(second, "model"@));
    assert(member_of(first, "messages"@) == member_of(start, "messages"@));
    assert(member_of(second, "messages"@) == member_of(first, "messages"@));
    assert(member_of(third, "messages"@) == member_of(second, "messages"@));
}

/// Every option is in the request, whichever others there are.
pub proof fn law_request_has_all_options(
    model: Seq<char>,
    messages: Seq<Json>,
    options: ChatCompletionOptions,
)
    ensures
        ({
            let request = request_of(model, messages, options);
            &&& (options.store matches Some(flag) ==> member_of(request, "store"@) == Some(
                Json::Bool(flag),
            ))
            &&& (options.max_tokens matches Some(n) ==> member_of(request, "max_tokens"@) == Some(
                Json::Number(JsonNumber::Unsigned(n as u64)),
            ))
            &&& (options.response_format matches Some(value) ==> member_of(
                request,
                "response_format"@,
            ) == Some(value@))
            &&& (options.seed matches Some(n) ==> n >= 0 ==> member_of(request, "seed"@) == Some(
                Json::Number(JsonNumber::Unsigned(n as u64)),
            ))
            &&& (options.temperature matches Some(number) ==> member_of(request, "temperature"@)
                == Some(Json::Number(number)))
            &&& (options.user matches Some(user) ==> member_of(request, "user"@) == Some(
                Json::Text(user@),
            ))
        }),
{
    let start = with_member(
        with_member(Members::empty(), "model"@, Json::Text(model)),
        "messages"@,
        Json::List(messages),
    );
    let first = with_model_options(start, options);
    let second = with_output_options(first, options);
    let third = with_tool_options(second, options);
    law_model_options_are_said(start, options);
    law_output_options_are_said(first, options);
    law_tool_options_are_said(second, options);
    lemma_option_names();
    reveal_strlit("store");
    reveal_strlit("max_tokens");
    reveal_strlit("response_format");
    reveal_strlit("seed");
    reveal_strlit("stop");
    reveal_strlit("user");
    reveal_strlit("audio");
    reveal_strlit("top_p");
    reveal_strlit("tools");
    reveal_strlit("modalities");
    reveal_strlit("prediction");
    reveal_strlit("temperature");
    reveal_strlit("tool_choice");
    reveal_strlit("service_tier");
    reveal_strlit("web_search_options");
    reveal_strlit("function_call");
    reveal_strlit("parallel_tool_calls");
    reveal_strlit("functions");
    reveal_strlit("stream_options");
    reveal_strlit("presence_penalty");
    assert("store"@.len() == 5 && "audio"@.len() == 5 && "top_p"@.len() == 5 && "tools"@.len()
        == 5);
    assert("store"@[0] == 's' && "audio"@[0] == 'a' && "top_p"@[0] == 't' && "tools"@[0] == 't');
    assert("max_tokens"@.len() == 10 && "modalities"@.len() == 10 && "prediction"@.len() == 10);
    assert("max_tokens"@[1] == 'a' && "modalities"@[1] == 'o' && "prediction"@[1] == 'r');
    assert("response_format"@.len() == 15 && "temperature"@.len() == 11 && "tool_choice"@.len()
        == 11 && "service_tier"@.len() == 12 && "web_search_options"@.len() == 18
        && "function_call"@.len() == 13 && "parallel_tool_calls"@.len() == 19
        && "functions"@.len() == 9 && "stream_options"@.len() == 14 && "presence_penalty"@.len()
        == 16);
    assert("seed"@[0] == 's' && "user"@[0] == 'u' && "stop"@[0] == 's' && "stop"@.len() == 4);
    assert(member_of(third, "store"@) == member_of(first, "store"@));
    assert(member_of(third, "max_tokens"@) == member_of(first, "max_tokens"@));
    assert(member_of(third, "response_format"@) == member_of(second, "response_format"@));
    assert(member_of(third, "seed"@) == member_of(second, "seed"@));
}

proof fn lemma_option_names()
    ensures
        "store"@ != "model"@ && "store"@ != "messages"@,
        "reasoning_effort"@.len() > 8,
        "metadata"@[2] == 't' && "metadata"@.len() == 8,
        "frequency_penalty"@.len() > 8,
        "logit_bias"@.len() > 8,
        "logprobs"@[0] == 'l' && "logprobs"@.len() == 8,
        "top_logprobs"@.len() > 8,
        "max_tokens"@.len() > 8,
        "max_completion_tokens"@.len() > 8,
        "n"@.len() == 1,
        "modalities"@.len() > 8,
        "prediction"@.len() > 8,
        "audio"@ != "model"@ && "audio"@ != "messages"@,
        "presence_penalty"@.len() > 8,
        "response_format"@.len() > 8,
        "seed"@.len() == 4,
        "service_tier"@.len() > 8,
        "stop"@.len() == 4,
        "stream"@.len() == 6,
        "stream_options"@.len() > 8,
        "temperature"@.len() > 8,
        "top_p"@ != "model"@ && "top_p"@ != "messages"@,
        "tools"@ != "model"@ && "tools"@ != "messages"@,
        "tool_choice"@.len() > 8,
        "parallel_tool_calls"@.len() > 8,
        "user"@.len() == 4,
        "web_search_options"@.len() > 8,
        "function_call"@.len() > 8,
        "functions"@.len() == 9,
{
    reveal_strlit("model");
    reveal_strlit("messages");
    reveal_strlit("store");
    reveal_strlit("reasoning_effort");
    reveal_strlit("metadata");
    reveal_strlit("frequency_penalty");
    reveal_strlit("logit_bias");
    reveal_strlit("logprobs");
    reveal_strlit("top_logprobs");
    reveal_strlit("max_tokens");
    reveal_strlit("max_completion_tokens");
    reveal_strlit("n");
    reveal_strlit("modalities");
    reveal_strlit("prediction");
    reveal_strlit("audio");
    reveal_strlit("presence_penalty");
    reveal_strlit("response_format");
    reveal_strlit("seed");
    reveal_strlit("service_tier");
    reveal_strlit("stop");
    reveal_strlit("stream");
    reveal_strlit("stream_options");
    reveal_strlit("temperature");
    reveal_strlit("top_p");
    reveal_strlit("tools");
    reveal_strlit("tool_choice");
    reveal_strlit("parallel_tool_calls");
    reveal_strlit("user");
    reveal_strlit("web_search_options");
    reveal_strlit("function_call");
    reveal_strlit("functions");
    assert("store"@[0] == 's' && "model"@[0] == 'm' && "messages"@.len() == 8);
    assert("audio"@[0] == 'a' && "top_p"@[0] == 't' && "tools"@[0] == 't');
}

/// A schema lets an object have the properties given and no others, and requires those
/// that are listed.
pub proof fn law_schemas_are_closed(properties: Members, required: Seq<Json>, items: Members)
    ensures
        ({
            let schema = closed_schema(properties, required);
            &&& member_of(schema, "type"@) == Some(Json::Text("object"@))
            &&& member_of(schema, "properties"@) == Some(Json::Members(properties))
            &&& member_of(schema, "required"@) == Some(Json::List(required))
            &&& member_of(schema, "additionalProperties"@) == Some(Json::Bool(false))
        }),
        ({
            let schema = list_schema(items);
            &&& member_of(schema, "type"@) == Some(Json::Text("array"@))
            &&& member_of(schema, "items"@) == Some(Json::Members(items))
        }),
{
    broadcast use lemma_put;

    reveal_strlit("type");
    reveal_strlit("properties");
    reveal_strlit("required");
    reveal_strlit("additionalProperties");
    reveal_strlit("items");
    assert("type"@.len() == 4 && "properties"@.len() == 10 && "required"@.len() == 8 && "additionalProperties"@.len() == 20 && "items"@.len() == 5);
}

/// What is observed is a list of elements under `elements`, each with its number, its
/// description, its method and its arguments, all of them required.
pub proof fn law_observed_elements_have_a_schema()
    ensures
        member_of(observe_schema(), "properties"@) matches Some(Json::Members(properties)) && (
        member_of(properties, "elements"@) matches Some(Json::Members(list)) && member_of(
            list,
            "type"@,
        ) == Some(Json::Text("array"@)) && (member_of(list, "items"@) matches Some(
            Json::Members(element),
        ) && member_of(element, "additionalProperties"@) == Some(Json::Bool(false)) && member_of(
            element,
            "required"@,
        ) == Some(
            Json::List(
                seq![
                    Json::Text("element_id"@),
                    Json::Text("description"@),
                    Json::Text("method"@),
                    Json::Text("arguments"@),
                ],
            ),
        ))),
        member_of(observe_schema(), "required"@) == Some(
            Json::List(seq![Json::Text("elements"@)]),
        ),
        member_of(observe_schema(), "additionalProperties"@) == Some(Json::Bool(false)),
{
    broadcast use lemma_put;

    reveal_strlit("type");
    reveal_strlit("properties");
    reveal_strlit("required");
    reveal_strlit("additionalProperties");
    reveal_strlit("items");
    reveal_strlit("elements");
    assert("type"@.len() == 4 && "properties"@.len() == 10 && "required"@.len() == 8
        && "additionalProperties"@.len() == 20 && "items"@.len() == 5);
}

/// The format of an answer has the schema and its name, and says whether it is strict.
/// An answer without a schema is an object.
pub proof fn law_formats_name_their_schema(name: Seq<char>, schema: Json, strict: bool)
    ensures
        format_json(name, schema, strict) matches Json::Members(format) && member_of(
            format,
            "type"@,
        ) == Some(Json::Text("json_schema"@)) && (member_of(
            format,
            "json_schema"@,
        ) matches Some(Json::Members(inner)) && member_of(inner, "name"@) == Some(Json::Text(name))
            && member_of(inner, "schema"@) == Some(schema) && member_of(inner, "strict"@) == Some(
            Json::Bool(strict),
        )),
        extract_format(Some(schema)) == format_json("extraction_schema"@, schema, false),
        extract_format(None) matches Json::Members(format) && member_of(format, "type"@) == Some(
            Json::Text("json_object"@),
        ),
{
    broadcast use lemma_put;

    reveal_strlit("type");
    reveal_strlit("json_schema");
    reveal_strlit("name");
    reveal_strlit("schema");
    reveal_strlit("strict");
    assert("type"@.len() == 4 && "json_schema"@.len() == 11 && "name"@.len() == 4 && "schema"@.len() == 6 && "strict"@.len() == 6);
    assert("schema"@[1] == 'c' && "strict"@[1] == 't');
}

/// A message has its role and its content.
pub proof fn law_messages_have_role_and_content(role: Seq<char>, content: Seq<char>)
    ensures
        message_json(role, content) matches Json::Members(members) && member_of(members, "role"@)
            == Some(Json::Text(role)) && member_of(members, "content"@) == Some(
            Json::Text(content),
        ) && members.len() == 2,
{
    broadcast use lemma_put;

    reveal_strlit("role");
    reveal_strlit("content");
    reveal_with_fuel(with_member, 3);
}

/// The key of the model is the one configured, or else the first of two variables that
/// is set.
pub proof fn law_first_key_counts(configured: Option<Seq<char>>, env: Map<Seq<char>, Seq<char>>)
    ensures
        configured is Some ==> model_key(configured, env) == configured,
        configured is None && env.dom().contains("MODEL_API_KEY"@) ==> model_key(configured, env)
            == Some(env["MODEL_API_KEY"@]),
        configured is None && !env.dom().contains("MODEL_API_KEY"@) && env.dom().contains(
            "OPENAI_API_KEY"@,
        ) ==> model_key(configured, env) == Some(env["OPENAI_API_KEY"@]),
        configured is None && !env.dom().contains("MODEL_API_KEY"@) && !env.dom().contains(
            "OPENAI_API_KEY"@,
        ) ==> model_key(configured, env) is None,
{
}

/// Of several names of an option, the first under which there is text counts.
pub proof fn law_first_named_option_counts(options: Members, keys: Seq<Seq<char>>, i: int)
    requires
        0 <= i <= keys.len(),
        forall|k: int|
            0 <= k < i ==> !(member_of(options, #[trigger] keys[k]) matches Some(Json::Text(_))),
    ensures
        i < keys.len() ==> (member_of(options, keys[i]) matches Some(Json::Text(text))
            ==> first_text(options, keys) == Some(text)),
        i == keys.len() ==> first_text(options, keys) is None,
        i == keys.len() ==> model_option(Some(options), keys) is None,
        model_option(None, keys) is None,
    decreases i,
{
    if i > 0 {
        let rest = keys.skip(1);
        assert forall|k: int| 0 <= k < i - 1 implies !(member_of(
            options,
            #[trigger] rest[k],
        ) matches Some(Json::Text(_))) by {
            assert(rest[k] == keys[k + 1]);
        }
        assert(!(member_of(options, keys[0]) matches Some(Json::Text(_))));
        law_first_named_option_counts(options, rest, i - 1);
        if i < keys.len() {
            assert(rest[i - 1] == keys[i]);
        }
    }
}

/// An instruction is taken as it is, unless it is blank.
pub proof fn law_instruction_is_taken(instruction: Seq<char>)
    ensures
        !is_blank(instruction) ==> observe_task(instruction) == instruction,
        is_blank(instruction) ==> observe_task(instruction)
            == crate::prompts::DEFAULT_OBSERVE_INSTRUCTION@,
{
}

} // verus!
