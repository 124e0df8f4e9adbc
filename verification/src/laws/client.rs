//! What goes to the service and what comes back from it.
use crate::client::{
    api_base, base_headers_of, default_session_members, execute_headers_of, first_base_url,
    first_full, fits_header, header_fits, line_data, message_effect, metrics_in, option_text,
    payload_options, prepared_params, replay_refusal, replay_usage, result_of, session_headers_of,
    session_id_in, session_payload_of, succeeded, with_base_url, Effect,
};
use crate::config::Settings;
use crate::json::{
    field_of, keys_ascend, law_insert_keeps_order, law_insert_then_get, law_remove_then_get,
    member_of, with_member, without_member, Json, JsonNumber, Members,
};
use crate::keys::{recased, recased_members, KeyCase};
use crate::laws::llm::lemma_put;
use crate::metrics::{function_named, no_counts, replay_counts};
use crate::text::{begins_with, trim_of};
use vstd::prelude::*;
use vstd::string::*;

verus! {

/// A header may have no control characters but tabs in its value, and nothing else is
/// kept out.
pub proof fn law_control_characters_fit_no_header(value: Seq<char>, i: int)
    requires
        0 <= i < value.len(),
    ensures
        value[i] != '\t' && (value[i] < ' ' || value[i] == '\u{7f}') ==> !header_fits(value),
        (forall|k: int|
            0 <= k < value.len() ==> #[trigger] value[k] == '\t' || (' ' <= value[k] && value[k]
                != '\u{7f}')) ==> header_fits(value),
{
    if header_fits(value) {
        assert(fits_header(value[i]));
    }
}

/// Every request says who asks, for which project and when. A value that does not fit
/// into a header is refused.
pub proof fn law_headers_say_who_asks(
    api_key: Seq<char>,
    project_id: Seq<char>,
    sent_at: Seq<char>,
)
    ensures
        base_headers_of(api_key, project_id, sent_at) is Ok <==> header_fits(api_key)
            && header_fits(project_id) && header_fits(sent_at),
        base_headers_of(api_key, project_id, sent_at) matches Ok(headers) ==> {
            &&& headers.contains(("content-type"@, "application/json"@))
            &&& headers.contains(("x-bb-api-key"@, api_key))
            &&& headers.contains(("x-bb-project-id"@, project_id))
            &&& headers.contains(("x-sent-at"@, sent_at))
            &&& headers.len() == 4
        },
        base_headers_of(api_key, project_id, sent_at) matches Err(why) ==> why
            == "failed to parse header value"@,
{
    if let Ok(headers) = base_headers_of(api_key, project_id, sent_at) {
        assert(headers[0] == ("content-type"@, "application/json"@));
        assert(headers[1] == ("x-bb-api-key"@, api_key));
        assert(headers[2] == ("x-bb-project-id"@, project_id));
        assert(headers[3] == ("x-sent-at"@, sent_at));
    }
}

/// A request for an operation also has the key of the model, where there is one, and
/// asks for a stream. Without the key or the project of the service there is none.
pub proof fn law_operation_headers(settings: Settings, sent_at: Seq<char>)
    ensures
        settings.api_key is None ==> execute_headers_of(settings, sent_at) == Err::<
            Seq<(Seq<char>, Seq<char>)>,
            Seq<char>,
        >("browserbase API key is required"@),
        settings.api_key is Some && settings.project_id is None ==> execute_headers_of(
            settings,
            sent_at,
        ) == Err::<Seq<(Seq<char>, Seq<char>)>, Seq<char>>("browserbase project id is required"@),
        execute_headers_of(settings, sent_at) matches Ok(headers) ==> {
            &&& settings.api_key matches Some(key) && headers.contains(("x-bb-api-key"@, key))
            &&& settings.project_id matches Some(id) && headers.contains(("x-bb-project-id"@, id))
            &&& (settings.model_api_key matches Some(key) ==> headers.contains(
                ("x-model-api-key"@, key),
            ))
            &&& headers.contains(("x-stream-response"@, "true"@))
            &&& headers.contains(("connection"@, "keep-alive"@))
            &&& headers.contains(("x-sent-at"@, sent_at))
        },
{
    if let Ok(headers) = execute_headers_of(settings, sent_at) {
        let n = headers.len();
        assert(headers[1] == ("x-bb-api-key"@, settings.api_key->0));
        assert(headers[2] == ("x-bb-project-id"@, settings.project_id->0));
        assert(headers[3] == ("x-sent-at"@, sent_at));
        assert(headers[n - 2] == ("x-stream-response"@, "true"@));
        assert(headers[n - 1] == ("connection"@, "keep-alive"@));
        if let Some(key) = settings.model_api_key {
            assert(headers[4] == ("x-model-api-key"@, key));
        }
    }
}

/// A request for a session has all three keys and says what asks for it. The first that
/// is missing is named.
pub proof fn law_session_headers(settings: Settings, sent_at: Seq<char>, version: Seq<char>)
    ensures
        settings.api_key is None ==> session_headers_of(settings, sent_at, version) == Err::<
            Seq<(Seq<char>, Seq<char>)>,
            Seq<char>,
        >("browserbase API key is required"@),
        settings.api_key is Some && settings.project_id is None ==> session_headers_of(
            settings,
            sent_at,
            version,
        ) == Err::<Seq<(Seq<char>, Seq<char>)>, Seq<char>>("browserbase project id is required"@),
        settings.api_key is Some && settings.project_id is Some && settings.model_api_key is None
            ==> session_headers_of(settings, sent_at, version) == Err::<
            Seq<(Seq<char>, Seq<char>)>,
            Seq<char>,
        >("model API key is required"@),
        session_headers_of(settings, sent_at, version) matches Ok(headers) ==> {
            &&& settings.api_key matches Some(key) && headers.contains(("x-bb-api-key"@, key))
            &&& settings.project_id matches Some(id) && headers.contains(("x-bb-project-id"@, id))
            &&& settings.model_api_key matches Some(key) && headers.contains(
                ("x-model-api-key"@, key),
            )
            &&& headers.contains(("x-language"@, "rust"@))
            &&& headers.contains(("x-sdk-version"@, version))
        },
{
    if let Ok(headers) = session_headers_of(settings, sent_at, version) {
        assert(headers[1] == ("x-bb-api-key"@, settings.api_key->0));
        assert(headers[2] == ("x-bb-project-id"@, settings.project_id->0));
        assert(headers[4] == ("x-model-api-key"@, settings.model_api_key->0));
        assert(headers[5] == ("x-language"@, "rust"@));
        assert(headers[6] == ("x-sdk-version"@, version));
    }
}

proof fn lemma_recased_ascends(case: KeyCase, members: Members)
    ensures
        keys_ascend(recased_members(case, members)),
    decreases members.len(),
{
    if members.len() > 0 {
        lemma_recased_ascends(case, members.drop_last());
        law_insert_keeps_order(
            recased_members(case, members.drop_last()),
            crate::keys::key_in(case, members.last().0),
            recased(case, members.last().1),
        );
    }
}

/// The parameters of a session go out with their keys changed; the timeout of the
/// service is named as the service names it, and all others keep their names.
pub proof fn law_timeout_is_renamed(params: Members, key: Seq<char>)
    ensures
        ({
            let changed = recased_members(KeyCase::Camel, params);
            &&& prepared_params(Json::Members(params)) is Members
            &&& (member_of(changed, "apiTimeout"@) matches Some(timeout) ==> field_of(
                prepared_params(Json::Members(params)),
                "timeout"@,
            ) == Some(timeout))
            &&& field_of(prepared_params(Json::Members(params)), "apiTimeout"@) is None
            &&& key != "apiTimeout"@ && key != "timeout"@ ==> field_of(
                prepared_params(Json::Members(params)),
                key,
            ) == member_of(changed, key)
            &&& member_of(changed, "apiTimeout"@) is None ==> field_of(
                prepared_params(Json::Members(params)),
                key,
            ) == member_of(changed, key)
        }),
{
    reveal_strlit("apiTimeout");
    reveal_strlit("timeout");
    assert("apiTimeout"@.len() == 10 && "timeout"@.len() == 7);
    let changed = recased_members(KeyCase::Camel, params);
    lemma_recased_ascends(KeyCase::Camel, params);
    if let Some(timeout) = member_of(changed, "apiTimeout"@) {
        let less = without_member(changed, "apiTimeout"@);
        law_remove_then_get(changed, "apiTimeout"@, key);
        law_remove_then_get(changed, "apiTimeout"@, "apiTimeout"@);
        law_insert_then_get(less, "timeout"@, timeout, key);
        law_insert_then_get(less, "timeout"@, timeout, "timeout"@);
        law_insert_then_get(less, "timeout"@, timeout, "apiTimeout"@);
    }
}

/// What is asked of a new session is what the settings say, each under its own key.
pub proof fn law_session_request(settings: Settings)
    ensures
        ({
            let sent = session_payload_of(settings);
            &&& member_of(sent, "modelName"@) == Some(Json::Text(settings.model_name.name()))
            &&& member_of(sent, "verbose"@) == Some(
                Json::Number(JsonNumber::Unsigned(settings.verbose.number() as u64)),
            )
            &&& (settings.dom_settle_timeout_ms matches Some(n) ==> member_of(
                sent,
                "domSettleTimeoutMs"@,
            ) == Some(Json::Number(JsonNumber::Unsigned(n))))
            &&& settings.dom_settle_timeout_ms is None ==> member_of(sent, "domSettleTimeoutMs"@)
                == Some(Json::Null)
            &&& (settings.browserbase_session_id matches Some(id) ==> member_of(
                sent,
                "browserbaseSessionId"@,
            ) == Some(Json::Text(id)))
            &&& settings.browserbase_session_id is None ==> member_of(sent, "browserbaseSessionId"@)
                == Some(Json::Null)
            &&& member_of(sent, "selfHeal"@) == Some(Json::Bool(settings.self_heal))
            &&& member_of(sent, "waitForCaptchaSolves"@) == Some(
                Json::Bool(settings.wait_for_captcha_solves),
            )
            &&& (settings.act_timeout_ms matches Some(n) ==> member_of(sent, "actTimeoutMs"@)
                == Some(Json::Number(JsonNumber::Unsigned(n))))
            &&& settings.act_timeout_ms is None ==> member_of(sent, "actTimeoutMs"@) == Some(
                Json::Null,
            )
            &&& member_of(sent, "experimental"@) == Some(Json::Bool(settings.experimental))
            &&& (settings.system_prompt matches Some(prompt) ==> member_of(sent, "systemPrompt"@)
                == Some(Json::Text(prompt)))
            &&& settings.system_prompt is None ==> member_of(sent, "systemPrompt"@) is None
            &&& (settings.model_client_options matches Some(options) ==> member_of(
                sent,
                "modelClientOptions"@,
            ) == Some(Json::Members(options)))
            &&& settings.model_client_options is None ==> member_of(sent, "modelClientOptions"@)
                is None
            &&& settings.browserbase_session_create_params is None ==> member_of(
                sent,
                "browserbaseSessionCreateParams"@,
            ) == Some(prepared_params(Json::Members(default_session_members())))
            &&& (crate::config::with_project(
                settings,
            ).browserbase_session_create_params matches Some(params) ==> member_of(
                sent,
                "browserbaseSessionCreateParams"@,
            ) == Some(prepared_params(Json::Members(params))))
        }),
{
    broadcast use lemma_put;

    reveal_strlit("modelName");
    reveal_strlit("verbose");
    reveal_strlit("domSettleTimeoutMs");
    reveal_strlit("browserbaseSessionId");
    reveal_strlit("browserbaseSessionCreateParams");
    reveal_strlit("selfHeal");
    reveal_strlit("waitForCaptchaSolves");
    reveal_strlit("actTimeoutMs");
    reveal_strlit("experimental");
    reveal_strlit("systemPrompt");
    reveal_strlit("modelClientOptions");
    assert("modelName"@.len() == 9 && "verbose"@.len() == 7 && "domSettleTimeoutMs"@.len() == 18
        && "browserbaseSessionId"@.len() == 20 && "browserbaseSessionCreateParams"@.len() == 30
        && "selfHeal"@.len() == 8 && "waitForCaptchaSolves"@.len() == 20
        && "actTimeoutMs"@.len() == 12 && "experimental"@.len() == 12 && "systemPrompt"@.len()
        == 12 && "modelClientOptions"@.len() == 18);
    assert("domSettleTimeoutMs"@[0] == 'd' && "modelClientOptions"@[0] == 'm');
    assert("browserbaseSessionId"@[0] == 'b' && "waitForCaptchaSolves"@[0] == 'w');
    assert("actTimeoutMs"@[0] == 'a' && "experimental"@[0] == 'e' && "systemPrompt"@[0] == 's');
}

/// The session made is named under `data` and `sessionId`.
pub proof fn law_made_session_is_read(body: Json, data: Json)
    ensures
        field_of(body, "data"@) == Some(data) ==> (field_of(data, "sessionId"@) matches Some(
            Json::Text(id),
        ) ==> session_id_in(body) == Some(id)),
        field_of(body, "data"@) == Some(data) && !(field_of(data, "sessionId"@) matches Some(
            Json::Text(_),
        )) ==> session_id_in(body) is None,
        field_of(body, "data"@) is None ==> session_id_in(body) is None,
{
}

/// The first address of the model that is not empty counts: the request's before the
/// configured one, and `baseURL` before `api_base`.
pub proof fn law_first_model_address_counts(payload: Option<Members>, config: Option<Members>)
    ensures
        ({
            let a = option_text(payload, "baseURL"@);
            let b = option_text(payload, "api_base"@);
            let c = option_text(config, "baseURL"@);
            let d = option_text(config, "api_base"@);
            let found = first_base_url(payload, config);
            &&& (a matches Some(url) && url.len() > 0) ==> found == a
            &&& !(a matches Some(url) && url.len() > 0) && (b matches Some(url) && url.len() > 0)
                ==> found == b
            &&& !(a matches Some(url) && url.len() > 0) && !(b matches Some(url) && url.len() > 0)
                && (c matches Some(url) && url.len() > 0) ==> found == c
            &&& !(a matches Some(url) && url.len() > 0) && !(b matches Some(url) && url.len() > 0)
                && !(c matches Some(url) && url.len() > 0) && (d matches Some(url) && url.len()
                > 0) ==> found == d
            &&& !(a matches Some(url) && url.len() > 0) && !(b matches Some(url) && url.len() > 0)
                && !(c matches Some(url) && url.len() > 0) && !(d matches Some(url) && url.len()
                > 0) ==> found is None
        }),
{
    let places = seq![
        option_text(payload, "baseURL"@),
        option_text(payload, "api_base"@),
        option_text(config, "baseURL"@),
        option_text(config, "api_base"@),
    ];
    reveal_with_fuel(first_full, 5);
    assert(places.skip(1)[0] == places[1]);
    assert(places.skip(1).skip(1)[0] == places[2]);
    assert(places.skip(1).skip(1).skip(1)[0] == places[3]);
    assert(places.skip(1).skip(1).skip(1).skip(1).len() == 0);
}

/// The address of the model is put into the options of a request under `baseURL`, and
/// under no other name; the other options and the rest of the request stay.
pub proof fn law_model_address_is_put_in(
    payload: Members,
    options: Members,
    url: Seq<char>,
    key: Seq<char>,
)
    requires
        keys_ascend(options),
        member_of(payload, "modelClientOptions"@) == Some(Json::Members(options)) || (member_of(
            payload,
            "modelClientOptions"@,
        ) is None && options.len() == 0),
    ensures
        with_base_url(Json::Members(payload), None) == Json::Members(payload),
        with_base_url(Json::Members(payload), Some(url)) matches Json::Members(sent) && {
            &&& key != "modelClientOptions"@ ==> member_of(sent, key) == member_of(payload, key)
            &&& member_of(sent, "modelClientOptions"@) matches Some(Json::Members(now)) && {
                &&& member_of(now, "baseURL"@) == Some(Json::Text(url))
                &&& member_of(now, "api_base"@) is None
                &&& key != "baseURL"@ && key != "api_base"@ ==> member_of(now, key) == member_of(
                    options,
                    key,
                )
            }
        },
{
    reveal_strlit("baseURL");
    reveal_strlit("api_base");
    assert("baseURL"@.len() == 7 && "api_base"@.len() == 8);
    assert(options.len() == 0 ==> options =~= Members::empty());
    let put = with_member(options, "baseURL"@, Json::Text(url));
    law_insert_keeps_order(options, "baseURL"@, Json::Text(url));
    law_insert_then_get(options, "baseURL"@, Json::Text(url), key);
    law_insert_then_get(options, "baseURL"@, Json::Text(url), "baseURL"@);
    law_remove_then_get(put, "api_base"@, key);
    law_remove_then_get(put, "api_base"@, "baseURL"@);
    law_remove_then_get(put, "api_base"@, "api_base"@);
    let now = Json::Members(without_member(put, "api_base"@));
    law_insert_then_get(payload, "modelClientOptions"@, now, key);
    law_insert_then_get(payload, "modelClientOptions"@, now, "modelClientOptions"@);
}

/// The count under a key.
pub open spec fn told_count(data: Json, key: Seq<char>) -> u64 {
    match field_of(data, key) {
        Some(Json::Number(JsonNumber::Unsigned(n))) => n,
        _ => 0,
    }
}

/// Usage that is told names its function, under either of two keys, and its counts;
/// usage without a known function and without counts is none.
pub proof fn law_told_usage_is_read(data: Json, name: Seq<char>)
    requires
        field_of(data, "function"@) == Some(Json::Text(name)) || (field_of(data, "function"@)
            is None && field_of(data, "functionName"@) == Some(Json::Text(name))),
    ensures
        metrics_in(data) is Some <==> function_named(name) is Some || told_count(
            data,
            "promptTokens"@,
        ) > 0 || told_count(data, "completionTokens"@) > 0 || told_count(data, "inferenceTimeMs"@)
            > 0,
        metrics_in(data) matches Some(update) ==> update.function == function_named(name)
            && update.prompt_tokens == told_count(data, "promptTokens"@)
            && update.completion_tokens == told_count(data, "completionTokens"@)
            && update.inference_time_ms == told_count(data, "inferenceTimeMs"@),
{
}

/// A message of the system ends the operation with its result, or fails it with its
/// error; a log message and usage are handed on; any other kind is not handled.
pub proof fn law_messages_have_their_effect(message: Json, data: Json, kind: Seq<char>)
    requires
        field_of(message, "type"@) == Some(Json::Text(kind)),
        field_of(message, "data"@) == Some(data),
    ensures
        kind == "log"@ ==> message_effect(message) == Effect::Log(data),
        kind == "metrics"@ ==> (metrics_in(data) matches Some(update) ==> message_effect(message)
            == Effect::Metrics(update)),
        kind == "metrics"@ && metrics_in(data) is None ==> message_effect(message)
            == Effect::Nothing,
        kind == "system"@ && field_of(data, "status"@) == Some(Json::Text("finished"@)) ==> (
        field_of(data, "result"@) matches Some(result) ==> message_effect(message)
            == Effect::Finished(result)),
        kind == "system"@ && field_of(data, "status"@) == Some(Json::Text("error"@)) ==> {
            &&& field_of(data, "error"@) matches Some(Json::Text(reason)) ==> message_effect(message)
                == (Effect::Failed { reason, data })
            &&& field_of(data, "error"@) is None ==> message_effect(message) == (Effect::Failed {
                reason: "Unknown error"@,
                data,
            })
        },
        kind == "system"@ && !(field_of(data, "status"@) matches Some(Json::Text(status)) && (status
            == "finished"@ || status == "error"@)) ==> message_effect(message) == Effect::Nothing,
        kind != "system"@ && kind != "log"@ && kind != "metrics"@ ==> message_effect(message) == (
        Effect::Unhandled { kind, message }),
{
    reveal_strlit("system");
    reveal_strlit("log");
    reveal_strlit("metrics");
    reveal_strlit("finished");
    reveal_strlit("error");
    assert("system"@.len() == 6 && "log"@.len() == 3 && "metrics"@.len() == 7);
    assert("finished"@.len() == 8 && "error"@.len() == 5);
}

/// A message without a kind has no effect.
pub proof fn law_messages_without_kind_do_nothing(message: Json)
    requires
        !(field_of(message, "type"@) matches Some(Json::Text(_))),
    ensures
        message_effect(message) == Effect::Nothing,
{
}

/// The result of a stream is that of the last message that finishes, wherever other
/// messages stand.
pub proof fn law_last_finish_counts(
    front: Seq<Json>,
    last: Json,
    back: Seq<Json>,
    result: Json,
)
    requires
        message_effect(last) == Effect::Finished(result),
        forall|i: int| 0 <= i < back.len() ==> !(message_effect(#[trigger] back[i]) is Finished),
    ensures
        result_of(front + seq![last] + back) == Some(result),
    decreases back.len(),
{
    let all = front + seq![last] + back;
    if back.len() == 0 {
        assert(all.last() == last);
    } else {
        let less = back.drop_last();
        assert forall|i: int| 0 <= i < less.len() implies !(message_effect(#[trigger] less[i])
            is Finished) by {
            assert(less[i] == back[i]);
        }
        law_last_finish_counts(front, last, less, result);
        assert(all.drop_last() =~= front + seq![last] + less);
        assert(all.last() == back[back.len() - 1]);
    }
}

/// Without a message that finishes there is no result.
pub proof fn law_no_finish_no_result(messages: Seq<Json>)
    requires
        forall|i: int|
            0 <= i < messages.len() ==> !(message_effect(#[trigger] messages[i]) is Finished),
    ensures
        result_of(messages) is None,
    decreases messages.len(),
{
    if messages.len() > 0 {
        let less = messages.drop_last();
        assert forall|i: int| 0 <= i < less.len() implies !(message_effect(#[trigger] less[i])
            is Finished) by {
            assert(less[i] == messages[i]);
        }
        law_no_finish_no_result(less);
        assert(!(message_effect(messages[messages.len() - 1]) is Finished));
    }
}

/// A line of a stream says what stands behind `data: `, or all of it where that does
/// not stand in front. Comments and blank lines say nothing.
pub proof fn law_lines_say_their_data(line: Seq<char>, data: Seq<char>)
    ensures
        trim_of(line) == "data: "@ + data && trim_of(data).len() > 0 ==> line_data(line) == Some(
            data,
        ),
        trim_of(line) == "data: "@ + data && trim_of(data).len() == 0 ==> line_data(line) is None,
        trim_of(line).len() == 0 ==> line_data(line) is None,
        trim_of(line).len() > 0 && trim_of(line)[0] == ':' ==> line_data(line) is None,
        trim_of(line).len() > 0 && trim_of(line)[0] != ':' && !begins_with(
            trim_of(line),
            "data: "@,
        ) && trim_of(trim_of(line)).len() > 0 ==> line_data(line) == Some(trim_of(line)),
{
    reveal_strlit("data: ");
    reveal_strlit(":");
    let trimmed = trim_of(line);
    assert("data: "@.len() == 6 && ":"@.len() == 1 && ":"@[0] == ':' && "data: "@[0] == 'd');
    if trimmed == "data: "@ + data {
        assert(trimmed.take(6) =~= "data: "@);
        assert(trimmed.skip(6) =~= data);
        assert(trimmed[0] == 'd');
        assert(trimmed.take(1)[0] == 'd');
    }
    if trimmed.len() > 0 && trimmed[0] == ':' {
        assert(trimmed.take(1) =~= ":"@);
    }
    if begins_with(trimmed, ":"@) {
        assert(trimmed.take(1)[0] == ":"@[0]);
    }
}

/// The service is reached at its address without slashes at the end; it has agreed
/// where it says so, and otherwise tells why.
pub proof fn law_replies_are_judged(settings: Settings, body: Json)
    ensures
        api_base(settings).len() > 0 ==> api_base(settings).last() != '/',
        succeeded(body) <==> field_of(body, "success"@) == Some(Json::Bool(true)),
        field_of(body, "error"@) matches Some(Json::Text(why)) ==> replay_refusal(body) == why,
        field_of(body, "error"@) is None ==> replay_refusal(body) == "Unknown error"@,
{
    let ends = crate::laws::text::law_characters_are_taken_off(settings.api_url, '/');
}

/// A replay counts what stands under `data`; the options of a request are the object
/// under `modelClientOptions`.
pub proof fn law_replays_and_options_are_found(body: Json, data: Json, options: Members)
    ensures
        field_of(body, "data"@) == Some(data) ==> replay_usage(body) == replay_counts(data),
        field_of(body, "data"@) is None ==> replay_usage(body) == no_counts(),
        field_of(body, "modelClientOptions"@) == Some(Json::Members(options)) ==> payload_options(
            body,
        ) == Some(options),
        field_of(body, "modelClientOptions"@) is None ==> payload_options(body) is None,
{
}

/// A session for which nothing is asked keeps advertisements out and has the usual size.
pub proof fn law_usual_session()
    ensures
        member_of(default_session_members(), "browserSettings"@) matches Some(
            Json::Members(settings),
        ) && member_of(settings, "blockAds"@) == Some(Json::Bool(true)) && (member_of(
            settings,
            "viewport"@,
        ) matches Some(Json::Members(size)) && member_of(size, "width"@) == Some(
            Json::Number(JsonNumber::Unsigned(1024)),
        ) && member_of(size, "height"@) == Some(Json::Number(JsonNumber::Unsigned(768)))),
        default_session_members().len() == 1,
{
    broadcast use lemma_put;

    reveal_strlit("blockAds");
    reveal_strlit("viewport");
    reveal_strlit("width");
    reveal_strlit("height");
    assert("blockAds"@.len() == 8 && "viewport"@.len() == 8);
    assert("blockAds"@[0] == 'b' && "viewport"@[0] == 'v');
    assert("width"@.len() == 5 && "height"@.len() == 6);
}

} // verus!
