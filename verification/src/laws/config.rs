//! How settings come from the environment and from overrides.
use crate::config::{
    bool_issue, default_settings, env_issue, env_settings, environment_issue, given, hyphened,
    model_issue, number_issue, object_issue, overridden, truth_of, verbosity_issue, with_project,
    Environment, Issue, ModelName, Settings, StagehandConfigOverrides, Verbosity,
};
use crate::json::{parsed_json, Json, Members};
use crate::text::{is_blank, lower_of, trim_of, unsigned_of, upper_of, NumberError};
use vstd::prelude::*;
use vstd::string::*;

verus! {

/// The text of a variable without the white space around it, where it is set and not
/// blank.
pub open spec fn text_in(vars: Map<Seq<char>, Seq<char>>, key: Seq<char>) -> Option<Seq<char>> {
    if vars.dom().contains(key) && !is_blank(vars[key]) {
        Some(trim_of(vars[key]))
    } else {
        None
    }
}

/// Whether a text says yes.
pub open spec fn says_yes(text: Seq<char>) -> bool {
    let word = lower_of(trim_of(text));
    word == "1"@ || word == "true"@ || word == "yes"@ || word == "on"@
}

/// Whether a text says no.
pub open spec fn says_no(text: Seq<char>) -> bool {
    let word = lower_of(trim_of(text));
    word == "0"@ || word == "false"@ || word == "no"@ || word == "off"@
}

/// Whether a variable says yes; where it is not set or blank, what holds otherwise.
pub open spec fn flag_in(vars: Map<Seq<char>, Seq<char>>, key: Seq<char>, other: bool) -> bool {
    match text_in(vars, key) {
        Some(text) => says_yes(text),
        None => other,
    }
}

/// A variable is read without the white space around it, and a blank one is as good as
/// none.
pub proof fn law_variables_are_trimmed(vars: Map<Seq<char>, Seq<char>>, key: Seq<char>)
    ensures
        given(vars, key) == text_in(vars, key),
{
}

/// Four words say yes and four say no, in small or capital letters; no other says
/// either.
pub proof fn law_words_say_yes_or_no(text: Seq<char>)
    ensures
        truth_of(text) == Some(true) <==> says_yes(text),
        truth_of(text) == Some(false) <==> says_no(text),
        truth_of(text) is None <==> !says_yes(text) && !says_no(text),
{
    reveal_strlit("1");
    reveal_strlit("true");
    reveal_strlit("yes");
    reveal_strlit("on");
    reveal_strlit("0");
    reveal_strlit("false");
    reveal_strlit("no");
    reveal_strlit("off");
    assert("1"@.len() == 1 && "true"@.len() == 4 && "yes"@.len() == 3 && "on"@.len() == 2);
    assert("0"@.len() == 1 && "false"@.len() == 5 && "no"@.len() == 2 && "off"@.len() == 3);
    assert("1"@[0] == '1' && "0"@[0] == '0' && "on"@[0] == 'o' && "no"@[0] == 'n');
    assert("yes"@[0] == 'y' && "off"@[0] == 'o');
}

/// A variable that is not set or blank is never at fault.
pub proof fn law_unset_variables_are_no_fault(vars: Map<Seq<char>, Seq<char>>, key: Seq<char>)
    requires
        text_in(vars, key) is None,
    ensures
        environment_issue(vars, key) is None,
        model_issue(vars, key) is None,
        verbosity_issue(vars, key) is None,
        bool_issue(vars, key) is None,
        number_issue(vars, key) is None,
        object_issue(vars, key) is None,
{
}

/// A variable is at fault where its text cannot be read as what it has to be, and the
/// fault names the variable and the text.
pub proof fn law_unreadable_variables_are_faults(
    vars: Map<Seq<char>, Seq<char>>,
    key: Seq<char>,
    text: Seq<char>,
)
    requires
        text_in(vars, key) == Some(text),
    ensures
        bool_issue(vars, key) == (if says_yes(text) || says_no(text) {
            None
        } else {
            Some(Issue::Bool { field: key, value: text })
        }),
        upper_of(trim_of(text)) == "LOCAL"@ || upper_of(trim_of(text)) == "BROWSERBASE"@
            <==> environment_issue(vars, key) is None,
        environment_issue(vars, key) matches Some(issue) ==> issue == (Issue::Enum {
            field: key,
            value: text,
        }),
        model_issue(vars, key) matches Some(issue) ==> issue == (Issue::Enum {
            field: key,
            value: text,
        }),
        (exists|model: ModelName| (#[trigger] model.name()) == trim_of(text)) ==> model_issue(
            vars,
            key,
        ) is None,
        unsigned_of(trim_of(text), u64::MAX as nat) is Ok <==> number_issue(vars, key) is None,
        unsigned_of(trim_of(text), u64::MAX as nat) matches Err(source) ==> number_issue(vars, key)
            == Some(Issue::Number { field: key, value: text, source }),
        (unsigned_of(trim_of(text), 255) matches Ok(n) && n <= 2) <==> verbosity_issue(vars, key)
            is None,
        unsigned_of(trim_of(text), 255) matches Err(source) ==> verbosity_issue(vars, key) == Some(
            Issue::Number { field: key, value: text, source },
        ),
        parsed_json(text) matches Ok(Json::Members(_)) <==> object_issue(vars, key) is None,
        parsed_json(text) matches Ok(value) ==> !(value is Members) ==> object_issue(vars, key)
            == Some(Issue::JsonType { field: key }),
        parsed_json(text) matches Err(source) ==> object_issue(vars, key) == Some(
            Issue::Json { field: key, source },
        ),
{
    law_words_say_yes_or_no(text);
    reveal_strlit("LOCAL");
    reveal_strlit("BROWSERBASE");
    assert("LOCAL"@.len() == 5 && "BROWSERBASE"@.len() == 11);
    if exists|model: ModelName| (#[trigger] model.name()) == trim_of(text) {
        let model = choose|model: ModelName| (#[trigger] model.name()) == trim_of(text);
        assert(ModelName::named(text) is Some);
    }
}

/// What may be at fault with each variable, in the order in which they are read.
pub open spec fn faults(vars: Map<Seq<char>, Seq<char>>) -> Seq<Option<Issue>> {
    seq![
        environment_issue(vars, "STAGEHAND_ENV"@),
        model_issue(vars, "MODEL_NAME"@),
        verbosity_issue(vars, "STAGEHAND_VERBOSE"@),
        bool_issue(vars, "STAGEHAND_USE_RICH_LOGGING"@),
        number_issue(vars, "STAGEHAND_DOM_SETTLE_TIMEOUT_MS"@),
        bool_issue(vars, "STAGEHAND_ENABLE_CACHING"@),
        bool_issue(vars, "STAGEHAND_SELF_HEAL"@),
        bool_issue(vars, "STAGEHAND_WAIT_FOR_CAPTCHA_SOLVES"@),
        number_issue(vars, "STAGEHAND_ACT_TIMEOUT_MS"@),
        object_issue(vars, "STAGEHAND_MODEL_CLIENT_OPTIONS"@),
        object_issue(vars, "STAGEHAND_LOCAL_BROWSER_LAUNCH_OPTIONS"@),
        object_issue(vars, "BROWSERBASE_SESSION_CREATE_PARAMS"@),
        bool_issue(vars, "STAGEHAND_USE_API"@),
        bool_issue(vars, "STAGEHAND_EXPERIMENTAL"@),
        bool_issue(vars, "STAGEHAND_HEADLESS"@),
    ]
}

/// The first fault is told, and none where there is none.
pub proof fn law_first_fault_is_told(vars: Map<Seq<char>, Seq<char>>, i: int)
    requires
        0 <= i <= 15,
        forall|k: int| 0 <= k < i ==> (#[trigger] faults(vars)[k]) is None,
    ensures
        i < 15 && faults(vars)[i] is Some ==> env_issue(vars) == faults(vars)[i],
        i == 15 ==> env_issue(vars) is None,
{
    let all = faults(vars);
    if i > 0 { assert(all[0] is None); }
    if i > 1 { assert(all[1] is None); }
    if i > 2 { assert(all[2] is None); }
    if i > 3 { assert(all[3] is None); }
    if i > 4 { assert(all[4] is None); }
    if i > 5 { assert(all[5] is None); }
    if i > 6 { assert(all[6] is None); }
    if i > 7 { assert(all[7] is None); }
    if i > 8 { assert(all[8] is None); }
    if i > 9 { assert(all[9] is None); }
    if i > 10 { assert(all[10] is None); }
    if i > 11 { assert(all[11] is None); }
    if i > 12 { assert(all[12] is None); }
    if i > 13 { assert(all[13] is None); }
    if i > 14 { assert(all[14] is None); }
}

/// Every setting that is a yes or a no comes from its own variable, and stands as it
/// does by itself where that is not set.
pub proof fn law_flags_come_from_their_variables(vars: Map<Seq<char>, Seq<char>>)
    ensures
        env_settings(vars).use_rich_logging == flag_in(vars, "STAGEHAND_USE_RICH_LOGGING"@, true),
        env_settings(vars).enable_caching == flag_in(vars, "STAGEHAND_ENABLE_CACHING"@, false),
        env_settings(vars).self_heal == flag_in(vars, "STAGEHAND_SELF_HEAL"@, true),
        env_settings(vars).wait_for_captcha_solves == flag_in(vars, "STAGEHAND_WAIT_FOR_CAPTCHA_SOLVES"@, false),
        env_settings(vars).use_api == flag_in(vars, "STAGEHAND_USE_API"@, true),
        env_settings(vars).experimental == flag_in(vars, "STAGEHAND_EXPERIMENTAL"@, false),
        env_settings(vars).headless == flag_in(vars, "STAGEHAND_HEADLESS"@, false),
{
    assert forall|key: Seq<char>, other: bool| #[trigger]
        crate::config::bool_from(vars, key, other) == flag_in(vars, key, other) by {
        if let Some(text) = text_in(vars, key) {
            law_words_say_yes_or_no(text);
        }
    }
}

/// Every setting that is a text comes from its own variable.
pub proof fn law_texts_come_from_their_variables(vars: Map<Seq<char>, Seq<char>>)
    ensures
        env_settings(vars).api_key == text_in(vars, "BROWSERBASE_API_KEY"@),
        env_settings(vars).project_id == text_in(vars, "BROWSERBASE_PROJECT_ID"@),
        env_settings(vars).model_api_key == text_in(vars, "MODEL_API_KEY"@),
        env_settings(vars).browserbase_session_id == text_in(vars, "BROWSERBASE_SESSION_ID"@),
        env_settings(vars).system_prompt == text_in(vars, "STAGEHAND_SYSTEM_PROMPT"@),
        text_in(vars, "STAGEHAND_API_URL"@) matches Some(url) ==> env_settings(vars).api_url == url,
        vars.dom().contains("STAGEHAND_API_URL"@) && is_blank(vars["STAGEHAND_API_URL"@])
            ==> env_settings(vars).api_url == vars["STAGEHAND_API_URL"@],
        !vars.dom().contains("STAGEHAND_API_URL"@) ==> env_settings(vars).api_url
            == crate::config::DEFAULT_API_URL@,
{
}

/// The environment, the model and the verbosity come from their variables.
pub proof fn law_choices_come_from_their_variables(
    vars: Map<Seq<char>, Seq<char>>,
    model: ModelName,
    verbosity: Verbosity,
)
    requires
        env_issue(vars) is None,
    ensures
        text_in(vars, "STAGEHAND_ENV"@) matches Some(text) ==> (upper_of(trim_of(text))
            == "LOCAL"@ ==> env_settings(vars).env == Environment::Local) && (upper_of(
            trim_of(text),
        ) == "BROWSERBASE"@ ==> env_settings(vars).env == Environment::Browserbase),
        text_in(vars, "STAGEHAND_ENV"@) is None ==> env_settings(vars).env
            == Environment::Browserbase,
        text_in(vars, "MODEL_NAME"@) matches Some(text) ==> trim_of(text) == env_settings(
            vars,
        ).model_name.name(),
        text_in(vars, "MODEL_NAME"@) is None ==> env_settings(vars).model_name == ModelName::Gpt4o,
        text_in(vars, "STAGEHAND_VERBOSE"@) matches Some(text) ==> unsigned_of(
            trim_of(text),
            255,
        ) == Ok::<nat, NumberError>(env_settings(vars).verbose.number() as nat),
        text_in(vars, "STAGEHAND_VERBOSE"@) is None ==> env_settings(vars).verbose
            == Verbosity::Medium,
{
    reveal_strlit("LOCAL");
    reveal_strlit("BROWSERBASE");
    assert("LOCAL"@.len() == 5 && "BROWSERBASE"@.len() == 11);
}

/// The times come from their variables, as whole numbers.
pub proof fn law_times_come_from_their_variables(vars: Map<Seq<char>, Seq<char>>)
    ensures
        text_in(vars, "STAGEHAND_DOM_SETTLE_TIMEOUT_MS"@) matches Some(text) ==> (unsigned_of(
            trim_of(text),
            u64::MAX as nat,
        ) matches Ok(n) ==> (env_settings(vars).dom_settle_timeout_ms matches Some(time) && (
        n <= u64::MAX ==> time == n))),
        text_in(vars, "STAGEHAND_DOM_SETTLE_TIMEOUT_MS"@) is None ==> env_settings(
            vars,
        ).dom_settle_timeout_ms == Some(3000u64),
        text_in(vars, "STAGEHAND_ACT_TIMEOUT_MS"@) matches Some(text) ==> (unsigned_of(
            trim_of(text),
            u64::MAX as nat,
        ) matches Ok(n) ==> (env_settings(vars).act_timeout_ms matches Some(time) && (n
            <= u64::MAX ==> time == n))),
        text_in(vars, "STAGEHAND_ACT_TIMEOUT_MS"@) is None ==> env_settings(vars).act_timeout_ms
            is None,
{
}

/// The objects come from their variables, as they are written there.
pub proof fn law_objects_come_from_their_variables(vars: Map<Seq<char>, Seq<char>>)
    ensures
        text_in(vars, "STAGEHAND_MODEL_CLIENT_OPTIONS"@) matches Some(text) ==> (parsed_json(
            text,
        ) matches Ok(Json::Members(members)) ==> env_settings(vars).model_client_options == Some(
            members,
        )),
        text_in(vars, "STAGEHAND_MODEL_CLIENT_OPTIONS"@) is None ==> env_settings(
            vars,
        ).model_client_options is None,
        text_in(vars, "STAGEHAND_LOCAL_BROWSER_LAUNCH_OPTIONS"@) matches Some(text) ==> (
        parsed_json(text) matches Ok(Json::Members(members)) ==> env_settings(
            vars,
        ).local_browser_launch_options == members),
        text_in(vars, "STAGEHAND_LOCAL_BROWSER_LAUNCH_OPTIONS"@) is None ==> env_settings(
            vars,
        ).local_browser_launch_options == Members::empty(),
        text_in(vars, "BROWSERBASE_SESSION_CREATE_PARAMS"@) is None ==> env_settings(
            vars,
        ).browserbase_session_create_params is None,
        text_in(vars, "BROWSERBASE_SESSION_CREATE_PARAMS"@) matches Some(text) ==> (parsed_json(
            text,
        ) matches Ok(Json::Members(members)) ==> env_settings(
            vars,
        ).browserbase_session_create_params == with_project(
            Settings {
                browserbase_session_create_params: Some(members),
                ..env_settings(vars)
            },
        ).browserbase_session_create_params),
{
}

/// By themselves the settings are for the browser of the service, with what is usual.
pub proof fn law_settings_by_themselves(api_url: Seq<char>)
    ensures
        ({
            let usual = default_settings(api_url);
            &&& usual.env == Environment::Browserbase
            &&& usual.api_url == api_url
            &&& usual.model_name == ModelName::Gpt4o
            &&& usual.verbose == Verbosity::Medium
            &&& usual.use_rich_logging && usual.self_heal && usual.use_api
            &&& !usual.enable_caching && !usual.wait_for_captcha_solves && !usual.experimental
            &&& !usual.headless
            &&& usual.dom_settle_timeout_ms == Some(3000u64)
            &&& usual.act_timeout_ms is None
            &&& usual.api_key is None && usual.project_id is None && usual.model_api_key is None
            &&& usual.browserbase_session_create_params is None
            &&& usual.browserbase_session_id is None && usual.model_client_options is None
            &&& usual.system_prompt is None
            &&& usual.local_browser_launch_options.len() == 0
        }),
{
}

/// What an override does not give stays as it was.
pub proof fn law_other_settings_stay(settings: Settings, overrides: StagehandConfigOverrides)
    ensures
        overrides.env is None ==> overridden(settings, overrides).env == settings.env,
        overrides.model_name is None ==> overridden(settings, overrides).model_name == settings.model_name,
        overrides.verbose is None ==> overridden(settings, overrides).verbose == settings.verbose,
        overrides.use_rich_logging is None ==> overridden(settings, overrides).use_rich_logging == settings.use_rich_logging,
        overrides.enable_caching is None ==> overridden(settings, overrides).enable_caching == settings.enable_caching,
        overrides.self_heal is None ==> overridden(settings, overrides).self_heal == settings.self_heal,
        overrides.wait_for_captcha_solves is None ==> overridden(settings, overrides).wait_for_captcha_solves == settings.wait_for_captcha_solves,
        overrides.use_api is None ==> overridden(settings, overrides).use_api == settings.use_api,
        overrides.experimental is None ==> overridden(settings, overrides).experimental == settings.experimental,
        overrides.headless is None ==> overridden(settings, overrides).headless == settings.headless,
        overrides.dom_settle_timeout_ms is None ==> overridden(settings, overrides).dom_settle_timeout_ms == settings.dom_settle_timeout_ms,
        overrides.act_timeout_ms is None ==> overridden(settings, overrides).act_timeout_ms == settings.act_timeout_ms,
        overrides.api_key is None ==> overridden(settings, overrides).api_key == settings.api_key,
        overrides.project_id is None ==> overridden(settings, overrides).project_id == settings.project_id,
        overrides.browserbase_session_id is None ==> overridden(settings, overrides).browserbase_session_id == settings.browserbase_session_id,
        overrides.model_api_key is None ==> overridden(settings, overrides).model_api_key == settings.model_api_key,
        overrides.system_prompt is None ==> overridden(settings, overrides).system_prompt == settings.system_prompt,
        overrides.browserbase_session_create_params is None ==> overridden(settings, overrides).browserbase_session_create_params == settings.browserbase_session_create_params,
        overrides.model_client_options is None ==> overridden(settings, overrides).model_client_options == settings.model_client_options,
        overrides.api_url is None ==> overridden(settings, overrides).api_url == settings.api_url,
        overrides.local_browser_launch_options is None ==> overridden(settings, overrides).local_browser_launch_options == settings.local_browser_launch_options,
{
}

/// What an override gives takes the place of what was there, also where it gives nothing
/// in its place.
pub proof fn law_overrides_win(settings: Settings, overrides: StagehandConfigOverrides)
    ensures
        overrides.env matches Some(value) ==> overridden(settings, overrides).env == value,
        overrides.model_name matches Some(value) ==> overridden(settings, overrides).model_name == value,
        overrides.verbose matches Some(value) ==> overridden(settings, overrides).verbose == value,
        overrides.use_rich_logging matches Some(value) ==> overridden(settings, overrides).use_rich_logging == value,
        overrides.enable_caching matches Some(value) ==> overridden(settings, overrides).enable_caching == value,
        overrides.self_heal matches Some(value) ==> overridden(settings, overrides).self_heal == value,
        overrides.wait_for_captcha_solves matches Some(value) ==> overridden(settings, overrides).wait_for_captcha_solves == value,
        overrides.use_api matches Some(value) ==> overridden(settings, overrides).use_api == value,
        overrides.experimental matches Some(value) ==> overridden(settings, overrides).experimental == value,
        overrides.headless matches Some(value) ==> overridden(settings, overrides).headless == value,
        overrides.dom_settle_timeout_ms matches Some(value) ==> overridden(settings, overrides).dom_settle_timeout_ms == value,
        overrides.act_timeout_ms matches Some(value) ==> overridden(settings, overrides).act_timeout_ms == value,
        overrides.api_key matches Some(value) ==> overridden(settings, overrides).api_key == (match value {
            Some(text) => Some(text@),
            None => None,
        }),
        overrides.project_id matches Some(value) ==> overridden(settings, overrides).project_id == (match value {
            Some(text) => Some(text@),
            None => None,
        }),
        overrides.browserbase_session_id matches Some(value) ==> overridden(settings, overrides).browserbase_session_id == (match value {
            Some(text) => Some(text@),
            None => None,
        }),
        overrides.model_api_key matches Some(value) ==> overridden(settings, overrides).model_api_key == (match value {
            Some(text) => Some(text@),
            None => None,
        }),
        overrides.system_prompt matches Some(value) ==> overridden(settings, overrides).system_prompt == (match value {
            Some(text) => Some(text@),
            None => None,
        }),
        overrides.browserbase_session_create_params matches Some(value) ==> overridden(settings, overrides).browserbase_session_create_params == (match value {
            Some(text) => Some(text@),
            None => None,
        }),
        overrides.model_client_options matches Some(value) ==> overridden(settings, overrides).model_client_options == (match value {
            Some(text) => Some(text@),
            None => None,
        }),
        overrides.api_url matches Some(value) ==> overridden(settings, overrides).api_url == value@,
        overrides.local_browser_launch_options matches Some(value) ==> overridden(
            settings,
            overrides,
        ).local_browser_launch_options == value@,
{
}

/// How many of the first `n` characters but the first begin a word: capitals and digits.
pub open spec fn words_begun(s: Seq<char>, n: nat) -> nat
    decreases n,
{
    if n <= 1 {
        0
    } else if 'A' <= s[n - 1] <= 'Z' || '0' <= s[n - 1] <= '9' {
        words_begun(s, (n - 1) as nat) + 1
    } else {
        words_begun(s, (n - 1) as nat)
    }
}

/// Each character of a name stands in lower case behind as many hyphens as words began up to
/// it, and a hyphen stands before each that begins one.
pub proof fn law_words_are_joined_by_hyphens(s: Seq<char>, n: nat, i: int)
    requires
        0 <= i < n <= s.len(),
    ensures
        ({
            let text = hyphened(s, n);
            let at = i + words_begun(s, (i + 1) as nat);
            &&& text.len() == n + words_begun(s, n)
            &&& 0 <= at < text.len()
            &&& ('A' <= s[i] <= 'Z' ==> text[at] as int == s[i] as int + 'a' as int - 'A' as int)
            &&& (!('A' <= s[i] <= 'Z') ==> text[at] == s[i])
            &&& (i > 0 && ('A' <= s[i] <= 'Z' || '0' <= s[i] <= '9') ==> at > 0 && text[at - 1]
                == '-')
        }),
    decreases n,
{
    let before = hyphened(s, (n - 1) as nat);
    assert(before.len() == n - 1 + words_begun(s, (n - 1) as nat)) by {
        if n > 1 {
            law_words_are_joined_by_hyphens(s, (n - 1) as nat, 0);
        }
    }
    if i < n - 1 {
        law_words_are_joined_by_hyphens(s, (n - 1) as nat, i);
    }
}

} // verus!
