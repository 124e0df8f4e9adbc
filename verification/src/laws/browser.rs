//! How a browser is reached.
use crate::browser::{
    base_params, cloud_connection, cloud_plan, connection_fails, explains, launch_in, launch_issue,
    local_connection, local_plan, params_in, params_issue, uses_api, viewport_in, wanted_params,
    BrowserError, CloudModel, CloudStrategy, LocalModel, LocalStrategy, Viewport,
};
use crate::config::{with_project, Environment, Settings};
use crate::laws::llm::lemma_put;
use crate::merge::law_merge_by_key;
use crate::json::{keys_ascend, law_remove_then_get, member_of, Json, JsonNumber, Members};
use crate::observe::all_texts;
use crate::text::lower_of;
use vstd::prelude::*;
use vstd::string::*;

verus! {

/// Whether an option is given, under its name or under its other name; an option
/// without a value is not.
pub open spec fn options_hold(options: Members, key: Seq<char>, alias: Option<Seq<char>>) -> bool {
    (member_of(options, key) matches Some(value) && value != Json::Null) || (
    alias matches Some(alias) && (member_of(options, alias) matches Some(value) && value
        != Json::Null))
}

/// The value of an option that is given under one of its names and not under the other.
pub open spec fn given_option(
    options: Members,
    key: Seq<char>,
    alias: Option<Seq<char>>,
) -> Option<Json> {
    match (
        member_of(options, key),
        match alias {
            Some(alias) => member_of(options, alias),
            None => None,
        },
    ) {
        (Some(value), None) => Some(value),
        (None, Some(value)) => Some(value),
        _ => None,
    }
}

/// Each option of a launch is read from its own key or its other name.
pub proof fn law_options_are_read(options: Members)
    ensures
        given_option(options, "cdpUrl"@, Some("cdp_url"@)) matches Some(Json::Text(value)) ==> launch_in(options).cdp_url
            == Some(value),
        !options_hold(options, "cdpUrl"@, Some("cdp_url"@)) ==> launch_in(options).cdp_url is None,
        given_option(options, "headers"@, None) matches Some(Json::Members(value)) ==> launch_in(options).headers
            == Some(value),
        !options_hold(options, "headers"@, None) ==> launch_in(options).headers is None,
        given_option(options, "userDataDir"@, Some("user_data_dir"@)) matches Some(Json::Text(value)) ==> launch_in(options).user_data_dir
            == Some(value),
        !options_hold(options, "userDataDir"@, Some("user_data_dir"@)) ==> launch_in(options).user_data_dir is None,
        given_option(options, "downloadsPath"@, Some("downloads_path"@)) matches Some(Json::Text(value)) ==> launch_in(options).downloads_path
            == Some(value),
        !options_hold(options, "downloadsPath"@, Some("downloads_path"@)) ==> launch_in(options).downloads_path is None,
        given_option(options, "cookies"@, None) matches Some(Json::List(value)) ==> launch_in(options).cookies
            == Some(value),
        !options_hold(options, "cookies"@, None) ==> launch_in(options).cookies is None,
        given_option(options, "headless"@, None) matches Some(Json::Bool(value)) ==> launch_in(options).headless
            == Some(value),
        !options_hold(options, "headless"@, None) ==> launch_in(options).headless is None,
        given_option(options, "acceptDownloads"@, Some("accept_downloads"@)) matches Some(Json::Bool(value)) ==> launch_in(options).accept_downloads
            == Some(value),
        !options_hold(options, "acceptDownloads"@, Some("accept_downloads"@)) ==> launch_in(options).accept_downloads is None,
        given_option(options, "bypassCsp"@, Some("bypass_csp"@)) matches Some(Json::Bool(value)) ==> launch_in(options).bypass_csp
            == Some(value),
        !options_hold(options, "bypassCsp"@, Some("bypass_csp"@)) ==> launch_in(options).bypass_csp is None,
        given_option(options, "ignoreHttpsErrors"@, Some("ignore_https_errors"@)) matches Some(Json::Bool(value)) ==> launch_in(options).ignore_https_errors
            == Some(value),
        !options_hold(options, "ignoreHttpsErrors"@, Some("ignore_https_errors"@)) ==> launch_in(options).ignore_https_errors is None,
        given_option(options, "locale"@, None) matches Some(Json::Text(value)) ==> launch_in(options).locale
            == Some(value),
        !options_hold(options, "locale"@, None) ==> launch_in(options).locale is None,
        given_option(options, "timezoneId"@, Some("timezone_id"@)) matches Some(Json::Text(value)) ==> launch_in(options).timezone_id
            == Some(value),
        !options_hold(options, "timezoneId"@, Some("timezone_id"@)) ==> launch_in(options).timezone_id is None,
        given_option(options, "proxy"@, None) matches Some(Json::Members(value)) ==> launch_in(options).proxy
            == Some(value),
        !options_hold(options, "proxy"@, None) ==> launch_in(options).proxy is None,
        given_option(options, "args"@, None) matches Some(Json::List(items)) ==> all_texts(items)
            is Some ==> launch_in(options).args == all_texts(items),
        !options_hold(options, "args"@, None) ==> launch_in(options).args is None,
        given_option(options, "viewport"@, None) matches Some(value) ==> value != Json::Null
            ==> viewport_in(value) is Some ==> launch_in(options).viewport == viewport_in(value),
        !options_hold(options, "viewport"@, None) ==> launch_in(options).viewport is None,
{
}

/// An option that is given twice, or whose value is of another kind, is at fault; where
/// all are as they have to be, none is.
pub proof fn law_misfit_options_are_faults(options: Members)
    ensures
        launch_issue(options) is None ==> {
            &&& !(member_of(options, "cdpUrl"@) is Some && member_of(options, "cdp_url"@) is Some)
            &&& !(member_of(options, "userDataDir"@) is Some && member_of(
                options,
                "user_data_dir"@,
            ) is Some)
            &&& (member_of(options, "headless"@) matches Some(value) ==> value is Bool || value
                == Json::Null)
            &&& (member_of(options, "headers"@) matches Some(value) ==> value is Members || value
                == Json::Null)
            &&& (member_of(options, "proxy"@) matches Some(value) ==> value is Members || value
                == Json::Null)
            &&& (member_of(options, "cookies"@) matches Some(value) ==> value is List || value
                == Json::Null)
            &&& (member_of(options, "locale"@) matches Some(value) ==> value is Text || value
                == Json::Null)
            &&& (member_of(options, "viewport"@) matches Some(value) ==> viewport_in(value) is Some
                || value == Json::Null)
            &&& (member_of(options, "args"@) matches Some(value) ==> value == Json::Null || (
            value matches Json::List(items) && all_texts(items) is Some))
        },
        (member_of(options, "cdpUrl"@) is Some && member_of(options, "cdp_url"@) is Some)
            ==> launch_issue(options) == Some("cdp_url"@),
        launch_issue(options) == Some("headless"@) ==> (member_of(
            options,
            "headless"@,
        ) matches Some(value) && !(value is Bool) && value != Json::Null),
        launch_issue(options) == Some("locale"@) ==> (member_of(
            options,
            "locale"@,
        ) matches Some(value) && !(value is Text) && value != Json::Null),
        launch_issue(options) == Some("viewport"@) ==> (member_of(
            options,
            "viewport"@,
        ) matches Some(value) && viewport_in(value) is None && value != Json::Null),
        options.len() == 0 ==> launch_issue(options) is None,
{
    lemma_option_names();
}

proof fn lemma_option_names()
    ensures
        "cdp_url"@.len() == 7 && "cdp_url"@[0] == 'c',
        "headers"@.len() == 7 && "headers"@[0] == 'h',
        "user_data_dir"@.len() == 13,
        "downloads_path"@.len() == 14,
        "cookies"@.len() == 7 && "cookies"@[1] == 'o',
        "headless"@.len() == 8 && "headless"@[0] == 'h',
        "accept_downloads"@.len() == 16,
        "bypass_csp"@.len() == 10,
        "ignore_https_errors"@.len() == 19,
        "locale"@.len() == 6,
        "timezone_id"@.len() == 11,
        "proxy"@.len() == 5,
        "args"@.len() == 4,
        "viewport"@.len() == 8 && "viewport"@[0] == 'v',
{
    reveal_strlit("cdp_url");
    reveal_strlit("headers");
    reveal_strlit("user_data_dir");
    reveal_strlit("downloads_path");
    reveal_strlit("cookies");
    reveal_strlit("headless");
    reveal_strlit("accept_downloads");
    reveal_strlit("bypass_csp");
    reveal_strlit("ignore_https_errors");
    reveal_strlit("locale");
    reveal_strlit("timezone_id");
    reveal_strlit("proxy");
    reveal_strlit("args");
    reveal_strlit("viewport");
}

/// A list of texts is read text by text; with anything else in it, it is none.
pub proof fn law_all_texts_are_read(items: Seq<Json>, i: int)
    requires
        0 <= i < items.len(),
    ensures
        all_texts(items) matches Some(texts) ==> texts.len() == items.len() && items[i]
            == Json::Text(texts[i]),
        !(items[i] is Text) ==> all_texts(items) is None,
        (forall|k: int| 0 <= k < items.len() ==> (#[trigger] items[k]) is Text) ==> all_texts(items)
            is Some,
    decreases items.len(),
{
    let less = items.drop_last();
    lemma_texts_length(less);
    if i < less.len() {
        law_all_texts_are_read(less, i);
        assert(less[i] == items[i]);
    }
    if forall|k: int| 0 <= k < items.len() ==> (#[trigger] items[k]) is Text {
        assert forall|k: int| 0 <= k < less.len() implies (#[trigger] less[k]) is Text by {
            assert(less[k] == items[k]);
        }
        assert(items[items.len() - 1] is Text);
        if less.len() > 0 {
            law_all_texts_are_read(less, 0);
        }
    }
}

proof fn lemma_texts_length(items: Seq<Json>)
    ensures
        all_texts(items) matches Some(texts) ==> texts.len() == items.len(),
    decreases items.len(),
{
    if items.len() > 0 {
        lemma_texts_length(items.drop_last());
    }
}

/// A session that is known and not described again needs no parameters. Otherwise the
/// parameters are the usual ones, with those given laid over them key by key.
pub proof fn law_given_parameters_win(settings: Settings, custom: Members, key: Seq<char>)
    requires
        keys_ascend(custom),
    ensures
        settings.browserbase_session_id is Some && settings.browserbase_session_create_params
            is None ==> wanted_params(settings) is None && cloud_connection(
            settings,
        ).create_params is None,
        settings.browserbase_session_create_params is None && settings.browserbase_session_id
            is None ==> wanted_params(settings) is Some,
        with_project(settings).browserbase_session_create_params == Some(custom) ==> (wanted_params(
            settings,
        ) matches Some(wanted) && {
            &&& (member_of(custom, key) matches Some(value) ==> !(value is Members) ==> member_of(
                wanted,
                key,
            ) == Some(value))
            &&& member_of(custom, key) is None ==> member_of(wanted, key) == member_of(
                base_params(settings.project_id),
                key,
            )
        }),
        cloud_connection(settings).api_key == settings.api_key,
        cloud_connection(settings).project_id == settings.project_id,
        cloud_connection(settings).session_id == settings.browserbase_session_id,
{
    law_merge_by_key(base_params(settings.project_id), custom, key);
}

/// The usual parameters name the project, where there is one, and the usual size.
pub proof fn law_usual_parameters(project: Seq<char>)
    ensures
        member_of(base_params(Some(project)), "project_id"@) == Some(Json::Text(project)),
        member_of(base_params(None), "project_id"@) is None,
        params_in(base_params(None)).viewport.width == 1288,
        params_in(base_params(None)).viewport.height == 711,
        params_in(base_params(Some(project))).project_id == Some(project),
{
    broadcast use lemma_put;

    reveal_strlit("project_id");
    reveal_strlit("browser_settings");
    reveal_strlit("width");
    reveal_strlit("height");
    assert("project_id"@.len() == 10 && "browser_settings"@.len() == 16);
    assert("width"@.len() == 5 && "height"@.len() == 6);
}

/// A size is a width and a height, each a whole number that fits, as an object or as a
/// list of the two.
pub proof fn law_sizes_are_read(members: Members, items: Seq<Json>, width: u64, height: u64)
    ensures
        items.len() != 2 ==> viewport_in(Json::List(items)) is None,
        ({
            let w = Json::Number(JsonNumber::Unsigned(width));
            let h = Json::Number(JsonNumber::Unsigned(height));
            &&& width <= u32::MAX && height <= u32::MAX ==> viewport_in(Json::List(seq![w, h]))
                == Some(Viewport { width: width as u32, height: height as u32 })
            &&& member_of(members, "width"@) == Some(w) && member_of(members, "height"@) == Some(h)
                && width <= u32::MAX && height <= u32::MAX ==> viewport_in(Json::Members(members))
                == Some(Viewport { width: width as u32, height: height as u32 })
            &&& width > u32::MAX || height > u32::MAX ==> viewport_in(Json::List(seq![w, h]))
                is None
        }),
        member_of(members, "width"@) is None || member_of(members, "height"@) is None
            ==> viewport_in(Json::Members(members)) is None,
{
}

/// What is launched here is what was asked for, and otherwise what is usual.
pub proof fn law_local_launch(settings: Settings, downloads: Seq<char>)
    ensures
        ({
            let options = settings.local_browser_launch_options;
            let asked = launch_in(options);
            let made = local_connection(settings, downloads);
            &&& made.cdp_url == asked.cdp_url
            &&& made.headers == asked.headers
            &&& made.user_data_dir == asked.user_data_dir
            &&& made.cookies == asked.cookies
            &&& made.launch.proxy == asked.proxy
            &&& (asked.downloads_path matches Some(path) ==> made.downloads_path == path)
            &&& asked.downloads_path is None ==> made.downloads_path == downloads
            &&& (asked.headless matches Some(flag) ==> made.launch.headless == flag)
            &&& asked.headless is None ==> made.launch.headless == settings.headless
            &&& (asked.accept_downloads matches Some(flag) ==> made.launch.accept_downloads == flag)
            &&& asked.accept_downloads is None ==> made.launch.accept_downloads
            &&& (asked.args matches Some(args) ==> made.launch.args == args)
            &&& asked.args is None ==> made.launch.args == seq![
                "--disable-blink-features=AutomationControlled"@,
            ]
            &&& (asked.viewport matches Some(size) ==> made.launch.viewport == size)
            &&& asked.viewport is None ==> made.launch.viewport.width == 1288
                && made.launch.viewport.height == 711
            &&& (asked.locale matches Some(locale) ==> made.launch.locale == locale)
            &&& asked.locale is None ==> made.launch.locale == "en-US"@
            &&& (asked.timezone_id matches Some(zone) ==> made.launch.timezone_id == zone)
            &&& asked.timezone_id is None ==> made.launch.timezone_id == "America/New_York"@
            &&& (asked.bypass_csp matches Some(flag) ==> made.launch.bypass_csp == flag)
            &&& asked.bypass_csp is None ==> made.launch.bypass_csp
            &&& (asked.ignore_https_errors matches Some(flag) ==> made.launch.ignore_https_errors
                == flag)
            &&& asked.ignore_https_errors is None ==> made.launch.ignore_https_errors
            &&& (member_of(options, "chrome_executable"@) matches Some(Json::Text(path))
                ==> made.chrome_executable == Some(path))
            &&& !(member_of(options, "chrome_executable"@) is Some) ==> (member_of(
                options,
                "chromeExecutable"@,
            ) matches Some(Json::Text(path)) ==> made.chrome_executable == Some(path))
            &&& !(member_of(options, "chrome_executable"@) is Some) && !(member_of(
                options,
                "chromeExecutable"@,
            ) is Some) ==> made.chrome_executable is None
        }),
{
}

/// A browser whose address is known is attached to; any other is launched.
pub proof fn law_known_browser_is_attached_to(connection: LocalModel)
    ensures
        connection.cdp_url matches Some(url) ==> local_plan(connection).strategy == (
        LocalStrategy::Attach { url, headers: connection.headers }),
        connection.cdp_url is None ==> local_plan(connection).strategy == (
        LocalStrategy::Launch { user_data_dir: connection.user_data_dir }),
        local_plan(connection).launch == connection.launch,
        local_plan(connection).downloads_path == connection.downloads_path,
        local_plan(connection).cookies == connection.cookies,
        local_plan(connection).chrome_executable == connection.chrome_executable,
{
}

/// A connection cannot be made where the parameters of the session or the options of the
/// launch are at fault, or where there is no place for downloads; the error says which.
pub proof fn law_connections_fail_for_a_reason(
    settings: Settings,
    downloads: Result<Seq<char>, Seq<char>>,
    error: BrowserError,
)
    ensures
        settings.env == Environment::Local && launch_issue(settings.local_browser_launch_options)
            is Some ==> connection_fails(settings, downloads),
        settings.env == Environment::Local && launch_issue(settings.local_browser_launch_options)
            is None && downloads is Ok ==> !connection_fails(settings, downloads),
        settings.env == Environment::Local && launch_issue(settings.local_browser_launch_options)
            is None && downloads is Err ==> (connection_fails(settings, downloads) <==> launch_in(
            settings.local_browser_launch_options,
        ).downloads_path is None),
        settings.env == Environment::Browserbase ==> (connection_fails(settings, downloads) <==> (
        wanted_params(settings) matches Some(params) && params_issue(params) is Some)),
        explains(error, settings, downloads) && settings.env == Environment::Browserbase ==> (
        error matches BrowserError::InvalidBrowserbaseParams { field } && (wanted_params(
            settings,
        ) matches Some(params) && params_issue(params) == Some(field@))),
        explains(error, settings, downloads) && settings.env == Environment::Local && launch_issue(
            settings.local_browser_launch_options,
        ) is Some ==> (error matches BrowserError::InvalidLocalOptions { field } && launch_issue(
            settings.local_browser_launch_options,
        ) == Some(field@)),
        explains(error, settings, downloads) && settings.env == Environment::Local && launch_issue(
            settings.local_browser_launch_options,
        ) is None ==> (error matches BrowserError::DownloadsPath { source } && downloads == Err::<
            Seq<char>,
            Seq<char>,
        >(source@)),
{
}

/// Settings of the browser that are no object are a fault, and so are a project that is no
/// text and a size that cannot be read; the first of them is named.
pub proof fn law_misfit_parameters_are_faults(members: Members)
    ensures
        (member_of(members, "project_id"@) matches Some(value) && !(value is Text) && value
            != Json::Null) ==> params_issue(members) == Some("project_id"@),
        !(member_of(members, "project_id"@) is Some) && (member_of(
            members,
            "browser_settings"@,
        ) matches Some(value) && !(value is Members)) ==> params_issue(members) == Some(
            "browser_settings"@,
        ),
        !(member_of(members, "project_id"@) is Some) && (member_of(
            members,
            "browser_settings"@,
        ) matches Some(Json::Members(settings)) && (member_of(settings, "viewport"@) matches Some(
            size,
        ) && viewport_in(size) is None)) ==> params_issue(members) == Some("viewport"@),
        members.len() == 0 ==> params_issue(members) is None,
{
}

/// The service is used only for its own browser and where the settings allow it, and never for a
/// session that was asked for in another region than the service's own.
pub proof fn law_service_is_used_for_its_browser(settings: Settings)
    ensures
        uses_api(settings) ==> settings.use_api && settings.env == Environment::Browserbase,
        settings.browserbase_session_create_params is None ==> (uses_api(settings)
            <==> settings.use_api && settings.env == Environment::Browserbase),
        settings.browserbase_session_create_params matches Some(params) ==> (match member_of(
            params,
            "region"@,
        ) {
            Some(Json::Text(region)) => uses_api(settings) <==> settings.use_api && settings.env
                == Environment::Browserbase && lower_of(region) == lower_of("us-west-2"@),
            _ => uses_api(settings) <==> settings.use_api && settings.env
                == Environment::Browserbase,
        }),
{
}

/// A known session is used; otherwise one is made as was asked, or as is usual.
pub proof fn law_known_session_is_used(connection: CloudModel)
    ensures
        connection.session_id matches Some(id) ==> cloud_plan(connection).strategy
            == CloudStrategy::Existing(id),
        connection.session_id is None ==> (connection.create_params matches Some(params)
            ==> cloud_plan(connection).strategy == CloudStrategy::New(params)),
        connection.session_id is None && connection.create_params is None ==> (cloud_plan(
            connection,
        ).strategy matches CloudStrategy::New(params) && params.viewport.width == 1288
            && params.viewport.height == 711 && params.project_id is None && params.extra.len()
            == 0),
        cloud_plan(connection).api_key == connection.api_key,
        cloud_plan(connection).project_id == connection.project_id,
{
}

/// The parameters of a session are read: the project and the size each from its place,
/// and all others as they are.
pub proof fn law_session_parameters_are_read(members: Members, settings: Members, key: Seq<char>)
    requires
        keys_ascend(members),
        keys_ascend(settings),
        member_of(members, "browser_settings"@) == Some(Json::Members(settings)),
    ensures
        member_of(members, "project_id"@) matches Some(Json::Text(id)) ==> params_in(
            members,
        ).project_id == Some(id),
        member_of(members, "project_id"@) is None ==> params_in(members).project_id is None,
        member_of(settings, "viewport"@) matches Some(size) ==> (viewport_in(size) matches Some(
            viewport,
        ) ==> params_in(members).viewport == viewport),
        member_of(settings, "viewport"@) is None ==> params_in(members).viewport.width == 1288
            && params_in(members).viewport.height == 711,
        key != "viewport"@ ==> member_of(params_in(members).settings_extra, key) == member_of(
            settings,
            key,
        ),
        member_of(params_in(members).settings_extra, "viewport"@) is None,
        key != "browser_settings"@ && key != "project_id"@ ==> member_of(
            params_in(members).extra,
            key,
        ) == member_of(members, key),
        member_of(params_in(members).extra, "browser_settings"@) is None,
        member_of(params_in(members).extra, "project_id"@) is None,
        params_issue(members) is None <==> (member_of(members, "project_id"@) matches Some(value)
            ==> value is Text || value == Json::Null) && (member_of(
            settings,
            "viewport"@,
        ) matches Some(value) ==> viewport_in(value) is Some),
{
    reveal_strlit("browser_settings");
    reveal_strlit("project_id");
    assert("browser_settings"@.len() == 16 && "project_id"@.len() == 10);
    law_remove_then_get(settings, "viewport"@, key);
    law_remove_then_get(settings, "viewport"@, "viewport"@);
    let less = crate::json::without_member(members, "browser_settings"@);
    lemma_without_ascends(members, "browser_settings"@);
    law_remove_then_get(members, "browser_settings"@, key);
    law_remove_then_get(members, "browser_settings"@, "browser_settings"@);
    law_remove_then_get(less, "project_id"@, key);
    law_remove_then_get(less, "project_id"@, "project_id"@);
    law_remove_then_get(less, "project_id"@, "browser_settings"@);
}

proof fn lemma_without_ascends(members: Members, key: Seq<char>)
    requires
        keys_ascend(members),
    ensures
        keys_ascend(crate::json::without_member(members, key)),
        forall|j: int|
            0 <= j < crate::json::without_member(members, key).len() ==> members.contains(
                #[trigger] crate::json::without_member(members, key)[j],
            ),
    decreases members.len(),
{
    let left = crate::json::without_member(members, key);
    if members.len() > 0 {
        let rest = members.skip(1);
        assert forall|i: int, j: int| 0 <= i < j < rest.len() implies crate::text::lex_less(
            (#[trigger] rest[i]).0,
            (#[trigger] rest[j]).0,
        ) by {
            assert(rest[i] == members[i + 1] && rest[j] == members[j + 1]);
        }
        if members[0].0 == key {
            assert forall|j: int| 0 <= j < left.len() implies members.contains(#[trigger] left[j]) by {
                assert(left[j] == members[j + 1]);
            }
        } else {
            lemma_without_ascends(rest, key);
            let tail = crate::json::without_member(rest, key);
            assert forall|j: int| 0 <= j < left.len() implies members.contains(#[trigger] left[j]) by {
                if j > 0 {
                    assert(left[j] == tail[j - 1]);
                    let k = choose|k: int| 0 <= k < rest.len() && rest[k] == tail[j - 1];
                    assert(members[k + 1] == left[j]);
                } else {
                    assert(members[0] == left[0]);
                }
            }
            assert forall|i: int, j: int| 0 <= i < j < left.len() implies crate::text::lex_less(
                (#[trigger] left[i]).0,
                (#[trigger] left[j]).0,
            ) by {
                assert(left[j] == tail[j - 1]);
                if i > 0 {
                    assert(left[i] == tail[i - 1]);
                } else {
                    let k = choose|k: int| 0 <= k < rest.len() && rest[k] == tail[j - 1];
                    assert(members[k + 1] == left[j]);
                    assert(crate::text::lex_less(members[0].0, members[k + 1].0));
                }
            }
        }
    }
}

} // verus!
