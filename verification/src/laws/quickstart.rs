//! How the settings of the examples come from the environment.
use crate::config::{Environment, Settings, Verbosity};
use crate::json::{member_of, Json};
use crate::laws::llm::lemma_put;
use crate::quickstart::{cloud_settings, company_schema, local_settings, needed};
use crate::text::is_blank;
use vstd::prelude::*;
use vstd::string::*;

verus! {

/// A variable that is needed has to be set and not blank, and is taken as it is.
pub proof fn law_needed_variables(env: Map<Seq<char>, Seq<char>>, name: Seq<char>)
    ensures
        needed(env, name) is Ok <==> env.dom().contains(name) && !is_blank(env[name]),
        needed(env, name) matches Ok(value) ==> value == env[name],
        !env.dom().contains(name) ==> needed(env, name) == Err::<Seq<char>, Seq<char>>(
            name + " environment variable must be set"@,
        ),
        env.dom().contains(name) && is_blank(env[name]) ==> needed(env, name) == Err::<
            Seq<char>,
            Seq<char>,
        >(name + " environment variable cannot be empty"@),
{
}

/// The browser of the service needs its key, its project and a key of the model; what
/// is missing first is told. All other settings stay.
pub proof fn law_cloud_settings(
    settings: Settings,
    env: Map<Seq<char>, Seq<char>>,
    verbosity: Verbosity,
)
    ensures
        needed(env, "BROWSERBASE_API_KEY"@) is Err ==> cloud_settings(settings, env, verbosity)
            is Err,
        needed(env, "BROWSERBASE_PROJECT_ID"@) is Err ==> cloud_settings(settings, env, verbosity)
            is Err,
        !env.dom().contains("MODEL_API_KEY"@) && !env.dom().contains("OPENAI_API_KEY"@)
            ==> cloud_settings(settings, env, verbosity) is Err,
        needed(env, "BROWSERBASE_API_KEY"@) is Ok && needed(env, "BROWSERBASE_PROJECT_ID"@) is Ok
            && (env.dom().contains("MODEL_API_KEY"@) || env.dom().contains("OPENAI_API_KEY"@))
            ==> cloud_settings(settings, env, verbosity) is Ok,
        cloud_settings(settings, env, verbosity) matches Ok(made) ==> {
            let key = if env.dom().contains("MODEL_API_KEY"@) {
                env["MODEL_API_KEY"@]
            } else {
                env["OPENAI_API_KEY"@]
            };
            &&& made.env == Environment::Browserbase
            &&& made.api_key == Some(env["BROWSERBASE_API_KEY"@])
            &&& made.project_id == Some(env["BROWSERBASE_PROJECT_ID"@])
            &&& made.model_api_key == Some(key)
            &&& made.model_client_options matches Some(options) && member_of(options, "apiKey"@)
                == Some(Json::Text(key))
            &&& made.verbose == verbosity
            &&& !made.use_rich_logging
            &&& env.dom().contains("BROWSERBASE_SESSION_ID"@) && !is_blank(
                env["BROWSERBASE_SESSION_ID"@],
            ) ==> made.browserbase_session_id == Some(env["BROWSERBASE_SESSION_ID"@])
            &&& !env.dom().contains("BROWSERBASE_SESSION_ID"@) ==> made.browserbase_session_id
                == settings.browserbase_session_id
            &&& made.model_name == settings.model_name
            &&& made.use_api == settings.use_api
            &&& made.api_url == settings.api_url
            &&& made.self_heal == settings.self_heal
        },
{
    broadcast use lemma_put;

}

/// A browser of this machine needs its program and a key of the model. It is shown
/// where that is asked.
pub proof fn law_local_settings(
    settings: Settings,
    env: Map<Seq<char>, Seq<char>>,
    verbosity: Verbosity,
    show: bool,
)
    ensures
        needed(env, "STAGEHAND_CHROME_BIN"@) is Err ==> local_settings(
            settings,
            env,
            verbosity,
            show,
        ) is Err,
        !env.dom().contains("MODEL_API_KEY"@) && !env.dom().contains("OPENAI_API_KEY"@)
            ==> local_settings(settings, env, verbosity, show) is Err,
        needed(env, "STAGEHAND_CHROME_BIN"@) is Ok && (env.dom().contains("MODEL_API_KEY"@)
            || env.dom().contains("OPENAI_API_KEY"@)) ==> local_settings(
            settings,
            env,
            verbosity,
            show,
        ) is Ok,
        local_settings(settings, env, verbosity, show) matches Ok(made) ==> {
            &&& made.env == Environment::Local
            &&& !made.use_api
            &&& made.headless == !show
            &&& made.verbose == verbosity
            &&& member_of(made.local_browser_launch_options, "chromeExecutable"@) == Some(
                Json::Text(env["STAGEHAND_CHROME_BIN"@]),
            )
            &&& member_of(made.local_browser_launch_options, "headless"@) == Some(
                Json::Bool(!show),
            )
            &&& made.model_name == settings.model_name
            &&& made.self_heal == settings.self_heal
        },
{
    broadcast use lemma_put;

    reveal_strlit("chromeExecutable");
    reveal_strlit("headless");
    assert("chromeExecutable"@.len() == 16 && "headless"@.len() == 8);
}

/// What the examples extract is a list of companies, each with a name and a description.
pub proof fn law_companies_have_a_schema()
    ensures
        member_of(company_schema(), "type"@) == Some(Json::Text("object"@)),
        member_of(company_schema(), "required"@) == Some(
            Json::List(seq![Json::Text("companies"@)]),
        ),
        member_of(company_schema(), "properties"@) matches Some(Json::Members(properties)) && (
        member_of(properties, "companies"@) matches Some(Json::Members(list)) && member_of(
            list,
            "type"@,
        ) == Some(Json::Text("array"@)) && (member_of(list, "items"@) matches Some(
            Json::Members(company),
        ) && member_of(company, "required"@) == Some(
            Json::List(seq![Json::Text("name"@), Json::Text("description"@)]),
        ))),
{
    broadcast use lemma_put;

    reveal_strlit("type");
    reveal_strlit("properties");
    reveal_strlit("required");
    reveal_strlit("items");
    assert("type"@.len() == 4 && "properties"@.len() == 10 && "required"@.len() == 8
        && "items"@.len() == 5);
}

} // verus!
