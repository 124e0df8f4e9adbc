//! The quickstart: its configuration, what it asks for and what it reports.
use crate::a11y::text_map;
use crate::config::{Environment, ModelName, Settings, StagehandConfig, Verbosity};
use crate::json::{models, with_member, written_json, Json, JsonObject, JsonValue, Members};
use crate::llm::{kind_schema, list_schema, make_kind, make_list, model_key};
use crate::table::Table;
use crate::text::{blank, is_blank, opt_view};
use crate::types::a11y::opt_json;
use crate::types::page::{ActOptions, ExtractOptions, ObserveOptions, ObserveResult};
use vstd::prelude::*;
use vstd::string::*;

verus! {

/// How much is logged for a number of requests for more.
pub fn verbosity_from_count(count: u8) -> (out: Verbosity)
    ensures
        out == (if count == 0 {
            Verbosity::Medium
        } else {
            Verbosity::Detailed
        }),
{
    if count == 0 {
        Verbosity::Medium
    } else {
        Verbosity::Detailed
    }
}

/// Options for the model that hold its key.
pub fn api_key_client_options(api_key: &str) -> (out: JsonObject)
    ensures
        out@ == with_member(Members::empty(), "apiKey"@, Json::Text(api_key@)),
{
    let mut options = JsonObject::new();
    options.insert("apiKey", JsonValue::text(api_key));
    options
}

/// What an environment variable has to say, or why that is not enough.
pub open spec fn needed(env: Map<Seq<char>, Seq<char>>, name: Seq<char>) -> Result<
    Seq<char>,
    Seq<char>,
> {
    if !env.dom().contains(name) {
        Err(name + " environment variable must be set"@)
    } else if is_blank(env[name]) {
        Err(name + " environment variable cannot be empty"@)
    } else {
        Ok(env[name])
    }
}

/// Reads an environment variable that has to be set and not blank.
pub fn env_var(env: &Table<String>, name: &str) -> (out: Result<String, String>)
    ensures
        match (out, needed(text_map(env@), name@)) {
            (Ok(value), Ok(text)) => value@ == text,
            (Err(error), Err(why)) => error@ == why,
            _ => false,
        },
{
    assert(text_map(env@).dom() =~= env@.dom());
    match env.get(name) {
        Some(value) => {
            if blank(value.as_str()) {
                let mut why = name.to_owned();
                why.append(" environment variable cannot be empty");
                return Err(why);
            }
            Ok(value.clone())
        },
        None => {
            let mut why = name.to_owned();
            why.append(" environment variable must be set");
            Err(why)
        },
    }
}

/// Reads the key for the language model from the environment.
pub fn resolve_model_key(env: &Table<String>) -> (out: Result<String, String>)
    ensures
        match out {
            Ok(key) => model_key(None, text_map(env@)) == Some(key@),
            Err(why) => model_key(None, text_map(env@)) is None && why@
                == "MODEL_API_KEY or OPENAI_API_KEY must be set"@,
        },
{
    assert(text_map(env@).dom() =~= env@.dom());
    if let Some(key) = env.get("MODEL_API_KEY") {
        return Ok(key.clone());
    }
    if let Some(key) = env.get("OPENAI_API_KEY") {
        return Ok(key.clone());
    }
    Err("MODEL_API_KEY or OPENAI_API_KEY must be set".to_owned())
}

/// The settings of a session in the cloud, changed from the given ones.
pub open spec fn cloud_settings(
    settings: Settings,
    env: Map<Seq<char>, Seq<char>>,
    verbosity: Verbosity,
) -> Result<Settings, Seq<char>> {
    match needed(env, "BROWSERBASE_API_KEY"@) {
        Err(why) => Err(why),
        Ok(api_key) => match needed(env, "BROWSERBASE_PROJECT_ID"@) {
            Err(why) => Err(why),
            Ok(project_id) => match model_key(None, env) {
                None => Err("MODEL_API_KEY or OPENAI_API_KEY must be set"@),
                Some(key) => Ok(
                    Settings {
                        verbose: verbosity,
                        use_rich_logging: false,
                        env: Environment::Browserbase,
                        api_key: Some(api_key),
                        project_id: Some(project_id),
                        model_api_key: Some(key),
                        model_client_options: Some(
                            with_member(Members::empty(), "apiKey"@, Json::Text(key)),
                        ),
                        browserbase_session_id: if env.dom().contains("BROWSERBASE_SESSION_ID"@)
                            && !is_blank(env["BROWSERBASE_SESSION_ID"@]) {
                            Some(env["BROWSERBASE_SESSION_ID"@])
                        } else {
                            settings.browserbase_session_id
                        },
                        ..settings
                    },
                ),
            },
        },
    }
}

/// Configures a session in the cloud.
pub fn build_browserbase_config(
    base: StagehandConfig,
    verbosity: Verbosity,
    env: &Table<String>,
) -> (out: Result<StagehandConfig, String>)
    ensures
        match (out, cloud_settings(base@, text_map(env@), verbosity)) {
            (Ok(config), Ok(settings)) => config@ == settings,
            (Err(error), Err(why)) => error@ == why,
            _ => false,
        },
{
    assert(text_map(env@).dom() =~= env@.dom());
    let mut config = base;
    config.verbose = verbosity;
    config.use_rich_logging = false;
    config.env = Environment::Browserbase;
    config.api_key = match env_var(env, "BROWSERBASE_API_KEY") {
        Ok(value) => Some(value),
        Err(why) => return Err(why),
    };
    config.project_id = match env_var(env, "BROWSERBASE_PROJECT_ID") {
        Ok(value) => Some(value),
        Err(why) => return Err(why),
    };
    let key = match resolve_model_key(env) {
        Ok(key) => key,
        Err(why) => return Err(why),
    };
    config.model_client_options = Some(api_key_client_options(key.as_str()));
    config.model_api_key = Some(key);
    if let Some(session_id) = env.get("BROWSERBASE_SESSION_ID") {
        if !blank(session_id.as_str()) {
            config.browserbase_session_id = Some(session_id.clone());
        }
    }
    assert(config@ =~= cloud_settings(base@, text_map(env@), verbosity)->Ok_0);
    Ok(config)
}

/// The settings of a session on this machine, changed from the given ones.
pub open spec fn local_settings(
    settings: Settings,
    env: Map<Seq<char>, Seq<char>>,
    verbosity: Verbosity,
    show_browser: bool,
) -> Result<Settings, Seq<char>> {
    match needed(env, "STAGEHAND_CHROME_BIN"@) {
        Err(why) => Err(why),
        Ok(chrome) => match model_key(None, env) {
            None => Err("MODEL_API_KEY or OPENAI_API_KEY must be set"@),
            Some(key) => Ok(
                Settings {
                    verbose: verbosity,
                    use_rich_logging: false,
                    env: Environment::Local,
                    use_api: false,
                    headless: !show_browser,
                    model_api_key: Some(key),
                    model_client_options: Some(
                        with_member(Members::empty(), "apiKey"@, Json::Text(key)),
                    ),
                    local_browser_launch_options: with_member(
                        with_member(
                            settings.local_browser_launch_options,
                            "chromeExecutable"@,
                            Json::Text(chrome),
                        ),
                        "headless"@,
                        Json::Bool(!show_browser),
                    ),
                    ..settings
                },
            ),
        },
    }
}

/// Configures a session on this machine.
pub fn build_local_config(
    base: StagehandConfig,
    verbosity: Verbosity,
    show_browser: bool,
    env: &Table<String>,
) -> (out: Result<StagehandConfig, String>)
    ensures
        match (out, local_settings(base@, text_map(env@), verbosity, show_browser)) {
            (Ok(config), Ok(settings)) => config@ == settings,
            (Err(error), Err(why)) => error@ == why,
            _ => false,
        },
{
    let chrome = match env_var(env, "STAGEHAND_CHROME_BIN") {
        Ok(value) => value,
        Err(why) => return Err(why),
    };
    let key = match resolve_model_key(env) {
        Ok(key) => key,
        Err(why) => return Err(why),
    };
    let mut config = base;
    config.verbose = verbosity;
    config.use_rich_logging = false;
    config.env = Environment::Local;
    config.use_api = false;
    config.headless = !show_browser;
    config.model_client_options = Some(api_key_client_options(key.as_str()));
    config.model_api_key = Some(key);
    let mut options = config.local_browser_launch_options.copy();
    options.insert("chromeExecutable", JsonValue::text(chrome.as_str()));
    options.insert("headless", JsonValue::boolean(!show_browser));
    config.local_browser_launch_options = options;
    assert(config@ =~= local_settings(base@, text_map(env@), verbosity, show_browser)->Ok_0);
    Ok(config)
}

/// The schema of the companies that the quickstart extracts.
pub open spec fn company_schema() -> Members {
    let company = with_member(
        with_member(
            kind_schema("object"@),
            "properties"@,
            Json::Members(
                with_member(
                    with_member(
                        Members::empty(),
                        "name"@,
                        Json::Members(kind_schema("string"@)),
                    ),
                    "description"@,
                    Json::Members(kind_schema("string"@)),
                ),
            ),
        ),
        "required"@,
        Json::List(seq![Json::Text("name"@), Json::Text("description"@)]),
    );
    with_member(
        with_member(
            kind_schema("object"@),
            "properties"@,
            Json::Members(
                with_member(Members::empty(), "companies"@, Json::Members(list_schema(company))),
            ),
        ),
        "required"@,
        Json::List(seq![Json::Text("companies"@)]),
    )
}

fn make_company_schema() -> (out: JsonObject)
    ensures
        out@ == company_schema(),
{
    let mut properties = JsonObject::new();
    properties.insert("name", JsonValue::object(make_kind("string")));
    properties.insert("description", JsonValue::object(make_kind("string")));
    let mut required: Vec<JsonValue> = Vec::new();
    required.push(JsonValue::text("name"));
    required.push(JsonValue::text("description"));
    assert(models(required@) =~= seq![Json::Text("name"@), Json::Text("description"@)]);
    let mut company = make_kind("object");
    company.insert("properties", JsonValue::object(properties));
    company.insert("required", JsonValue::array(required));
    let mut outer = JsonObject::new();
    outer.insert("companies", JsonValue::object(make_list(company)));
    let mut names: Vec<JsonValue> = Vec::new();
    names.push(JsonValue::text("companies"));
    assert(models(names@) =~= seq![Json::Text("companies"@)]);
    let mut out = make_kind("object");
    out.insert("properties", JsonValue::object(outer));
    out.insert("required", JsonValue::array(names));
    out
}

/// How the quickstart extracts.
pub fn extract_request(instruction: &str) -> (out: ExtractOptions)
    ensures
        out.instruction@ == instruction@,
        opt_view(out.model_name) == Some(ModelName::Gpt4o.name()),
        out.selector is None,
        opt_json(out.schema_definition) == Some(Json::Members(company_schema())),
        out.use_text_extract is None,
        out.dom_settle_timeout_ms is None,
        out.model_client_options is None,
{
    ExtractOptions {
        instruction: instruction.to_owned(),
        model_name: Some(ModelName::Gpt4o.to_text()),
        selector: None,
        schema_definition: Some(JsonValue::object(make_company_schema())),
        use_text_extract: None,
        dom_settle_timeout_ms: None,
        model_client_options: None,
    }
}

/// How the quickstart observes.
pub fn observe_request(instruction: &str) -> (out: ObserveOptions)
    ensures
        out.instruction@ == instruction@,
        opt_view(out.model_name) == Some(ModelName::Gpt4o.name()),
        out.draw_overlay == Some(false),
        out.dom_settle_timeout_ms is None,
        out.model_client_options is None,
{
    ObserveOptions {
        instruction: instruction.to_owned(),
        model_name: Some(ModelName::Gpt4o.to_text()),
        draw_overlay: Some(false),
        dom_settle_timeout_ms: None,
        model_client_options: None,
    }
}

/// How the quickstart acts.
pub fn act_request(instruction: &str) -> (out: ActOptions)
    ensures
        out.action@ == instruction@,
        out.variables is None,
        opt_view(out.model_name) == Some(ModelName::Gpt4o.name()),
        out.dom_settle_timeout_ms is None,
        out.timeout_ms is None,
        out.model_client_options is None,
{
    ActOptions {
        action: instruction.to_owned(),
        variables: None,
        model_name: Some(ModelName::Gpt4o.to_text()),
        dom_settle_timeout_ms: None,
        timeout_ms: None,
        model_client_options: None,
    }
}

/// What the quickstart reports about an extraction; nothing where there is no data.
pub fn extraction_line(data: Option<&JsonValue>) -> (out: Option<String>)
    ensures
        opt_view(out) == (match data {
            Some(data) => Some("Extraction result: "@ + written_json(data@)),
            None => None,
        }),
{
    match data {
        Some(data) => {
            let mut out = "Extraction result: ".to_owned();
            out.append(data.to_text().as_str());
            Some(out)
        },
        None => None,
    }
}

/// What the quickstart reports about an observation: its first element, where there
/// is one.
pub fn observation_line(results: &Vec<ObserveResult>) -> (out: Option<String>)
    ensures
        opt_view(out) == (if results@.len() == 0 {
            None
        } else {
            Some(
                "Observe result: "@ + results@[0]@.description + " via "@ + (match results@[0]@.method {
                    Some(method) => method,
                    None => "unknown"@,
                }),
            )
        }),
{
    if results.len() == 0 {
        return None;
    }
    let mut out = "Observe result: ".to_owned();
    out.append(results[0].description.as_str());
    out.append(" via ");
    match &results[0].method {
        Some(method) => out.append(method.as_str()),
        None => out.append("unknown"),
    }
    Some(out)
}

} // verus!
