//! Configuration: defaults, the environment, and overrides.
use crate::a11y::text_map;
use crate::json::{
    law_insert_then_get, member_of, parsed_json, read_json, with_member, Json, JsonObject,
    JsonValue, Members,
};
use crate::table::Table;
use crate::text::{
    ascii_lower, chars_of, copy_opt, decimal, is_digit, is_white_space, lemma_unsigned_within,
    lower_char, lower_of, opt_view, parse_unsigned, str_eq, to_lower, to_upper, trim, trim_end_of,
    trim_of, trim_start_of, u64_text, unsigned_of, upper_of, NumberError,
};
use vstd::prelude::*;
use vstd::string::*;

verus! {

/// Where the service is reached unless configured otherwise.
pub const DEFAULT_API_URL: &'static str = "https://api.stagehand.browserbase.com/v1";

/// Where the browser runs.
#[derive(Clone, Copy, Debug, PartialEq, Eq, Structural)]
pub enum Environment {
    Browserbase,
    Local,
}

impl Default for Environment {
    fn default() -> (out: Self)
        ensures
            out == Environment::Browserbase,
    {
        Environment::Browserbase
    }
}

impl Environment {
    /// The environment that a text names.
    pub open spec fn named(text: Seq<char>) -> Option<Environment> {
        let name = upper_of(trim_of(text));
        if name == "BROWSERBASE"@ {
            Some(Environment::Browserbase)
        } else if name == "LOCAL"@ {
            Some(Environment::Local)
        } else {
            None
        }
    }

    /// Reads the environment that a text names.
    pub fn parse(value: &str) -> (out: Option<Self>)
        ensures
            out == Environment::named(value@),
    {
        let name = to_upper(trim(value).as_str());
        if str_eq(name.as_str(), "BROWSERBASE") {
            Some(Environment::Browserbase)
        } else if str_eq(name.as_str(), "LOCAL") {
            Some(Environment::Local)
        } else {
            None
        }
    }

    /// The name of an environment.
    pub open spec fn name(self) -> Seq<char> {
        match self {
            Environment::Browserbase => "BROWSERBASE"@,
            Environment::Local => "LOCAL"@,
        }
    }

    /// Gives the name of an environment.
    pub fn as_str(self) -> (out: &'static str)
        ensures
            out@ == self.name(),
    {
        match self {
            Environment::Browserbase => "BROWSERBASE",
            Environment::Local => "LOCAL",
        }
    }
}

/// How much is logged.
#[derive(Clone, Copy, Debug, PartialEq, Eq, Structural)]
pub enum Verbosity {
    Minimal,
    Medium,
    Detailed,
}

impl Default for Verbosity {
    fn default() -> (out: Self)
        ensures
            out == Verbosity::Medium,
    {
        Verbosity::Medium
    }
}

impl Verbosity {
    /// The number of a verbosity.
    pub open spec fn number(self) -> u8 {
        match self {
            Verbosity::Minimal => 0,
            Verbosity::Medium => 1,
            Verbosity::Detailed => 2,
        }
    }

    /// The verbosity with a number.
    pub open spec fn numbered(value: u8) -> Option<Verbosity> {
        if value == 0 {
            Some(Verbosity::Minimal)
        } else if value == 1 {
            Some(Verbosity::Medium)
        } else if value == 2 {
            Some(Verbosity::Detailed)
        } else {
            None
        }
    }

    /// Gives the number of a verbosity.
    pub fn as_u8(self) -> (out: u8)
        ensures
            out == self.number(),
    {
        match self {
            Verbosity::Minimal => 0,
            Verbosity::Medium => 1,
            Verbosity::Detailed => 2,
        }
    }

    /// Gives the verbosity with a number.
    pub fn from_u8(value: u8) -> (out: Option<Self>)
        ensures
            out == Verbosity::numbered(value),
    {
        match value {
            0 => Some(Verbosity::Minimal),
            1 => Some(Verbosity::Medium),
            2 => Some(Verbosity::Detailed),
            _ => None,
        }
    }
}

/// A verbosity is found again by its number, and only those three numbers name one.
pub proof fn law_verbosity_numbers(verbosity: Verbosity, value: u8)
    ensures
        Verbosity::numbered(verbosity.number()) == Some(verbosity),
        Verbosity::numbered(value) matches Some(found) ==> found.number() == value,
{
}

/// The language models that are known by name.
#[derive(Clone, Copy, Debug, PartialEq, Eq, Structural)]
pub enum ModelName {
    Gpt4o,
    Gpt4oMini,
    Claude35SonnetLatest,
    Claude37SonnetLatest,
    ComputerUsePreview,
    Gemini20Flash,
}

impl Default for ModelName {
    fn default() -> (out: Self)
        ensures
            out == ModelName::Gpt4o,
    {
        ModelName::Gpt4o
    }
}

/// The first `n` characters of a name in capitals and digits, in words joined by
/// hyphens: each capital and each digit begins a word.
pub open spec fn hyphened(s: Seq<char>, n: nat) -> Seq<char>
    decreases n,
{
    if n == 0 {
        seq![]
    } else {
        let before = hyphened(s, (n - 1) as nat);
        let c = s[n - 1];
        if n > 1 && ('A' <= c <= 'Z' || is_digit(c)) {
            before + seq!['-', ascii_lower(c)]
        } else {
            before.push(ascii_lower(c))
        }
    }
}

fn hyphen(name: &str) -> (out: String)
    ensures
        out@ == hyphened(name@, name@.len()),
{
    let chars = chars_of(name);
    let mut out = String::new();
    let mut i: usize = 0;
    while i < chars.len()
        invariant
            i <= chars.len(),
            chars@ == name@,
            out@ == hyphened(name@, i as nat),
        decreases chars.len() - i,
    {
        let ghost before = out@;
        let c = chars[i];
        if i > 0 && (('A' <= c && c <= 'Z') || ('0' <= c && c <= '9')) {
            out.push('-');
            out.push(lower_char(c));
            assert(out@ =~= before + seq!['-', ascii_lower(c)]);
        } else {
            out.push(lower_char(c));
        }
        i += 1;
    }
    out
}

impl ModelName {
    /// The model that a text names.
    pub open spec fn named(text: Seq<char>) -> Option<ModelName> {
        let name = trim_of(text);
        if name == ModelName::Gpt4o.name() {
            Some(ModelName::Gpt4o)
        } else if name == ModelName::Gpt4oMini.name() {
            Some(ModelName::Gpt4oMini)
        } else if name == ModelName::Claude35SonnetLatest.name() {
            Some(ModelName::Claude35SonnetLatest)
        } else if name == ModelName::Claude37SonnetLatest.name() {
            Some(ModelName::Claude37SonnetLatest)
        } else if name == ModelName::ComputerUsePreview.name() {
            Some(ModelName::ComputerUsePreview)
        } else if name == ModelName::Gemini20Flash.name() {
            Some(ModelName::Gemini20Flash)
        } else {
            None
        }
    }

    /// Reads the model that a text names.
    pub fn parse(value: &str) -> (out: Option<Self>)
        ensures
            out == ModelName::named(value@),
    {
        let name = trim(value);
        let models = [
            ModelName::Gpt4o,
            ModelName::Gpt4oMini,
            ModelName::Claude35SonnetLatest,
            ModelName::Claude37SonnetLatest,
            ModelName::ComputerUsePreview,
            ModelName::Gemini20Flash,
        ];
        let mut i: usize = 0;
        while i < models.len()
            invariant
                i <= models.len(),
                name@ == trim_of(value@),
                models@ == seq![
                    ModelName::Gpt4o,
                    ModelName::Gpt4oMini,
                    ModelName::Claude35SonnetLatest,
                    ModelName::Claude37SonnetLatest,
                    ModelName::ComputerUsePreview,
                    ModelName::Gemini20Flash,
                ],
                forall|k: int| 0 <= k < i ==> (#[trigger] models@[k]).name() != name@,
            decreases models.len() - i,
        {
            let own = models[i].to_text();
            if str_eq(own.as_str(), name.as_str()) {
                proof {
                    if i > 0 {
                        assert(models@[0].name() != name@);
                    }
                    if i > 1 {
                        assert(models@[1].name() != name@);
                    }
                    if i > 2 {
                        assert(models@[2].name() != name@);
                    }
                    if i > 3 {
                        assert(models@[3].name() != name@);
                    }
                    if i > 4 {
                        assert(models@[4].name() != name@);
                    }
                }
                return Some(models[i]);
            }
            i += 1;
        }
        assert(models@[0].name() != name@ && models@[1].name() != name@ && models@[2].name() != name@
            && models@[3].name() != name@ && models@[4].name() != name@ && models@[5].name()
            != name@);
        None
    }

    /// The name of a model. Two of them are the words of the model, joined by hyphens.
    pub open spec fn name(self) -> Seq<char> {
        match self {
            ModelName::Gpt4o => "gpt-4o"@,
            ModelName::Gpt4oMini => "gpt-4o-mini"@,
            ModelName::Claude35SonnetLatest => hyphened(
                "Claude35SonnetLatest"@,
                "Claude35SonnetLatest"@.len(),
            ),
            ModelName::Claude37SonnetLatest => hyphened(
                "Claude37SonnetLatest"@,
                "Claude37SonnetLatest"@.len(),
            ),
            ModelName::ComputerUsePreview => "computer-use-preview"@,
            ModelName::Gemini20Flash => "gemini-2.0-flash"@,
        }
    }

    /// Gives the name of a model.
    pub fn to_text(&self) -> (out: String)
        ensures
            out@ == self.name(),
    {
        match self {
            ModelName::Gpt4o => "gpt-4o".to_owned(),
            ModelName::Gpt4oMini => "gpt-4o-mini".to_owned(),
            ModelName::Claude35SonnetLatest => hyphen("Claude35SonnetLatest"),
            ModelName::Claude37SonnetLatest => hyphen("Claude37SonnetLatest"),
            ModelName::ComputerUsePreview => "computer-use-preview".to_owned(),
            ModelName::Gemini20Flash => "gemini-2.0-flash".to_owned(),
        }
    }
}

proof fn lemma_trimmed_name(name: Seq<char>)
    requires
        name.len() > 0,
        !is_white_space(name.first()),
        !is_white_space(name.last()),
    ensures
        trim_of(name) == name,
{
    assert(trim_start_of(name) == name);
    assert(trim_end_of(name) == name);
}

/// The names of the two models that are made of words: the maker's word of six
/// letters in small letters, with the version and the kind behind it.
pub proof fn law_sonnet_names()
    ensures
        ModelName::Claude35SonnetLatest.name() == lower_of("Claude35SonnetLatest"@.take(6))
            + "-3-5-sonnet-latest"@,
        ModelName::Claude37SonnetLatest.name() == lower_of("Claude37SonnetLatest"@.take(6))
            + "-3-7-sonnet-latest"@,
{
    reveal_strlit("Claude35SonnetLatest");
    reveal_strlit("Claude37SonnetLatest");
    reveal_strlit("-3-5-sonnet-latest");
    reveal_strlit("-3-7-sonnet-latest");
    reveal_with_fuel(hyphened, 21);
    assert(ModelName::Claude35SonnetLatest.name() =~= lower_of("Claude35SonnetLatest"@.take(6))
        + "-3-5-sonnet-latest"@);
    assert(ModelName::Claude37SonnetLatest.name() =~= lower_of("Claude37SonnetLatest"@.take(6))
        + "-3-7-sonnet-latest"@);
}

/// A model is found again by its name.
pub proof fn law_model_names(model: ModelName)
    ensures
        ModelName::named(model.name()) == Some(model),
{
    reveal_strlit("gpt-4o");
    reveal_strlit("gpt-4o-mini");
    law_sonnet_names();
    reveal_strlit("Claude35SonnetLatest");
    reveal_strlit("Claude37SonnetLatest");
    reveal_strlit("-3-5-sonnet-latest");
    reveal_strlit("-3-7-sonnet-latest");
    reveal_strlit("computer-use-preview");
    reveal_strlit("gemini-2.0-flash");
    assert(ModelName::Claude35SonnetLatest.name()[9] == "-3-5-sonnet-latest"@[3]);
    assert(ModelName::Claude37SonnetLatest.name()[9] == "-3-7-sonnet-latest"@[3]);
    lemma_trimmed_name(model.name());
}

/// An environment is found again by its name.
pub proof fn law_environment_names(environment: Environment)
    ensures
        Environment::named(environment.name()) == Some(environment),
{
    reveal_strlit("BROWSERBASE");
    reveal_strlit("LOCAL");
    lemma_trimmed_name(environment.name());
    assert(upper_of("BROWSERBASE"@) =~= "BROWSERBASE"@);
    assert(upper_of("LOCAL"@) =~= "LOCAL"@);
    assert("BROWSERBASE"@.len() != "LOCAL"@.len());
}

/// Why a configuration cannot be made.
#[allow(inconsistent_fields)]
#[derive(Debug, PartialEq, Eq)]
pub enum StagehandConfigError {
    InvalidEnumVariant { field: &'static str, value: String },
    InvalidBool { field: &'static str, value: String },
    InvalidNumber { field: &'static str, value: String, source: NumberError },
    InvalidJsonType { field: &'static str },
    InvalidJson { field: &'static str, source: String },
}

impl StagehandConfigError {
    /// The error as text.
    pub open spec fn text(self) -> Seq<char> {
        match self {
            StagehandConfigError::InvalidEnumVariant { field, value } => "invalid value '"@ + value@
                + "' for "@ + field@,
            StagehandConfigError::InvalidBool { field, value } => "invalid boolean '"@ + value@
                + "' for "@ + field@,
            StagehandConfigError::InvalidNumber { field, value, source } => "invalid number '"@
                + value@ + "' for "@ + field@ + ": "@ + source.text(),
            StagehandConfigError::InvalidJsonType { field } => field@ + " must be a JSON object"@,
            StagehandConfigError::InvalidJson { field, source } => "invalid JSON for "@ + field@
                + ": "@ + source@,
        }
    }

    /// Gives the error as text.
    pub fn message(&self) -> (out: String)
        ensures
            out@ == self.text(),
    {
        match self {
            StagehandConfigError::InvalidEnumVariant { field, value } => {
                let mut out = "invalid value '".to_owned();
                out.append(value.as_str());
                out.append("' for ");
                out.append(*field);
                out
            },
            StagehandConfigError::InvalidBool { field, value } => {
                let mut out = "invalid boolean '".to_owned();
                out.append(value.as_str());
                out.append("' for ");
                out.append(*field);
                out
            },
            StagehandConfigError::InvalidNumber { field, value, source } => {
                let mut out = "invalid number '".to_owned();
                out.append(value.as_str());
                out.append("' for ");
                out.append(*field);
                out.append(": ");
                out.append(source.message());
                out
            },
            StagehandConfigError::InvalidJsonType { field } => {
                let mut out = (*field).to_owned();
                out.append(" must be a JSON object");
                out
            },
            StagehandConfigError::InvalidJson { field, source } => {
                let mut out = "invalid JSON for ".to_owned();
                out.append(*field);
                out.append(": ");
                out.append(source.as_str());
                out
            },
        }
    }
}

/// What is wrong with a configuration, as characters.
#[allow(inconsistent_fields)]
pub enum Issue {
    Enum { field: Seq<char>, value: Seq<char> },
    Bool { field: Seq<char>, value: Seq<char> },
    Number { field: Seq<char>, value: Seq<char>, source: NumberError },
    JsonType { field: Seq<char> },
    Json { field: Seq<char>, source: Seq<char> },
}

impl View for StagehandConfigError {
    type V = Issue;

    open spec fn view(&self) -> Issue {
        match self {
            StagehandConfigError::InvalidEnumVariant { field, value } => Issue::Enum {
                field: field@,
                value: value@,
            },
            StagehandConfigError::InvalidBool { field, value } => Issue::Bool {
                field: field@,
                value: value@,
            },
            StagehandConfigError::InvalidNumber { field, value, source } => Issue::Number {
                field: field@,
                value: value@,
                source: *source,
            },
            StagehandConfigError::InvalidJsonType { field } => Issue::JsonType { field: field@ },
            StagehandConfigError::InvalidJson { field, source } => Issue::Json {
                field: field@,
                source: source@,
            },
        }
    }
}

/// The members of an object that may be absent.
pub open spec fn opt_members(object: Option<JsonObject>) -> Option<Members> {
    match object {
        Some(object) => Some(object@),
        None => None,
    }
}

/// The same object again, where there is one.
pub fn copy_object(object: &Option<JsonObject>) -> (out: Option<JsonObject>)
    ensures
        opt_members(out) == opt_members(*object),
{
    match object {
        Some(object) => Some(object.copy()),
        None => None,
    }
}

/// A configuration.
#[derive(Debug)]
pub struct StagehandConfig {
    pub env: Environment,
    pub api_key: Option<String>,
    pub project_id: Option<String>,
    pub api_url: String,
    pub browserbase_session_create_params: Option<JsonObject>,
    pub browserbase_session_id: Option<String>,
    pub model_name: ModelName,
    pub model_api_key: Option<String>,
    pub model_client_options: Option<JsonObject>,
    pub verbose: Verbosity,
    pub use_rich_logging: bool,
    pub dom_settle_timeout_ms: Option<u64>,
    pub enable_caching: bool,
    pub self_heal: bool,
    pub wait_for_captcha_solves: bool,
    pub act_timeout_ms: Option<u64>,
    pub system_prompt: Option<String>,
    pub local_browser_launch_options: JsonObject,
    pub use_api: bool,
    pub experimental: bool,
    pub headless: bool,
}

/// What a configuration stands for.
#[verifier::ext_equal]
pub struct Settings {
    pub env: Environment,
    pub api_key: Option<Seq<char>>,
    pub project_id: Option<Seq<char>>,
    pub api_url: Seq<char>,
    pub browserbase_session_create_params: Option<Members>,
    pub browserbase_session_id: Option<Seq<char>>,
    pub model_name: ModelName,
    pub model_api_key: Option<Seq<char>>,
    pub model_client_options: Option<Members>,
    pub verbose: Verbosity,
    pub use_rich_logging: bool,
    pub dom_settle_timeout_ms: Option<u64>,
    pub enable_caching: bool,
    pub self_heal: bool,
    pub wait_for_captcha_solves: bool,
    pub act_timeout_ms: Option<u64>,
    pub system_prompt: Option<Seq<char>>,
    pub local_browser_launch_options: Members,
    pub use_api: bool,
    pub experimental: bool,
    pub headless: bool,
}

impl View for StagehandConfig {
    type V = Settings;

    open spec fn view(&self) -> Settings {
        Settings {
            env: self.env,
            api_key: opt_view(self.api_key),
            project_id: opt_view(self.project_id),
            api_url: self.api_url@,
            browserbase_session_create_params: opt_members(self.browserbase_session_create_params),
            browserbase_session_id: opt_view(self.browserbase_session_id),
            model_name: self.model_name,
            model_api_key: opt_view(self.model_api_key),
            model_client_options: opt_members(self.model_client_options),
            verbose: self.verbose,
            use_rich_logging: self.use_rich_logging,
            dom_settle_timeout_ms: self.dom_settle_timeout_ms,
            enable_caching: self.enable_caching,
            self_heal: self.self_heal,
            wait_for_captcha_solves: self.wait_for_captcha_solves,
            act_timeout_ms: self.act_timeout_ms,
            system_prompt: opt_view(self.system_prompt),
            local_browser_launch_options: self.local_browser_launch_options@,
            use_api: self.use_api,
            experimental: self.experimental,
            headless: self.headless,
        }
    }
}

/// The settings where nothing is configured but the address of the service.
pub open spec fn default_settings(api_url: Seq<char>) -> Settings {
    Settings {
        env: Environment::Browserbase,
        api_key: None,
        project_id: None,
        api_url,
        browserbase_session_create_params: None,
        browserbase_session_id: None,
        model_name: ModelName::Gpt4o,
        model_api_key: None,
        model_client_options: None,
        verbose: Verbosity::Medium,
        use_rich_logging: true,
        dom_settle_timeout_ms: Some(3000),
        enable_caching: false,
        self_heal: true,
        wait_for_captcha_solves: false,
        act_timeout_ms: None,
        system_prompt: None,
        local_browser_launch_options: Members::empty(),
        use_api: true,
        experimental: false,
        headless: false,
    }
}

/// The value of an environment variable: trimmed, and none where it is blank.
pub open spec fn given(vars: Map<Seq<char>, Seq<char>>, key: Seq<char>) -> Option<Seq<char>> {
    if vars.dom().contains(key) && trim_of(vars[key]).len() > 0 {
        Some(trim_of(vars[key]))
    } else {
        None
    }
}

/// Reads the value of an environment variable.
pub fn env_var(vars: &Table<String>, key: &str) -> (out: Option<String>)
    ensures
        opt_view(out) == given(text_map(vars@), key@),
{
    assert(text_map(vars@).dom() =~= vars@.dom());
    match vars.get(key) {
        Some(value) => {
            let trimmed = trim(value.as_str());
            if trimmed.as_str().is_empty() {
                None
            } else {
                Some(trimmed)
            }
        },
        None => None,
    }
}

/// The truth value that a text names.
pub open spec fn truth_of(text: Seq<char>) -> Option<bool> {
    let word = lower_of(trim_of(text));
    if word == "1"@ || word == "true"@ || word == "yes"@ || word == "on"@ {
        Some(true)
    } else if word == "0"@ || word == "false"@ || word == "no"@ || word == "off"@ {
        Some(false)
    } else {
        None
    }
}

/// Reads a truth value.
pub fn parse_bool(field: &'static str, value: &str) -> (out: Result<bool, StagehandConfigError>)
    ensures
        match out {
            Ok(flag) => truth_of(value@) == Some(flag),
            Err(error) => truth_of(value@) is None && error@ == (Issue::Bool {
                field: field@,
                value: value@,
            }),
        },
{
    let word = to_lower(trim(value).as_str());
    let w = word.as_str();
    if str_eq(w, "1") || str_eq(w, "true") || str_eq(w, "yes") || str_eq(w, "on") {
        Ok(true)
    } else if str_eq(w, "0") || str_eq(w, "false") || str_eq(w, "no") || str_eq(w, "off") {
        Ok(false)
    } else {
        Err(StagehandConfigError::InvalidBool { field, value: value.to_owned() })
    }
}

/// Reads a number of eight bits.
pub fn parse_u8(field: &'static str, value: &str) -> (out: Result<u8, StagehandConfigError>)
    ensures
        match (out, unsigned_of(trim_of(value@), 255)) {
            (Ok(n), Ok(m)) => n == m,
            (Err(error), Err(source)) => error@ == (Issue::Number {
                field: field@,
                value: value@,
                source,
            }),
            _ => false,
        },
{
    proof {
        lemma_unsigned_within(trim_of(value@), 255);
    }
    match parse_unsigned(trim(value).as_str(), 255) {
        Ok(n) => Ok(n as u8),
        Err(source) => Err(
            StagehandConfigError::InvalidNumber { field, value: value.to_owned(), source },
        ),
    }
}

/// Reads a number of 64 bits.
pub fn parse_u64(field: &'static str, value: &str) -> (out: Result<u64, StagehandConfigError>)
    ensures
        match (out, unsigned_of(trim_of(value@), u64::MAX as nat)) {
            (Ok(n), Ok(m)) => n == m,
            (Err(error), Err(source)) => error@ == (Issue::Number {
                field: field@,
                value: value@,
                source,
            }),
            _ => false,
        },
{
    match parse_unsigned(trim(value).as_str(), u64::MAX) {
        Ok(n) => Ok(n),
        Err(source) => Err(
            StagehandConfigError::InvalidNumber { field, value: value.to_owned(), source },
        ),
    }
}

/// The object that a parsed text is, or what is wrong with it.
pub open spec fn object_in(field: Seq<char>, parsed: Result<Json, Seq<char>>) -> Result<
    Members,
    Issue,
> {
    match parsed {
        Ok(Json::Members(members)) => Ok(members),
        Ok(_) => Err(Issue::JsonType { field }),
        Err(source) => Err(Issue::Json { field, source }),
    }
}

/// The model of a parsed text.
pub open spec fn parse_model(parsed: Result<JsonValue, String>) -> Result<Json, Seq<char>> {
    match parsed {
        Ok(value) => Ok(value@),
        Err(why) => Err(why@),
    }
}

/// Takes the object that a parsed text is.
pub fn object_from_parsed(field: &'static str, parsed: Result<JsonValue, String>) -> (out: Result<
    JsonObject,
    StagehandConfigError,
>)
    ensures
        match (out, object_in(field@, parse_model(parsed))) {
            (Ok(object), Ok(members)) => object@ == members,
            (Err(error), Err(issue)) => error@ == issue,
            _ => false,
        },
{
    match parsed {
        Ok(value) => match value.as_object() {
            Some(object) => Ok(object.copy()),
            None => Err(StagehandConfigError::InvalidJsonType { field }),
        },
        Err(source) => Err(StagehandConfigError::InvalidJson { field, source }),
    }
}

/// Reads a JSON object.
pub fn parse_json_object(field: &'static str, value: &str) -> (out: Result<
    JsonObject,
    StagehandConfigError,
>)
    ensures
        match (out, object_in(field@, parsed_json(value@))) {
            (Ok(object), Ok(members)) => object@ == members,
            (Err(error), Err(issue)) => error@ == issue,
            _ => false,
        },
{
    object_from_parsed(field, read_json(value))
}

/// The first of two things that may be wrong.
pub open spec fn first(a: Option<Issue>, b: Option<Issue>) -> Option<Issue> {
    match a {
        Some(_) => a,
        None => b,
    }
}

/// What is wrong with a variable for the environment.
pub open spec fn environment_issue(vars: Map<Seq<char>, Seq<char>>, key: Seq<char>) -> Option<
    Issue,
> {
    match given(vars, key) {
        Some(value) if Environment::named(value) is None => Some(Issue::Enum { field: key, value }),
        _ => None,
    }
}

/// What is wrong with a variable for the model.
pub open spec fn model_issue(vars: Map<Seq<char>, Seq<char>>, key: Seq<char>) -> Option<Issue> {
    match given(vars, key) {
        Some(value) if ModelName::named(value) is None => Some(Issue::Enum { field: key, value }),
        _ => None,
    }
}

/// What is wrong with a variable for the verbosity.
pub open spec fn verbosity_issue(vars: Map<Seq<char>, Seq<char>>, key: Seq<char>) -> Option<
    Issue,
> {
    match given(vars, key) {
        Some(value) => match unsigned_of(trim_of(value), 255) {
            Err(source) => Some(Issue::Number { field: key, value, source }),
            Ok(n) => if n > 2 {
                Some(Issue::Enum { field: key, value: decimal(n) })
            } else {
                None
            },
        },
        None => None,
    }
}

/// What is wrong with a variable for a truth value.
pub open spec fn bool_issue(vars: Map<Seq<char>, Seq<char>>, key: Seq<char>) -> Option<Issue> {
    match given(vars, key) {
        Some(value) if truth_of(value) is None => Some(Issue::Bool { field: key, value }),
        _ => None,
    }
}

/// What is wrong with a variable for a number.
pub open spec fn number_issue(vars: Map<Seq<char>, Seq<char>>, key: Seq<char>) -> Option<Issue> {
    match given(vars, key) {
        Some(value) => match unsigned_of(trim_of(value), u64::MAX as nat) {
            Err(source) => Some(Issue::Number { field: key, value, source }),
            Ok(_) => None,
        },
        None => None,
    }
}

/// What is wrong with a variable for an object.
pub open spec fn object_issue(vars: Map<Seq<char>, Seq<char>>, key: Seq<char>) -> Option<Issue> {
    match given(vars, key) {
        Some(value) => match object_in(key, parsed_json(value)) {
            Err(issue) => Some(issue),
            Ok(_) => None,
        },
        None => None,
    }
}

/// What is wrong with the environment variables: the first, in this order, that
/// cannot be read.
pub open spec fn env_issue(vars: Map<Seq<char>, Seq<char>>) -> Option<Issue> {
    let i1 = environment_issue(vars, "STAGEHAND_ENV"@);
    let i2 = model_issue(vars, "MODEL_NAME"@);
    let i3 = verbosity_issue(vars, "STAGEHAND_VERBOSE"@);
    let i4 = bool_issue(vars, "STAGEHAND_USE_RICH_LOGGING"@);
    let i5 = number_issue(vars, "STAGEHAND_DOM_SETTLE_TIMEOUT_MS"@);
    let i6 = bool_issue(vars, "STAGEHAND_ENABLE_CACHING"@);
    let i7 = bool_issue(vars, "STAGEHAND_SELF_HEAL"@);
    let i8 = bool_issue(vars, "STAGEHAND_WAIT_FOR_CAPTCHA_SOLVES"@);
    let i9 = number_issue(vars, "STAGEHAND_ACT_TIMEOUT_MS"@);
    let i10 = object_issue(vars, "STAGEHAND_MODEL_CLIENT_OPTIONS"@);
    let i11 = object_issue(vars, "STAGEHAND_LOCAL_BROWSER_LAUNCH_OPTIONS"@);
    let i12 = object_issue(vars, "BROWSERBASE_SESSION_CREATE_PARAMS"@);
    let i13 = bool_issue(vars, "STAGEHAND_USE_API"@);
    let i14 = bool_issue(vars, "STAGEHAND_EXPERIMENTAL"@);
    let i15 = bool_issue(vars, "STAGEHAND_HEADLESS"@);
    first(i1, first(i2, first(i3, first(i4, first(i5, first(i6, first(i7, first(i8, first(i9, first(i10, first(i11, first(i12, first(i13, first(i14, i15))))))))))))))
}

/// A truth value from a variable, or the one given where there is none.
pub open spec fn bool_from(vars: Map<Seq<char>, Seq<char>>, key: Seq<char>, other: bool) -> bool {
    match given(vars, key) {
        Some(value) => truth_of(value) == Some(true),
        None => other,
    }
}

/// A number from a variable, or the one given where there is none.
pub open spec fn number_from(
    vars: Map<Seq<char>, Seq<char>>,
    key: Seq<char>,
    other: Option<u64>,
) -> Option<u64> {
    match given(vars, key) {
        Some(value) => match unsigned_of(trim_of(value), u64::MAX as nat) {
            Ok(n) => Some(n as u64),
            Err(_) => None,
        },
        None => other,
    }
}

/// An object from a variable.
pub open spec fn object_from(vars: Map<Seq<char>, Seq<char>>, key: Seq<char>) -> Option<Members> {
    match given(vars, key) {
        Some(value) => match object_in(key, parsed_json(value)) {
            Ok(members) => Some(members),
            Err(_) => None,
        },
        None => None,
    }
}

/// The address of the service: as the variable gives it, trimmed unless it is
/// blank, or the default where there is none.
pub open spec fn url_from(vars: Map<Seq<char>, Seq<char>>) -> Seq<char> {
    match given(vars, "STAGEHAND_API_URL"@) {
        Some(url) => url,
        None => if vars.dom().contains("STAGEHAND_API_URL"@) {
            vars["STAGEHAND_API_URL"@]
        } else {
            DEFAULT_API_URL@
        },
    }
}

/// Settings whose session parameters name the project, where both are configured
/// and the parameters do not name one themselves.
pub open spec fn with_project(settings: Settings) -> Settings {
    Settings {
        browserbase_session_create_params: match (
            settings.browserbase_session_create_params,
            settings.project_id,
        ) {
            (Some(params), Some(project)) if member_of(params, "project_id"@) is None => Some(
                with_member(params, "project_id"@, Json::Text(project)),
            ),
            (params, _) => params,
        },
        ..settings
    }
}

/// The settings that the environment variables give.
pub open spec fn env_settings(vars: Map<Seq<char>, Seq<char>>) -> Settings {
    with_project(
        Settings {
            env: match given(vars, "STAGEHAND_ENV"@) {
                Some(value) => Environment::named(value)->0,
                None => Environment::Browserbase,
            },
            api_url: url_from(vars),
            model_name: match given(vars, "MODEL_NAME"@) {
                Some(value) => ModelName::named(value)->0,
                None => ModelName::Gpt4o,
            },
            verbose: match given(vars, "STAGEHAND_VERBOSE"@) {
                Some(value) => Verbosity::numbered(unsigned_of(trim_of(value), 255)->Ok_0 as u8)->0,
                None => Verbosity::Medium,
            },
            local_browser_launch_options: match object_from(
                vars,
                "STAGEHAND_LOCAL_BROWSER_LAUNCH_OPTIONS"@,
            ) {
                Some(members) => members,
                None => Members::empty(),
            },
            api_key: given(vars, "BROWSERBASE_API_KEY"@),
            project_id: given(vars, "BROWSERBASE_PROJECT_ID"@),
            model_api_key: given(vars, "MODEL_API_KEY"@),
            browserbase_session_id: given(vars, "BROWSERBASE_SESSION_ID"@),
            system_prompt: given(vars, "STAGEHAND_SYSTEM_PROMPT"@),
            use_rich_logging: bool_from(vars, "STAGEHAND_USE_RICH_LOGGING"@, true),
            enable_caching: bool_from(vars, "STAGEHAND_ENABLE_CACHING"@, false),
            self_heal: bool_from(vars, "STAGEHAND_SELF_HEAL"@, true),
            wait_for_captcha_solves: bool_from(vars, "STAGEHAND_WAIT_FOR_CAPTCHA_SOLVES"@, false),
            use_api: bool_from(vars, "STAGEHAND_USE_API"@, true),
            experimental: bool_from(vars, "STAGEHAND_EXPERIMENTAL"@, false),
            headless: bool_from(vars, "STAGEHAND_HEADLESS"@, false),
            dom_settle_timeout_ms: number_from(vars, "STAGEHAND_DOM_SETTLE_TIMEOUT_MS"@, Some(3000)),
            act_timeout_ms: number_from(vars, "STAGEHAND_ACT_TIMEOUT_MS"@, None),
            model_client_options: object_from(vars, "STAGEHAND_MODEL_CLIENT_OPTIONS"@),
            browserbase_session_create_params: object_from(vars, "BROWSERBASE_SESSION_CREATE_PARAMS"@),
        },
    )
}

fn read_bool(vars: &Table<String>, key: &'static str, other: bool) -> (out: Result<
    bool,
    StagehandConfigError,
>)
    ensures
        match out {
            Ok(flag) => bool_issue(text_map(vars@), key@) is None && flag == bool_from(
                text_map(vars@),
                key@,
                other,
            ),
            Err(error) => bool_issue(text_map(vars@), key@) == Some(error@),
        },
{
    match env_var(vars, key) {
        Some(value) => parse_bool(key, value.as_str()),
        None => Ok(other),
    }
}

fn read_number(vars: &Table<String>, key: &'static str, other: Option<u64>) -> (out: Result<
    Option<u64>,
    StagehandConfigError,
>)
    ensures
        match out {
            Ok(n) => number_issue(text_map(vars@), key@) is None && n == number_from(
                text_map(vars@),
                key@,
                other,
            ),
            Err(error) => number_issue(text_map(vars@), key@) == Some(error@),
        },
{
    match env_var(vars, key) {
        Some(value) => match parse_u64(key, value.as_str()) {
            Ok(n) => Ok(Some(n)),
            Err(error) => Err(error),
        },
        None => Ok(other),
    }
}

fn read_object(vars: &Table<String>, key: &'static str) -> (out: Result<
    Option<JsonObject>,
    StagehandConfigError,
>)
    ensures
        match out {
            Ok(object) => object_issue(text_map(vars@), key@) is None && opt_members(object)
                == object_from(text_map(vars@), key@),
            Err(error) => object_issue(text_map(vars@), key@) == Some(error@),
        },
{
    match env_var(vars, key) {
        Some(value) => match parse_json_object(key, value.as_str()) {
            Ok(object) => Ok(Some(object)),
            Err(error) => Err(error),
        },
        None => Ok(None),
    }
}

fn read_environment(vars: &Table<String>) -> (out: Result<Environment, StagehandConfigError>)
    ensures
        match out {
            Ok(env) => environment_issue(text_map(vars@), "STAGEHAND_ENV"@) is None && env == (
            match given(text_map(vars@), "STAGEHAND_ENV"@) {
                Some(value) => Environment::named(value)->0,
                None => Environment::Browserbase,
            }),
            Err(error) => environment_issue(text_map(vars@), "STAGEHAND_ENV"@) == Some(error@),
        },
{
    match env_var(vars, "STAGEHAND_ENV") {
        Some(value) => match Environment::parse(value.as_str()) {
            Some(env) => Ok(env),
            None => Err(
                StagehandConfigError::InvalidEnumVariant { field: "STAGEHAND_ENV", value },
            ),
        },
        None => Ok(Environment::default()),
    }
}

fn read_model(vars: &Table<String>) -> (out: Result<ModelName, StagehandConfigError>)
    ensures
        match out {
            Ok(model) => model_issue(text_map(vars@), "MODEL_NAME"@) is None && model == (
            match given(text_map(vars@), "MODEL_NAME"@) {
                Some(value) => ModelName::named(value)->0,
                None => ModelName::Gpt4o,
            }),
            Err(error) => model_issue(text_map(vars@), "MODEL_NAME"@) == Some(error@),
        },
{
    match env_var(vars, "MODEL_NAME") {
        Some(value) => match ModelName::parse(value.as_str()) {
            Some(model) => Ok(model),
            None => Err(StagehandConfigError::InvalidEnumVariant { field: "MODEL_NAME", value }),
        },
        None => Ok(ModelName::default()),
    }
}

fn read_verbosity(vars: &Table<String>) -> (out: Result<Verbosity, StagehandConfigError>)
    ensures
        match out {
            Ok(verbose) => verbosity_issue(text_map(vars@), "STAGEHAND_VERBOSE"@) is None && verbose
                == (match given(text_map(vars@), "STAGEHAND_VERBOSE"@) {
                Some(value) => Verbosity::numbered(unsigned_of(trim_of(value), 255)->Ok_0 as u8)->0,
                None => Verbosity::Medium,
            }),
            Err(error) => verbosity_issue(text_map(vars@), "STAGEHAND_VERBOSE"@) == Some(error@),
        },
{
    match env_var(vars, "STAGEHAND_VERBOSE") {
        Some(value) => match parse_u8("STAGEHAND_VERBOSE", value.as_str()) {
            Ok(n) => match Verbosity::from_u8(n) {
                Some(verbose) => Ok(verbose),
                None => Err(
                    StagehandConfigError::InvalidEnumVariant {
                        field: "STAGEHAND_VERBOSE",
                        value: u64_text(n as u64),
                    },
                ),
            },
            Err(error) => Err(error),
        },
        None => Ok(Verbosity::default()),
    }
}

impl Default for StagehandConfig {
    fn default() -> (out: Self)
        ensures
            out@ == default_settings(DEFAULT_API_URL@),
    {
        StagehandConfig::with_api_url(None)
    }
}

impl StagehandConfig {
    /// A configuration with the given address of the service, or the default one.
    pub fn with_api_url(api_url: Option<String>) -> (out: StagehandConfig)
        ensures
            out@ == default_settings(
                match opt_view(api_url) {
                    Some(url) => url,
                    None => DEFAULT_API_URL@,
                },
            ),
    {
        StagehandConfig {
            env: Environment::default(),
            api_key: None,
            project_id: None,
            api_url: match api_url {
                Some(url) => url,
                None => DEFAULT_API_URL.to_owned(),
            },
            browserbase_session_create_params: None,
            browserbase_session_id: None,
            model_name: ModelName::default(),
            model_api_key: None,
            model_client_options: None,
            verbose: Verbosity::default(),
            use_rich_logging: true,
            dom_settle_timeout_ms: Some(3000),
            enable_caching: false,
            self_heal: true,
            wait_for_captcha_solves: false,
            act_timeout_ms: None,
            system_prompt: None,
            local_browser_launch_options: JsonObject::new(),
            use_api: true,
            experimental: false,
            headless: false,
        }
    }

    /// Makes a configuration from environment variables. What a variable does not
    /// give is as in the default; the first variable that cannot be read is the
    /// error.
    #[verifier::rlimit(40)]
    pub fn from_env(vars: &Table<String>) -> (out: Result<Self, StagehandConfigError>)
        ensures
            match out {
                Ok(config) => env_issue(text_map(vars@)) is None && config@ == env_settings(
                    text_map(vars@),
                ),
                Err(error) => env_issue(text_map(vars@)) == Some(error@),
            },
    {
        assert(text_map(vars@).dom() =~= vars@.dom());
        let raw_url = match vars.get("STAGEHAND_API_URL") {
            Some(url) => Some(url.clone()),
            None => None,
        };
        let mut config = StagehandConfig::with_api_url(raw_url);
        match read_environment(vars) {
            Ok(value) => config.env = value,
            Err(error) => return Err(error),
        }
        config.api_key = env_var(vars, "BROWSERBASE_API_KEY");
        config.project_id = env_var(vars, "BROWSERBASE_PROJECT_ID");
        if let Some(url) = env_var(vars, "STAGEHAND_API_URL") {
            config.api_url = url;
        }
        config.model_api_key = env_var(vars, "MODEL_API_KEY");
        match read_model(vars) {
            Ok(value) => config.model_name = value,
            Err(error) => return Err(error),
        }
        match read_verbosity(vars) {
            Ok(value) => config.verbose = value,
            Err(error) => return Err(error),
        }
        match read_bool(vars, "STAGEHAND_USE_RICH_LOGGING", true) {
            Ok(value) => config.use_rich_logging = value,
            Err(error) => return Err(error),
        }
        match read_number(vars, "STAGEHAND_DOM_SETTLE_TIMEOUT_MS", Some(3000)) {
            Ok(value) => config.dom_settle_timeout_ms = value,
            Err(error) => return Err(error),
        }
        match read_bool(vars, "STAGEHAND_ENABLE_CACHING", false) {
            Ok(value) => config.enable_caching = value,
            Err(error) => return Err(error),
        }
        config.browserbase_session_id = env_var(vars, "BROWSERBASE_SESSION_ID");
        match read_bool(vars, "STAGEHAND_SELF_HEAL", true) {
            Ok(value) => config.self_heal = value,
            Err(error) => return Err(error),
        }
        match read_bool(vars, "STAGEHAND_WAIT_FOR_CAPTCHA_SOLVES", false) {
            Ok(value) => config.wait_for_captcha_solves = value,
            Err(error) => return Err(error),
        }
        match read_number(vars, "STAGEHAND_ACT_TIMEOUT_MS", None) {
            Ok(value) => config.act_timeout_ms = value,
            Err(error) => return Err(error),
        }
        config.system_prompt = env_var(vars, "STAGEHAND_SYSTEM_PROMPT");
        match read_object(vars, "STAGEHAND_MODEL_CLIENT_OPTIONS") {
            Ok(value) => config.model_client_options = value,
            Err(error) => return Err(error),
        }
        match read_object(vars, "STAGEHAND_LOCAL_BROWSER_LAUNCH_OPTIONS") {
            Ok(Some(value)) => config.local_browser_launch_options = value,
            Ok(None) => {},
            Err(error) => return Err(error),
        }
        match read_object(vars, "BROWSERBASE_SESSION_CREATE_PARAMS") {
            Ok(value) => config.browserbase_session_create_params = value,
            Err(error) => return Err(error),
        }
        match read_bool(vars, "STAGEHAND_USE_API", true) {
            Ok(value) => config.use_api = value,
            Err(error) => return Err(error),
        }
        match read_bool(vars, "STAGEHAND_EXPERIMENTAL", false) {
            Ok(value) => config.experimental = value,
            Err(error) => return Err(error),
        }
        match read_bool(vars, "STAGEHAND_HEADLESS", false) {
            Ok(value) => config.headless = value,
            Err(error) => return Err(error),
        }
        config.ensure_session_project_id();
        assert(config@ =~= env_settings(text_map(vars@)));
        Ok(config)
    }

    /// The session parameters, which name the project where they can.
    pub fn browserbase_session_create_params(&self) -> (out: Option<JsonObject>)
        ensures
            opt_members(out) == with_project(self@).browserbase_session_create_params,
    {
        match &self.browserbase_session_create_params {
            None => None,
            Some(params) => {
                let mut params = params.copy();
                if !params.contains_key("project_id") {
                    if let Some(project) = &self.project_id {
                        params.insert("project_id", JsonValue::text(project.as_str()));
                    }
                }
                Some(params)
            },
        }
    }

    fn ensure_session_project_id(&mut self)
        ensures
            final(self)@ == with_project(old(self)@),
    {
        let params = self.browserbase_session_create_params();
        self.browserbase_session_create_params = params;
    }

    /// The same configuration again.
    pub fn copy(&self) -> (out: StagehandConfig)
        ensures
            out@ == self@,
    {
        StagehandConfig {
            env: self.env,
            api_key: copy_opt(&self.api_key),
            project_id: copy_opt(&self.project_id),
            api_url: self.api_url.clone(),
            browserbase_session_create_params: copy_object(&self.browserbase_session_create_params),
            browserbase_session_id: copy_opt(&self.browserbase_session_id),
            model_name: self.model_name,
            model_api_key: copy_opt(&self.model_api_key),
            model_client_options: copy_object(&self.model_client_options),
            verbose: self.verbose,
            use_rich_logging: self.use_rich_logging,
            dom_settle_timeout_ms: self.dom_settle_timeout_ms,
            enable_caching: self.enable_caching,
            self_heal: self.self_heal,
            wait_for_captcha_solves: self.wait_for_captcha_solves,
            act_timeout_ms: self.act_timeout_ms,
            system_prompt: copy_opt(&self.system_prompt),
            local_browser_launch_options: self.local_browser_launch_options.copy(),
            use_api: self.use_api,
            experimental: self.experimental,
            headless: self.headless,
        }
    }

    fn apply_overrides(&self, overrides: StagehandConfigOverrides) -> (out: StagehandConfig)
        ensures
            out@ == (Settings {
                env: picked(overrides.env, self@.env),
                api_key: picked(opt_opt_view(overrides.api_key), self@.api_key),
                project_id: picked(opt_opt_view(overrides.project_id), self@.project_id),
                api_url: picked(opt_view(overrides.api_url), self@.api_url),
                browserbase_session_create_params: picked(opt_opt_members(overrides.browserbase_session_create_params), self@.browserbase_session_create_params),
                browserbase_session_id: picked(opt_opt_view(overrides.browserbase_session_id), self@.browserbase_session_id),
                model_name: picked(overrides.model_name, self@.model_name),
                model_api_key: picked(opt_opt_view(overrides.model_api_key), self@.model_api_key),
                model_client_options: picked(opt_opt_members(overrides.model_client_options), self@.model_client_options),
                verbose: picked(overrides.verbose, self@.verbose),
                use_rich_logging: picked(overrides.use_rich_logging, self@.use_rich_logging),
                dom_settle_timeout_ms: picked(overrides.dom_settle_timeout_ms, self@.dom_settle_timeout_ms),
                enable_caching: picked(overrides.enable_caching, self@.enable_caching),
                self_heal: picked(overrides.self_heal, self@.self_heal),
                wait_for_captcha_solves: picked(overrides.wait_for_captcha_solves, self@.wait_for_captcha_solves),
                act_timeout_ms: picked(overrides.act_timeout_ms, self@.act_timeout_ms),
                system_prompt: picked(opt_opt_view(overrides.system_prompt), self@.system_prompt),
                local_browser_launch_options: picked(opt_members(overrides.local_browser_launch_options), self@.local_browser_launch_options),
                use_api: picked(overrides.use_api, self@.use_api),
                experimental: picked(overrides.experimental, self@.experimental),
                headless: picked(overrides.headless, self@.headless),
            }),
    {
        let base = self.copy();
        StagehandConfig {
            env: chosen(overrides.env, base.env),
            api_key: chosen_text(overrides.api_key, base.api_key),
            project_id: chosen_text(overrides.project_id, base.project_id),
            api_url: chosen_url(overrides.api_url, base.api_url),
            browserbase_session_create_params: chosen_object(overrides.browserbase_session_create_params, base.browserbase_session_create_params),
            browserbase_session_id: chosen_text(overrides.browserbase_session_id, base.browserbase_session_id),
            model_name: chosen(overrides.model_name, base.model_name),
            model_api_key: chosen_text(overrides.model_api_key, base.model_api_key),
            model_client_options: chosen_object(overrides.model_client_options, base.model_client_options),
            verbose: chosen(overrides.verbose, base.verbose),
            use_rich_logging: chosen(overrides.use_rich_logging, base.use_rich_logging),
            dom_settle_timeout_ms: chosen(overrides.dom_settle_timeout_ms, base.dom_settle_timeout_ms),
            enable_caching: chosen(overrides.enable_caching, base.enable_caching),
            self_heal: chosen(overrides.self_heal, base.self_heal),
            wait_for_captcha_solves: chosen(overrides.wait_for_captcha_solves, base.wait_for_captcha_solves),
            act_timeout_ms: chosen(overrides.act_timeout_ms, base.act_timeout_ms),
            system_prompt: chosen_text(overrides.system_prompt, base.system_prompt),
            local_browser_launch_options: chosen_launch(overrides.local_browser_launch_options, base.local_browser_launch_options),
            use_api: chosen(overrides.use_api, base.use_api),
            experimental: chosen(overrides.experimental, base.experimental),
            headless: chosen(overrides.headless, base.headless),
        }
    }

    /// The configuration with the given overrides in place of its own values.
    pub fn with_overrides(&self, overrides: StagehandConfigOverrides) -> (out: StagehandConfig)
        ensures
            out@ == with_project(overridden(self@, overrides)),
    {
        let mut next = self.apply_overrides(overrides);
        proof {
            lemma_picked(overrides.env, self@.env);
            lemma_picked(opt_opt_view(overrides.api_key), self@.api_key);
            lemma_picked(opt_opt_view(overrides.project_id), self@.project_id);
            lemma_picked(opt_view(overrides.api_url), self@.api_url);
            lemma_picked(opt_opt_members(overrides.browserbase_session_create_params), self@.browserbase_session_create_params);
            lemma_picked(opt_opt_view(overrides.browserbase_session_id), self@.browserbase_session_id);
            lemma_picked(overrides.model_name, self@.model_name);
            lemma_picked(opt_opt_view(overrides.model_api_key), self@.model_api_key);
            lemma_picked(opt_opt_members(overrides.model_client_options), self@.model_client_options);
            lemma_picked(overrides.verbose, self@.verbose);
            lemma_picked(overrides.use_rich_logging, self@.use_rich_logging);
            lemma_picked(overrides.dom_settle_timeout_ms, self@.dom_settle_timeout_ms);
            lemma_picked(overrides.enable_caching, self@.enable_caching);
            lemma_picked(overrides.self_heal, self@.self_heal);
            lemma_picked(overrides.wait_for_captcha_solves, self@.wait_for_captcha_solves);
            lemma_picked(overrides.act_timeout_ms, self@.act_timeout_ms);
            lemma_picked(opt_opt_view(overrides.system_prompt), self@.system_prompt);
            lemma_picked(opt_members(overrides.local_browser_launch_options), self@.local_browser_launch_options);
            lemma_picked(overrides.use_api, self@.use_api);
            lemma_picked(overrides.experimental, self@.experimental);
            lemma_picked(overrides.headless, self@.headless);
        }
        assert(next@ == overridden(self@, overrides));
        next.ensure_session_project_id();
        next
    }
}

/// Settings with the given overrides in place of their own values.
pub open spec fn overridden(settings: Settings, overrides: StagehandConfigOverrides) -> Settings {
    Settings {
        env: pick(overrides.env, settings.env),
        api_key: pick(opt_opt_view(overrides.api_key), settings.api_key),
        project_id: pick(opt_opt_view(overrides.project_id), settings.project_id),
        api_url: pick(opt_view(overrides.api_url), settings.api_url),
        browserbase_session_create_params: pick(opt_opt_members(overrides.browserbase_session_create_params), settings.browserbase_session_create_params),
        browserbase_session_id: pick(opt_opt_view(overrides.browserbase_session_id), settings.browserbase_session_id),
        model_name: pick(overrides.model_name, settings.model_name),
        model_api_key: pick(opt_opt_view(overrides.model_api_key), settings.model_api_key),
        model_client_options: pick(opt_opt_members(overrides.model_client_options), settings.model_client_options),
        verbose: pick(overrides.verbose, settings.verbose),
        use_rich_logging: pick(overrides.use_rich_logging, settings.use_rich_logging),
        dom_settle_timeout_ms: pick(overrides.dom_settle_timeout_ms, settings.dom_settle_timeout_ms),
        enable_caching: pick(overrides.enable_caching, settings.enable_caching),
        self_heal: pick(overrides.self_heal, settings.self_heal),
        wait_for_captcha_solves: pick(overrides.wait_for_captcha_solves, settings.wait_for_captcha_solves),
        act_timeout_ms: pick(overrides.act_timeout_ms, settings.act_timeout_ms),
        system_prompt: pick(opt_opt_view(overrides.system_prompt), settings.system_prompt),
        local_browser_launch_options: pick(opt_members(overrides.local_browser_launch_options), settings.local_browser_launch_options),
        use_api: pick(overrides.use_api, settings.use_api),
        experimental: pick(overrides.experimental, settings.experimental),
        headless: pick(overrides.headless, settings.headless),
    }
}

impl Clone for StagehandConfig {
    fn clone(&self) -> (out: Self)
        ensures
            out@ == self@,
    {
        self.copy()
    }
}

/// What overrides a value, or the value itself where nothing does.
pub open spec fn pick<T>(over: Option<T>, own: T) -> T {
    match over {
        Some(value) => value,
        None => own,
    }
}

#[verifier::opaque]
spec fn picked<T>(over: Option<T>, own: T) -> T {
    pick(over, own)
}

proof fn lemma_picked<T>(over: Option<T>, own: T)
    ensures
        picked(over, own) == pick(over, own),
{
    reveal(picked);
}

fn chosen<T>(over: Option<T>, own: T) -> (out: T)
    ensures
        out == picked(over, own),
{
    reveal(picked);
    match over {
        Some(value) => value,
        None => own,
    }
}

fn chosen_text(over: Option<Option<String>>, own: Option<String>) -> (out: Option<String>)
    ensures
        opt_view(out) == picked(opt_opt_view(over), opt_view(own)),
{
    reveal(picked);
    chosen(over, own)
}

fn chosen_object(over: Option<Option<JsonObject>>, own: Option<JsonObject>) -> (out: Option<
    JsonObject,
>)
    ensures
        opt_members(out) == picked(opt_opt_members(over), opt_members(own)),
{
    reveal(picked);
    chosen(over, own)
}

fn chosen_url(over: Option<String>, own: String) -> (out: String)
    ensures
        out@ == picked(opt_view(over), own@),
{
    reveal(picked);
    chosen(over, own)
}

fn chosen_launch(over: Option<JsonObject>, own: JsonObject) -> (out: JsonObject)
    ensures
        out@ == picked(opt_members(over), own@),
{
    reveal(picked);
    chosen(over, own)
}

/// The characters of an override of a text that may be absent.
pub open spec fn opt_opt_view(text: Option<Option<String>>) -> Option<Option<Seq<char>>> {
    match text {
        Some(text) => Some(opt_view(text)),
        None => None,
    }
}

/// The members of an override of an object that may be absent.
pub open spec fn opt_opt_members(object: Option<Option<JsonObject>>) -> Option<Option<Members>> {
    match object {
        Some(object) => Some(opt_members(object)),
        None => None,
    }
}

/// Values in place of those of a configuration.
#[derive(Clone, Debug)]
pub struct StagehandConfigOverrides {
    pub env: Option<Environment>,
    pub api_key: Option<Option<String>>,
    pub project_id: Option<Option<String>>,
    pub api_url: Option<String>,
    pub browserbase_session_create_params: Option<Option<JsonObject>>,
    pub browserbase_session_id: Option<Option<String>>,
    pub model_name: Option<ModelName>,
    pub model_api_key: Option<Option<String>>,
    pub model_client_options: Option<Option<JsonObject>>,
    pub verbose: Option<Verbosity>,
    pub use_rich_logging: Option<bool>,
    pub dom_settle_timeout_ms: Option<Option<u64>>,
    pub enable_caching: Option<bool>,
    pub self_heal: Option<bool>,
    pub wait_for_captcha_solves: Option<bool>,
    pub act_timeout_ms: Option<Option<u64>>,
    pub system_prompt: Option<Option<String>>,
    pub local_browser_launch_options: Option<JsonObject>,
    pub use_api: Option<bool>,
    pub experimental: Option<bool>,
    pub headless: Option<bool>,
}

impl Default for StagehandConfigOverrides {
    /// Overrides that change nothing.
    fn default() -> (out: Self)
        ensures
            out == (StagehandConfigOverrides {
                env: None,
                api_key: None,
                project_id: None,
                api_url: None,
                browserbase_session_create_params: None,
                browserbase_session_id: None,
                model_name: None,
                model_api_key: None,
                model_client_options: None,
                verbose: None,
                use_rich_logging: None,
                dom_settle_timeout_ms: None,
                enable_caching: None,
                self_heal: None,
                wait_for_captcha_solves: None,
                act_timeout_ms: None,
                system_prompt: None,
                local_browser_launch_options: None,
                use_api: None,
                experimental: None,
                headless: None,
            }),
    {
        StagehandConfigOverrides {
            env: None,
            api_key: None,
            project_id: None,
            api_url: None,
            browserbase_session_create_params: None,
            browserbase_session_id: None,
            model_name: None,
            model_api_key: None,
            model_client_options: None,
            verbose: None,
            use_rich_logging: None,
            dom_settle_timeout_ms: None,
            enable_caching: None,
            self_heal: None,
            wait_for_captcha_solves: None,
            act_timeout_ms: None,
            system_prompt: None,
            local_browser_launch_options: None,
            use_api: None,
            experimental: None,
            headless: None,
        }
    }
}

impl StagehandConfigOverrides {
    /// Overrides the environment too.
    pub fn env(self, env: Environment) -> (out: Self)
        ensures
            out == (StagehandConfigOverrides { env: Some(env), ..self }),
    {
        StagehandConfigOverrides { env: Some(env), ..self }
    }

    /// Overrides the key of the service too.
    pub fn api_key(self, api_key: Option<String>) -> (out: Self)
        ensures
            out == (StagehandConfigOverrides { api_key: Some(api_key), ..self }),
    {
        StagehandConfigOverrides { api_key: Some(api_key), ..self }
    }
}

/// Naming the project never changes a project that the parameters name, changes
/// nothing else, and once done changes nothing again.
pub proof fn law_project_is_named_once(settings: Settings)
    ensures
        with_project(with_project(settings)) == with_project(settings),
        settings.browserbase_session_create_params matches Some(params) ==> {
            &&& with_project(settings).browserbase_session_create_params is Some
            &&& member_of(params, "project_id"@) is Some ==> with_project(settings) == settings
            &&& settings.project_id is Some && member_of(params, "project_id"@) is None
                ==> member_of(
                with_project(settings).browserbase_session_create_params->0,
                "project_id"@,
            ) == Some(Json::Text(settings.project_id->0))
            &&& forall|key: Seq<char>|
                key != "project_id"@ ==> #[trigger] member_of(
                    with_project(settings).browserbase_session_create_params->0,
                    key,
                ) == member_of(params, key)
        },
        settings.browserbase_session_create_params is None ==> with_project(settings) == settings,
{
    if let (Some(params), Some(project)) = (
        settings.browserbase_session_create_params,
        settings.project_id,
    ) {
        let named = with_member(params, "project_id"@, Json::Text(project));
        law_insert_then_get(params, "project_id"@, Json::Text(project), "project_id"@);
        assert forall|key: Seq<char>| key != "project_id"@ implies #[trigger] member_of(named, key)
            == member_of(params, key) by {
            law_insert_then_get(params, "project_id"@, Json::Text(project), key);
        }
    }
}

} // verus!
