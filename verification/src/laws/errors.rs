//! What errors say.
use crate::browser::{BrowserError, BrowserRuntimeError};
use crate::client::StagehandClientError;
use crate::config::StagehandConfigError;
use crate::context::StagehandContextError;
use crate::llm::StagehandLlmError;
use crate::page::AccessibilityError;
use crate::stagehand::StagehandError;
use crate::text::NumberError;
use vstd::prelude::*;
use vstd::string::*;

verus! {

/// Errors of a client say what failed and why; those that come from elsewhere say what
/// they said there.
pub proof fn law_client_errors_say_why(
    why: String,
    what: &'static str,
    browser: BrowserRuntimeError,
    context: StagehandContextError,
    llm: StagehandLlmError,
    error: StagehandClientError,
    other: BrowserError,
)
    ensures
        StagehandClientError::Http(why).text() == "http error: "@ + why@,
        StagehandClientError::Json(why).text() == why@,
        StagehandClientError::Api(why).text() == "stagehand API error: "@ + why@,
        StagehandClientError::Unsupported(what).text() == "operation unsupported: "@ + what@,
        StagehandClientError::Cdp(why).text() == "cdp error: "@ + why@,
        StagehandClientError::Browser(browser).text() == browser.text(),
        StagehandClientError::Context(context).text() == context.text(),
        StagehandClientError::Llm(llm).text() == llm.text(),
        StagehandError::Client(error).text() == error.text(),
        StagehandError::Browser(other).text() == other.text(),
{
}

/// Errors of a browser say what failed and why.
pub proof fn law_browser_errors_say_why(why: String, field: &'static str)
    ensures
        BrowserRuntimeError::Message(why).text() == "browser runtime error: "@ + why@,
        BrowserRuntimeError::NotInitialized.text() == "browser runtime not initialized"@,
        BrowserRuntimeError::Unsupported(why).text() == "browser runtime feature unsupported: "@
            + why@,
        (BrowserError::DownloadsPath { source: why }).text()
            == "failed to determine downloads directory: "@ + why@,
        (BrowserError::InvalidBrowserbaseParams { field }).text()
            == "failed to parse Browserbase session parameters: "@ + field@,
        (BrowserError::InvalidLocalOptions { field }).text()
            == "failed to parse local browser launch options: "@ + field@,
{
}

/// Errors of settings name the variable, and what it said.
pub proof fn law_config_errors_name_their_field(
    field: &'static str,
    value: String,
    source: NumberError,
)
    ensures
        (StagehandConfigError::InvalidEnumVariant { field, value }).text() == "invalid value '"@
            + value@ + "' for "@ + field@,
        (StagehandConfigError::InvalidBool { field, value }).text() == "invalid boolean '"@ + value@
            + "' for "@ + field@,
        (StagehandConfigError::InvalidNumber { field, value, source }).text() == "invalid number '"@
            + value@ + "' for "@ + field@ + ": "@ + source.text(),
        (StagehandConfigError::InvalidJsonType { field }).text() == field@
            + " must be a JSON object"@,
        (StagehandConfigError::InvalidJson { field, source: value }).text() == "invalid JSON for "@
            + field@ + ": "@ + value@,
        NumberError::Empty.text() == "cannot parse integer from empty string"@,
        NumberError::InvalidDigit.text() == "invalid digit found in string"@,
        NumberError::PosOverflow.text() == "number too large to fit in target type"@,
        NumberError::NegOverflow.text() == "number too small to fit in target type"@,
{
}

/// Errors of a session, of the model and of accessibility say what failed and why.
pub proof fn law_other_errors_say_why(why: String)
    ensures
        StagehandContextError::PageNotFound(why).text() == "page '"@ + why@
            + "' is not registered"@,
        StagehandLlmError::MissingApiKey.text()
            == "missing OpenAI API key; set MODEL_API_KEY or OPENAI_API_KEY"@,
        StagehandLlmError::MissingDefaultModel.text() == "missing default model configuration"@,
        StagehandLlmError::InvalidRequest(why).text() == "invalid chat completion request: "@ + why@,
        StagehandLlmError::OpenAi(why).text() == why@,
        AccessibilityError::Cdp(why).text() == "CDP operation failed: "@ + why@,
        AccessibilityError::Evaluation(why).text() == "evaluation failed: "@ + why@,
        AccessibilityError::Unexpected(why).text() == "unexpected response: "@ + why@,
        AccessibilityError::Serialization(why).text() == "serialization error: "@ + why@,
{
}

} // verus!
