//! What an agent does in a browser, and what comes of it.
use crate::json::{JsonNumber, JsonObject};
use vstd::prelude::*;

verus! {

/// How an agent is set up.
#[derive(Clone, Debug, PartialEq)]
pub struct AgentConfig {
    pub model: Option<String>,
    pub instructions: Option<String>,
    pub options: Option<JsonObject>,
    pub max_steps: Option<u32>,
}

/// A click at a place.
#[derive(Clone, Debug, PartialEq, Eq)]
pub struct ClickAction {
    pub x: i32,
    pub y: i32,
    pub button: Option<String>,
}

/// Two quick clicks at a place.
#[derive(Clone, Copy, Debug, PartialEq, Eq, Structural)]
pub struct DoubleClickAction {
    pub x: i32,
    pub y: i32,
}

/// Text that is typed, perhaps at a place.
#[derive(Clone, Debug, PartialEq, Eq)]
pub struct TypeAction {
    pub text: String,
    pub x: Option<i32>,
    pub y: Option<i32>,
    pub press_enter_after: Option<bool>,
}

/// Keys that are pressed.
#[derive(Clone, Debug, PartialEq, Eq)]
pub struct KeyPressAction {
    pub keys: Vec<String>,
}

/// A scroll at a place.
#[derive(Clone, Copy, Debug, PartialEq, Eq, Structural)]
pub struct ScrollAction {
    pub x: i32,
    pub y: i32,
    pub scroll_x: Option<i32>,
    pub scroll_y: Option<i32>,
}

/// A place.
#[derive(Clone, Copy, Debug, PartialEq, Eq, Structural)]
pub struct Point {
    pub x: i32,
    pub y: i32,
}

/// A drag along a path.
#[derive(Clone, Debug, PartialEq, Eq)]
pub struct DragAction {
    pub path: Vec<Point>,
}

/// A move of the pointer to a place.
#[derive(Clone, Copy, Debug, PartialEq, Eq, Structural)]
pub struct MoveAction {
    pub x: i32,
    pub y: i32,
}

/// A wait.
#[derive(Clone, Copy, Debug, PartialEq, Eq, Structural)]
pub struct WaitAction {
    pub miliseconds: Option<u32>,
}

impl Default for WaitAction {
    fn default() -> (out: Self)
        ensures
            out.miliseconds is None,
    {
        WaitAction { miliseconds: None }
    }
}

/// A picture of the page.
#[derive(Clone, Copy, Debug, PartialEq, Eq, Structural)]
pub struct ScreenshotAction {}

/// What a function is called with.
#[derive(Clone, Debug, PartialEq, Eq)]
pub struct FunctionArguments {
    pub url: String,
}

/// A call of a function.
#[derive(Clone, Debug, PartialEq, Eq)]
pub struct FunctionAction {
    pub name: String,
    pub arguments: Option<FunctionArguments>,
}

/// A key.
#[derive(Clone, Debug, PartialEq, Eq)]
pub struct KeyAction {
    pub text: String,
}

/// Something that an agent does.
#[derive(Clone, Debug, PartialEq, Eq)]
pub enum AgentActionPayload {
    Click(ClickAction),
    DoubleClick(DoubleClickAction),
    Type(TypeAction),
    Keypress(KeyPressAction),
    Scroll(ScrollAction),
    Drag(DragAction),
    Move(MoveAction),
    Wait(WaitAction),
    Screenshot(ScreenshotAction),
    Function(FunctionAction),
    Key(KeyAction),
}

/// Something that an agent does, and why.
#[derive(Clone, Debug, PartialEq)]
pub struct AgentAction {
    pub action_type: String,
    pub reasoning: Option<String>,
    pub action: AgentActionPayload,
    pub status: Option<String>,
    pub step: Option<Vec<JsonObject>>,
}

/// What an agent used.
#[derive(Clone, Copy, Debug, PartialEq, Eq, Structural)]
pub struct AgentUsage {
    pub input_tokens: i64,
    pub output_tokens: i64,
    pub inference_time_ms: i64,
}

/// What came of an agent's work.
#[derive(Clone, Debug, PartialEq, Eq)]
pub struct AgentResult {
    pub actions: Vec<AgentActionPayload>,
    pub message: Option<String>,
    pub usage: Option<AgentUsage>,
    pub completed: bool,
}

/// What came of one action.
#[derive(Clone, Debug, PartialEq, Eq)]
pub struct ActionExecutionResult {
    pub success: bool,
    pub error: Option<String>,
}

/// How an agent reaches its model.
#[derive(Clone, Debug, PartialEq)]
pub struct AgentClientOptions {
    pub api_key: Option<String>,
    pub base_url: Option<String>,
    pub model_name: Option<String>,
    pub max_tokens: Option<u32>,
    pub temperature: Option<JsonNumber>,
    pub wait_between_actions: Option<u64>,
}

/// How an agent works.
#[derive(Clone, Debug, PartialEq)]
pub struct AgentHandlerOptions {
    pub model_name: String,
    pub client_options: Option<AgentClientOptions>,
    pub user_provided_instructions: Option<String>,
}

/// What an agent is asked to do.
#[derive(Clone, Debug, PartialEq, Eq)]
pub struct AgentExecuteOptions {
    pub instruction: String,
    pub max_steps: Option<u32>,
    pub auto_screenshot: Option<bool>,
    pub wait_between_actions: Option<u64>,
    pub context: Option<String>,
}

/// What an agent sees.
#[derive(Clone, Debug, PartialEq, Eq)]
pub struct EnvState {
    pub screenshot: Vec<u8>,
    pub url: String,
}

} // verus!
