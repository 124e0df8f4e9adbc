//! Options and results of the page operations.
use crate::json::JsonValue;
use crate::table::Table;
use crate::text::{opt_view, opt_views};
use vstd::prelude::*;

verus! {

/// What an extraction gives where no schema is asked for.
#[derive(Clone, Debug, PartialEq, Eq)]
pub struct DefaultExtractSchema {
    pub extraction: String,
}

/// The text of a page.
#[derive(Clone, Debug, PartialEq, Eq)]
pub struct EmptyExtractSchema {
    pub page_text: String,
}

/// An element as the language model names it.
#[derive(Clone, Debug, PartialEq)]
pub struct ObserveElementSchema {
    pub element_id: i64,
    pub description: String,
    pub method: String,
    pub arguments: Vec<String>,
}

/// The elements that the language model names.
#[derive(Clone, Debug, PartialEq)]
pub struct ObserveInferenceSchema {
    pub elements: Vec<ObserveElementSchema>,
}

/// How far an operation has come.
#[derive(Clone, Debug, PartialEq, Eq)]
pub struct MetadataSchema {
    pub completed: bool,
    pub progress: String,
}

/// How to act.
#[derive(Clone, Debug)]
pub struct ActOptions {
    pub action: String,
    pub variables: Option<Table<String>>,
    pub model_name: Option<String>,
    pub dom_settle_timeout_ms: Option<u64>,
    pub timeout_ms: Option<u64>,
    pub model_client_options: Option<JsonValue>,
}

/// What came of an action.
#[derive(Clone, Debug, PartialEq, Eq)]
pub struct ActResult {
    pub success: bool,
    pub message: String,
    pub action: String,
}

/// How to observe.
#[derive(Clone, Debug)]
pub struct ObserveOptions {
    pub instruction: String,
    pub model_name: Option<String>,
    pub draw_overlay: Option<bool>,
    pub dom_settle_timeout_ms: Option<u64>,
    pub model_client_options: Option<JsonValue>,
}

/// An element found on a page, with what to do with it.
#[derive(Clone, Debug, PartialEq)]
pub struct ObserveResult {
    pub selector: String,
    pub description: String,
    pub backend_node_id: Option<i64>,
    pub method: Option<String>,
    pub arguments: Option<Vec<String>>,
}

/// How to extract.
#[derive(Clone, Debug)]
pub struct ExtractOptions {
    pub instruction: String,
    pub model_name: Option<String>,
    pub selector: Option<String>,
    pub schema_definition: Option<JsonValue>,
    pub use_text_extract: Option<bool>,
    pub dom_settle_timeout_ms: Option<u64>,
    pub model_client_options: Option<JsonValue>,
}

/// What was extracted.
#[derive(Clone, Debug, PartialEq)]
pub struct ExtractResult {
    pub data: Option<JsonValue>,
}

/// What an element named by the language model stands for.
#[verifier::ext_equal]
pub struct ElementModel {
    pub element_id: i64,
    pub description: Seq<char>,
    pub method: Seq<char>,
    pub arguments: Seq<Seq<char>>,
}

impl View for ObserveElementSchema {
    type V = ElementModel;

    open spec fn view(&self) -> ElementModel {
        ElementModel {
            element_id: self.element_id,
            description: self.description@,
            method: self.method@,
            arguments: crate::text::views(self.arguments@),
        }
    }
}

/// What an element found on a page stands for.
#[verifier::ext_equal]
pub struct FoundModel {
    pub selector: Seq<char>,
    pub description: Seq<char>,
    pub backend_node_id: Option<i64>,
    pub method: Option<Seq<char>>,
    pub arguments: Option<Seq<Seq<char>>>,
}

impl View for ObserveResult {
    type V = FoundModel;

    open spec fn view(&self) -> FoundModel {
        FoundModel {
            selector: self.selector@,
            description: self.description@,
            backend_node_id: self.backend_node_id,
            method: opt_view(self.method),
            arguments: opt_views(self.arguments),
        }
    }
}

/// What came of an action, as characters.
#[verifier::ext_equal]
pub struct ActModel {
    pub success: bool,
    pub message: Seq<char>,
    pub action: Seq<char>,
}

impl View for ActResult {
    type V = ActModel;

    open spec fn view(&self) -> ActModel {
        ActModel { success: self.success, message: self.message@, action: self.action@ }
    }
}

} // verus!
