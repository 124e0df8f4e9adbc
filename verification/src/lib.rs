//! Browser automation core: configuration, browser planning, page context,
//! accessibility trees, prompts, metrics and the decisions behind each page
//! operation, with contracts checked by Verus.
#![allow(unused_imports)]

pub mod a11y;
pub mod act;
pub mod browser;
pub mod cdp;
pub mod client;
pub mod config;
pub mod context;
pub mod dom_scripts;
pub mod extract;
pub mod json;
pub mod keys;
pub mod laws;
pub mod llm;
pub mod logging;
pub mod merge;
pub mod metrics;
pub mod observe;
pub mod page;
pub mod page_sync;
pub mod prompts;
pub mod quickstart;
pub mod references;
pub mod runtime;
pub mod scripts;
pub mod selectors;
pub mod settle;
pub mod skim;
pub mod stagehand;
pub mod table;
pub mod text;
pub mod types;
