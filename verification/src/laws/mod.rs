//! What the operations of the library keep and how their results relate.
pub mod act;
pub mod browser;
pub mod cdp;
pub mod client;
pub mod config;
pub mod context;
pub mod effects;
pub mod errors;
pub mod extract;
pub mod keys;
pub mod llm;
pub mod logging;
pub mod merge;
pub mod metrics;
pub mod models;
pub mod observe;
pub mod page;
pub mod quickstart;
pub mod references;
pub mod runtime;
pub mod schemas;
pub mod scripts;
pub mod selectors;
pub mod settle;
pub mod skim;
pub mod text;
pub mod tree;
pub mod tree_text;
