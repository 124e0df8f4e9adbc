//! Data types shared by the modules of the library.
pub mod a11y;
pub mod agent;
pub mod llm;
pub mod page;
