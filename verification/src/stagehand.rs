//! The whole: a client with its pages.
use crate::browser::BrowserError;
use crate::client::StagehandClientError;
use vstd::prelude::*;

verus! {

/// Why a session cannot begin or go on.
#[derive(Debug, PartialEq, Eq)]
pub enum StagehandError {
    Browser(BrowserError),
    Client(StagehandClientError),
}

impl StagehandError {
    /// The error as text.
    pub open spec fn text(self) -> Seq<char> {
        match self {
            StagehandError::Browser(error) => error.text(),
            StagehandError::Client(error) => error.text(),
        }
    }

    /// Gives the error as text.
    pub fn message(&self) -> (out: String)
        ensures
            out@ == self.text(),
    {
        match self {
            StagehandError::Browser(error) => error.message(),
            StagehandError::Client(error) => error.message(),
        }
    }
}

/// Gives the active page, where there is one.
pub fn require_active_page(active: Option<String>) -> (out: Result<String, StagehandClientError>)
    ensures
        match out {
            Ok(id) => active == Some(id),
            Err(error) => {
                &&& active is None
                &&& error matches StagehandClientError::Unsupported(what) && what@
                    == "no active page; open a page first"@
            },
        },
{
    match active {
        Some(id) => Ok(id),
        None => Err(StagehandClientError::Unsupported("no active page; open a page first")),
    }
}

} // verus!
