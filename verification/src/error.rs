//! The single error type used across the library.
//!
//! Every variant carries the sentence the user is shown; [`AppError::message`]
//! produces it, so nothing is ever debug-formatted into a user-facing message.

use vstd::prelude::*;

use crate::text::concat;

verus! {

/// Everything that can go wrong, phrased for a human.
#[derive(Debug, Clone, PartialEq, Eq)]
pub enum AppError {
    /// A file could not be read or written in the resolved data directory.
    Storage(String),
    /// A JSON payload could not be serialized; holds the encoder's own words.
    Serialize(String),
    /// The caller referred to something that does not exist.
    NotFound(String),
    /// The caller supplied a value we refuse to accept.
    Invalid(String),
    /// The typing engine could not start, or failed mid-run.
    Typing(String),
    /// A global shortcut could not be parsed or registered.
    Hotkey(String),
    /// The update check, download, or install failed.
    Updater(String),
}

/// The sentence shown for an error.
pub open spec fn error_message(e: AppError) -> Seq<char> {
    match e {
        AppError::Storage(m) => m@,
        AppError::Serialize(m) => "could not encode data as JSON: "@ + m@,
        AppError::NotFound(m) => m@,
        AppError::Invalid(m) => m@,
        AppError::Typing(m) => m@,
        AppError::Hotkey(m) => m@,
        AppError::Updater(m) => m@,
    }
}

impl AppError {
    /// The user-facing sentence for this error.
    pub fn message(&self) -> (r: String)
        ensures
            r@ == error_message(*self),
    {
        match self {
            AppError::Storage(m) => m.clone(),
            AppError::Serialize(m) => concat("could not encode data as JSON: ", m.as_str()),
            AppError::NotFound(m) => m.clone(),
            AppError::Invalid(m) => m.clone(),
            AppError::Typing(m) => m.clone(),
            AppError::Hotkey(m) => m.clone(),
            AppError::Updater(m) => m.clone(),
        }
    }

    /// A storage failure described as `"<context>: <source>"`.
    pub fn storage(context: &str, source: &str) -> (r: AppError)
        ensures
            r matches AppError::Storage(m) && m@ == context@ + ": "@ + source@,
    {
        let mut m = String::from_str(context);
        m.append(": ");
        m.append(source);
        AppError::Storage(m)
    }
}

} // verus!
