//! Errors of the browser client.

use crate::text::{chars_of, push_all, string_of};
use vstd::prelude::*;

verus! {

/// Errors that can occur in the browser client. Each holds the text of
/// what went wrong.
#[derive(Debug, Clone, PartialEq, Eq)]
pub enum WasmError {
    Config(String),
    Network(String),
    Serialization(String),
    Storage(String),
    Backend(String),
    NotInitialized(String),
}

impl WasmError {
    /// The error in words: its kind, a colon, and its text.
    pub open spec fn message_spec(&self) -> Seq<char> {
        match self {
            WasmError::Config(m) => "Configuration error: "@ + m@,
            WasmError::Network(m) => "Network error: "@ + m@,
            WasmError::Serialization(m) => "Serialization error: "@ + m@,
            WasmError::Storage(m) => "Storage error: "@ + m@,
            WasmError::Backend(m) => "Backend error: "@ + m@,
            WasmError::NotInitialized(m) => "Not initialized: "@ + m@,
        }
    }

    /// The error in words.
    pub fn message(&self) -> (s: String)
        ensures
            s@ == self.message_spec(),
    {
        let (kind, text) = match self {
            WasmError::Config(m) => ("Configuration error: ", m),
            WasmError::Network(m) => ("Network error: ", m),
            WasmError::Serialization(m) => ("Serialization error: ", m),
            WasmError::Storage(m) => ("Storage error: ", m),
            WasmError::Backend(m) => ("Backend error: ", m),
            WasmError::NotInitialized(m) => ("Not initialized: ", m),
        };
        let mut out = chars_of(kind);
        push_all(&mut out, &chars_of(text.as_str()));
        string_of(&out)
    }

    /// The error that stands for a failure of the backend.
    pub fn from_backend(text: String) -> (e: WasmError)
        ensures
            e == WasmError::Backend(text),
    {
        WasmError::Backend(text)
    }
}

} // verus!
