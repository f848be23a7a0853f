//! The error type shared by the bridge.

use vstd::prelude::*;
use vstd::string::*;

verus! {

/// Everything that can go wrong while loading authorization data or
/// answering a command.
#[derive(Debug, Clone, PartialEq, Eq)]
pub enum Error {
    /// The serialized payload is at least as long as the longest string a
    /// script engine can hold.
    PayloadTooLarge,
    /// A capability or a permission set names an identifier that is neither
    /// a permission nor a permission set.
    UnknownPermission(String),
    /// A permission set reaches itself through its members.
    CyclicPermissionSet(String),
    /// A message could not be written as JSON.
    Json,
    /// A capability file has an extension that is neither `toml` nor `json`.
    UnknownCapabilityFormat(String),
}

/// What an error says of itself.
pub open spec fn error_text(e: Error) -> Seq<char> {
    match e {
        Error::PayloadTooLarge => "payload too large for a script string"@,
        Error::UnknownPermission(id) => "unknown permission or permission set "@ + id@,
        Error::CyclicPermissionSet(id) => "permission set "@ + id@ + " contains itself"@,
        Error::Json => "message cannot be written as JSON"@,
        Error::UnknownCapabilityFormat(ext) => "unknown capability format "@ + ext@,
    }
}

impl Error {
    /// The message of the error, naming the identifier or the extension
    /// that it is about.
    pub fn message(&self) -> (text: String)
        ensures
            text@ == error_text(*self),
    {
        match self {
            Error::PayloadTooLarge => String::from_str("payload too large for a script string"),
            Error::UnknownPermission(id) => {
                let mut text = String::from_str("unknown permission or permission set ");
                text.append(id.as_str());
                text
            },
            Error::CyclicPermissionSet(id) => {
                let mut text = String::from_str("permission set ");
                text.append(id.as_str());
                text.append(" contains itself");
                text
            },
            Error::Json => String::from_str("message cannot be written as JSON"),
            Error::UnknownCapabilityFormat(ext) => {
                let mut text = String::from_str("unknown capability format ");
                text.append(ext.as_str());
                text
            },
        }
    }
}

} // verus!
