//! What can go wrong.

use vstd::prelude::*;

verus! {

/// An error of the bridge.
#[derive(Debug, Clone, Copy, PartialEq, Eq, Structural)]
pub enum TscError {
    /// A text is not a URL.
    InvalidUrl,
    /// A position lies outside its document.
    OutOfRange,
    /// There is no asset or document for a specifier.
    DocumentNotFound,
    /// There is no client URL for a specifier.
    UrlNotMapped,
    /// There is no asset for a specifier.
    MissingAsset,
    /// A request was cancelled before it was run.
    Cancelled,
    /// A request could not be handed to the compiler thread, or its reply never came.
    Disconnected,
    /// The compiler did not run a request's script.
    ScriptFailed,
    /// The compiler answered nothing to a request.
    NoResponse,
    /// The compiler answered with a value of another type.
    UnexpectedResponse,
}

/// An error that is answered to the client.
#[derive(Debug, Clone, Copy, PartialEq, Eq, Structural)]
pub enum LspError {
    InternalError,
    InvalidRequest,
}

} // verus!
