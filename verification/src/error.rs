//! What can go wrong.

use vstd::prelude::*;

verus! {

/// An error of the library.
#[derive(Debug)]
pub enum Error {
    /// The connection to the browser failed.
    Transport(String),
    /// The browser answered a command with an error.
    Cdp {
        /// The command's method, where the answer names it.
        method: String,
        /// The error code.
        code: i64,
        /// The error message.
        message: String,
    },
    /// A command had no usable outcome.
    CdpSimple(String),
    /// A page could not be loaded.
    Navigation(String),
    /// No element matched.
    ElementNotFound(String),
    /// The element has no place on the screen.
    ElementNotVisible {
        /// What was looked for.
        selector: String,
    },
    /// A wait took too long.
    Timeout(String),
    /// Every attempt failed.
    RetryExhausted {
        /// How many attempts were made.
        attempts: u32,
        /// The text of the last error.
        last_error: String,
    },
    /// Data from the browser could not be decoded.
    Decode(String),
    /// The browser could not be started.
    Launch(String),
    /// A value could not be turned into JSON or read from it.
    Json(String),
}

/// The value behind an `Error`.
pub enum ErrorView {
    Transport(Seq<char>),
    Cdp { method: Seq<char>, code: i64, message: Seq<char> },
    CdpSimple(Seq<char>),
    Navigation(Seq<char>),
    ElementNotFound(Seq<char>),
    ElementNotVisible { selector: Seq<char> },
    Timeout(Seq<char>),
    RetryExhausted { attempts: u32, last_error: Seq<char> },
    Decode(Seq<char>),
    Launch(Seq<char>),
    Json(Seq<char>),
}

impl View for Error {
    type V = ErrorView;

    open spec fn view(&self) -> ErrorView {
        match self {
            Error::Transport(m) => ErrorView::Transport(m@),
            Error::Cdp { method, code, message } => ErrorView::Cdp {
                method: method@,
                code: *code,
                message: message@,
            },
            Error::CdpSimple(m) => ErrorView::CdpSimple(m@),
            Error::Navigation(m) => ErrorView::Navigation(m@),
            Error::ElementNotFound(m) => ErrorView::ElementNotFound(m@),
            Error::ElementNotVisible { selector } => ErrorView::ElementNotVisible {
                selector: selector@,
            },
            Error::Timeout(m) => ErrorView::Timeout(m@),
            Error::RetryExhausted { attempts, last_error } => ErrorView::RetryExhausted {
                attempts: *attempts,
                last_error: last_error@,
            },
            Error::Decode(m) => ErrorView::Decode(m@),
            Error::Launch(m) => ErrorView::Launch(m@),
            Error::Json(m) => ErrorView::Json(m@),
        }
    }
}

impl Error {
    /// A transport error with the given message.
    pub fn transport(message: &str) -> (e: Error)
        ensures
            e@ == ErrorView::Transport(message@),
    {
        Error::Transport(message.to_string())
    }

    /// A transport error with the given message and the text of its cause.
    pub fn transport_io(message: &str, cause: &str) -> (e: Error)
        ensures
            e@ == ErrorView::Transport(message@ + ": "@ + cause@),
    {
        Error::Transport(crate::text::concat3(message, ": ", cause))
    }

    /// An error that the browser answered with.
    pub fn cdp(method: &str, code: i64, message: &str) -> (e: Error)
        ensures
            e@ == (ErrorView::Cdp { method: method@, code, message: message@ }),
    {
        Error::Cdp { method: method.to_string(), code, message: message.to_string() }
    }
}

} // verus!
