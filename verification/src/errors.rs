//! The error taxonomy of the session engine.
//!
//! Every failure is a kind plus a free-text message; the kind's display text
//! is fixed here so that contracts can state exactly which string reaches the
//! user.

use vstd::prelude::*;
use vstd::string::StringExecFns;

verus! {

/// The closed set of error kinds a command or transport call can produce.
#[derive(Clone, Copy, PartialEq, Eq, Structural, Debug)]
pub enum ChatError {
    EmptyField,
    NoPermission,
    NotAvailable,
    TimeoutReached,
    WrongInput,
    PluginError,
    HttpError,
}

/// Errors of the endpoint table itself.
#[derive(Clone, Copy, PartialEq, Eq, Structural, Debug)]
pub enum HttpClientError {
    InvalidEndpoint,
}

/// The display text of each error kind.
pub open spec fn spec_kind_text(k: ChatError) -> Seq<char> {
    match k {
        ChatError::EmptyField => "A message field is empty"@,
        ChatError::NoPermission => "You got no permission"@,
        ChatError::NotAvailable => "Item is not available"@,
        ChatError::TimeoutReached => "Timeout has been reached"@,
        ChatError::WrongInput => "Your input was invalid"@,
        ChatError::PluginError => "An error accured while executing a plugin"@,
        ChatError::HttpError => "An http error accured"@,
    }
}

/// Executable display text for an error kind.
pub fn kind_text(k: ChatError) -> (r: &'static str)
    ensures
        r@ == spec_kind_text(k),
{
    match k {
        ChatError::EmptyField => "A message field is empty",
        ChatError::NoPermission => "You got no permission",
        ChatError::NotAvailable => "Item is not available",
        ChatError::TimeoutReached => "Timeout has been reached",
        ChatError::WrongInput => "Your input was invalid",
        ChatError::PluginError => "An error accured while executing a plugin",
        ChatError::HttpError => "An http error accured",
    }
}

/// An error kind together with a human-readable message.
#[derive(Debug)]
pub struct ChatErrorWithMsg {
    pub msg: String,
    pub kind: ChatError,
}

/// The mathematical content of a [`ChatErrorWithMsg`].
pub struct ChatErrorView {
    pub msg: Seq<char>,
    pub kind: ChatError,
}

impl View for ChatErrorWithMsg {
    type V = ChatErrorView;

    open spec fn view(&self) -> ChatErrorView {
        ChatErrorView { msg: self.msg@, kind: self.kind }
    }
}

/// The one-line rendering of an error: the kind's text, a separator, the message.
pub open spec fn spec_error_line(e: ChatErrorView) -> Seq<char> {
    spec_kind_text(e.kind) + ": "@ + e.msg
}

impl ChatErrorWithMsg {
    /// Pairs an error kind with its message.
    pub fn new(kind: ChatError, msg: String) -> (r: Self)
        ensures
            r.kind == kind,
            r.msg == msg,
    {
        Self { kind, msg }
    }

    /// Renders the error as the `kind: message` line shown to the user.
    pub fn formatted(&self) -> (r: String)
        ensures
            r@ == spec_error_line(self@),
    {
        let mut r = String::from_str(kind_text(self.kind));
        r.append(": ");
        r.append(self.msg.as_str());
        r
    }
}

} // verus!
