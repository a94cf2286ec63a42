//! The built-in handlers: what each one validates before its remote call,
//! which request it makes, and how it applies the reply to the session.
//!
//! A handler's work is split around its one remote call: `prepare` does the
//! validation and names the call, the embedding program performs it, and
//! `complete` applies the outcome — whatever came back — to the session.

use vstd::prelude::*;
use vstd::string::StringExecFns;
use crate::errors::{ChatError, ChatErrorWithMsg, ChatErrorView};
use crate::parse::{spec_split_target, split_target};
use crate::registry::HandlerKind;
use crate::session::{session_wf, spec_create_message, spec_unregister, SessionState, SessionView};
use crate::types::{Endpoint, Message, MessageView, Response};

verus! {

/// What a handler does before its remote call: fail at once, or make one
/// call with one message.
pub enum HandlerAction {
    Fail(ChatErrorWithMsg),
    Call { endpoint: Endpoint, message: Message },
}

/// The mathematical content of a [`HandlerAction`].
pub enum HandlerActionView {
    Fail(ChatErrorView),
    Call { endpoint: Endpoint, message: MessageView },
}

impl View for HandlerAction {
    type V = HandlerActionView;

    open spec fn view(&self) -> HandlerActionView {
        match self {
            HandlerAction::Fail(e) => HandlerActionView::Fail(e@),
            HandlerAction::Call { endpoint, message } => HandlerActionView::Call {
                endpoint: *endpoint,
                message: message@,
            },
        }
    }
}

/// What each handler does with a command before its remote call.
///
/// Register demands a name of 3 to 50 characters and posts it to the
/// register endpoint. Logout posts the quit command to the delete endpoint.
/// Private messages demand a leading target id in the content and post the
/// rest to the run-command endpoint addressed to that id. Everything else
/// is posted to the run-command endpoint word for word.
pub open spec fn spec_prepare(kind: HandlerKind, s: SessionView, msg: MessageView) -> HandlerActionView {
    match kind {
        HandlerKind::Register => {
            if msg.content.len() < 3 || msg.content.len() > 50 {
                HandlerActionView::Fail(
                    ChatErrorView {
                        kind: ChatError::WrongInput,
                        msg: "Your name has to be between 3 and 50 characters long"@,
                    },
                )
            } else {
                HandlerActionView::Call {
                    endpoint: Endpoint::PostRegister,
                    message: spec_create_message(
                        s,
                        msg.content,
                        msg.plugin,
                        msg.content,
                        msg.client_id,
                    ),
                }
            }
        },
        HandlerKind::Logout => HandlerActionView::Call { endpoint: Endpoint::Delete, message: msg },
        HandlerKind::PrivateMessage => {
            match spec_split_target(msg.content) {
                Option::None => HandlerActionView::Fail(
                    ChatErrorView {
                        kind: ChatError::WrongInput,
                        msg: "You should supply the Id of the receiver"@,
                    },
                ),
                Option::Some(p) => HandlerActionView::Call {
                    endpoint: Endpoint::PostPlugin,
                    message: spec_create_message(s, msg.name, msg.plugin, p.1, p.0),
                },
            }
        },
        HandlerKind::Forward => HandlerActionView::Call {
            endpoint: Endpoint::PostPlugin,
            message: msg,
        },
    }
}

/// Runs a handler's validation and builds its remote call, as
/// [`spec_prepare`] states. No transport work happens before a `Fail`.
pub fn prepare(kind: HandlerKind, session: &SessionState, msg: Message) -> (r: HandlerAction)
    ensures
        r@ == spec_prepare(kind, session@, msg@),
{
    match kind {
        HandlerKind::Register => {
            let len = msg.content.as_str().unicode_len();
            if len < 3 || len > 50 {
                HandlerAction::Fail(
                    ChatErrorWithMsg::new(
                        ChatError::WrongInput,
                        String::from_str("Your name has to be between 3 and 50 characters long"),
                    ),
                )
            } else {
                let message = session.create_message(
                    msg.content.clone(),
                    msg.plugin,
                    msg.content,
                    msg.client_id,
                );
                HandlerAction::Call { endpoint: Endpoint::PostRegister, message }
            }
        },
        HandlerKind::Logout => HandlerAction::Call { endpoint: Endpoint::Delete, message: msg },
        HandlerKind::PrivateMessage => {
            match split_target(msg.content.as_str()) {
                Option::None => HandlerAction::Fail(
                    ChatErrorWithMsg::new(
                        ChatError::WrongInput,
                        String::from_str("You should supply the Id of the receiver"),
                    ),
                ),
                Option::Some((target, text)) => {
                    let message = session.create_message(msg.name, msg.plugin, text, target);
                    HandlerAction::Call { endpoint: Endpoint::PostPlugin, message }
                },
            }
        },
        HandlerKind::Forward => HandlerAction::Call {
            endpoint: Endpoint::PostPlugin,
            message: msg,
        },
    }
}

/// Applies a handler's transport outcome to the session and names its
/// result.
///
/// A transport error passes through unchanged and touches nothing. On a
/// reply: registering applies the returned name and token to the session —
/// a reply without a token is a transport-level failure and changes nothing
/// — and yields the register sentinel; logging out clears the session
/// whatever the reply holds and yields the unregister sentinel; a private
/// or forwarded command touches nothing and yields the reply's error field.
pub fn complete(
    kind: HandlerKind,
    session: &mut SessionState,
    outcome: Result<Response, ChatErrorWithMsg>,
) -> (r: Result<String, ChatErrorWithMsg>)
    ensures
        session_wf(old(session)@) ==> session_wf(final(session)@),
        match outcome {
            Result::Err(e) => {
                &&& r matches Result::Err(e2) && e2@ == e@
                &&& final(session)@ == old(session)@
            },
            Result::Ok(rsp) => match kind {
                HandlerKind::Register => {
                    if rsp@.content.len() == 0 {
                        &&& r matches Result::Err(e2) && e2@ == (ChatErrorView {
                            kind: ChatError::HttpError,
                            msg: "registration reply carried no token"@,
                        })
                        &&& final(session)@ == old(session)@
                    } else {
                        &&& final(session)@.client_name == rsp@.rsp_name
                        &&& final(session)@.auth_token == rsp@.content
                        &&& final(session)@.registered
                        &&& final(session)@.client_id == old(session)@.client_id
                        &&& final(session)@.group == old(session)@.group
                        &&& r matches Result::Ok(s) && s@ == "- Du bist registriert -"@
                    }
                },
                HandlerKind::Logout => {
                    &&& final(session)@ == spec_unregister(old(session)@)
                    &&& r matches Result::Ok(s) && s@ == "- Du bist nun vom Server getrennt -"@
                },
                HandlerKind::PrivateMessage => {
                    &&& final(session)@ == old(session)@
                    &&& r matches Result::Ok(s) && s@ == rsp@.err
                },
                HandlerKind::Forward => {
                    &&& final(session)@ == old(session)@
                    &&& r matches Result::Ok(s) && s@ == rsp@.err
                },
            },
        },
{
    let rsp = match outcome {
        Result::Err(e) => {
            return Result::Err(e);
        },
        Result::Ok(rsp) => rsp,
    };
    match kind {
        HandlerKind::Register => {
            if rsp.content.as_str().is_empty() {
                Result::Err(
                    ChatErrorWithMsg::new(
                        ChatError::HttpError,
                        String::from_str("registration reply carried no token"),
                    ),
                )
            } else {
                session.register(&rsp);
                Result::Ok(String::from_str(crate::types::register_flag()))
            }
        },
        HandlerKind::Logout => {
            session.unregister();
            Result::Ok(String::from_str(crate::types::unregister_flag()))
        },
        HandlerKind::PrivateMessage => Result::Ok(rsp.err),
        HandlerKind::Forward => Result::Ok(rsp.err),
    }
}

} // verus!
