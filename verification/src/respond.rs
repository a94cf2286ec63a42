//! Classification of delivered responses: which of the consumer's actions
//! each response calls for, and the session changes that go with group
//! notices. Rendering the actions is the presentation layer's work.

use vstd::prelude::*;
use vstd::string::StringExecFns;
use crate::errors::{ChatError, ChatErrorWithMsg};
use crate::json::{parse_group, spec_parse_group};
use crate::session::{SessionState, session_wf};
use crate::text::string_eq_str;
use crate::types::{JsonGroup, Response, ResponseView};

verus! {

/// What the consumer does with one delivered response.
#[derive(Clone, Copy, PartialEq, Eq, Structural, Debug)]
pub enum ResponseAction {
    /// The reserved ignore tag: drop the response silently.
    Ignore,
    /// A non-empty error: show it.
    ShowError,
    /// Success with nothing to show.
    Nothing,
    /// The registration sentinel: switch to the registered view.
    RegisterBanner,
    /// A server notice without a sender; the unregister sentinel arrives
    /// this way.
    ServerNotice,
    /// One user left the chat; the content names the user.
    UserLeft,
    /// One user joined the chat; the content names the user.
    UserJoined,
    /// This client joined a group; the content carries the group as JSON.
    GroupJoined,
    /// This client left its group.
    GroupLeft,
    /// A fresh user list; the content carries it as JSON.
    UsersList,
    /// An ordinary chat line from a named sender.
    Chat,
}

/// The action a response calls for, tested in the consumer's fixed order:
/// the error field first — the ignore tag wins over showing it — then
/// empty content, the registration sentinel, the missing sender of a
/// server notice, and the reserved sender names, with everything else an
/// ordinary chat line.
pub open spec fn spec_classify(r: ResponseView) -> ResponseAction {
    if r.err.len() > 0 {
        if r.err == "Ignore Response"@ {
            ResponseAction::Ignore
        } else {
            ResponseAction::ShowError
        }
    } else if r.content.len() == 0 {
        ResponseAction::Nothing
    } else if r.content == "- Du bist registriert -"@ {
        ResponseAction::RegisterBanner
    } else if r.rsp_name.len() == 0 {
        ResponseAction::ServerNotice
    } else if r.rsp_name == "Remove User"@ {
        ResponseAction::UserLeft
    } else if r.rsp_name == "Add User"@ {
        ResponseAction::UserJoined
    } else if r.rsp_name == "Add Group"@ {
        ResponseAction::GroupJoined
    } else if r.rsp_name == "Leave Group"@ {
        ResponseAction::GroupLeft
    } else if r.rsp_name == "Users"@ {
        ResponseAction::UsersList
    } else {
        ResponseAction::Chat
    }
}

/// Classifies one delivered response, as [`spec_classify`] states.
pub fn classify_response(rsp: &Response) -> (r: ResponseAction)
    ensures
        r == spec_classify(rsp@),
{
    if !rsp.err.as_str().is_empty() {
        if string_eq_str(&rsp.err, "Ignore Response") {
            ResponseAction::Ignore
        } else {
            ResponseAction::ShowError
        }
    } else if rsp.content.as_str().is_empty() {
        ResponseAction::Nothing
    } else if string_eq_str(&rsp.content, "- Du bist registriert -") {
        ResponseAction::RegisterBanner
    } else if rsp.rsp_name.as_str().is_empty() {
        ResponseAction::ServerNotice
    } else if string_eq_str(&rsp.rsp_name, "Remove User") {
        ResponseAction::UserLeft
    } else if string_eq_str(&rsp.rsp_name, "Add User") {
        ResponseAction::UserJoined
    } else if string_eq_str(&rsp.rsp_name, "Add Group") {
        ResponseAction::GroupJoined
    } else if string_eq_str(&rsp.rsp_name, "Leave Group") {
        ResponseAction::GroupLeft
    } else if string_eq_str(&rsp.rsp_name, "Users") {
        ResponseAction::UsersList
    } else {
        ResponseAction::Chat
    }
}

/// Whether a delivered response carries the unregister sentinel as its
/// content; a server notice with it switches the title back.
pub fn is_unregister_notice(rsp: &Response) -> (r: bool)
    ensures
        r == (rsp@.content == "- Du bist nun vom Server getrennt -"@),
{
    string_eq_str(&rsp.content, "- Du bist nun vom Server getrennt -")
}

/// Applies a group notice: parses the group out of the notice's content
/// and enters it. A content that is no well-formed group is refused as
/// wrong input and changes nothing.
pub fn handle_add_group(session: &mut SessionState, group_json: &str) -> (r: Result<
    JsonGroup,
    ChatErrorWithMsg,
>)
    requires
        old(session)@.registered,
    ensures
        session_wf(old(session)@) ==> session_wf(final(session)@),
        match spec_parse_group(group_json@) {
            Option::Some(g) => {
                &&& r matches Result::Ok(out) && out@ == g
                &&& final(session)@.group == Option::Some(g)
                &&& final(session)@.client_name == old(session)@.client_name
                &&& final(session)@.client_id == old(session)@.client_id
                &&& final(session)@.auth_token == old(session)@.auth_token
                &&& final(session)@.registered == old(session)@.registered
            },
            Option::None => {
                &&& r matches Result::Err(e) && e@.kind == ChatError::WrongInput
                &&& final(session)@ == old(session)@
            },
        },
{
    match parse_group(group_json) {
        Option::None => Result::Err(
            ChatErrorWithMsg::new(
                ChatError::WrongInput,
                String::from_str("malformed group"),
            ),
        ),
        Option::Some(group) => {
            let out = group.duplicate();
            session.set_group(group);
            Result::Ok(out)
        },
    }
}

/// The default window title, shown until registration.
pub fn default_title() -> (r: &'static str)
    ensures
        r@ == "Willkommen im Chatraum!"@,
{
    "Willkommen im Chatraum!"
}

/// The window title a session state calls for.
pub open spec fn spec_title_for(s: crate::session::SessionView) -> Seq<char> {
    if !s.registered {
        "Willkommen im Chatraum!"@
    } else {
        match s.group {
            Option::Some(g) => s.client_name + ", du bist in der Gruppe "@ + g.name + "!"@,
            Option::None => "Du bist registriert "@ + s.client_name + "!"@,
        }
    }
}

/// The window title for the current session state: the welcome line until
/// registration, the registered greeting after it, and the group line while
/// in a group.
pub fn title_for(session: &SessionState) -> (r: String)
    ensures
        r@ == spec_title_for(session@),
{
    if !session.is_registered() {
        return String::from_str(default_title());
    }
    match &session.group {
        Option::Some(g) => {
            let mut r = session.client_name.clone();
            r.append(", du bist in der Gruppe ");
            r.append(g.name.as_str());
            r.append("!");
            r
        },
        Option::None => {
            let mut r = String::from_str("Du bist registriert ");
            r.append(session.client_name.as_str());
            r.append("!");
            r
        },
    }
}

/// The refresh command the user tab issues: the group view once in a
/// group, the plain user list otherwise, and nothing while unregistered.
pub fn users_refresh_command(session: &SessionState) -> (r: Option<&'static str>)
    ensures
        !session@.registered ==> r is None,
        session@.registered && session@.group is Some ==> (r matches Option::Some(c) && c@
            == "/group users"@),
        session@.registered && session@.group is None ==> (r matches Option::Some(c) && c@
            == "/users"@),
{
    if !session.is_registered() {
        return Option::None;
    }
    match &session.group {
        Option::Some(_) => Option::Some("/group users"),
        Option::None => Option::Some("/users"),
    }
}

} // verus!
