//! The data model of the session engine: endpoints, commands, responses,
//! groups, and the client rows shown in the user list.

use vstd::prelude::*;
use vstd::string::StringExecFns;

verus! {

/// The logical endpoints of the remote chat service.
#[derive(Clone, Copy, PartialEq, Eq, Structural, Debug, Hash)]
pub enum Endpoint {
    PostPlugin,
    PostRegister,
    Delete,
    Get,
    SignalWebRTC,
}

/// One submitted input line in structured form, ready for dispatch.
///
/// On the wire this is the JSON object `{name, content, plugin, clientId}`.
#[derive(Debug)]
pub struct Message {
    pub name: String,
    pub content: String,
    pub plugin: String,
    pub client_id: String,
}

/// The mathematical content of a [`Message`].
pub struct MessageView {
    pub name: Seq<char>,
    pub content: Seq<char>,
    pub plugin: Seq<char>,
    pub client_id: Seq<char>,
}

impl View for Message {
    type V = MessageView;

    open spec fn view(&self) -> MessageView {
        MessageView {
            name: self.name@,
            content: self.content@,
            plugin: self.plugin@,
            client_id: self.client_id@,
        }
    }
}

impl Message {
    /// Clones a message field by field.
    pub fn duplicate(&self) -> (r: Self)
        ensures
            r@ == self@,
    {
        Message {
            name: self.name.clone(),
            content: self.content.clone(),
            plugin: self.plugin.clone(),
            client_id: self.client_id.clone(),
        }
    }
}

/// One unit of server-originated or locally synthesized output.
///
/// Exactly one of `content` and `err` is meaningful; an empty `err` means
/// success. On the wire this is `{clientId, name, content, errorString}`.
#[derive(Debug)]
pub struct Response {
    pub client_id: String,
    pub rsp_name: String,
    pub content: String,
    pub err: String,
}

/// The mathematical content of a [`Response`].
pub struct ResponseView {
    pub client_id: Seq<char>,
    pub rsp_name: Seq<char>,
    pub content: Seq<char>,
    pub err: Seq<char>,
}

impl View for Response {
    type V = ResponseView;

    open spec fn view(&self) -> ResponseView {
        ResponseView {
            client_id: self.client_id@,
            rsp_name: self.rsp_name@,
            content: self.content@,
            err: self.err@,
        }
    }
}

impl Response {
    /// A placeholder response with no content and no error.
    pub fn empty() -> (r: Self)
        ensures
            r@.client_id.len() == 0,
            r@.rsp_name == "empty Response"@,
            r@.content.len() == 0,
            r@.err.len() == 0,
    {
        Response {
            client_id: String::new(),
            rsp_name: String::from_str("empty Response"),
            content: String::new(),
            err: String::new(),
        }
    }

    /// A locally synthesized error response carrying the given error text.
    pub fn error(error: String) -> (r: Self)
        ensures
            r@.client_id.len() == 0,
            r@.rsp_name == "error Response"@,
            r@.content.len() == 0,
            r@.err == error@,
    {
        Response {
            client_id: String::new(),
            rsp_name: String::from_str("error Response"),
            content: String::new(),
            err: error,
        }
    }

    /// Clones a response field by field.
    pub fn duplicate(&self) -> (r: Self)
        ensures
            r@ == self@,
    {
        Response {
            client_id: self.client_id.clone(),
            rsp_name: self.rsp_name.clone(),
            content: self.content.clone(),
            err: self.err.clone(),
        }
    }
}

/// A group the client can be a member of: id, display name, member count.
#[derive(Debug)]
pub struct JsonGroup {
    pub group_id: String,
    pub name: String,
    pub size: i32,
}

/// The mathematical content of a [`JsonGroup`].
pub struct JsonGroupView {
    pub group_id: Seq<char>,
    pub name: Seq<char>,
    pub size: int,
}

impl View for JsonGroup {
    type V = JsonGroupView;

    open spec fn view(&self) -> JsonGroupView {
        JsonGroupView { group_id: self.group_id@, name: self.name@, size: self.size as int }
    }
}

impl JsonGroup {
    /// Clones a group field by field.
    pub fn duplicate(&self) -> (r: Self)
        ensures
            r@ == self@,
    {
        JsonGroup { group_id: self.group_id.clone(), name: self.name.clone(), size: self.size }
    }
}

/// One row of the user list as the server reports it.
#[derive(Debug)]
pub struct JsonClient {
    pub name: String,
    pub call_state: String,
    pub client_id: String,
    pub group_name: String,
    pub group_id: String,
}

/// The mathematical content of a [`JsonClient`].
pub struct JsonClientView {
    pub name: Seq<char>,
    pub call_state: Seq<char>,
    pub client_id: Seq<char>,
    pub group_name: Seq<char>,
    pub group_id: Seq<char>,
}

impl View for JsonClient {
    type V = JsonClientView;

    open spec fn view(&self) -> JsonClientView {
        JsonClientView {
            name: self.name@,
            call_state: self.call_state@,
            client_id: self.client_id@,
            group_name: self.group_name@,
            group_id: self.group_id@,
        }
    }
}

impl JsonClient {
    /// Clones a client row field by field.
    pub fn duplicate(&self) -> (r: Self)
        ensures
            r@ == self@,
    {
        JsonClient {
            name: self.name.clone(),
            call_state: self.call_state.clone(),
            client_id: self.client_id.clone(),
            group_name: self.group_name.clone(),
            group_id: self.group_id.clone(),
        }
    }

    /// The display name of this client row.
    pub fn name(&self) -> (r: &str)
        ensures
            r@ == self@.name,
    {
        self.name.as_str()
    }

    /// The call state of this client row.
    pub fn call_state(&self) -> (r: &str)
        ensures
            r@ == self@.call_state,
    {
        self.call_state.as_str()
    }

    /// The group name of this client row.
    pub fn group_name(&self) -> (r: &str)
        ensures
            r@ == self@.group_name,
    {
        self.group_name.as_str()
    }

    /// The columns of this row shown in the user table, in display order.
    pub fn ref_array(&self) -> (r: [&String; 3])
        ensures
            r[0]@ == self@.name,
            r[1]@ == self@.call_state,
            r[2]@ == self@.group_name,
    {
        [&self.name, &self.call_state, &self.group_name]
    }
}

/// The sentinel content of the response that reports a completed
/// registration.
pub fn register_flag() -> (r: &'static str)
    ensures
        r@ == "- Du bist registriert -"@,
{
    "- Du bist registriert -"
}

/// The sentinel content of the response that reports a completed
/// unregistration.
pub fn unregister_flag() -> (r: &'static str)
    ensures
        r@ == "- Du bist nun vom Server getrennt -"@,
{
    "- Du bist nun vom Server getrennt -"
}

/// The reserved error value that tells the consumer to drop a response
/// silently.
pub fn ignore_response_tag() -> (r: &'static str)
    ensures
        r@ == "Ignore Response"@,
{
    "Ignore Response"
}

/// The sender name that marks a response as a user list.
pub fn users_flag() -> (r: &'static str)
    ensures
        r@ == "Users"@,
{
    "Users"
}

/// The sender name that marks a response as one user having joined.
pub fn user_add_flag() -> (r: &'static str)
    ensures
        r@ == "Add User"@,
{
    "Add User"
}

/// The sender name that marks a response as one user having left.
pub fn user_remove_flag() -> (r: &'static str)
    ensures
        r@ == "Remove User"@,
{
    "Remove User"
}

/// The sender name that marks a response as carrying a joined group.
pub fn add_group_flag() -> (r: &'static str)
    ensures
        r@ == "Add Group"@,
{
    "Add Group"
}

/// The sender name that marks a response as reporting a left group.
pub fn leave_group_flag() -> (r: &'static str)
    ensures
        r@ == "Leave Group"@,
{
    "Leave Group"
}

/// The placeholder row shown in the user table before registration.
pub fn dummy_json_client() -> (r: JsonClient)
    ensures
        r@.name == "Bitte registriere dich, um die Clients zu sehen."@,
        r@.call_state.len() == 0,
        r@.client_id.len() == 0,
        r@.group_name.len() == 0,
        r@.group_id.len() == 0,
{
    JsonClient {
        name: String::from_str("Bitte registriere dich, um die Clients zu sehen."),
        call_state: String::new(),
        client_id: String::new(),
        group_name: String::new(),
        group_id: String::new(),
    }
}

} // verus!
