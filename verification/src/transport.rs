//! The HTTP transport model: the endpoint URL table built once per client,
//! the exact requests sent to the chat service, and the reading of what
//! comes back. Sending the requests is the embedding program's work; every
//! byte of what is sent and how a reply is read is fixed here.

use vstd::prelude::*;
use vstd::string::StringExecFns;
use crate::errors::{ChatError, ChatErrorWithMsg};
use crate::json::{encode_message, spec_message_json, spec_parse_response, parse_response};
use crate::types::{Endpoint, Message, Response};

verus! {

/// The path tail of each endpoint after `{base}/users/{id}`.
pub open spec fn spec_endpoint_suffix(e: Endpoint) -> Seq<char> {
    match e {
        Endpoint::PostRegister => Seq::<char>::empty(),
        Endpoint::PostPlugin => "/run"@,
        Endpoint::Delete => Seq::<char>::empty(),
        Endpoint::Get => "/chat"@,
        Endpoint::SignalWebRTC => "/signal"@,
    }
}

/// The full URL of an endpoint for one client.
pub open spec fn spec_endpoint_url(base: Seq<char>, client_id: Seq<char>, e: Endpoint) -> Seq<
    char,
> {
    base + "/users/"@ + client_id + spec_endpoint_suffix(e)
}

/// Builds the URL of one endpoint for one client.
pub fn endpoint_url(base: &str, client_id: &str, e: Endpoint) -> (r: String)
    ensures
        r@ == spec_endpoint_url(base@, client_id@, e),
{
    let mut u = String::from_str(base);
    u.append("/users/");
    u.append(client_id);
    match e {
        Endpoint::PostRegister => {},
        Endpoint::PostPlugin => u.append("/run"),
        Endpoint::Delete => {},
        Endpoint::Get => u.append("/chat"),
        Endpoint::SignalWebRTC => u.append("/signal"),
    }
    proof {
        assert(u@ =~= spec_endpoint_url(base@, client_id@, e));
    }
    u
}

/// The endpoint URL table, built once from the base URL and the client id.
pub struct HttpTransport {
    pub register_url: String,
    pub plugin_url: String,
    pub delete_url: String,
    pub get_url: String,
    pub signal_url: String,
}

/// The mathematical content of an [`HttpTransport`].
pub struct HttpTransportView {
    pub register_url: Seq<char>,
    pub plugin_url: Seq<char>,
    pub delete_url: Seq<char>,
    pub get_url: Seq<char>,
    pub signal_url: Seq<char>,
}

impl View for HttpTransport {
    type V = HttpTransportView;

    open spec fn view(&self) -> HttpTransportView {
        HttpTransportView {
            register_url: self.register_url@,
            plugin_url: self.plugin_url@,
            delete_url: self.delete_url@,
            get_url: self.get_url@,
            signal_url: self.signal_url@,
        }
    }
}

/// The table holds exactly the five endpoint URLs for one client.
pub open spec fn transport_wf(t: HttpTransportView, base: Seq<char>, client_id: Seq<char>) -> bool {
    &&& t.register_url == spec_endpoint_url(base, client_id, Endpoint::PostRegister)
    &&& t.plugin_url == spec_endpoint_url(base, client_id, Endpoint::PostPlugin)
    &&& t.delete_url == spec_endpoint_url(base, client_id, Endpoint::Delete)
    &&& t.get_url == spec_endpoint_url(base, client_id, Endpoint::Get)
    &&& t.signal_url == spec_endpoint_url(base, client_id, Endpoint::SignalWebRTC)
}

impl HttpTransport {
    /// Registers the five endpoint URLs for this client.
    pub fn new_client(server_url: &str, client_id: &str) -> (r: Self)
        ensures
            transport_wf(r@, server_url@, client_id@),
    {
        HttpTransport {
            register_url: endpoint_url(server_url, client_id, Endpoint::PostRegister),
            plugin_url: endpoint_url(server_url, client_id, Endpoint::PostPlugin),
            delete_url: endpoint_url(server_url, client_id, Endpoint::Delete),
            get_url: endpoint_url(server_url, client_id, Endpoint::Get),
            signal_url: endpoint_url(server_url, client_id, Endpoint::SignalWebRTC),
        }
    }

    /// The cached URL of one endpoint.
    pub fn url_for(&self, e: Endpoint) -> (r: &String)
        ensures
            r@ == match e {
                Endpoint::PostRegister => self@.register_url,
                Endpoint::PostPlugin => self@.plugin_url,
                Endpoint::Delete => self@.delete_url,
                Endpoint::Get => self@.get_url,
                Endpoint::SignalWebRTC => self@.signal_url,
            },
    {
        match e {
            Endpoint::PostRegister => &self.register_url,
            Endpoint::PostPlugin => &self.plugin_url,
            Endpoint::Delete => &self.delete_url,
            Endpoint::Get => &self.get_url,
            Endpoint::SignalWebRTC => &self.signal_url,
        }
    }
}

/// The HTTP method of a request.
#[derive(Clone, Copy, PartialEq, Eq, Structural, Debug)]
pub enum HttpMethod {
    Get,
    Post,
    Delete,
}

/// One request ready to be sent: every request carries the auth token in an
/// `Authorization` header, and one with a body carries it as JSON under
/// `Content-Type: application/json`.
pub struct HttpRequest {
    pub method: HttpMethod,
    pub url: String,
    pub auth_token: String,
    pub body: Option<String>,
}

/// The mathematical content of an [`HttpRequest`].
pub struct HttpRequestView {
    pub method: HttpMethod,
    pub url: Seq<char>,
    pub auth_token: Seq<char>,
    pub body: Option<Seq<char>>,
}

impl View for HttpRequest {
    type V = HttpRequestView;

    open spec fn view(&self) -> HttpRequestView {
        HttpRequestView {
            method: self.method,
            url: self.url@,
            auth_token: self.auth_token@,
            body: match &self.body {
                Option::Some(b) => Option::Some(b@),
                Option::None => Option::None,
            },
        }
    }
}

impl HttpRequest {
    /// The content type header this request carries: JSON exactly when the
    /// request has a body, nothing otherwise.
    pub fn content_type(&self) -> (r: Option<&'static str>)
        ensures
            self@.body is Some ==> (r matches Option::Some(c) && c@ == "application/json"@),
            self@.body is None ==> r is None,
    {
        match &self.body {
            Option::Some(_) => Option::Some("application/json"),
            Option::None => Option::None,
        }
    }
}

impl HttpTransport {
    /// The poll request: a GET on the fetch-pending endpoint carrying the
    /// token read at call time.
    pub fn fetch_request(&self, auth_token: String) -> (r: HttpRequest)
        ensures
            r@.method == HttpMethod::Get,
            r@.url == self@.get_url,
            r@.auth_token == auth_token@,
            r@.body is None,
    {
        HttpRequest {
            method: HttpMethod::Get,
            url: self.get_url.clone(),
            auth_token,
            body: Option::None,
        }
    }

    /// A POST of one message to the register or run-command endpoint, its
    /// body the message's exact wire form.
    pub fn post_request(&self, e: Endpoint, auth_token: String, msg: &Message) -> (r: HttpRequest)
        requires
            e == Endpoint::PostRegister || e == Endpoint::PostPlugin,
        ensures
            r@.method == HttpMethod::Post,
            r@.url == if e == Endpoint::PostRegister {
                self@.register_url
            } else {
                self@.plugin_url
            },
            r@.auth_token == auth_token@,
            r@.body == Option::Some(spec_message_json(msg@)),
    {
        let url = match e {
            Endpoint::PostRegister => self.register_url.clone(),
            _ => self.plugin_url.clone(),
        };
        HttpRequest {
            method: HttpMethod::Post,
            url,
            auth_token,
            body: Option::Some(encode_message(msg)),
        }
    }

    /// The DELETE that unregisters this client, its body the quit message's
    /// exact wire form.
    pub fn delete_request(&self, auth_token: String, msg: &Message) -> (r: HttpRequest)
        ensures
            r@.method == HttpMethod::Delete,
            r@.url == self@.delete_url,
            r@.auth_token == auth_token@,
            r@.body == Option::Some(spec_message_json(msg@)),
    {
        HttpRequest {
            method: HttpMethod::Delete,
            url: self.delete_url.clone(),
            auth_token,
            body: Option::Some(encode_message(msg)),
        }
    }
}

/// Reads the body of a successful reply: a response on a well-formed body,
/// a transport error on anything else.
pub fn read_reply_body(body: &str) -> (r: Result<Response, ChatErrorWithMsg>)
    ensures
        match r {
            Result::Ok(rsp) => spec_parse_response(body@) == Option::Some(rsp@),
            Result::Err(e) => {
                &&& spec_parse_response(body@) is None
                &&& e@.kind == ChatError::HttpError
                &&& e@.msg == "malformed response body"@
            },
        },
{
    match parse_response(body) {
        Option::Some(rsp) => Result::Ok(rsp),
        Option::None => Result::Err(
            ChatErrorWithMsg::new(ChatError::HttpError, String::from_str("malformed response body")),
        ),
    }
}

} // verus!
