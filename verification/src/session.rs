//! The session state: the client's identity, registration flag and group
//! membership, with the invariant that no torn combination of those fields
//! is ever observable.

use vstd::prelude::*;
use vstd::string::StringExecFns;
use crate::helper::generate_secure_token;
use crate::types::{JsonClient, JsonGroup, JsonGroupView, Message, Response};

verus! {

/// The client's identity and membership state.
///
/// Concurrent callers share one value of this type behind a lock owned by
/// the embedding program; every method here mutates or reads the whole value
/// at once, so under that lock no torn combination of fields can be seen.
pub struct SessionState {
    pub client_name: String,
    pub client_id: String,
    pub auth_token: String,
    pub group: Option<JsonGroup>,
    pub registered: bool,
}

/// The mathematical content of a [`SessionState`].
pub struct SessionView {
    pub client_name: Seq<char>,
    pub client_id: Seq<char>,
    pub auth_token: Seq<char>,
    pub group: Option<JsonGroupView>,
    pub registered: bool,
}

impl View for SessionState {
    type V = SessionView;

    open spec fn view(&self) -> SessionView {
        SessionView {
            client_name: self.client_name@,
            client_id: self.client_id@,
            auth_token: self.auth_token@,
            group: match self.group {
                Option::Some(g) => Option::Some(g@),
                Option::None => Option::None,
            },
            registered: self.registered,
        }
    }
}

/// The session invariant: the auth token is non-empty exactly while
/// registered, the client name is empty until registered, and a group is
/// held only while registered.
pub open spec fn session_wf(s: SessionView) -> bool {
    &&& s.registered <==> s.auth_token.len() > 0
    &&& !s.registered ==> s.client_name.len() == 0
    &&& !s.registered ==> s.group is None
}

/// The session state after `unregister`: every identity field is cleared and
/// only the process-lifetime client id survives.
pub open spec fn spec_unregister(s: SessionView) -> SessionView {
    SessionView {
        client_name: Seq::<char>::empty(),
        client_id: s.client_id,
        auth_token: Seq::<char>::empty(),
        group: Option::None,
        registered: false,
    }
}

/// The message the session builds from the given parts: an empty name
/// falls back to the client name once registered, and an empty target id to
/// the own client id.
pub open spec fn spec_create_message(
    s: SessionView,
    name: Seq<char>,
    plugin: Seq<char>,
    content: Seq<char>,
    client_id: Seq<char>,
) -> crate::types::MessageView {
    crate::types::MessageView {
        name: if name.len() == 0 && s.registered {
            s.client_name
        } else {
            name
        },
        content,
        plugin,
        client_id: if client_id.len() == 0 {
            s.client_id
        } else {
            client_id
        },
    }
}

impl SessionState {
    /// An unregistered session with the given stable client id.
    pub fn new(client_id: String) -> (r: Self)
        ensures
            r@.client_name.len() == 0,
            r@.client_id == client_id@,
            r@.auth_token.len() == 0,
            r@.group is None,
            !r@.registered,
            session_wf(r@),
    {
        SessionState {
            client_name: String::new(),
            client_id,
            auth_token: String::new(),
            group: Option::None,
            registered: false,
        }
    }

    /// An unregistered session with a freshly generated random client id:
    /// a 43-character token, stable for the life of the process.
    pub fn new_client() -> (r: Self)
        ensures
            r@.client_name.len() == 0,
            r@.client_id.len() == 43,
            r@.auth_token.len() == 0,
            r@.group is None,
            !r@.registered,
            session_wf(r@),
    {
        Self::new(generate_secure_token(32))
    }

    /// Whether the client is currently registered.
    pub fn is_registered(&self) -> (r: bool)
        ensures
            r == self@.registered,
    {
        self.registered
    }

    /// Becomes registered from a successful registration response: the
    /// response's name becomes the client name and its content the auth
    /// token. A registration response always carries a non-empty token.
    pub fn register(&mut self, rsp: &Response)
        requires
            rsp@.content.len() > 0,
        ensures
            final(self)@.client_name == rsp@.rsp_name,
            final(self)@.auth_token == rsp@.content,
            final(self)@.registered,
            final(self)@.client_id == old(self)@.client_id,
            final(self)@.group == old(self)@.group,
            old(self)@.group is None ==> session_wf(final(self)@),
            session_wf(old(self)@) ==> session_wf(final(self)@),
    {
        self.client_name = rsp.rsp_name.clone();
        self.auth_token = rsp.content.clone();
        self.registered = true;
    }

    /// Clears every identity field and becomes unregistered; the client id
    /// is kept for the life of the process.
    pub fn unregister(&mut self)
        ensures
            final(self)@ == spec_unregister(old(self)@),
            session_wf(final(self)@),
    {
        self.group = Option::None;
        self.client_name = String::new();
        self.auth_token = String::new();
        self.registered = false;
    }

    /// Enters a group. A group is only ever held while registered.
    pub fn set_group(&mut self, group: JsonGroup)
        requires
            old(self)@.registered,
        ensures
            final(self)@.group == Option::Some(group@),
            final(self)@.client_name == old(self)@.client_name,
            final(self)@.client_id == old(self)@.client_id,
            final(self)@.auth_token == old(self)@.auth_token,
            final(self)@.registered == old(self)@.registered,
            session_wf(old(self)@) ==> session_wf(final(self)@),
    {
        self.group = Option::Some(group);
    }

    /// Leaves the current group, if any.
    pub fn clear_group(&mut self)
        ensures
            final(self)@.group is None,
            final(self)@.client_name == old(self)@.client_name,
            final(self)@.client_id == old(self)@.client_id,
            final(self)@.auth_token == old(self)@.auth_token,
            final(self)@.registered == old(self)@.registered,
            session_wf(old(self)@) ==> session_wf(final(self)@),
    {
        self.group = Option::None;
    }

    /// A consistent copy of the whole identity, for read-only use.
    pub fn snapshot(&self) -> (r: Self)
        ensures
            r@ == self@,
    {
        SessionState {
            client_name: self.client_name.clone(),
            client_id: self.client_id.clone(),
            auth_token: self.auth_token.clone(),
            group: match &self.group {
                Option::Some(g) => Option::Some(g.duplicate()),
                Option::None => Option::None,
            },
            registered: self.registered,
        }
    }

    /// A copy of the current auth token, read at call time.
    pub fn token(&self) -> (r: String)
        ensures
            r@ == self@.auth_token,
    {
        self.auth_token.clone()
    }

    /// Builds an outgoing message: an empty name is replaced by the client
    /// name once registered, and an empty target id by the own client id.
    pub fn create_message(
        &self,
        name: String,
        plugin: String,
        content: String,
        client_id: String,
    ) -> (r: Message)
        ensures
            r@ == spec_create_message(self@, name@, plugin@, content@, client_id@),
    {
        let msg_name = if name.as_str().is_empty() && self.registered {
            self.client_name.clone()
        } else {
            name
        };
        let msg_client_id = if client_id.as_str().is_empty() {
            self.client_id.clone()
        } else {
            client_id
        };
        Message { name: msg_name, content, plugin, client_id: msg_client_id }
    }

    /// The client's own row for the user table: its name and id, and its
    /// group's name and id or fixed placeholders while in no group.
    pub fn own_json_client(&self) -> (r: JsonClient)
        ensures
            r@.name == self@.client_name,
            r@.client_id == self@.client_id,
            r@.call_state == "No Call"@,
            self@.group matches Option::Some(g) ==> r@.group_name == g.name && r@.group_id
                == g.group_id,
            self@.group is None ==> r@.group_name == "no group"@ && r@.group_id == "no group_id"@,
    {
        let (group_name, group_id) = match &self.group {
            Option::Some(g) => (g.name.clone(), g.group_id.clone()),
            Option::None => (String::from_str("no group"), String::from_str("no group_id")),
        };
        JsonClient {
            name: self.client_name.clone(),
            call_state: String::from_str("No Call"),
            client_id: self.client_id.clone(),
            group_name,
            group_id,
        }
    }
}

/// Unregistering is idempotent: on a well-formed, already unregistered
/// session it changes nothing.
pub proof fn lemma_unregister_idempotent(s: SessionView)
    requires
        session_wf(s),
        !s.registered,
    ensures
        spec_unregister(s) == s,
{
    assert(s.client_name =~= Seq::<char>::empty());
    assert(s.auth_token =~= Seq::<char>::empty());
}

} // verus!
