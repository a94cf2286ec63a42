//! The plugin registry: the immutable keyword-to-handler mapping built once
//! at startup, the forwarded-keyword set, and the registration-gating
//! dispatch decision.

use vstd::prelude::*;
use vstd::string::StringExecFns;
use crate::errors::{ChatError, ChatErrorWithMsg, ChatErrorView};
use crate::json::{encode_message, spec_message_json};
use crate::text::string_eq_str;
use crate::types::{Message, MessageView};

verus! {

/// The closed set of handlers a keyword can resolve to.
#[derive(Clone, Copy, PartialEq, Eq, Structural, Debug)]
pub enum HandlerKind {
    Register,
    Logout,
    PrivateMessage,
    Forward,
}

/// One keyword bound to its handler.
pub struct PluginEntry {
    pub keyword: String,
    pub handler: HandlerKind,
}

/// The mathematical content of a [`PluginEntry`].
pub struct PluginEntryView {
    pub keyword: Seq<char>,
    pub handler: HandlerKind,
}

impl View for PluginEntry {
    type V = PluginEntryView;

    open spec fn view(&self) -> PluginEntryView {
        PluginEntryView { keyword: self.keyword@, handler: self.handler }
    }
}

/// The keyword-to-handler mapping and the forwarded-keyword set. Both are
/// filled once at startup and never change afterwards.
pub struct PluginRegistry {
    pub plugins: Vec<PluginEntry>,
    pub forward_plugins: Vec<String>,
}

/// The handler the fixed mapping binds a keyword to.
pub open spec fn spec_registry_lookup(kw: Seq<char>) -> Option<HandlerKind> {
    if kw == "/register"@ {
        Option::Some(HandlerKind::Register)
    } else if kw == "/quit"@ {
        Option::Some(HandlerKind::Logout)
    } else if kw == "/private"@ {
        Option::Some(HandlerKind::PrivateMessage)
    } else if kw == Seq::<char>::empty() {
        Option::Some(HandlerKind::Forward)
    } else {
        Option::None
    }
}

/// Whether a keyword belongs to the forwarded set, routed to the default
/// handler instead of one of its own.
pub open spec fn spec_is_forwarded(kw: Seq<char>) -> bool {
    ||| kw == "/help"@
    ||| kw == "/time"@
    ||| kw == "/users"@
    ||| kw == "/broadcast"@
    ||| kw == "/group"@
}

/// The registry holds exactly the fixed mapping and the fixed forwarded
/// set.
pub open spec fn registry_wf(entries: Seq<PluginEntryView>, forwarded: Seq<Seq<char>>) -> bool {
    &&& entries.len() == 4
    &&& entries[0] == PluginEntryView { keyword: "/register"@, handler: HandlerKind::Register }
    &&& entries[1] == PluginEntryView { keyword: "/quit"@, handler: HandlerKind::Logout }
    &&& entries[2] == PluginEntryView {
        keyword: "/private"@,
        handler: HandlerKind::PrivateMessage,
    }
    &&& entries[3] == PluginEntryView {
        keyword: Seq::<char>::empty(),
        handler: HandlerKind::Forward,
    }
    &&& forwarded =~= seq!["/help"@, "/time"@, "/users"@, "/broadcast"@, "/group"@]
}

impl PluginRegistry {
    pub open spec fn wf(&self) -> bool {
        registry_wf(
            self.plugins@.map_values(|e: PluginEntry| e@),
            self.forward_plugins@.map_values(|s: String| s@),
        )
    }

    /// Builds the mapping: the three dedicated handlers, the default
    /// handler under the empty keyword, and the forwarded set.
    pub fn register_plugins() -> (r: Self)
        ensures
            r.wf(),
    {
        let mut plugins: Vec<PluginEntry> = Vec::new();
        plugins.push(
            PluginEntry { keyword: String::from_str("/register"), handler: HandlerKind::Register },
        );
        plugins.push(
            PluginEntry { keyword: String::from_str("/quit"), handler: HandlerKind::Logout },
        );
        plugins.push(
            PluginEntry {
                keyword: String::from_str("/private"),
                handler: HandlerKind::PrivateMessage,
            },
        );
        plugins.push(PluginEntry { keyword: String::new(), handler: HandlerKind::Forward });
        let mut r = PluginRegistry { plugins, forward_plugins: Vec::new() };
        r.fill_forward_plugins();
        proof {
            assert(r.forward_plugins@.map_values(|s: String| s@) =~= seq![
                "/help"@,
                "/time"@,
                "/users"@,
                "/broadcast"@,
                "/group"@,
            ]);
        }
        r
    }

    /// Fills the forwarded-keyword set.
    pub fn fill_forward_plugins(&mut self)
        ensures
            final(self).plugins == old(self).plugins,
            final(self).forward_plugins@.map_values(|s: String| s@) == old(
                self,
            ).forward_plugins@.map_values(|s: String| s@) + seq![
                "/help"@,
                "/time"@,
                "/users"@,
                "/broadcast"@,
                "/group"@,
            ],
    {
        self.forward_plugins.push(String::from_str("/help"));
        self.forward_plugins.push(String::from_str("/time"));
        self.forward_plugins.push(String::from_str("/users"));
        self.forward_plugins.push(String::from_str("/broadcast"));
        self.forward_plugins.push(String::from_str("/group"));
        proof {
            assert(self.forward_plugins@.map_values(|s: String| s@) =~= old(
                self,
            ).forward_plugins@.map_values(|s: String| s@) + seq![
                "/help"@,
                "/time"@,
                "/users"@,
                "/broadcast"@,
                "/group"@,
            ]);
        }
    }

    /// Whether this keyword is routed to the default handler.
    pub fn is_forwarded(&self, kw: &str) -> (r: bool)
        requires
            self.wf(),
        ensures
            r == spec_is_forwarded(kw@),
    {
        let ghost fwd = self.forward_plugins@.map_values(|s: String| s@);
        let mut i: usize = 0;
        while i < self.forward_plugins.len()
            invariant
                self.wf(),
                fwd == self.forward_plugins@.map_values(|s: String| s@),
                i <= fwd.len(),
                forall|j: int| 0 <= j < i ==> fwd[j] != kw@,
            decreases fwd.len() - i,
        {
            if string_eq_str(&self.forward_plugins[i], kw) {
                return true;
            }
            i = i + 1;
        }
        false
    }

    /// The handler this keyword is bound to, if any.
    pub fn lookup(&self, kw: &str) -> (r: Option<HandlerKind>)
        requires
            self.wf(),
        ensures
            r == spec_registry_lookup(kw@),
    {
        let ghost entries = self.plugins@.map_values(|e: PluginEntry| e@);
        let mut i: usize = 0;
        while i < self.plugins.len()
            invariant
                self.wf(),
                entries == self.plugins@.map_values(|e: PluginEntry| e@),
                i <= entries.len(),
                forall|j: int| 0 <= j < i ==> entries[j].keyword != kw@,
            decreases entries.len() - i,
        {
            if string_eq_str(&self.plugins[i].keyword, kw) {
                return Option::Some(self.plugins[i].handler);
            }
            i = i + 1;
        }
        Option::None
    }
}

/// What the registration rule and the lookup decide for one command.
pub enum DispatchDecision {
    /// The command is refused before any handler runs.
    Reject(ChatErrorWithMsg),
    /// An empty keyword succeeds trivially with an empty result.
    NoOp,
    /// The resolved handler runs.
    Run(HandlerKind),
}

/// The mathematical content of a [`DispatchDecision`].
pub enum DispatchDecisionView {
    Reject(ChatErrorView),
    NoOp,
    Run(HandlerKind),
}

impl View for DispatchDecision {
    type V = DispatchDecisionView;

    open spec fn view(&self) -> DispatchDecisionView {
        match self {
            DispatchDecision::Reject(e) => DispatchDecisionView::Reject(e@),
            DispatchDecision::NoOp => DispatchDecisionView::NoOp,
            DispatchDecision::Run(h) => DispatchDecisionView::Run(*h),
        }
    }
}

/// The dispatch decision for one command against the registration gate and
/// the fixed mapping: anything but registering demands registration,
/// registering twice is refused, an empty keyword is a no-op, a forwarded
/// keyword resolves to the default handler, and an unknown keyword is
/// refused citing the command.
pub open spec fn spec_decide(registered: bool, msg: MessageView) -> DispatchDecisionView {
    let kw = msg.plugin;
    if kw != "/register"@ && !registered {
        DispatchDecisionView::Reject(
            ChatErrorView { kind: ChatError::NoPermission, msg: "You have to be registered"@ },
        )
    } else if kw == "/register"@ && registered {
        DispatchDecisionView::Reject(
            ChatErrorView { kind: ChatError::NoPermission, msg: "You are already registered"@ },
        )
    } else if kw.len() == 0 {
        DispatchDecisionView::NoOp
    } else {
        let resolved = if spec_is_forwarded(kw) {
            Seq::<char>::empty()
        } else {
            kw
        };
        match spec_registry_lookup(resolved) {
            Option::Some(h) => DispatchDecisionView::Run(h),
            Option::None => DispatchDecisionView::Reject(
                ChatErrorView {
                    kind: ChatError::EmptyField,
                    msg: "Plugin field in message is empty "@ + spec_message_json(msg),
                },
            ),
        }
    }
}

impl PluginRegistry {
    /// Decides what happens to one command, as [`spec_decide`] states.
    pub fn decide(&self, registered: bool, msg: &Message) -> (r: DispatchDecision)
        requires
            self.wf(),
        ensures
            r@ == spec_decide(registered, msg@),
    {
        let is_register = string_eq_str(&msg.plugin, "/register");
        if !is_register && !registered {
            return DispatchDecision::Reject(
                ChatErrorWithMsg::new(
                    ChatError::NoPermission,
                    String::from_str("You have to be registered"),
                ),
            );
        }
        if is_register && registered {
            return DispatchDecision::Reject(
                ChatErrorWithMsg::new(
                    ChatError::NoPermission,
                    String::from_str("You are already registered"),
                ),
            );
        }
        if msg.plugin.as_str().is_empty() {
            return DispatchDecision::NoOp;
        }
        let command = self.resolve_command(msg);
        match self.lookup(command.as_str()) {
            Option::Some(h) => DispatchDecision::Run(h),
            Option::None => {
                let mut cite = String::from_str("Plugin field in message is empty ");
                let body = encode_message(msg);
                cite.append(body.as_str());
                DispatchDecision::Reject(ChatErrorWithMsg::new(ChatError::EmptyField, cite))
            },
        }
    }

    /// The keyword a command is looked up under: a forwarded keyword falls
    /// to the default handler's empty keyword.
    fn resolve_command(&self, msg: &Message) -> (r: String)
        requires
            self.wf(),
        ensures
            r@ == if spec_is_forwarded(msg@.plugin) {
                Seq::<char>::empty()
            } else {
                msg@.plugin
            },
    {
        if self.is_forwarded(msg.plugin.as_str()) {
            String::new()
        } else {
            msg.plugin.clone()
        }
    }
}

/// While unregistered, dispatching any keyword but the register keyword
/// always fails with `NoPermission`.
pub proof fn lemma_unregistered_dispatch_rejected(msg: MessageView)
    requires
        msg.plugin != "/register"@,
    ensures
        spec_decide(false, msg) == DispatchDecisionView::Reject(
            ChatErrorView { kind: ChatError::NoPermission, msg: "You have to be registered"@ },
        ),
{
}

/// Dispatching the register keyword while unregistered reaches the
/// register handler: the one command the registration rule lets through.
pub proof fn lemma_register_while_unregistered_runs(msg: MessageView)
    requires
        msg.plugin == "/register"@,
    ensures
        spec_decide(false, msg) == DispatchDecisionView::Run(HandlerKind::Register),
{
    reveal_strlit("/register");
    assert(msg.plugin.len() == 9);
    reveal_strlit("/help");
    reveal_strlit("/time");
    reveal_strlit("/users");
    reveal_strlit("/broadcast");
    reveal_strlit("/group");
    assert(!spec_is_forwarded(msg.plugin));
}

/// Dispatching the register keyword while already registered always fails
/// with `NoPermission`.
pub proof fn lemma_register_while_registered_rejected(msg: MessageView)
    requires
        msg.plugin == "/register"@,
    ensures
        spec_decide(true, msg) == DispatchDecisionView::Reject(
            ChatErrorView { kind: ChatError::NoPermission, msg: "You are already registered"@ },
        ),
{
}

} // verus!
