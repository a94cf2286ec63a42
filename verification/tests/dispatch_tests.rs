use chat_core::errors::ChatError;
use chat_core::executor::{outcome_to_response, plan_input, ExecutorStep};
use chat_core::handlers::{complete, prepare, HandlerAction};
use chat_core::registry::{DispatchDecision, HandlerKind, PluginRegistry};
use chat_core::session::SessionState;
use chat_core::types::{Endpoint, Message, Response};

fn msg(plugin: &str, content: &str) -> Message {
    Message {
        name: String::new(),
        content: String::from(content),
        plugin: String::from(plugin),
        client_id: String::new(),
    }
}

fn reply(name: &str, content: &str, err: &str) -> Response {
    Response {
        client_id: String::new(),
        rsp_name: String::from(name),
        content: String::from(content),
        err: String::from(err),
    }
}

fn registered_session() -> SessionState {
    let mut s = SessionState::new(String::from("cid"));
    s.register(&reply("Alice", "token123", ""));
    s
}

#[test]
fn unregistered_dispatch_is_rejected_for_every_other_keyword() {
    let registry = PluginRegistry::register_plugins();
    for kw in ["/help", "/quit", "/private", "/broadcast", "/unknown", ""] {
        match registry.decide(false, &msg(kw, "x")) {
            DispatchDecision::Reject(e) => {
                assert!(matches!(e.kind, ChatError::NoPermission));
                assert_eq!(e.msg, "You have to be registered");
            }
            _ => panic!("keyword {kw:?} was not rejected"),
        }
    }
}

#[test]
fn register_while_registered_is_rejected() {
    let registry = PluginRegistry::register_plugins();
    match registry.decide(true, &msg("/register", "Alice")) {
        DispatchDecision::Reject(e) => {
            assert!(matches!(e.kind, ChatError::NoPermission));
            assert_eq!(e.msg, "You are already registered");
        }
        _ => panic!("second register was not rejected"),
    }
}

#[test]
fn register_while_unregistered_runs_the_register_handler() {
    let registry = PluginRegistry::register_plugins();
    assert!(matches!(
        registry.decide(false, &msg("/register", "Alice")),
        DispatchDecision::Run(HandlerKind::Register)
    ));
}

#[test]
fn empty_keyword_is_a_noop() {
    let registry = PluginRegistry::register_plugins();
    assert!(matches!(registry.decide(true, &msg("", "")), DispatchDecision::NoOp));
}

#[test]
fn forwarded_keywords_fall_to_the_default_handler() {
    let registry = PluginRegistry::register_plugins();
    for kw in ["/help", "/time", "/users", "/broadcast", "/group"] {
        assert!(matches!(
            registry.decide(true, &msg(kw, "x")),
            DispatchDecision::Run(HandlerKind::Forward)
        ));
    }
}

#[test]
fn dedicated_keywords_resolve_to_their_handlers() {
    let registry = PluginRegistry::register_plugins();
    assert!(matches!(
        registry.decide(true, &msg("/quit", "")),
        DispatchDecision::Run(HandlerKind::Logout)
    ));
    assert!(matches!(
        registry.decide(true, &msg("/private", "x y")),
        DispatchDecision::Run(HandlerKind::PrivateMessage)
    ));
}

#[test]
fn unknown_keyword_fails_with_empty_field_citing_the_command() {
    let registry = PluginRegistry::register_plugins();
    match registry.decide(true, &msg("/nosuch", "x")) {
        DispatchDecision::Reject(e) => {
            assert!(matches!(e.kind, ChatError::EmptyField));
            assert!(e.msg.starts_with("Plugin field in message is empty "));
            assert!(e.msg.contains(r#""plugin":"/nosuch""#));
        }
        _ => panic!("unknown keyword was not rejected"),
    }
}

#[test]
fn scenario_register_flow() {
    let registry = PluginRegistry::register_plugins();
    let mut session = SessionState::new(String::from("cid"));
    let step = plan_input(&registry, &session, "/register Alice");
    let (kind, endpoint, message) = match step {
        ExecutorStep::Call { kind, endpoint, message } => (kind, endpoint, message),
        ExecutorStep::Emit(r) => panic!("expected a call, got response {:?}/{:?}", r.content, r.err),
    };
    assert!(matches!(kind, HandlerKind::Register));
    assert!(matches!(endpoint, Endpoint::PostRegister));
    assert_eq!(message.name, "Alice");
    assert_eq!(message.content, "Alice");
    assert_eq!(message.plugin, "/register");
    assert_eq!(message.client_id, "cid");

    let outcome = complete(kind, &mut session, Ok(reply("Alice", "fresh-token", "")));
    assert!(session.registered);
    assert_eq!(session.client_name, "Alice");
    assert_eq!(session.auth_token, "fresh-token");
    let rsp = outcome_to_response(outcome);
    assert_eq!(rsp.content, "- Du bist registriert -");
    assert_eq!(rsp.err, "");
}

#[test]
fn scenario_plain_text_is_broadcast() {
    let registry = PluginRegistry::register_plugins();
    let mut session = registered_session();
    let step = plan_input(&registry, &session, "hello");
    let (kind, endpoint, message) = match step {
        ExecutorStep::Call { kind, endpoint, message } => (kind, endpoint, message),
        ExecutorStep::Emit(_) => panic!("expected a call"),
    };
    assert!(matches!(kind, HandlerKind::Forward));
    assert!(matches!(endpoint, Endpoint::PostPlugin));
    assert_eq!(message.plugin, "/broadcast");
    assert_eq!(message.content, "hello");
    assert_eq!(message.name, "Alice");

    let outcome = complete(kind, &mut session, Ok(reply("", "", "")));
    let rsp = outcome_to_response(outcome);
    assert_eq!(rsp.err, "");
    assert_eq!(rsp.content, "");
}

#[test]
fn scenario_private_without_content_fails_before_any_call() {
    let registry = PluginRegistry::register_plugins();
    let session = registered_session();
    match plan_input(&registry, &session, "/private") {
        ExecutorStep::Emit(rsp) => {
            assert_eq!(rsp.content, "");
            assert_eq!(rsp.err, "Your input was invalid: You should supply the Id of the receiver");
        }
        ExecutorStep::Call { .. } => panic!("a transport call was planned"),
    }
}

#[test]
fn register_validates_the_name_length() {
    let session = SessionState::new(String::from("cid"));
    let long = "x".repeat(51);
    for bad in ["ab", long.as_str()] {
        match prepare(HandlerKind::Register, &session, msg("/register", bad)) {
            HandlerAction::Fail(e) => {
                assert!(matches!(e.kind, ChatError::WrongInput));
                assert_eq!(e.msg, "Your name has to be between 3 and 50 characters long");
            }
            HandlerAction::Call { .. } => panic!("bad name {bad:?} was accepted"),
        }
    }
    let ok = "x".repeat(50);
    assert!(matches!(
        prepare(HandlerKind::Register, &session, msg("/register", ok.as_str())),
        HandlerAction::Call { .. }
    ));
}

#[test]
fn private_message_splits_target_and_text() {
    let session = registered_session();
    match prepare(HandlerKind::PrivateMessage, &session, msg("/private", "abc123 hello there")) {
        HandlerAction::Call { endpoint, message } => {
            assert!(matches!(endpoint, Endpoint::PostPlugin));
            assert_eq!(message.client_id, "abc123");
            assert_eq!(message.content, "hello there");
            assert_eq!(message.name, "Alice");
        }
        HandlerAction::Fail(_) => panic!("private message was refused"),
    }
}

#[test]
fn logout_clears_the_session_and_yields_the_sentinel() {
    let mut session = registered_session();
    let outcome = complete(HandlerKind::Logout, &mut session, Ok(reply("", "", "")));
    assert!(!session.registered);
    assert_eq!(session.client_name, "");
    assert_eq!(outcome.unwrap(), "- Du bist nun vom Server getrennt -");
}

#[test]
fn forward_hands_the_reply_error_through() {
    let mut session = registered_session();
    let outcome = complete(HandlerKind::Forward, &mut session, Ok(reply("", "", "server says no")));
    assert_eq!(outcome.unwrap(), "server says no");
    assert!(session.registered);
}

#[test]
fn a_transport_error_passes_through_unchanged() {
    let mut session = registered_session();
    let err = chat_core::errors::ChatErrorWithMsg::new(
        ChatError::HttpError,
        String::from("connection refused"),
    );
    let outcome = complete(HandlerKind::Forward, &mut session, Err(err));
    let e = outcome.unwrap_err();
    assert!(matches!(e.kind, ChatError::HttpError));
    assert_eq!(e.msg, "connection refused");
}

#[test]
fn a_registration_reply_without_a_token_registers_nothing() {
    let mut session = SessionState::new(String::from("cid"));
    let outcome = complete(HandlerKind::Register, &mut session, Ok(reply("Alice", "", "")));
    assert!(!session.registered);
    let e = outcome.unwrap_err();
    assert!(matches!(e.kind, ChatError::HttpError));
}

#[test]
fn failed_commands_render_as_kind_and_message() {
    let e = chat_core::errors::ChatErrorWithMsg::new(
        ChatError::NoPermission,
        String::from("You have to be registered"),
    );
    let rsp = outcome_to_response(Err(e));
    assert_eq!(rsp.err, "You got no permission: You have to be registered");
    assert_eq!(rsp.content, "");
}
