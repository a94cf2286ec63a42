use chat_core::errors::ChatError;
use chat_core::poller::{poller_on_result, poller_step, PollAction};
use chat_core::respond::{classify_response, handle_add_group, is_unregister_notice, title_for, users_refresh_command, ResponseAction};
use chat_core::session::SessionState;
use chat_core::types::{JsonGroup, Response};

fn rsp(name: &str, content: &str, err: &str) -> Response {
    Response {
        client_id: String::new(),
        rsp_name: String::from(name),
        content: String::from(content),
        err: String::from(err),
    }
}

fn registered_session() -> SessionState {
    let mut s = SessionState::new(String::from("cid"));
    s.register(&rsp("Alice", "tok", ""));
    s
}

#[test]
fn classification_follows_the_consumer_order() {
    assert_eq!(classify_response(&rsp("x", "y", "Ignore Response")), ResponseAction::Ignore);
    assert_eq!(classify_response(&rsp("x", "y", "boom")), ResponseAction::ShowError);
    assert_eq!(classify_response(&rsp("x", "", "")), ResponseAction::Nothing);
    assert_eq!(
        classify_response(&rsp("x", "- Du bist registriert -", "")),
        ResponseAction::RegisterBanner
    );
    assert_eq!(classify_response(&rsp("", "server text", "")), ResponseAction::ServerNotice);
    assert_eq!(classify_response(&rsp("Remove User", "bob", "")), ResponseAction::UserLeft);
    assert_eq!(classify_response(&rsp("Add User", "bob", "")), ResponseAction::UserJoined);
    assert_eq!(classify_response(&rsp("Add Group", "{}", "")), ResponseAction::GroupJoined);
    assert_eq!(classify_response(&rsp("Leave Group", "x", "")), ResponseAction::GroupLeft);
    assert_eq!(classify_response(&rsp("Users", "[]", "")), ResponseAction::UsersList);
    assert_eq!(classify_response(&rsp("bob", "hi", "")), ResponseAction::Chat);
}

#[test]
fn the_error_field_wins_over_content() {
    assert_eq!(
        classify_response(&rsp("Users", "- Du bist registriert -", "boom")),
        ResponseAction::ShowError
    );
}

#[test]
fn unregister_notice_is_recognized() {
    assert!(is_unregister_notice(&rsp("", "- Du bist nun vom Server getrennt -", "")));
    assert!(!is_unregister_notice(&rsp("", "something else", "")));
}

#[test]
fn add_group_enters_the_group() {
    let mut s = registered_session();
    let g = handle_add_group(&mut s, r#"{"groupId":"g1","name":"Team","size":2}"#).unwrap();
    assert_eq!(g.name, "Team");
    let held = s.group.as_ref().unwrap();
    assert_eq!(held.group_id, "g1");
    assert_eq!(held.size, 2);
}

#[test]
fn malformed_group_is_wrong_input_and_changes_nothing() {
    let mut s = registered_session();
    let e = handle_add_group(&mut s, "no group here").unwrap_err();
    assert!(matches!(e.kind, ChatError::WrongInput));
    assert!(s.group.is_none());
}

#[test]
fn users_refresh_depends_on_registration_and_group() {
    let mut s = SessionState::new(String::from("cid"));
    assert!(users_refresh_command(&s).is_none());
    s.register(&rsp("Alice", "tok", ""));
    assert_eq!(users_refresh_command(&s).unwrap(), "/users");
    s.set_group(JsonGroup { group_id: String::from("g"), name: String::from("G"), size: 1 });
    assert_eq!(users_refresh_command(&s).unwrap(), "/group users");
}

#[test]
fn title_follows_the_session_state() {
    let mut s = SessionState::new(String::from("cid"));
    assert_eq!(title_for(&s), "Willkommen im Chatraum!");
    s.register(&rsp("Alice", "tok", ""));
    assert_eq!(title_for(&s), "Du bist registriert Alice!");
    s.set_group(JsonGroup { group_id: String::from("g"), name: String::from("Team"), size: 2 });
    assert_eq!(title_for(&s), "Alice, du bist in der Gruppe Team!");
    s.unregister();
    assert_eq!(title_for(&s), "Willkommen im Chatraum!");
}

#[test]
fn poller_waits_until_registered_then_fetches() {
    let mut s = SessionState::new(String::from("cid"));
    assert_eq!(poller_step(s.registered), PollAction::Wait);
    s.register(&rsp("Alice", "tok", ""));
    assert_eq!(poller_step(s.registered), PollAction::Fetch);
}

#[test]
fn poller_emits_replies_and_skips_failures() {
    let out = poller_on_result(Ok(rsp("bob", "hi", ""))).unwrap();
    assert_eq!(out.content, "hi");
    let e = chat_core::errors::ChatErrorWithMsg::new(ChatError::HttpError, String::from("down"));
    assert!(poller_on_result(Err(e)).is_none());
}
