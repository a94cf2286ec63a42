use chat_core::session::SessionState;
use chat_core::types::{JsonGroup, Response};

fn reply(name: &str, content: &str) -> Response {
    Response {
        client_id: String::new(),
        rsp_name: String::from(name),
        content: String::from(content),
        err: String::new(),
    }
}

#[test]
fn new_session_is_unregistered_and_empty() {
    let s = SessionState::new(String::from("cid"));
    assert!(!s.registered);
    assert_eq!(s.client_name, "");
    assert_eq!(s.auth_token, "");
    assert_eq!(s.client_id, "cid");
    assert!(s.group.is_none());
}

#[test]
fn new_client_generates_an_id() {
    let s = SessionState::new_client();
    assert!(!s.registered);
    assert_eq!(s.client_id.len(), 43);
    let s2 = SessionState::new_client();
    assert_ne!(s.client_id, s2.client_id);
}

#[test]
fn register_sets_name_token_flag() {
    let mut s = SessionState::new(String::from("cid"));
    s.register(&reply("Alice", "token123"));
    assert!(s.registered);
    assert_eq!(s.client_name, "Alice");
    assert_eq!(s.auth_token, "token123");
    assert_eq!(s.client_id, "cid");
}

#[test]
fn unregister_clears_everything_but_the_id() {
    let mut s = SessionState::new(String::from("cid"));
    s.register(&reply("Alice", "token123"));
    s.set_group(JsonGroup { group_id: String::from("g"), name: String::from("G"), size: 2 });
    s.unregister();
    assert!(!s.registered);
    assert_eq!(s.client_name, "");
    assert_eq!(s.auth_token, "");
    assert_eq!(s.client_id, "cid");
    assert!(s.group.is_none());
}

#[test]
fn unregister_is_idempotent() {
    let mut s = SessionState::new(String::from("cid"));
    s.unregister();
    let name = s.client_name.clone();
    let token = s.auth_token.clone();
    let id = s.client_id.clone();
    s.unregister();
    assert!(!s.registered);
    assert_eq!(s.client_name, name);
    assert_eq!(s.auth_token, token);
    assert_eq!(s.client_id, id);
    assert!(s.group.is_none());
}

#[test]
fn group_membership_is_settable_and_clearable() {
    let mut s = SessionState::new(String::from("cid"));
    s.register(&reply("Alice", "t"));
    s.set_group(JsonGroup { group_id: String::from("g1"), name: String::from("G"), size: 5 });
    assert_eq!(s.group.as_ref().unwrap().group_id, "g1");
    s.clear_group();
    assert!(s.group.is_none());
}

#[test]
fn create_message_fills_name_once_registered() {
    let mut s = SessionState::new(String::from("cid"));
    let m = s.create_message(
        String::new(),
        String::from("/broadcast"),
        String::from("hi"),
        String::new(),
    );
    assert_eq!(m.name, "");
    assert_eq!(m.client_id, "cid");
    s.register(&reply("Alice", "t"));
    let m = s.create_message(
        String::new(),
        String::from("/broadcast"),
        String::from("hi"),
        String::new(),
    );
    assert_eq!(m.name, "Alice");
    assert_eq!(m.content, "hi");
    assert_eq!(m.plugin, "/broadcast");
    assert_eq!(m.client_id, "cid");
}

#[test]
fn create_message_keeps_explicit_name_and_target() {
    let mut s = SessionState::new(String::from("cid"));
    s.register(&reply("Alice", "t"));
    let m = s.create_message(
        String::from("Bob"),
        String::from("/private"),
        String::from("hello"),
        String::from("other"),
    );
    assert_eq!(m.name, "Bob");
    assert_eq!(m.client_id, "other");
}

#[test]
fn snapshot_copies_the_identity() {
    let mut s = SessionState::new(String::from("cid"));
    s.register(&reply("Alice", "t"));
    let c = s.snapshot();
    assert_eq!(c.client_name, "Alice");
    assert_eq!(c.auth_token, "t");
    assert_eq!(c.client_id, "cid");
    assert!(c.registered);
}

#[test]
fn own_json_client_uses_placeholders_without_a_group() {
    let mut s = SessionState::new(String::from("cid"));
    s.register(&reply("Alice", "t"));
    let row = s.own_json_client();
    assert_eq!(row.name, "Alice");
    assert_eq!(row.call_state, "No Call");
    assert_eq!(row.group_name, "no group");
    assert_eq!(row.group_id, "no group_id");
    s.set_group(JsonGroup { group_id: String::from("g1"), name: String::from("G"), size: 1 });
    let row = s.own_json_client();
    assert_eq!(row.group_name, "G");
    assert_eq!(row.group_id, "g1");
}

#[test]
fn token_reads_the_current_token() {
    let mut s = SessionState::new(String::from("cid"));
    assert_eq!(s.token(), "");
    s.register(&reply("A", "tok"));
    assert_eq!(s.token(), "tok");
}
