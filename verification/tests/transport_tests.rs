use chat_core::errors::ChatError;
use chat_core::transport::{endpoint_url, read_reply_body, HttpMethod, HttpTransport};
use chat_core::types::{Endpoint, Message};

fn msg() -> Message {
    Message {
        name: String::from("Alice"),
        content: String::from("hi"),
        plugin: String::from("/broadcast"),
        client_id: String::from("cid"),
    }
}

#[test]
fn endpoint_urls_follow_the_route_table() {
    let base = "http://localhost:8080";
    assert_eq!(endpoint_url(base, "cid", Endpoint::PostRegister), "http://localhost:8080/users/cid");
    assert_eq!(endpoint_url(base, "cid", Endpoint::PostPlugin), "http://localhost:8080/users/cid/run");
    assert_eq!(endpoint_url(base, "cid", Endpoint::Delete), "http://localhost:8080/users/cid");
    assert_eq!(endpoint_url(base, "cid", Endpoint::Get), "http://localhost:8080/users/cid/chat");
    assert_eq!(endpoint_url(base, "cid", Endpoint::SignalWebRTC), "http://localhost:8080/users/cid/signal");
}

#[test]
fn the_table_caches_all_five_urls() {
    let t = HttpTransport::new_client("http://h", "c1");
    assert_eq!(t.url_for(Endpoint::PostRegister), "http://h/users/c1");
    assert_eq!(t.url_for(Endpoint::PostPlugin), "http://h/users/c1/run");
    assert_eq!(t.url_for(Endpoint::Delete), "http://h/users/c1");
    assert_eq!(t.url_for(Endpoint::Get), "http://h/users/c1/chat");
    assert_eq!(t.url_for(Endpoint::SignalWebRTC), "http://h/users/c1/signal");
}

#[test]
fn fetch_request_is_a_get_with_the_token() {
    let t = HttpTransport::new_client("http://h", "c1");
    let r = t.fetch_request(String::from("tok"));
    assert!(matches!(r.method, HttpMethod::Get));
    assert_eq!(r.url, "http://h/users/c1/chat");
    assert_eq!(r.auth_token, "tok");
    assert!(r.body.is_none());
}

#[test]
fn post_request_carries_the_wire_body() {
    let t = HttpTransport::new_client("http://h", "c1");
    let r = t.post_request(Endpoint::PostPlugin, String::from("tok"), &msg());
    assert!(matches!(r.method, HttpMethod::Post));
    assert_eq!(r.url, "http://h/users/c1/run");
    assert_eq!(
        r.body.unwrap(),
        r#"{"name":"Alice","content":"hi","plugin":"/broadcast","clientId":"cid"}"#
    );
    let r = t.post_request(Endpoint::PostRegister, String::from(""), &msg());
    assert_eq!(r.url, "http://h/users/c1");
    assert_eq!(r.auth_token, "");
}

#[test]
fn only_requests_with_a_body_carry_the_json_content_type() {
    let t = HttpTransport::new_client("http://h", "c1");
    assert!(t.fetch_request(String::from("tok")).content_type().is_none());
    let r = t.post_request(Endpoint::PostPlugin, String::from("tok"), &msg());
    assert_eq!(r.content_type().unwrap(), "application/json");
    let r = t.delete_request(String::from("tok"), &msg());
    assert_eq!(r.content_type().unwrap(), "application/json");
}

#[test]
fn delete_request_targets_the_delete_url() {
    let t = HttpTransport::new_client("http://h", "c1");
    let r = t.delete_request(String::from("tok"), &msg());
    assert!(matches!(r.method, HttpMethod::Delete));
    assert_eq!(r.url, "http://h/users/c1");
    assert!(r.body.is_some());
}

#[test]
fn read_reply_body_accepts_a_wire_response() {
    let rsp = read_reply_body(r#"{"clientId":"c","name":"n","content":"hi","errorString":""}"#)
        .unwrap();
    assert_eq!(rsp.rsp_name, "n");
    assert_eq!(rsp.content, "hi");
    assert_eq!(rsp.err, "");
}

#[test]
fn read_reply_body_refuses_garbage_as_transport_failure() {
    let e = read_reply_body("it is broken").unwrap_err();
    assert!(matches!(e.kind, ChatError::HttpError));
    assert_eq!(e.msg, "malformed response body");
}
