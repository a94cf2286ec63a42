use chat_core::json::{encode_message, parse_clients, parse_group, parse_message, parse_response};
use chat_core::types::Message;

fn msg(name: &str, content: &str, plugin: &str, client_id: &str) -> Message {
    Message {
        name: String::from(name),
        content: String::from(content),
        plugin: String::from(plugin),
        client_id: String::from(client_id),
    }
}

#[test]
fn encode_message_is_canonical() {
    let m = msg("alice", "hi", "/broadcast", "id1");
    assert_eq!(
        encode_message(&m),
        r#"{"name":"alice","content":"hi","plugin":"/broadcast","clientId":"id1"}"#
    );
}

#[test]
fn message_round_trip_plain() {
    let m = msg("alice", "hello there", "/private", "abc123");
    let back = parse_message(&encode_message(&m)).unwrap();
    assert_eq!(back.name, m.name);
    assert_eq!(back.content, m.content);
    assert_eq!(back.plugin, m.plugin);
    assert_eq!(back.client_id, m.client_id);
}

#[test]
fn message_round_trip_with_escapes() {
    let m = msg("a\"b", "line1\nline2\tend", "/x\\y", "id\r");
    let back = parse_message(&encode_message(&m)).unwrap();
    assert_eq!(back.name, m.name);
    assert_eq!(back.content, m.content);
    assert_eq!(back.plugin, m.plugin);
    assert_eq!(back.client_id, m.client_id);
}

#[test]
fn parse_response_accepts_any_field_order_and_whitespace() {
    let body = " { \"content\" : \"hi\" , \"errorString\" : \"\" , \"name\" : \"bob\" , \"clientId\" : \"c9\" } ";
    let r = parse_response(body).unwrap();
    assert_eq!(r.client_id, "c9");
    assert_eq!(r.rsp_name, "bob");
    assert_eq!(r.content, "hi");
    assert_eq!(r.err, "");
}

#[test]
fn parse_response_decodes_escapes() {
    let body = r#"{"clientId":"c","name":"n","content":"a\nb\tc\"d\\e\/f\b\fg","errorString":""}"#;
    let r = parse_response(body).unwrap();
    assert_eq!(r.content, "a\nb\tc\"d\\e/f\u{0008}\u{000C}g");
}

#[test]
fn parse_response_rejects_malformed_bodies() {
    assert!(parse_response("").is_none());
    assert!(parse_response("not json").is_none());
    assert!(parse_response(r#"{"clientId":"c"}"#).is_none());
    assert!(parse_response(r#"{"clientId":"c","name":"n","content":"x","errorString":""}trail"#).is_none());
    assert!(parse_response(r#"{"clientId":1,"name":"n","content":"x","errorString":""}"#).is_none());
}

#[test]
fn unicode_escapes_decode() {
    let body = r#"{"clientId":"c","name":"n","content":"\u0041\u00e9\u20AC x","errorString":""}"#;
    assert_eq!(parse_response(body).unwrap().content, "A\u{e9}\u{20ac} x");
}

#[test]
fn bad_unicode_escapes_are_refused() {
    let surrogate = r#"{"clientId":"c","name":"n","content":"\ud800","errorString":""}"#;
    assert!(parse_response(surrogate).is_none());
    let short = r#"{"clientId":"c","name":"n","content":"\u12","errorString":""}"#;
    assert!(parse_response(short).is_none());
    let not_hex = r#"{"clientId":"c","name":"n","content":"\uzzzz","errorString":""}"#;
    assert!(parse_response(not_hex).is_none());
}

#[test]
fn unknown_fields_may_hold_any_json_value() {
    let body = r#"{"clientId":"c","name":"n","content":"hi","errorString":"","extra":null,"flag":true,"off":false,"nested":{"a":[1,2,{"b":"c"}],"d":{}},"list":[],"deep":[[{"x":null}]]}"#;
    let r = parse_response(body).unwrap();
    assert_eq!(r.content, "hi");
    assert_eq!(r.client_id, "c");
}

#[test]
fn a_known_field_holding_a_compound_is_no_string() {
    let body = r#"{"clientId":"c","name":{},"content":"x","errorString":""}"#;
    assert!(parse_response(body).is_none());
    let body = r#"{"clientId":"c","name":null,"content":"x","errorString":""}"#;
    assert!(parse_response(body).is_none());
}

#[test]
fn group_size_must_be_an_integer() {
    assert!(parse_group(r#"{"groupId":"g","name":"n","size":true}"#).is_none());
    assert!(parse_group(r#"{"groupId":"g","name":"n","size":null}"#).is_none());
}

#[test]
fn unbalanced_nested_values_are_refused() {
    let body = r#"{"clientId":"c","name":"n","content":"x","errorString":"","bad":{"a":}"#;
    assert!(parse_response(body).is_none());
    let body = r#"{"clientId":"c","name":"n","content":"x","errorString":"","bad":[1,}"#;
    assert!(parse_response(body).is_none());
}

#[test]
fn duplicate_keys_take_the_first_value() {
    let body = r#"{"clientId":"c","name":"first","name":"second","content":"x","errorString":""}"#;
    let r = parse_response(body).unwrap();
    assert_eq!(r.rsp_name, "first");
}

#[test]
fn parse_group_reads_id_name_size() {
    let g = parse_group(r#"{"groupId":"g1","name":"Team","size":3}"#).unwrap();
    assert_eq!(g.group_id, "g1");
    assert_eq!(g.name, "Team");
    assert_eq!(g.size, 3);
}

#[test]
fn parse_group_negative_size() {
    let g = parse_group(r#"{"groupId":"g","name":"n","size":-2}"#).unwrap();
    assert_eq!(g.size, -2);
}

#[test]
fn parse_group_rejects_bad_sizes() {
    assert!(parse_group(r#"{"groupId":"g","name":"n","size":"3"}"#).is_none());
    assert!(parse_group(r#"{"groupId":"g","name":"n","size":99999999999}"#).is_none());
    assert!(parse_group(r#"{"groupId":"g","name":"n"}"#).is_none());
}

#[test]
fn parse_clients_reads_a_list() {
    let body = r#"[{"name":"a","callState":"No Call","clientId":"i1","groupName":"g","groupId":"gid"},{"name":"b","callState":"","clientId":"i2","groupName":"","groupId":""}]"#;
    let cs = parse_clients(body).unwrap();
    assert_eq!(cs.len(), 2);
    assert_eq!(cs[0].name, "a");
    assert_eq!(cs[0].call_state, "No Call");
    assert_eq!(cs[1].client_id, "i2");
}

#[test]
fn parse_clients_empty_list() {
    let cs = parse_clients("[]").unwrap();
    assert!(cs.is_empty());
    let cs = parse_clients(" [ ] ").unwrap();
    assert!(cs.is_empty());
}

#[test]
fn parse_clients_rejects_bad_rows() {
    assert!(parse_clients(r#"[{"name":"a"}]"#).is_none());
    assert!(parse_clients("[").is_none());
    assert!(parse_clients("{}").is_none());
}
