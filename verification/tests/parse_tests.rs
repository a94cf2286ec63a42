use chat_core::parse::{broadcast_keyword, parse_input, split_target};

#[test]
fn private_line_splits_into_keyword_target_content() {
    let (kw, content) = parse_input("/private abc123 hello there");
    assert_eq!(kw, "/private");
    assert_eq!(content, "abc123 hello there");
    let (target, text) = split_target(&content).unwrap();
    assert_eq!(target, "abc123");
    assert_eq!(text, "hello there");
}

#[test]
fn plain_text_falls_to_broadcast() {
    let (kw, content) = parse_input("hello");
    assert_eq!(kw, "/broadcast");
    assert_eq!(content, "hello");
    assert_eq!(broadcast_keyword(), "/broadcast");
}

#[test]
fn trailing_newlines_are_dropped() {
    let (kw, content) = parse_input("hi there\n\n");
    assert_eq!(kw, "/broadcast");
    assert_eq!(content, "hi there");
}

#[test]
fn keyword_line_strips_leading_spaces_of_content() {
    let (kw, content) = parse_input("/register   Alice");
    assert_eq!(kw, "/register");
    assert_eq!(content, "Alice");
}

#[test]
fn keyword_without_content() {
    let (kw, content) = parse_input("/private");
    assert_eq!(kw, "/private");
    assert_eq!(content, "");
}

#[test]
fn broadcast_content_is_kept_whole() {
    let (kw, content) = parse_input("say /broadcast now");
    assert_eq!(kw, "/broadcast");
    assert_eq!(content, "say /broadcast now");
}

#[test]
fn keyword_is_cut_at_any_whitespace() {
    let (kw, content) = parse_input("/private\tbob hi");
    assert_eq!(kw, "/private");
    assert_eq!(content, "\tbob hi");
}

#[test]
fn split_target_on_blank_content_is_none() {
    assert!(split_target("").is_none());
    assert!(split_target("   ").is_none());
}

#[test]
fn split_target_without_text() {
    let (target, text) = split_target("abc123").unwrap();
    assert_eq!(target, "abc123");
    assert_eq!(text, "");
}
