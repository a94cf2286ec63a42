use chat_core::errors::{kind_text, ChatError, ChatErrorWithMsg};
use chat_core::help::{constraint_len_calculator, FillState, HelpItem};
use chat_core::helper::generate_secure_token;
use chat_core::tabs::SelectedTab;
use chat_core::text::longest_line_len;
use chat_core::types::{dummy_json_client, ignore_response_tag, register_flag, unregister_flag, JsonClient, Response};
use chat_core::users;

fn client(name: &str, call_state: &str, group_name: &str) -> JsonClient {
    JsonClient {
        name: String::from(name),
        call_state: String::from(call_state),
        client_id: String::from("id"),
        group_name: String::from(group_name),
        group_id: String::from("gid"),
    }
}

#[test]
fn tabs_cycle_and_clamp() {
    assert_eq!(SelectedTab::Chat.previous(), SelectedTab::Chat);
    assert_eq!(SelectedTab::Chat.next(), SelectedTab::Users);
    assert_eq!(SelectedTab::Users.next(), SelectedTab::Help);
    assert_eq!(SelectedTab::Help.next(), SelectedTab::Tab4);
    assert_eq!(SelectedTab::Tab4.next(), SelectedTab::Tab4);
    assert_eq!(SelectedTab::Tab4.previous(), SelectedTab::Help);
}

#[test]
fn help_items_expose_their_columns() {
    let item = HelpItem {
        command: String::from("/register {name}"),
        description: String::from("registeres a client"),
    };
    assert_eq!(item.command(), "/register {name}");
    assert_eq!(item.description(), "registeres a client");
    let cols = item.ref_array();
    assert_eq!(cols[0], "/register {name}");
    assert_eq!(cols[1], "registeres a client");
}

#[test]
fn fill_state_starts_empty() {
    let f = FillState::new();
    assert!(!f.help);
    assert!(!f.group_help);
}

#[test]
fn help_widths_take_the_longest_command_and_line() {
    let items = vec![
        HelpItem { command: String::from("/help"), description: String::from("short") },
        HelpItem {
            command: String::from("/register {name}"),
            description: String::from("line one\na much longer second line"),
        },
    ];
    assert_eq!(constraint_len_calculator(&items), (16, 25));
}

#[test]
fn user_widths_take_the_longest_columns() {
    let items = vec![
        client("bob", "No Call", "team"),
        client("alexander", "a\nbb", "g"),
    ];
    assert_eq!(users::constraint_len_calculator(&items), (9, 7, 4));
}

#[test]
fn empty_tables_have_zero_widths() {
    let none: Vec<HelpItem> = Vec::new();
    assert_eq!(constraint_len_calculator(&none), (0, 0));
}

#[test]
fn user_rows_fill_the_group_placeholder_and_append_self() {
    let items = vec![client("bob", "", ""), client("eve", "", "team")];
    let own = client("me", "No Call", "mine");
    let rows = users::prepare_user_rows(&items, own);
    assert_eq!(rows.len(), 3);
    assert_eq!(rows[0].group_name, "no group");
    assert_eq!(rows[1].group_name, "team");
    assert_eq!(rows[2].name, "me");
}

#[test]
fn longest_line_measures_characters_per_line() {
    assert_eq!(longest_line_len(""), 0);
    assert_eq!(longest_line_len("abc"), 3);
    assert_eq!(longest_line_len("ab\ncdef\nx"), 4);
    assert_eq!(longest_line_len("ab\r\ncd"), 2);
    assert_eq!(longest_line_len("tail\n"), 4);
}

#[test]
fn error_kinds_render_their_fixed_texts() {
    assert_eq!(kind_text(ChatError::EmptyField), "A message field is empty");
    assert_eq!(kind_text(ChatError::NoPermission), "You got no permission");
    assert_eq!(kind_text(ChatError::WrongInput), "Your input was invalid");
    assert_eq!(kind_text(ChatError::HttpError), "An http error accured");
    let e = ChatErrorWithMsg::new(ChatError::TimeoutReached, String::from("after 3s"));
    assert_eq!(e.formatted(), "Timeout has been reached: after 3s");
}

#[test]
fn fixed_flags_have_their_reserved_values() {
    assert_eq!(register_flag(), "- Du bist registriert -");
    assert_eq!(unregister_flag(), "- Du bist nun vom Server getrennt -");
    assert_eq!(ignore_response_tag(), "Ignore Response");
}

#[test]
fn placeholder_row_asks_for_registration() {
    let d = dummy_json_client();
    assert_eq!(d.name, "Bitte registriere dich, um die Clients zu sehen.");
    assert_eq!(d.call_state, "");
    assert_eq!(d.group_name, "");
}

#[test]
fn empty_and_error_responses_have_their_shapes() {
    let e = Response::empty();
    assert_eq!(e.rsp_name, "empty Response");
    assert_eq!(e.err, "");
    let r = Response::error(String::from("boom"));
    assert_eq!(r.rsp_name, "error Response");
    assert_eq!(r.err, "boom");
    assert_eq!(r.content, "");
}

#[test]
fn secure_tokens_are_url_safe_and_sized() {
    let t = generate_secure_token(32);
    assert_eq!(t.len(), 43);
    assert!(t.chars().all(|c| c.is_ascii_alphanumeric() || c == '-' || c == '_'));
    let t2 = generate_secure_token(32);
    assert_ne!(t, t2);
    assert_eq!(generate_secure_token(0), "");
}
