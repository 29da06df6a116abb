use shadowghost::commands::{
    chat_input_action, check_add_args, classify_add_failure, classify_send_failure, find_named, history_window,
    parse_command_line, AddCheck, AddFailure, ChatInput, Command, SendFailure,
};
use shadowghost::node::CoreError;

#[test]
fn command_words_in_both_languages() {
    assert_eq!(parse_command_line("  HELP ").0, Command::Help);
    assert_eq!(parse_command_line("помощь").0, Command::Help);
    assert_eq!(parse_command_line("q").0, Command::Quit);
    assert_eq!(parse_command_line("выход").0, Command::Quit);
    assert_eq!(parse_command_line("").0, Command::Empty);
    assert_eq!(parse_command_line("dance").0, Command::Unknown);
    let (c, w, a) = parse_command_line("Chat  Bob Smith");
    assert_eq!((c, w.as_str(), a.as_str()), (Command::Chat, "chat", " Bob Smith"));
}

#[test]
fn add_arguments_are_checked() {
    assert_eq!(check_add_args(false, "sg://abc"), AddCheck::NotInitialized);
    assert_eq!(check_add_args(true, ""), AddCheck::Usage);
    assert_eq!(check_add_args(true, "http://x"), AddCheck::BadScheme);
    assert_eq!(check_add_args(true, "sg://a"), AddCheck::TooShort);
    assert_eq!(check_add_args(true, "  sg://abcdef "), AddCheck::Proceed("sg://abcdef".to_string()));
}

#[test]
fn add_failures_are_told_apart() {
    let c = |m: &str| CoreError::Contact(m.to_string());
    assert_eq!(classify_add_failure(&c("Invalid contact: UTF-8 conversion failed")), AddFailure::Corrupted);
    assert_eq!(classify_add_failure(&c("Invalid contact: Decode error: x")), AddFailure::Undecodable);
    assert_eq!(classify_add_failure(&c("Cannot add yourself as contact")), AddFailure::SelfLink);
    assert_eq!(classify_add_failure(&c("Contact with ID 1 already exists")), AddFailure::Exists);
    assert_eq!(classify_add_failure(&c("JSON parse failed")), AddFailure::BadData);
    assert_eq!(classify_add_failure(&c("other")), AddFailure::OtherContact);
    assert_eq!(classify_add_failure(&CoreError::Network("x".to_string())), AddFailure::Other);
}

#[test]
fn chat_lines_are_read() {
    assert_eq!(chat_input_action("   "), ChatInput::Skip);
    assert_eq!(chat_input_action(" EXIT "), ChatInput::Exit);
    assert_eq!(chat_input_action("/history"), ChatInput::History);
    assert_eq!(chat_input_action("  hi there "), ChatInput::Send("hi there".to_string()));
}

#[test]
fn send_failures_are_told_apart() {
    assert_eq!(classify_send_failure(&CoreError::InvalidState("Сервер не запущен".to_string())), SendFailure::ServerNotStarted);
    assert_eq!(classify_send_failure(&CoreError::InvalidState("x".to_string())), SendFailure::Other);
    assert_eq!(classify_send_failure(&CoreError::Network("Connection refused".to_string())), SendFailure::Unreachable);
    assert_eq!(classify_send_failure(&CoreError::Network("read timeout".to_string())), SendFailure::Timeout);
    assert_eq!(classify_send_failure(&CoreError::Network("eh".to_string())), SendFailure::OtherNetwork);
}

#[test]
fn history_shows_the_last_ten() {
    assert_eq!(history_window(3), (0, 0));
    assert_eq!(history_window(10), (0, 0));
    assert_eq!(history_window(25), (15, 15));
    let names = vec!["a".to_string(), "b".to_string(), "b".to_string()];
    assert_eq!(find_named(&names, "b"), Some(1));
    assert_eq!(find_named(&names, "c"), None);
}
