use shadowghost::chats::ExportFormat;
use shadowghost::messages::{
    delete_message, history_line, mark_messages_as_read,
    chat_statistics, concerns, export_format, export_text, newest_page, received_update, search_text,
    sort_newest_first, validate_file_message, validate_text_message, MessageUpdateType,
};
use shadowghost::network::{ChatMessage, ChatMessageType, DeliveryStatus};

fn msg(from: &str, to: &str, content: &str, t: u64, ty: ChatMessageType, st: DeliveryStatus) -> ChatMessage {
    ChatMessage {
        id: format!("id{}", t),
        from: from.to_string(),
        to: to.to_string(),
        content: content.to_string(),
        msg_type: ty,
        timestamp: t,
        delivery_status: st,
    }
}

#[test]
fn text_messages_are_checked_and_trimmed() {
    assert_eq!(validate_text_message("   "), Err("Message content cannot be empty".to_string()));
    assert_eq!(validate_text_message("  hi  "), Ok("hi".to_string()));
    let long = "x".repeat(10001);
    assert_eq!(validate_text_message(&long), Err("Message content too long (max 10000 characters)".to_string()));
    assert!(validate_text_message(&"x".repeat(10000)).is_ok());
}

#[test]
fn file_messages_are_checked() {
    assert_eq!(validate_file_message("/p", " ", true), Err("File name cannot be empty".to_string()));
    assert_eq!(validate_file_message("", "a", true), Err("File path cannot be empty".to_string()));
    assert_eq!(validate_file_message("/p", "a", false), Err("File does not exist".to_string()));
    assert_eq!(validate_file_message("/p/a.txt", " a.txt ", true), Ok("a.txt|/p/a.txt".to_string()));
}

#[test]
fn statistics_count_each_kind() {
    let ms = vec![
        msg("local_user", "b", "1", 30, ChatMessageType::Text, DeliveryStatus::Sent),
        msg("b", "local_user", "2", 10, ChatMessageType::File, DeliveryStatus::Delivered),
        msg("b", "local_user", "3", 20, ChatMessageType::Image, DeliveryStatus::Read),
        msg("b", "local_user", "4", 25, ChatMessageType::Voice, DeliveryStatus::Delivered),
    ];
    let s = chat_statistics(&ms);
    assert_eq!(s.total_messages, 4);
    assert_eq!(s.sent_messages, 1);
    assert_eq!(s.received_messages, 3);
    assert_eq!(s.unread_messages, 2);
    assert_eq!(s.file_messages, 1);
    assert_eq!(s.media_messages, 2);
    assert_eq!(s.first_message_timestamp, Some(10));
    assert_eq!(s.last_message_timestamp, Some(30));
    let e = chat_statistics(&[]);
    assert_eq!(e.first_message_timestamp, None);
}

#[test]
fn newest_first_and_pages() {
    let ms = vec![
        msg("a", "b", "old", 1, ChatMessageType::Text, DeliveryStatus::Sent),
        msg("a", "b", "new", 9, ChatMessageType::Text, DeliveryStatus::Sent),
        msg("a", "b", "mid", 5, ChatMessageType::Text, DeliveryStatus::Sent),
    ];
    let sorted = sort_newest_first(ms.clone());
    assert_eq!(sorted.iter().map(|m| m.timestamp).collect::<Vec<_>>(), vec![9, 5, 1]);
    let page = newest_page(ms.clone(), 2, 1);
    assert_eq!(page.iter().map(|m| m.content.as_str()).collect::<Vec<_>>(), vec!["mid", "old"]);
    assert!(newest_page(ms, 5, 3).is_empty());
}

#[test]
fn text_search_takes_the_first_matches() {
    let ms = vec![
        msg("a", "b", "Rust is fun", 1, ChatMessageType::Text, DeliveryStatus::Sent),
        msg("a", "b", "nothing", 2, ChatMessageType::Text, DeliveryStatus::Sent),
        msg("a", "b", "RUSTY", 3, ChatMessageType::Text, DeliveryStatus::Sent),
    ];
    assert_eq!(search_text(&ms, "rust", 10).len(), 2);
    let one = search_text(&ms, "rust", 1);
    assert_eq!(one.len(), 1);
    assert_eq!(one[0].timestamp, 1);
}

#[test]
fn text_export_lists_each_message() {
    let ms = vec![msg("a", "b", "hi", 0, ChatMessageType::Text, DeliveryStatus::Sent)];
    let t = export_text("bob", &ms);
    let expected = format!("Chat history with bob\n{}\n[1970-01-01 00:00:00] a: hi\n", "=".repeat(50));
    assert_eq!(t, expected);
    assert_eq!(export_format("JSON"), Ok(ExportFormat::Json));
    assert_eq!(export_format("txt"), Ok(ExportFormat::Txt));
    assert_eq!(export_format("pdf"), Err("Unsupported format. Use 'json' or 'txt'".to_string()));
}

#[test]
fn updates_concern_the_chat_partner() {
    let m = msg("alice", "bob", "x", 1, ChatMessageType::Text, DeliveryStatus::Delivered);
    assert!(concerns(&m, "alice"));
    assert!(concerns(&m, "bob"));
    assert!(!concerns(&m, "carol"));
    let u = received_update(&m, "bob", 77).unwrap();
    assert_eq!(u.update_type, MessageUpdateType::Received);
    assert_eq!(u.timestamp, 77);
    assert!(received_update(&m, "carol", 77).is_none());
}

#[test]
fn read_and_delete_replies_need_a_core() {
    assert_eq!(mark_messages_as_read(true, "bob"), Ok("Messages with bob marked as read".to_string()));
    assert_eq!(mark_messages_as_read(false, "bob"), Err("Core not initialized".to_string()));
    assert_eq!(delete_message(true, "m1"), Ok("Message m1 deleted".to_string()));
    assert_eq!(delete_message(false, "m1"), Err("Core not initialized".to_string()));
}

#[test]
fn history_lines_show_the_time_of_day() {
    let m = msg("alice", "bob", "hi", 3_661 + 86_400, ChatMessageType::Text, DeliveryStatus::Sent);
    assert_eq!(history_line(&m), "[01:01:01] alice: hi \u{1f4e4}");
    let d = msg("bob", "alice", "yo", 86_399, ChatMessageType::Text, DeliveryStatus::Delivered);
    assert_eq!(history_line(&d), "[23:59:59] bob: yo \u{2705}");
    let f = msg("a", "b", "x", 9_000_000_000_000_000, ChatMessageType::Text, DeliveryStatus::Failed);
    assert_eq!(history_line(&f), "[??:??:??] a: x \u{274c}");
}
