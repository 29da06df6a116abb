use shadowghost::chats::{
    apply_filter, get_failed_messages, page_of, search_chat, search_messages, search_messages_by_content, Chat,
    ChatError, ExportFormat, Manager, MessageFilter,
};
use shadowghost::network::{ChatMessage, ChatMessageType, DeliveryStatus};

fn msg(from: &str, content: &str, t: u64, ty: ChatMessageType, st: DeliveryStatus) -> ChatMessage {
    ChatMessage {
        id: format!("id{}", t),
        from: from.to_string(),
        to: "x".to_string(),
        content: content.to_string(),
        msg_type: ty,
        timestamp: t,
        delivery_status: st,
    }
}

fn sample() -> Vec<ChatMessage> {
    vec![
        msg("alice", "Hello World", 10, ChatMessageType::Text, DeliveryStatus::Sent),
        msg("bob", "hello there", 20, ChatMessageType::Text, DeliveryStatus::Delivered),
        msg("alice", "file.bin", 30, ChatMessageType::File, DeliveryStatus::Delivered),
        msg("bob", "bye", 40, ChatMessageType::Text, DeliveryStatus::Failed),
    ]
}

#[test]
fn default_filter_keeps_everything() {
    let all = sample();
    assert_eq!(apply_filter(&all, &MessageFilter::default()).len(), 4);
}

#[test]
fn filter_by_each_field() {
    let all = sample();
    let mut f = MessageFilter::default();
    f.sender = Some("alice".to_string());
    assert_eq!(apply_filter(&all, &f).len(), 2);
    let mut f = MessageFilter::default();
    f.message_type = Some(ChatMessageType::File);
    assert_eq!(apply_filter(&all, &f)[0].content, "file.bin");
    let mut f = MessageFilter::default();
    f.from_timestamp = Some(20);
    f.to_timestamp = Some(30);
    let kept = apply_filter(&all, &f);
    assert_eq!(kept.iter().map(|m| m.timestamp).collect::<Vec<_>>(), vec![20, 30]);
    let mut f = MessageFilter::default();
    f.content_search = Some("HELLO".to_string());
    assert_eq!(apply_filter(&all, &f).len(), 2);
    let mut f = MessageFilter::default();
    f.delivery_status = Some(DeliveryStatus::Failed);
    assert_eq!(apply_filter(&all, &f)[0].content, "bye");
}

#[test]
fn search_reports_matches_or_nothing() {
    let all = sample();
    let mut f = MessageFilter::default();
    f.sender = Some("bob".to_string());
    let r = search_chat("c1", &all, &f).unwrap();
    assert_eq!(r.chat_id, "c1");
    assert_eq!(r.total_matches, 2);
    f.sender = Some("nobody".to_string());
    assert!(search_chat("c1", &all, &f).is_none());
}

#[test]
fn pages_slice_the_messages() {
    let all = sample();
    assert_eq!(page_of(&all, None, None).len(), 4);
    let p = page_of(&all, Some(2), Some(1));
    assert_eq!(p.iter().map(|m| m.timestamp).collect::<Vec<_>>(), vec![20, 30]);
    assert_eq!(page_of(&all, Some(10), Some(3)).len(), 1);
    assert_eq!(page_of(&all, None, Some(4)).len(), 0);
}

#[test]
fn chat_participants_and_counts() {
    let mut c = Chat::with_id("c".to_string(), "Room".to_string(), true, 5);
    c.add_participant("a".to_string());
    c.add_participant("b".to_string());
    c.add_participant("a".to_string());
    assert_eq!(c.participants, vec!["a".to_string(), "b".to_string()]);
    c.remove_participant("a");
    assert_eq!(c.participants, vec!["b".to_string()]);
    c.increment_message_count();
    assert_eq!(c.message_count, 1);
    assert!(c.last_message_at.is_some());
    let info = c.info(&sample());
    assert_eq!(info.unread_count, 2);
    assert_eq!(info.participant_count, 1);
}

#[test]
fn manager_creates_finds_and_deletes() {
    let mut m = Manager::new();
    let c = m.create_chat("General".to_string(), false).unwrap();
    assert_eq!(m.get_chat(&c.id).unwrap().name, "General");
    m.note_message(&c.id).unwrap();
    m.note_message(&c.id).unwrap();
    let (count, total, most) = m.summary();
    assert_eq!((count, total), (1, 2));
    assert_eq!(most, Some(c.id.clone()));
    assert!(m.delete_chat(&c.id).is_ok());
    match m.delete_chat(&c.id) {
        Err(ChatError::ChatNotFound(id)) => assert_eq!(id, c.id),
        _ => panic!("expected not found"),
    }
    assert_eq!(m.summary().2, None);
}

#[test]
fn export_format_names_and_errors() {
    assert_eq!(ExportFormat::Csv.extension(), "csv");
    assert_eq!(ChatError::InvalidInput("q".to_string()).message(), "Invalid input: q");
}

fn store() -> Vec<(String, Vec<ChatMessage>)> {
    vec![
        ("c1".to_string(), sample()),
        ("c2".to_string(), vec![msg("eve", "HELLO", 50, ChatMessageType::Text, DeliveryStatus::Failed)]),
        ("c3".to_string(), vec![msg("zed", "nothing", 60, ChatMessageType::Text, DeliveryStatus::Sent)]),
    ]
}

#[test]
fn searching_every_chat_reports_each_chat_with_hits() {
    let f = MessageFilter { content_search: Some("hello".to_string()), ..MessageFilter::default() };
    let hits = search_messages(&store(), &f);
    let ids: Vec<&str> = hits.iter().map(|r| r.chat_id.as_str()).collect();
    assert_eq!(ids, vec!["c1", "c2"]);
    assert_eq!(hits[0].total_matches, 2);
    assert_eq!(hits[1].messages[0].from, "eve");
    let only = MessageFilter { chat_id: Some("c2".to_string()), ..f.clone() };
    assert_eq!(search_messages(&store(), &only).len(), 1);
    let none = MessageFilter { chat_id: Some("c9".to_string()), ..f };
    assert!(search_messages(&store(), &none).is_empty());
}

#[test]
fn content_and_failure_searches_flatten_the_hits() {
    let found = search_messages_by_content(&store(), None, "HeLLo".to_string());
    let times: Vec<u64> = found.iter().map(|m| m.timestamp).collect();
    assert_eq!(times, vec![10, 20, 50]);
    assert_eq!(search_messages_by_content(&store(), Some("c3".to_string()), "hello".to_string()).len(), 0);
    let failed = get_failed_messages(&store(), None);
    let times: Vec<u64> = failed.iter().map(|m| m.timestamp).collect();
    assert_eq!(times, vec![40, 50]);
    assert_eq!(get_failed_messages(&store(), Some("c1".to_string())).len(), 1);
}
