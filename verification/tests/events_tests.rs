use shadowghost::events::{
    emit_custom_event, is_message_event, notice, AppEvent, CryptoEvent, EventQueue, NetworkEvent,
    EVENT_QUEUE_LIMIT,
};
use shadowghost::network::{ChatMessage, ChatMessageType, DeliveryStatus};

fn received(from: &str, content: &str) -> AppEvent {
    AppEvent::Network(NetworkEvent::MessageReceived {
        message: ChatMessage {
            id: "m".to_string(),
            from: from.to_string(),
            to: "me".to_string(),
            content: content.to_string(),
            msg_type: ChatMessageType::Text,
            timestamp: 1,
            delivery_status: DeliveryStatus::Delivered,
        },
    })
}

fn ev(kind: &str, data: &str, at: u64) -> AppEvent {
    AppEvent::Custom { event_type: kind.to_string(), data: data.to_string(), timestamp: at }
}

fn custom_data(e: &AppEvent) -> String {
    match e {
        AppEvent::Custom { data, .. } => data.clone(),
        _ => panic!("expected a custom event"),
    }
}

#[test]
fn notices_describe_messages_and_errors() {
    assert_eq!(notice(&received("bob", "hi")).unwrap(), "\n💬 Новое сообщение от bob: hi");
    let err = AppEvent::Network(NetworkEvent::Error { error: "boom".to_string(), context: Some("net".to_string()) });
    assert_eq!(notice(&err).unwrap(), "\n❌ Ошибка [net]: boom");
    let bare = AppEvent::Network(NetworkEvent::Error { error: "boom".to_string(), context: None });
    assert_eq!(notice(&bare).unwrap(), "\n❌ Ошибка: boom");
    assert!(notice(&AppEvent::Crypto(CryptoEvent::KeyPairGenerated)).is_none());
}

#[test]
fn the_queue_hands_out_events_in_order() {
    let mut q = EventQueue::new();
    assert!(!q.has_pending_events());
    q.push(ev("a", "1", 5));
    q.push(ev("a", "2", 6));
    assert!(q.has_pending_events());
    assert_eq!(q.get_event_queue_size(), 2);
    let out = q.get_pending_events();
    assert_eq!(out.iter().map(custom_data).collect::<Vec<_>>(), vec!["1", "2"]);
    assert_eq!(q.get_event_queue_size(), 0);
}

#[test]
fn the_queue_keeps_only_the_newest_thousand() {
    let mut q = EventQueue::new();
    for i in 0..(EVENT_QUEUE_LIMIT + 5) {
        q.push(ev("n", &i.to_string(), 0));
    }
    assert_eq!(q.get_event_queue_size() as usize, EVENT_QUEUE_LIMIT);
    let out = q.get_pending_events();
    assert_eq!(custom_data(&out[0]), "5");
    assert_eq!(custom_data(&out[EVENT_QUEUE_LIMIT - 1]), (EVENT_QUEUE_LIMIT + 4).to_string());
    q.push(ev("n", "x", 0));
    assert_eq!(q.clear_event_queue(), "Event queue cleared");
    assert!(!q.has_pending_events());
}

#[test]
fn custom_events_carry_their_fields() {
    match emit_custom_event(true, "kind".to_string(), "payload".to_string(), 77) {
        Ok((AppEvent::Custom { event_type, data, timestamp }, reply)) => {
            assert_eq!((event_type.as_str(), data.as_str(), timestamp), ("kind", "payload", 77));
            assert_eq!(reply, "Custom event 'kind' emitted: payload");
        }
        _ => panic!("expected a custom event"),
    }
    assert_eq!(
        emit_custom_event(false, "k".to_string(), "d".to_string(), 1).unwrap_err(),
        "Core not initialized"
    );
    assert!(is_message_event(&received("a", "b")));
    assert!(!is_message_event(&AppEvent::Crypto(CryptoEvent::KeyPairGenerated)));
}
