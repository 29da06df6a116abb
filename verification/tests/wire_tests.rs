use shadowghost::framing::{check_frame_length, encode_frame, extract_peer_identity, outgoing_chat_text, read_frame_bytes, P2pError, TcpTransport};
use shadowghost::protocol::{
    create_error_response, is_protocol_compatible, validate_message_size, MessagePayload, MessageType, ProtocolMessage,
    MAX_MESSAGE_SIZE,
};
use shadowghost::tls_masking::{TlsError, TlsMasking};

#[test]
fn frame_round_trip() {
    let frame = encode_frame(b"hello").unwrap();
    assert_eq!(&frame[..4], &[0, 0, 0, 5]);
    let mut stream = frame.clone();
    stream.extend_from_slice(b"rest");
    let (body, used) = read_frame_bytes(&stream).unwrap();
    assert_eq!(body, b"hello".to_vec());
    assert_eq!(used, 9);
}

#[test]
fn frame_errors() {
    assert!(matches!(read_frame_bytes(&[0, 0]), Err(P2pError::ConnectionClosed)));
    assert!(matches!(read_frame_bytes(&[0, 0, 0, 9, 1]), Err(P2pError::ConnectionClosed)));
    assert!(matches!(read_frame_bytes(&[0xff, 0, 0, 0]), Err(P2pError::MessageTooLarge { size: 0xff000000 })));
    assert!(matches!(check_frame_length(MAX_MESSAGE_SIZE as u32 + 1), Err(P2pError::MessageTooLarge { .. })));
    assert!(matches!(encode_frame(&vec![0u8; MAX_MESSAGE_SIZE + 1]), Err(P2pError::MessageTooLarge { .. })));
}

#[test]
fn listen_address_covers_all_interfaces() {
    assert_eq!(TcpTransport::listen_address(7000), "0.0.0.0:7000");
}

#[test]
fn handshake_gives_the_peer_identity() {
    let hs = ProtocolMessage::create_handshake("id1".to_string(), "Ann".to_string(), "0.0.0.0:1".to_string(), vec![]);
    assert_eq!(extract_peer_identity(&hs).unwrap(), ("Ann".to_string(), "id1".to_string()));
    let ping = ProtocolMessage::create_ping("s".to_string(), "r".to_string());
    assert!(matches!(extract_peer_identity(&ping), Err(P2pError::Protocol(_))));
    let bare = ProtocolMessage::new(MessageType::Status, "snd".to_string(), "r".to_string(), vec![]);
    assert_eq!(extract_peer_identity(&bare).unwrap(), ("snd".to_string(), "snd".to_string()));
}

#[test]
fn typed_lines_lose_their_line_end() {
    assert_eq!(outgoing_chat_text("hi\r\n"), Some("hi".to_string()));
    assert_eq!(outgoing_chat_text("\n"), None);
}

#[test]
fn protocol_messages_carry_their_bodies() {
    let t = ProtocolMessage::create_text_message("a".to_string(), "b".to_string(), "yo".to_string(), "m".to_string());
    assert_eq!(t.get_text_content(), Some("yo".to_string()));
    assert_eq!(t.message_type, MessageType::Chat);
    assert!(t.is_valid());
    let mut p = ProtocolMessage::create_pong("a".to_string(), "b".to_string(), 5);
    assert_eq!(p.get_pong_timestamps().unwrap().0, 5);
    p.set_sequence_number(9);
    assert_eq!(p.get_sequence_number(), 9);
    p.sign(vec![1]);
    assert!(p.verify_signature(&[]));
    let e = create_error_response("orig".to_string(), "bad".to_string());
    assert!(matches!(e.payload, MessagePayload::Ack(_)));
    assert!(validate_message_size(&[0u8; 16]));
    assert!(is_protocol_compatible(1));
    assert!(!is_protocol_compatible(2));
}

#[test]
fn masking_wraps_and_unwraps() {
    let mut m = TlsMasking::new();
    assert_eq!(m.wrap_connection(b"abc").unwrap(), b"abc".to_vec());
    m.enable().unwrap();
    let w = m.wrap_connection(b"abc").unwrap();
    assert_eq!(w.len(), 23);
    assert_eq!(w[0], 0x16);
    assert_eq!(m.unwrap_connection(&w).unwrap(), b"abc".to_vec());
    assert!(matches!(m.unwrap_connection(&[1, 2, 3]), Err(TlsError::ConnectionError(_))));
    assert!(m.validate_tls_frame(&[0x16, 0x03, 0x03, 0x00, 0x01, 0xAA]));
    assert!(!m.validate_tls_frame(&[0x16, 0x03, 0x03, 0x00, 0x02, 0xAA]));
    assert_eq!(m.create_fake_handshake().len(), 56);
    m.disable();
    assert!(!m.is_enabled());
}

#[test]
fn error_response_quotes_the_message_and_the_error() {
    let e = create_error_response("m1".to_string(), "boom".to_string());
    assert_eq!(e.message_type, MessageType::Acknowledgment);
    assert_eq!(e.sender_id, "system");
    assert_eq!(e.recipient_id, "error");
    assert_eq!(e.content, b"m1:boom".to_vec());
    assert_eq!(e.message_id.len(), 36);
    assert_ne!(e.message_id, "m1");
    assert!(e.signature.is_none());
    match e.payload {
        MessagePayload::Ack(a) => {
            assert_eq!(a.original_message_id, "m1:boom");
            assert_eq!(a.status, "delivered");
        }
        _ => panic!("expected an acknowledgment"),
    }
}
