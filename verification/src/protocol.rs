//! Messages that peers exchange.
use vstd::prelude::*;
use vstd::slice::slice_to_vec;
use crate::clock::unix_time_secs;
use crate::entropy::new_uuid_v4;

verus! {

/// The version of the wire protocol this library speaks.
pub const PROTOCOL_VERSION: u8 = 1;

/// The largest message body, in bytes, that a frame may carry.
pub const MAX_MESSAGE_SIZE: usize = 1024 * 1024;

/// Seconds to wait for the peer's handshake.
pub const HANDSHAKE_TIMEOUT: u64 = 30;

/// Seconds to wait for a message.
pub const MESSAGE_TIMEOUT: u64 = 60;

/// The kind of a protocol message.
#[derive(Debug, Clone, Copy, PartialEq, Eq, Structural)]
pub enum MessageType {
    Ping,
    Pong,
    Chat,
    File,
    Handshake,
    Acknowledgment,
    KeyExchange,
    Status,
}

/// Routing information common to all messages.
#[derive(Debug, Clone)]
pub struct MessageHeader {
    pub message_type: MessageType,
    pub sender_id: String,
    pub recipient_id: String,
    pub timestamp: u64,
    pub message_id: String,
    pub sequence_number: u64,
}

/// The identity a peer announces when a connection opens.
#[derive(Debug, Clone)]
pub struct HandshakePayload {
    pub peer_id: String,
    pub peer_name: String,
    pub address: String,
    pub public_key: Vec<u8>,
    pub protocol_version: u8,
}

/// A chat text.
#[derive(Debug, Clone)]
pub struct TextPayload {
    pub content: String,
    pub message_id: String,
    pub reply_to: Option<String>,
}

/// A liveness probe.
#[derive(Debug, Clone)]
pub struct PingPayload {
    pub timestamp: u64,
    pub sequence: u64,
}

/// The answer to a liveness probe.
#[derive(Debug, Clone)]
pub struct PongPayload {
    pub original_timestamp: u64,
    pub response_timestamp: u64,
    pub sequence: u64,
}

/// One chunk of a file transfer.
#[derive(Debug, Clone)]
pub struct FilePayload {
    pub file_name: String,
    pub file_size: u64,
    pub file_hash: String,
    pub chunk_data: Vec<u8>,
    pub chunk_index: u32,
    pub total_chunks: u32,
}

/// The receipt of a message.
#[derive(Debug, Clone)]
pub struct AckPayload {
    pub original_message_id: String,
    pub status: String,
}

/// The typed body of a protocol message.
#[derive(Debug, Clone)]
pub enum MessagePayload {
    Handshake(HandshakePayload),
    Text(TextPayload),
    Ping(PingPayload),
    Pong(PongPayload),
    File(FilePayload),
    Ack(AckPayload),
    Empty,
}

/// A message on the wire: a header, a typed body, an optional signature, and the flat fields
/// that older peers read.
#[derive(Debug, Clone)]
pub struct ProtocolMessage {
    pub header: MessageHeader,
    pub payload: MessagePayload,
    pub signature: Option<Vec<u8>>,
    pub message_type: MessageType,
    pub sender_id: String,
    pub recipient_id: String,
    pub content: Vec<u8>,
    pub timestamp: u64,
    pub message_id: String,
}

/// That `m` is a fresh, unsigned message of kind `ty` from `sender` to `recipient` with id
/// `message_id`, its header and flat fields agreeing and its sequence number zero.
pub open spec fn is_envelope(
    m: ProtocolMessage,
    ty: MessageType,
    sender: Seq<char>,
    recipient: Seq<char>,
    message_id: Seq<char>,
) -> bool {
    &&& m.header.message_type == ty
    &&& m.message_type == ty
    &&& m.header.sender_id@ == sender
    &&& m.sender_id@ == sender
    &&& m.header.recipient_id@ == recipient
    &&& m.recipient_id@ == recipient
    &&& m.header.message_id@ == message_id
    &&& m.message_id@ == message_id
    &&& m.header.timestamp == m.timestamp
    &&& m.header.sequence_number == 0
    &&& m.signature is None
}

/// The UTF-8 bytes of `s`.
pub fn string_bytes(s: &String) -> (res: Vec<u8>)
    ensures
        res@ == vstd::utf8::encode_utf8(s@),
{
    slice_to_vec(s.as_str().as_bytes())
}

/// Whether a message body of this many bytes may be sent.
pub open spec fn spec_size_allowed(len: nat) -> bool {
    len <= MAX_MESSAGE_SIZE
}

/// Whether `data` fits in one frame.
pub fn validate_message_size(data: &[u8]) -> (res: bool)
    ensures
        res == spec_size_allowed(data@.len()),
{
    data.len() <= MAX_MESSAGE_SIZE
}

/// Whether a peer speaking `version` can talk to this library.
pub fn is_protocol_compatible(version: u8) -> (res: bool)
    ensures
        res == (version == PROTOCOL_VERSION),
{
    version == PROTOCOL_VERSION
}

impl ProtocolMessage {
    /// A message of kind `message_type` with raw `content` and no typed body, stamped now.
    pub fn new(message_type: MessageType, sender_id: String, recipient_id: String, content: Vec<u8>) -> (res: Self)
        ensures
            is_envelope(res, message_type, sender_id@, recipient_id@, res.message_id@),
            res.message_id@.len() == 36,
            res.payload is Empty,
            res.content@ == content@,
    {
        let timestamp = unix_time_secs();
        let message_id = new_uuid_v4();
        let header = MessageHeader {
            message_type,
            sender_id: sender_id.clone(),
            recipient_id: recipient_id.clone(),
            timestamp,
            message_id: message_id.clone(),
            sequence_number: 0,
        };
        ProtocolMessage {
            header,
            payload: MessagePayload::Empty,
            signature: None,
            message_type,
            sender_id,
            recipient_id,
            content,
            timestamp,
            message_id,
        }
    }

    /// The handshake a peer sends to announce itself to everyone.
    pub fn create_handshake(peer_id: String, peer_name: String, address: String, public_key: Vec<u8>) -> (res: Self)
        ensures
            is_envelope(res, MessageType::Handshake, peer_id@, "broadcast"@, res.message_id@),
            res.message_id@.len() == 36,
            res.payload matches MessagePayload::Handshake(h) && h.peer_id@ == peer_id@
                && h.peer_name@ == peer_name@ && h.address@ == address@ && h.public_key@
                == public_key@ && h.protocol_version == PROTOCOL_VERSION,
            res.content@ == public_key@,
    {
        let timestamp = unix_time_secs();
        let message_id = new_uuid_v4();
        let header = MessageHeader {
            message_type: MessageType::Handshake,
            sender_id: peer_id.clone(),
            recipient_id: "broadcast".to_string(),
            timestamp,
            message_id: message_id.clone(),
            sequence_number: 0,
        };
        let payload = MessagePayload::Handshake(HandshakePayload {
            peer_id: peer_id.clone(),
            peer_name,
            address,
            public_key: public_key.clone(),
            protocol_version: PROTOCOL_VERSION,
        });
        ProtocolMessage {
            header,
            payload,
            signature: None,
            message_type: MessageType::Handshake,
            sender_id: peer_id,
            recipient_id: "broadcast".to_string(),
            content: public_key,
            timestamp,
            message_id,
        }
    }

    /// A chat text from `sender_id` to `recipient_id` under the given id, stamped now.
    pub fn create_text_message(
        sender_id: String,
        recipient_id: String,
        content: String,
        message_id: String,
    ) -> (res: Self)
        ensures
            is_envelope(res, MessageType::Chat, sender_id@, recipient_id@, message_id@),
            res.payload matches MessagePayload::Text(t) && t.content@ == content@ && t.message_id@
                == message_id@ && t.reply_to is None,
            res.content@ == vstd::utf8::encode_utf8(content@),
    {
        let timestamp = unix_time_secs();
        let header = MessageHeader {
            message_type: MessageType::Chat,
            sender_id: sender_id.clone(),
            recipient_id: recipient_id.clone(),
            timestamp,
            message_id: message_id.clone(),
            sequence_number: 0,
        };
        let bytes = string_bytes(&content);
        let payload = MessagePayload::Text(
            TextPayload { content, message_id: message_id.clone(), reply_to: None },
        );
        ProtocolMessage {
            header,
            payload,
            signature: None,
            message_type: MessageType::Chat,
            sender_id,
            recipient_id,
            content: bytes,
            timestamp,
            message_id,
        }
    }

    /// A liveness probe, stamped now.
    pub fn create_ping(sender_id: String, recipient_id: String) -> (res: Self)
        ensures
            is_envelope(res, MessageType::Ping, sender_id@, recipient_id@, res.message_id@),
            res.message_id@.len() == 36,
            res.payload matches MessagePayload::Ping(p) && p.timestamp == res.timestamp
                && p.sequence == 0,
            res.content@.len() == 0,
    {
        let timestamp = unix_time_secs();
        let message_id = new_uuid_v4();
        let header = MessageHeader {
            message_type: MessageType::Ping,
            sender_id: sender_id.clone(),
            recipient_id: recipient_id.clone(),
            timestamp,
            message_id: message_id.clone(),
            sequence_number: 0,
        };
        ProtocolMessage {
            header,
            payload: MessagePayload::Ping(PingPayload { timestamp, sequence: 0 }),
            signature: None,
            message_type: MessageType::Ping,
            sender_id,
            recipient_id,
            content: Vec::new(),
            timestamp,
            message_id,
        }
    }

    /// The answer to a probe sent at `original_timestamp`, stamped now.
    pub fn create_pong(sender_id: String, recipient_id: String, original_timestamp: u64) -> (res: Self)
        ensures
            is_envelope(res, MessageType::Pong, sender_id@, recipient_id@, res.message_id@),
            res.message_id@.len() == 36,
            res.payload matches MessagePayload::Pong(p) && p.original_timestamp == original_timestamp
                && p.response_timestamp == res.timestamp && p.sequence == 0,
            res.content@.len() == 0,
    {
        let timestamp = unix_time_secs();
        let message_id = new_uuid_v4();
        let header = MessageHeader {
            message_type: MessageType::Pong,
            sender_id: sender_id.clone(),
            recipient_id: recipient_id.clone(),
            timestamp,
            message_id: message_id.clone(),
            sequence_number: 0,
        };
        ProtocolMessage {
            header,
            payload: MessagePayload::Pong(
                PongPayload { original_timestamp, response_timestamp: timestamp, sequence: 0 },
            ),
            signature: None,
            message_type: MessageType::Pong,
            sender_id,
            recipient_id,
            content: Vec::new(),
            timestamp,
            message_id,
        }
    }

    /// A liveness probe, stamped now.
    pub fn ping(sender_id: String, recipient_id: String) -> (res: Self)
        ensures
            is_envelope(res, MessageType::Ping, sender_id@, recipient_id@, res.message_id@),
            res.message_id@.len() == 36,
            res.payload matches MessagePayload::Ping(p) && p.timestamp == res.timestamp
                && p.sequence == 0,
            res.content@.len() == 0,
    {
        Self::create_ping(sender_id, recipient_id)
    }

    /// An answer to a probe, taking the current time as the probe's time too.
    pub fn pong(sender_id: String, recipient_id: String) -> (res: Self)
        ensures
            is_envelope(res, MessageType::Pong, sender_id@, recipient_id@, res.message_id@),
            res.message_id@.len() == 36,
            res.payload matches MessagePayload::Pong(p) && p.response_timestamp == res.timestamp
                && p.sequence == 0,
            res.content@.len() == 0,
    {
        let timestamp = unix_time_secs();
        Self::create_pong(sender_id, recipient_id, timestamp)
    }

    /// A chat text under a fresh id.
    pub fn chat_message(sender_id: String, recipient_id: String, content: String) -> (res: Self)
        ensures
            is_envelope(res, MessageType::Chat, sender_id@, recipient_id@, res.message_id@),
            res.message_id@.len() == 36,
            res.payload matches MessagePayload::Text(t) && t.content@ == content@ && t.message_id@
                == res.message_id@ && t.reply_to is None,
            res.content@ == vstd::utf8::encode_utf8(content@),
    {
        let message_id = new_uuid_v4();
        Self::create_text_message(sender_id, recipient_id, content, message_id)
    }

    /// A handshake with a placeholder name and address.
    pub fn handshake(sender_id: String, _recipient_id: String, public_key: Vec<u8>) -> (res: Self)
        ensures
            is_envelope(res, MessageType::Handshake, sender_id@, "broadcast"@, res.message_id@),
            res.message_id@.len() == 36,
            res.payload matches MessagePayload::Handshake(h) && h.peer_id@ == sender_id@
                && h.peer_name@ == "Unknown"@ && h.address@ == "127.0.0.1:8080"@ && h.public_key@
                == public_key@ && h.protocol_version == PROTOCOL_VERSION,
            res.content@ == public_key@,
    {
        Self::create_handshake(sender_id, "Unknown".to_string(), "127.0.0.1:8080".to_string(), public_key)
    }

    /// The receipt for `message_id`, under a fresh id of its own.
    pub fn acknowledgment(sender_id: String, recipient_id: String, message_id: String) -> (res: Self)
        ensures
            is_envelope(res, MessageType::Acknowledgment, sender_id@, recipient_id@, res.message_id@),
            res.message_id@.len() == 36,
            res.payload matches MessagePayload::Ack(a) && a.original_message_id@ == message_id@
                && a.status@ == "delivered"@,
            res.content@ == vstd::utf8::encode_utf8(message_id@),
    {
        let timestamp = unix_time_secs();
        let ack_id = new_uuid_v4();
        let header = MessageHeader {
            message_type: MessageType::Acknowledgment,
            sender_id: sender_id.clone(),
            recipient_id: recipient_id.clone(),
            timestamp,
            message_id: ack_id.clone(),
            sequence_number: 0,
        };
        let bytes = string_bytes(&message_id);
        let payload = MessagePayload::Ack(
            AckPayload { original_message_id: message_id, status: "delivered".to_string() },
        );
        ProtocolMessage {
            header,
            payload,
            signature: None,
            message_type: MessageType::Acknowledgment,
            sender_id,
            recipient_id,
            content: bytes,
            timestamp,
            message_id: ack_id,
        }
    }

    /// Attaches a signature.
    pub fn sign(&mut self, signature: Vec<u8>)
        ensures
            final(self).signature == Some(signature),
            final(self).header == old(self).header,
            final(self).payload == old(self).payload,
            final(self).message_type == old(self).message_type,
            final(self).sender_id == old(self).sender_id,
            final(self).recipient_id == old(self).recipient_id,
            final(self).content == old(self).content,
            final(self).timestamp == old(self).timestamp,
            final(self).message_id == old(self).message_id,
    {
        self.signature = Some(signature);
    }

    /// Whether the message carries a signature.
    pub fn verify_signature(&self, _public_key: &[u8]) -> (res: bool)
        ensures
            res == self.signature is Some,
    {
        self.signature.is_some()
    }

    /// Whether sender, recipient and id are present and a time is set.
    pub fn is_valid(&self) -> (res: bool)
        ensures
            res == (self.sender_id@.len() > 0 && self.recipient_id@.len() > 0
                && self.message_id@.len() > 0 && self.timestamp > 0),
    {
        !self.sender_id.as_str().is_empty() && !self.recipient_id.as_str().is_empty()
            && !self.message_id.as_str().is_empty() && self.timestamp > 0
    }

    /// The header.
    pub fn get_header(&self) -> (res: &MessageHeader)
        ensures
            *res == self.header,
    {
        &self.header
    }

    /// The typed body.
    pub fn get_payload(&self) -> (res: &MessagePayload)
        ensures
            *res == self.payload,
    {
        &self.payload
    }

    /// Sets the header's sequence number.
    pub fn set_sequence_number(&mut self, seq: u64)
        ensures
            final(self).header.sequence_number == seq,
            final(self).header.message_type == old(self).header.message_type,
            final(self).header.sender_id == old(self).header.sender_id,
            final(self).header.recipient_id == old(self).header.recipient_id,
            final(self).header.timestamp == old(self).header.timestamp,
            final(self).header.message_id == old(self).header.message_id,
            final(self).payload == old(self).payload,
            final(self).signature == old(self).signature,
            final(self).message_type == old(self).message_type,
            final(self).sender_id == old(self).sender_id,
            final(self).recipient_id == old(self).recipient_id,
            final(self).content == old(self).content,
            final(self).timestamp == old(self).timestamp,
            final(self).message_id == old(self).message_id,
    {
        self.header.sequence_number = seq;
    }

    /// The header's sequence number.
    pub fn get_sequence_number(&self) -> (res: u64)
        ensures
            res == self.header.sequence_number,
    {
        self.header.sequence_number
    }

    /// The text of a chat message, if the body is one.
    pub fn get_text_content(&self) -> (res: Option<String>)
        ensures
            self.payload matches MessagePayload::Text(t) ==> (res matches Some(c) && c@ == t.content@),
            !(self.payload is Text) ==> res is None,
    {
        match &self.payload {
            MessagePayload::Text(text) => Some(text.content.clone()),
            _ => None,
        }
    }

    /// The send time of a probe, if the body is one.
    pub fn get_ping_timestamp(&self) -> (res: Option<u64>)
        ensures
            self.payload matches MessagePayload::Ping(p) ==> res == Some(p.timestamp),
            !(self.payload is Ping) ==> res is None,
    {
        match &self.payload {
            MessagePayload::Ping(ping) => Some(ping.timestamp),
            _ => None,
        }
    }

    /// The probe and answer times, if the body is an answer.
    pub fn get_pong_timestamps(&self) -> (res: Option<(u64, u64)>)
        ensures
            self.payload matches MessagePayload::Pong(p) ==> res == Some(
                (p.original_timestamp, p.response_timestamp),
            ),
            !(self.payload is Pong) ==> res is None,
    {
        match &self.payload {
            MessagePayload::Pong(pong) => Some((pong.original_timestamp, pong.response_timestamp)),
            _ => None,
        }
    }

    /// The announced identity, if the body is a handshake.
    pub fn get_handshake_info(&self) -> (res: Option<&HandshakePayload>)
        ensures
            self.payload matches MessagePayload::Handshake(h) ==> res == Some(&h),
            !(self.payload is Handshake) ==> res is None,
    {
        match &self.payload {
            MessagePayload::Handshake(handshake) => Some(handshake),
            _ => None,
        }
    }
}

/// A receipt from "system" to "error" that quotes `original_message_id` and `error`.
pub fn create_error_response(original_message_id: String, error: String) -> (res: ProtocolMessage)
    ensures
        is_envelope(res, MessageType::Acknowledgment, "system"@, "error"@, res.message_id@),
        res.payload matches MessagePayload::Ack(a) && a.original_message_id@ == original_message_id@
            + ":"@ + error@ && a.status@ == "delivered"@,
        res.content@ == vstd::utf8::encode_utf8(original_message_id@ + ":"@ + error@),
        res.message_id@.len() == 36,
{
    let mut quoted = original_message_id;
    quoted.append(":");
    quoted.append(error.as_str());
    ProtocolMessage::acknowledgment("system".to_string(), "error".to_string(), quoted)
}

} // verus!
