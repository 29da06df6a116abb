//! Length-prefixed frames: a four-byte big-endian length, then that many bytes of message.
use vstd::prelude::*;
use crate::protocol::{MAX_MESSAGE_SIZE, MessagePayload, ProtocolMessage};
use crate::text::{chars_of, string_from_range};

verus! {

/// Makes `std::io::Error`, the error of a socket operation, known to the verifier; its
/// contents stay hidden.
#[verifier::external_type_specification]
#[verifier::external_body]
pub struct ExIoError(std::io::Error);

/// Errors of a peer-to-peer session.
#[derive(Debug)]
pub enum P2pError {
    Io(std::io::Error),
    Protocol(String),
    HandshakeTimeout,
    MessageTooLarge { size: usize },
    ConnectionClosed,
}

/// The four big-endian bytes of `n`.
pub open spec fn be_u32_bytes(n: nat) -> Seq<u8> {
    seq![
        ((n / 0x1000000) % 0x100) as u8,
        ((n / 0x10000) % 0x100) as u8,
        ((n / 0x100) % 0x100) as u8,
        (n % 0x100) as u8,
    ]
}

/// The number that four big-endian bytes stand for.
pub open spec fn be_u32_value(b: Seq<u8>) -> nat {
    (b[0] * 0x1000000 + b[1] * 0x10000 + b[2] * 0x100 + b[3]) as nat
}

/// The frame that carries `payload`.
pub open spec fn spec_frame(payload: Seq<u8>) -> Seq<u8> {
    be_u32_bytes(payload.len()) + payload
}

/// The length a stream's first frame declares (meaningful when four bytes are there).
pub open spec fn declared_len(stream: Seq<u8>) -> nat {
    be_u32_value(stream.subrange(0, 4))
}

/// The message body of the first frame of `stream`, when the frame is complete and within the
/// size limit.
pub open spec fn spec_frame_body(stream: Seq<u8>) -> Option<Seq<u8>> {
    if stream.len() >= 4 && declared_len(stream) <= MAX_MESSAGE_SIZE && stream.len() >= 4
        + declared_len(stream) {
        Some(stream.subrange(4, 4 + declared_len(stream) as int))
    } else {
        None
    }
}

/// `line` without the line-end characters (`\n`, `\r`) at its end.
pub open spec fn strip_line_end(line: Seq<char>) -> Seq<char>
    decreases line.len(),
{
    if line.len() > 0 && (line.last() == '\n' || line.last() == '\r') {
        strip_line_end(line.drop_last())
    } else {
        line
    }
}

proof fn lemma_be_u32_round_trip(n: nat)
    requires
        n < 0x1_0000_0000,
    ensures
        be_u32_value(be_u32_bytes(n)) == n,
{
    let b = be_u32_bytes(n);
    assert(b[0] == (n / 0x1000000) % 0x100);
    assert(b[1] == (n / 0x10000) % 0x100);
    assert(b[2] == (n / 0x100) % 0x100);
    assert(b[3] == n % 0x100);
    assert((n / 0x1000000) % 0x100 * 0x1000000 + (n / 0x10000) % 0x100 * 0x10000 + (n / 0x100)
        % 0x100 * 0x100 + n % 0x100 == n) by (nonlinear_arith)
        requires
            n < 0x1_0000_0000,
    ;
}

/// Reading the first frame of a stream that starts with the frame of `payload` gives back
/// `payload`, whatever follows it, for every payload within the size limit.
pub proof fn lemma_frame_round_trip(payload: Seq<u8>, rest: Seq<u8>)
    requires
        payload.len() <= MAX_MESSAGE_SIZE,
    ensures
        spec_frame_body(spec_frame(payload) + rest) == Some(payload),
{
    let s = spec_frame(payload) + rest;
    lemma_be_u32_round_trip(payload.len());
    assert(s.subrange(0, 4) =~= be_u32_bytes(payload.len()));
    assert(s.subrange(4, 4 + payload.len() as int) =~= payload);
}

/// The TCP transport: it listens on all interfaces at a port, and connects to addresses.
pub struct TcpTransport;

impl TcpTransport {
    /// The address a listener binds for `port`: all interfaces, at that port.
    pub fn listen_address(port: u16) -> (res: String)
        ensures
            res@ == "0.0.0.0:"@ + crate::text::decimal(port as nat),
    {
        let mut s = "0.0.0.0:".to_string();
        crate::text::push_decimal(&mut s, port as u128);
        s
    }
}

/// The frame that carries `payload`, or `MessageTooLarge` when it is over the size limit.
pub fn encode_frame(payload: &[u8]) -> (res: Result<Vec<u8>, P2pError>)
    ensures
        payload@.len() <= MAX_MESSAGE_SIZE ==> (res matches Ok(f) && f@ == spec_frame(payload@)),
        payload@.len() > MAX_MESSAGE_SIZE ==> (res matches Err(P2pError::MessageTooLarge { size })
            && size == payload@.len()),
{
    let len = payload.len();
    if len > MAX_MESSAGE_SIZE {
        return Err(P2pError::MessageTooLarge { size: len });
    }
    let mut frame: Vec<u8> = Vec::new();
    frame.push(((len / 0x1000000) % 0x100) as u8);
    frame.push(((len / 0x10000) % 0x100) as u8);
    frame.push(((len / 0x100) % 0x100) as u8);
    frame.push((len % 0x100) as u8);
    crate::tls_masking::append_bytes(&mut frame, payload);
    assert(frame@ =~= spec_frame(payload@));
    Ok(frame)
}

/// Accepts a declared frame length within the size limit, as a reader does before it reads the
/// body.
pub fn check_frame_length(len: u32) -> (res: Result<usize, P2pError>)
    ensures
        len <= MAX_MESSAGE_SIZE ==> res == Ok::<usize, P2pError>(len as usize),
        len > MAX_MESSAGE_SIZE ==> (res matches Err(P2pError::MessageTooLarge { size }) && size
            == len),
{
    if len as usize > MAX_MESSAGE_SIZE {
        return Err(P2pError::MessageTooLarge { size: len as usize });
    }
    Ok(len as usize)
}

/// The number that four big-endian bytes stand for.
pub fn frame_length_from_header(header: [u8; 4]) -> (res: u32)
    ensures
        res == be_u32_value(header@),
{
    (header[0] as u32) * 0x1000000 + (header[1] as u32) * 0x10000 + (header[2] as u32) * 0x100
        + (header[3] as u32)
}

/// Reads the first frame of `stream`: its body and the number of bytes it took. A stream that
/// ends before the frame does is a closed connection.
pub fn read_frame_bytes(stream: &[u8]) -> (res: Result<(Vec<u8>, usize), P2pError>)
    ensures
        spec_frame_body(stream@) matches Some(body) ==> (res matches Ok((b, used)) && b@ == body
            && used == 4 + body.len()),
        stream@.len() < 4 ==> res matches Err(P2pError::ConnectionClosed),
        stream@.len() >= 4 && declared_len(stream@) > MAX_MESSAGE_SIZE ==> (res matches Err(
            P2pError::MessageTooLarge { size },
        ) && size == declared_len(stream@)),
        stream@.len() >= 4 && declared_len(stream@) <= MAX_MESSAGE_SIZE && stream@.len() < 4
            + declared_len(stream@) ==> res matches Err(P2pError::ConnectionClosed),
{
    if stream.len() < 4 {
        return Err(P2pError::ConnectionClosed);
    }
    let header: [u8; 4] = [stream[0], stream[1], stream[2], stream[3]];
    assert(header@ =~= stream@.subrange(0, 4));
    let len = frame_length_from_header(header);
    let checked = check_frame_length(len);
    let body_len = match checked {
        Ok(n) => n,
        Err(e) => {
            return Err(e);
        },
    };
    if stream.len() - 4 < body_len {
        return Err(P2pError::ConnectionClosed);
    }
    let body = crate::tls_masking::copy_range(stream, 4, 4 + body_len);
    Ok((body, 4 + body_len))
}

/// The name and id of the remote peer from its first message: the handshake body, or, for a
/// message with no typed body, its sender id taken as both.
pub fn extract_peer_identity(msg: &ProtocolMessage) -> (res: Result<(String, String), P2pError>)
    ensures
        msg.payload matches MessagePayload::Handshake(h) ==> (res matches Ok((name, id))
            && name@ == h.peer_name@ && id@ == h.peer_id@),
        (msg.payload is Empty && msg.sender_id@.len() > 0) ==> (res matches Ok((name, id))
            && name@ == msg.sender_id@ && id@ == msg.sender_id@),
        !(msg.payload is Handshake) && !(msg.payload is Empty && msg.sender_id@.len() > 0) ==> (
        res matches Err(P2pError::Protocol(m)) && m@
            == "expected Handshake payload in first message"@),
{
    match msg.get_handshake_info() {
        Some(info) => Ok((info.peer_name.clone(), info.peer_id.clone())),
        None => {
            let is_empty_body = match &msg.payload {
                MessagePayload::Empty => true,
                _ => false,
            };
            if is_empty_body && !msg.sender_id.as_str().is_empty() {
                Ok((msg.sender_id.clone(), msg.sender_id.clone()))
            } else {
                Err(P2pError::Protocol("expected Handshake payload in first message".to_string()))
            }
        },
    }
}

/// The chat text a typed line stands for: the line without its line end, or `None` when
/// nothing is left to send.
pub fn outgoing_chat_text(line: &str) -> (res: Option<String>)
    ensures
        strip_line_end(line@).len() == 0 ==> res is None,
        strip_line_end(line@).len() > 0 ==> (res matches Some(t) && t@ == strip_line_end(line@)),
{
    let chars = chars_of(line);
    let mut end: usize = chars.len();
    assert(chars@.subrange(0, end as int) =~= line@);
    while end > 0 && (chars[end - 1] == '\n' || chars[end - 1] == '\r')
        invariant
            end <= chars@.len(),
            chars@ == line@,
            strip_line_end(line@) == strip_line_end(chars@.subrange(0, end as int)),
        decreases end,
    {
        let ghost cur = chars@.subrange(0, end as int);
        assert(cur.drop_last() =~= chars@.subrange(0, end - 1));
        end = end - 1;
    }
    let ghost cur = chars@.subrange(0, end as int);
    assert(strip_line_end(cur) == cur);
    if end == 0 {
        return None;
    }
    Some(string_from_range(chars.as_slice(), 0, end))
}

} // verus!
