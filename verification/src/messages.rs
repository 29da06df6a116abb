//! The message operations offered to the user interface: validation of what is sent,
//! statistics, ordering, paging and search of a chat's messages.
use vstd::prelude::*;
use crate::network::{ChatMessage, ChatMessageType, DeliveryStatus};
use crate::sorting::{lemma_first_below, stable_desc};
use crate::text::{chars_of, contains_seq, is_blank, lowercase, lowercase_contains, string_from_chars,
    trim, trim_chars};

verus! {

/// The most bytes a text message may have.
pub const MAX_TEXT_BYTES: usize = 10000;

/// The refusal of a text message, if any: an empty one after trimming, or one of more than
/// `MAX_TEXT_BYTES` bytes.
pub open spec fn text_refusal(content: Seq<char>) -> Option<Seq<char>> {
    if trim(content).len() == 0 {
        Some("Message content cannot be empty"@)
    } else if vstd::utf8::encode_utf8(content).len() > MAX_TEXT_BYTES {
        Some("Message content too long (max 10000 characters)"@)
    } else {
        None
    }
}

/// Checks a text message before it is sent: the message, trimmed, or why it is refused.
pub fn validate_text_message(content: &str) -> (res: Result<String, String>)
    requires
        vstd::utf8::encode_utf8(content@).len() <= usize::MAX,
    ensures
        text_refusal(content@) matches Some(m) ==> (res matches Err(e) && e@ == m),
        text_refusal(content@) is None ==> (res matches Ok(t) && t@ == trim(content@)),
{
    if is_blank(content) {
        return Err("Message content cannot be empty".to_string());
    }
    if content.len() > MAX_TEXT_BYTES {
        return Err("Message content too long (max 10000 characters)".to_string());
    }
    let cs = chars_of(content);
    let t = trim_chars(cs.as_slice());
    Ok(string_from_chars(t.as_slice()))
}

/// Checks a file message before it is sent, given whether the file exists: the message's
/// content, `name|path` with the name trimmed, or why it is refused.
pub fn validate_file_message(file_path: &str, file_name: &str, file_exists: bool) -> (res: Result<String, String>)
    ensures
        trim(file_name@).len() == 0 ==> (res matches Err(e) && e@ == "File name cannot be empty"@),
        trim(file_name@).len() > 0 && trim(file_path@).len() == 0 ==> (res matches Err(e) && e@
            == "File path cannot be empty"@),
        trim(file_name@).len() > 0 && trim(file_path@).len() > 0 && !file_exists ==> (res matches Err(e)
            && e@ == "File does not exist"@),
        trim(file_name@).len() > 0 && trim(file_path@).len() > 0 && file_exists ==> (res matches Ok(c)
            && c@ == trim(file_name@) + seq!['|'] + file_path@),
{
    if is_blank(file_name) {
        return Err("File name cannot be empty".to_string());
    }
    if is_blank(file_path) {
        return Err("File path cannot be empty".to_string());
    }
    if !file_exists {
        return Err("File does not exist".to_string());
    }
    let cs = chars_of(file_name);
    let t = trim_chars(cs.as_slice());
    let mut c = string_from_chars(t.as_slice());
    crate::text::push_char(&mut c, '|');
    c.append(file_path);
    Ok(c)
}

/// Counts over the messages of a chat.
#[derive(Debug, Clone, Copy, PartialEq, Eq, Structural)]
pub struct ChatStatistics {
    pub total_messages: u32,
    pub sent_messages: u32,
    pub received_messages: u32,
    pub unread_messages: u32,
    pub first_message_timestamp: Option<u64>,
    pub last_message_timestamp: Option<u64>,
    pub file_messages: u32,
    pub media_messages: u32,
}

/// The number of messages of `ms` for which `p` holds.
pub open spec fn count_where(ms: Seq<ChatMessage>, p: spec_fn(ChatMessage) -> bool) -> nat
    decreases ms.len(),
{
    if ms.len() == 0 {
        0
    } else {
        count_where(ms.drop_last(), p) + if p(ms.last()) { 1nat } else { 0nat }
    }
}

/// Messages the local user sent.
pub open spec fn is_local(m: ChatMessage) -> bool {
    m.from@ == "local_user"@
}

/// Messages delivered but not yet read.
pub open spec fn is_unread(m: ChatMessage) -> bool {
    m.delivery_status == DeliveryStatus::Delivered
}

/// Messages that carry a file.
pub open spec fn is_file(m: ChatMessage) -> bool {
    m.msg_type == ChatMessageType::File
}

/// Messages that carry an image or a voice recording.
pub open spec fn is_media(m: ChatMessage) -> bool {
    m.msg_type == ChatMessageType::Image || m.msg_type == ChatMessageType::Voice
}

/// The earliest timestamp of `ms`, if there is a message.
pub open spec fn min_timestamp(ms: Seq<ChatMessage>) -> Option<u64>
    decreases ms.len(),
{
    if ms.len() == 0 {
        None
    } else {
        match min_timestamp(ms.drop_last()) {
            Some(t) => Some(if ms.last().timestamp < t { ms.last().timestamp } else { t }),
            None => Some(ms.last().timestamp),
        }
    }
}

/// The latest timestamp of `ms`, if there is a message.
pub open spec fn max_timestamp(ms: Seq<ChatMessage>) -> Option<u64>
    decreases ms.len(),
{
    if ms.len() == 0 {
        None
    } else {
        match max_timestamp(ms.drop_last()) {
            Some(t) => Some(if ms.last().timestamp > t { ms.last().timestamp } else { t }),
            None => Some(ms.last().timestamp),
        }
    }
}

/// The counts of a chat's messages, each cut to 32 bits.
pub open spec fn spec_chat_statistics(ms: Seq<ChatMessage>) -> ChatStatistics {
    ChatStatistics {
        total_messages: ms.len() as u32,
        sent_messages: count_where(ms, |m: ChatMessage| is_local(m)) as u32,
        received_messages: (ms.len() - count_where(ms, |m: ChatMessage| is_local(m))) as u32,
        unread_messages: count_where(ms, |m: ChatMessage| is_unread(m)) as u32,
        first_message_timestamp: min_timestamp(ms),
        last_message_timestamp: max_timestamp(ms),
        file_messages: count_where(ms, |m: ChatMessage| is_file(m)) as u32,
        media_messages: count_where(ms, |m: ChatMessage| is_media(m)) as u32,
    }
}

proof fn lemma_count_bound(ms: Seq<ChatMessage>, p: spec_fn(ChatMessage) -> bool)
    ensures
        count_where(ms, p) <= ms.len(),
    decreases ms.len(),
{
    if ms.len() > 0 {
        lemma_count_bound(ms.drop_last(), p);
    }
}

/// The counts of the messages `messages` of a chat.
pub fn chat_statistics(messages: &[ChatMessage]) -> (res: ChatStatistics)
    ensures
        res == spec_chat_statistics(messages@),
{
    let local = "local_user".to_string();
    let mut sent: usize = 0;
    let mut unread: usize = 0;
    let mut files: usize = 0;
    let mut media: usize = 0;
    let mut first: Option<u64> = None;
    let mut last: Option<u64> = None;
    let mut i: usize = 0;
    while i < messages.len()
        invariant
            i <= messages@.len(),
            local@ == "local_user"@,
            sent == count_where(messages@.subrange(0, i as int), |m: ChatMessage| is_local(m)),
            unread == count_where(messages@.subrange(0, i as int), |m: ChatMessage| is_unread(m)),
            files == count_where(messages@.subrange(0, i as int), |m: ChatMessage| is_file(m)),
            media == count_where(messages@.subrange(0, i as int), |m: ChatMessage| is_media(m)),
            first == min_timestamp(messages@.subrange(0, i as int)),
            last == max_timestamp(messages@.subrange(0, i as int)),
            sent <= i,
            unread <= i,
            files <= i,
            media <= i,
        decreases messages@.len() - i,
    {
        let m = &messages[i];
        let ghost next = messages@.subrange(0, i + 1);
        assert(next.drop_last() =~= messages@.subrange(0, i as int));
        assert(next.last() == *m);
        if m.from == local {
            sent = sent + 1;
        }
        if m.delivery_status == DeliveryStatus::Delivered {
            unread = unread + 1;
        }
        if m.msg_type == ChatMessageType::File {
            files = files + 1;
        }
        if m.msg_type == ChatMessageType::Image || m.msg_type == ChatMessageType::Voice {
            media = media + 1;
        }
        first = match first {
            Some(t) => Some(if m.timestamp < t { m.timestamp } else { t }),
            None => Some(m.timestamp),
        };
        last = match last {
            Some(t) => Some(if m.timestamp > t { m.timestamp } else { t }),
            None => Some(m.timestamp),
        };
        i = i + 1;
    }
    assert(messages@.subrange(0, messages@.len() as int) =~= messages@);
    proof {
        lemma_count_bound(messages@, |m: ChatMessage| is_local(m));
    }
    let total = messages.len();
    ChatStatistics {
        total_messages: total as u32,
        sent_messages: sent as u32,
        received_messages: (total - sent) as u32,
        unread_messages: unread as u32,
        first_message_timestamp: first,
        last_message_timestamp: last,
        file_messages: files as u32,
        media_messages: media as u32,
    }
}

/// The unread count of a chat's statistics is the number of its messages whose delivery
/// status is exactly `Delivered` (cut to 32 bits): adding a message in any other status
/// (pending, sent, read or failed) leaves it as it was, and adding a delivered one adds one.
pub proof fn lemma_unread_is_delivered(ms: Seq<ChatMessage>, m: ChatMessage)
    ensures
        spec_chat_statistics(ms).unread_messages == (ms.filter(
            |x: ChatMessage| x.delivery_status == DeliveryStatus::Delivered,
        ).len() as u32),
        m.delivery_status != DeliveryStatus::Delivered ==> spec_chat_statistics(ms.push(m)).unread_messages
            == spec_chat_statistics(ms).unread_messages,
        m.delivery_status == DeliveryStatus::Delivered ==> spec_chat_statistics(ms.push(m)).unread_messages
            == ((ms.filter(|x: ChatMessage| x.delivery_status == DeliveryStatus::Delivered).len() + 1) as u32),
{
    lemma_delivered_count(ms);
    lemma_delivered_count(ms.push(m));
    assert(ms.push(m).drop_last() =~= ms);
}

/// Counting unread messages counts the delivered ones.
proof fn lemma_delivered_count(ms: Seq<ChatMessage>)
    ensures
        count_where(ms, |x: ChatMessage| is_unread(x)) == ms.filter(
            |x: ChatMessage| x.delivery_status == DeliveryStatus::Delivered,
        ).len(),
    decreases ms.len(),
{
    reveal(Seq::filter);
    if ms.len() > 0 {
        lemma_delivered_count(ms.drop_last());
    }
}

/// Counting with `p` counts the messages that `q` keeps, where the two agree on every message.
proof fn lemma_count_is_filter(ms: Seq<ChatMessage>, p: spec_fn(ChatMessage) -> bool, q: spec_fn(ChatMessage) -> bool)
    requires
        forall|x: ChatMessage| #[trigger] p(x) == q(x),
    ensures
        count_where(ms, p) == ms.filter(q).len(),
    decreases ms.len(),
{
    reveal(Seq::filter);
    if ms.len() > 0 {
        lemma_count_is_filter(ms.drop_last(), p, q);
    }
}

/// The earliest time of `ms` is the time of one of its messages, and no message is earlier.
proof fn lemma_min_timestamp(ms: Seq<ChatMessage>)
    requires
        ms.len() > 0,
    ensures
        min_timestamp(ms) matches Some(t) && (exists|i: int| 0 <= i < ms.len() && #[trigger] ms[i].timestamp == t)
            && forall|i: int| 0 <= i < ms.len() ==> t <= #[trigger] ms[i].timestamp,
    decreases ms.len(),
{
    let p = ms.drop_last();
    let n = ms.len() - 1;
    let x = ms[n].timestamp;
    if p.len() == 0 {
        assert(min_timestamp(p) is None);
        assert(ms[n].timestamp == x);
    } else {
        lemma_min_timestamp(p);
        let t0 = min_timestamp(p).unwrap();
        let i0 = choose|i: int| 0 <= i < p.len() && #[trigger] p[i].timestamp == t0;
        let t = if x < t0 { x } else { t0 };
        assert(min_timestamp(ms) == Some(t));
        if x < t0 {
            assert(ms[n].timestamp == t);
        } else {
            assert(ms[i0] == p[i0]);
            assert(ms[i0].timestamp == t);
        }
        assert forall|i: int| 0 <= i < ms.len() implies t <= #[trigger] ms[i].timestamp by {
            if i < n {
                assert(ms[i] == p[i]);
                assert(t0 <= p[i].timestamp);
            }
        }
    }
}

/// The latest time of `ms` is the time of one of its messages, and no message is later.
proof fn lemma_max_timestamp(ms: Seq<ChatMessage>)
    requires
        ms.len() > 0,
    ensures
        max_timestamp(ms) matches Some(t) && (exists|i: int| 0 <= i < ms.len() && #[trigger] ms[i].timestamp == t)
            && forall|i: int| 0 <= i < ms.len() ==> #[trigger] ms[i].timestamp <= t,
    decreases ms.len(),
{
    let p = ms.drop_last();
    let n = ms.len() - 1;
    let x = ms[n].timestamp;
    if p.len() == 0 {
        assert(max_timestamp(p) is None);
        assert(ms[n].timestamp == x);
    } else {
        lemma_max_timestamp(p);
        let t0 = max_timestamp(p).unwrap();
        let i0 = choose|i: int| 0 <= i < p.len() && #[trigger] p[i].timestamp == t0;
        let t = if x > t0 { x } else { t0 };
        assert(max_timestamp(ms) == Some(t));
        if x > t0 {
            assert(ms[n].timestamp == t);
        } else {
            assert(ms[i0] == p[i0]);
            assert(ms[i0].timestamp == t);
        }
        assert forall|i: int| 0 <= i < ms.len() implies #[trigger] ms[i].timestamp <= t by {
            if i < n {
                assert(ms[i] == p[i]);
                assert(p[i].timestamp <= t0);
            }
        }
    }
}

/// The earliest and the latest time of a chat's statistics are times of its messages, and no
/// message is earlier or later; there are none for an empty chat.
pub proof fn lemma_statistics_times(ms: Seq<ChatMessage>)
    ensures
        ms.len() == 0 ==> spec_chat_statistics(ms).first_message_timestamp is None
            && spec_chat_statistics(ms).last_message_timestamp is None,
        ms.len() > 0 ==> (spec_chat_statistics(ms).first_message_timestamp matches Some(t) && (exists|i: int|
            0 <= i < ms.len() && #[trigger] ms[i].timestamp == t) && forall|i: int| 0 <= i < ms.len() ==> t
            <= #[trigger] ms[i].timestamp),
        ms.len() > 0 ==> (spec_chat_statistics(ms).last_message_timestamp matches Some(t) && (exists|i: int|
            0 <= i < ms.len() && #[trigger] ms[i].timestamp == t) && forall|i: int| 0 <= i < ms.len()
            ==> #[trigger] ms[i].timestamp <= t),
{
    if ms.len() > 0 {
        lemma_min_timestamp(ms);
        lemma_max_timestamp(ms);
    }
}

/// The counts of a chat's statistics, each cut to 32 bits: all messages; those the local user
/// sent and the rest; those carrying a file; and those carrying an image or a voice recording.
pub proof fn lemma_statistics_counts(ms: Seq<ChatMessage>)
    ensures
        spec_chat_statistics(ms).total_messages == ms.len() as u32,
        spec_chat_statistics(ms).sent_messages == (ms.filter(|x: ChatMessage| x.from@ == "local_user"@).len() as u32),
        spec_chat_statistics(ms).received_messages == ((ms.len() - ms.filter(
            |x: ChatMessage| x.from@ == "local_user"@,
        ).len()) as u32),
        spec_chat_statistics(ms).file_messages == (ms.filter(|x: ChatMessage| x.msg_type == ChatMessageType::File).len() as u32),
        spec_chat_statistics(ms).media_messages == (ms.filter(
            |x: ChatMessage| x.msg_type == ChatMessageType::Image || x.msg_type == ChatMessageType::Voice,
        ).len() as u32),
{
    lemma_count_is_filter(ms, |m: ChatMessage| is_local(m), |x: ChatMessage| x.from@ == "local_user"@);
    lemma_count_is_filter(ms, |m: ChatMessage| is_file(m), |x: ChatMessage| x.msg_type == ChatMessageType::File);
    lemma_count_is_filter(
        ms,
        |m: ChatMessage| is_media(m),
        |x: ChatMessage| x.msg_type == ChatMessageType::Image || x.msg_type == ChatMessageType::Voice,
    );
}

/// `ms` is ordered newest first.
pub open spec fn newest_first(ms: Seq<ChatMessage>) -> bool {
    forall|i: int, j: int| 0 <= i < j < ms.len() ==> ms[i].timestamp >= ms[j].timestamp
}

/// The time of a message, as the key it is ordered by.
pub open spec fn msg_time() -> spec_fn(ChatMessage) -> int {
    |m: ChatMessage| m.timestamp as int
}

/// Orders `messages` newest first; messages of the same time keep their order.
pub fn sort_newest_first(messages: Vec<ChatMessage>) -> (res: Vec<ChatMessage>)
    ensures
        res@ == stable_desc(messages@, msg_time()),
        newest_first(res@),
        res@.to_multiset() == messages@.to_multiset(),
{
    broadcast use vstd::seq_lib::group_to_multiset_ensures;
    let mut res: Vec<ChatMessage> = Vec::new();
    let mut i: usize = 0;
    while i < messages.len()
        invariant
            i <= messages@.len(),
            newest_first(res@),
            res@.to_multiset() == messages@.subrange(0, i as int).to_multiset(),
            res@ == stable_desc(messages@.subrange(0, i as int), msg_time()),
        decreases messages@.len() - i,
    {
        let m = messages[i].duplicate();
        let ts = m.timestamp;
        let mut p: usize = 0;
        while p < res.len() && res[p].timestamp >= ts
            invariant
                p <= res@.len(),
                forall|k: int| 0 <= k < p ==> res@[k].timestamp >= ts,
            decreases res@.len() - p,
        {
            p = p + 1;
        }
        let ghost before = res@;
        res.insert(p, m);
        proof {
            assert(res@ =~= before.insert(p as int, m));
            assert forall|x: int, y: int| 0 <= x < y < res@.len() implies res@[x].timestamp
                >= res@[y].timestamp by {
                if y < p {
                } else if y == p {
                } else if x < p {
                    assert(before[x].timestamp >= before[y - 1].timestamp);
                } else if x == p {
                    assert(before[p as int].timestamp < ts);
                    assert(before[p as int].timestamp >= before[y - 1].timestamp || y - 1 == p);
                } else {
                    assert(before[x - 1].timestamp >= before[y - 1].timestamp);
                }
            }
            assert(res@.remove(p as int) =~= before);
            assert(res@[p as int] == m);
            let next = messages@.subrange(0, i + 1);
            assert(next =~= messages@.subrange(0, i as int).push(messages@[i as int]));
            lemma_first_below(before, msg_time(), ts as int, p as int);
            assert(next.drop_last() =~= messages@.subrange(0, i as int));
            assert(res@ == stable_desc(next, msg_time()));
            vstd::seq_lib::to_multiset_build(messages@.subrange(0, i as int), messages@[i as int]);
            assert(m == messages@[i as int]);
            vstd::seq_lib::to_multiset_remove(res@, p as int);
            assert(before.to_multiset() == res@.to_multiset().remove(m));
            assert(res@.contains(m));
            res@.to_multiset_ensures();
            assert(res@.to_multiset().count(m) > 0);
            assert(res@.to_multiset() =~= before.to_multiset().insert(m));
            assert(res@.to_multiset() == next.to_multiset());
        }
        i = i + 1;
    }
    assert(messages@.subrange(0, messages@.len() as int) =~= messages@);
    res
}

/// The page of a chat's messages, newest first, from `offset` and of at most `limit`
/// messages; empty where `offset` lies at or past the end.
pub fn newest_page(messages: Vec<ChatMessage>, limit: u32, offset: u32) -> (res: Vec<ChatMessage>)
    ensures
        ({
            let sorted = stable_desc(messages@, msg_time());
            res@ == (if offset < sorted.len() {
                sorted.subrange(
                    offset as int,
                    if offset + limit < sorted.len() { offset + limit } else { sorted.len() as int },
                )
            } else {
                Seq::empty()
            })
        }),
{
    let sorted = sort_newest_first(messages);
    let n = sorted.len();
    let start = offset as usize;
    if start >= n {
        let res: Vec<ChatMessage> = Vec::new();
        assert(res@ =~= Seq::<ChatMessage>::empty());
        return res;
    }
    let end: usize = if (offset as u64) + (limit as u64) < (n as u64) {
        ((offset as u64) + (limit as u64)) as usize
    } else {
        n
    };
    let mut res: Vec<ChatMessage> = Vec::new();
    let mut i: usize = start;
    while i < end
        invariant
            start <= i <= end,
            end <= sorted@.len(),
            res@ == sorted@.subrange(start as int, i as int),
        decreases end - i,
    {
        res.push(sorted[i].duplicate());
        i = i + 1;
        assert(res@ =~= sorted@.subrange(start as int, i as int));
    }
    res
}

/// The messages whose content holds `query`, letter case aside.
pub open spec fn text_pred(query: Seq<char>) -> spec_fn(ChatMessage) -> bool {
    |m: ChatMessage| contains_seq(lowercase(m.content@), lowercase(query))
}

/// The first `limit` messages of `messages` whose content holds `query`, letter case aside.
pub fn search_text(messages: &[ChatMessage], query: &str, limit: u32) -> (res: Vec<ChatMessage>)
    ensures
        ({
            let found = messages@.filter(text_pred(query@));
            res@ == found.take(if limit < found.len() { limit as int } else { found.len() as int })
        }),
{
    let mut kept: Vec<ChatMessage> = Vec::new();
    let mut i: usize = 0;
    while i < messages.len()
        invariant
            i <= messages@.len(),
            kept@ == messages@.subrange(0, i as int).filter(text_pred(query@)),
        decreases messages@.len() - i,
    {
        let m = &messages[i];
        let ghost pre = messages@.subrange(0, i as int);
        let ghost next = messages@.subrange(0, i + 1);
        assert(next.drop_last() =~= pre);
        assert(next.filter(text_pred(query@)) == (if text_pred(query@)(*m) {
            pre.filter(text_pred(query@)).push(*m)
        } else {
            pre.filter(text_pred(query@))
        })) by {
            reveal(Seq::filter);
        }
        if lowercase_contains(m.content.as_str(), query) {
            kept.push(m.duplicate());
        }
        i = i + 1;
    }
    assert(messages@.subrange(0, messages@.len() as int) =~= messages@);
    let cut: usize = if (limit as usize) < kept.len() { limit as usize } else { kept.len() };
    let mut res: Vec<ChatMessage> = Vec::new();
    let mut j: usize = 0;
    while j < cut
        invariant
            j <= cut <= kept@.len(),
            res@ == kept@.take(j as int),
        decreases cut - j,
    {
        res.push(kept[j].duplicate());
        j = j + 1;
        assert(res@ =~= kept@.take(j as int));
    }
    res
}

/// How a message concerns a view of the chat.
#[derive(Debug, Clone, Copy, PartialEq, Eq, Structural)]
pub enum MessageUpdateType {
    Received,
    Sent,
    Deleted,
    Updated,
}

/// A change to a chat, as the user interface is told of it.
#[derive(Debug, Clone)]
pub struct MessageUpdate {
    pub message: ChatMessage,
    pub update_type: MessageUpdateType,
    pub timestamp: u64,
}

/// Whether `message` belongs to the chat with `contact_id`: it is from or to them.
pub fn concerns(message: &ChatMessage, contact_id: &str) -> (res: bool)
    ensures
        res == (message.to@ == contact_id@ || message.from@ == contact_id@),
{
    let c = contact_id.to_owned();
    message.to == c || message.from == c
}

/// The update telling of `message`, received at `timestamp`, where it belongs to the chat with
/// `contact_id`.
pub fn received_update(message: &ChatMessage, contact_id: &str, timestamp: u64) -> (res: Option<MessageUpdate>)
    ensures
        (message.to@ == contact_id@ || message.from@ == contact_id@) <==> res is Some,
        res matches Some(u) ==> u.message == *message && u.update_type == MessageUpdateType::Received
            && u.timestamp == timestamp,
{
    if concerns(message, contact_id) {
        Some(MessageUpdate { message: message.duplicate(), update_type: MessageUpdateType::Received, timestamp })
    } else {
        None
    }
}

/// The time written for a message sent at `secs`: its date and time, or `Unknown time`.
pub open spec fn export_time(secs: u64) -> Seq<char> {
    match crate::clock::datetime_text(secs) {
        Some(t) => t,
        None => "Unknown time"@,
    }
}

/// The line of the text export for `m`: `[time] from: content` and a line break.
pub open spec fn export_line(m: ChatMessage) -> Seq<char> {
    seq!['['] + export_time(m.timestamp) + seq![']', ' '] + m.from@ + seq![':', ' '] + m.content@ + seq!['\n']
}

/// The lines of the text export for `ms`, in order.
pub open spec fn export_lines(ms: Seq<ChatMessage>) -> Seq<char>
    decreases ms.len(),
{
    if ms.len() == 0 {
        Seq::empty()
    } else {
        export_lines(ms.drop_last()) + export_line(ms.last())
    }
}

/// The heading of the text export of the chat with `contact_id`: a title line, then a line of
/// fifty `=`.
pub open spec fn export_heading(contact_id: Seq<char>) -> Seq<char> {
    "Chat history with "@ + contact_id + seq!['\n'] + Seq::new(50, |i: int| '=') + seq!['\n']
}

/// The chat with `contact_id` as plain text: the heading, then one line per message.
pub fn export_text(contact_id: &str, messages: &[ChatMessage]) -> (res: String)
    ensures
        res@ == export_heading(contact_id@) + export_lines(messages@),
{
    let mut text = "Chat history with ".to_string();
    text.append(contact_id);
    crate::text::push_char(&mut text, '\n');
    let mut k: usize = 0;
    let ghost head = text@;
    while k < 50
        invariant
            k <= 50,
            text@ == head + Seq::new(k as nat, |i: int| '='),
        decreases 50 - k,
    {
        crate::text::push_char(&mut text, '=');
        k = k + 1;
        assert(text@ =~= head + Seq::new(k as nat, |i: int| '='));
    }
    crate::text::push_char(&mut text, '\n');
    assert(text@ =~= export_heading(contact_id@));
    let ghost top = text@;
    let mut i: usize = 0;
    while i < messages.len()
        invariant
            i <= messages@.len(),
            top == export_heading(contact_id@),
            text@ == top + export_lines(messages@.subrange(0, i as int)),
        decreases messages@.len() - i,
    {
        let m = &messages[i];
        let ghost before = text@;
        crate::text::push_char(&mut text, '[');
        match crate::clock::format_datetime(m.timestamp) {
            Some(t) => text.append(t.as_str()),
            None => text.append("Unknown time"),
        }
        crate::text::push_char(&mut text, ']');
        crate::text::push_char(&mut text, ' ');
        text.append(m.from.as_str());
        crate::text::push_char(&mut text, ':');
        crate::text::push_char(&mut text, ' ');
        text.append(m.content.as_str());
        crate::text::push_char(&mut text, '\n');
        proof {
            let next = messages@.subrange(0, i + 1);
            assert(next.drop_last() =~= messages@.subrange(0, i as int));
            assert(next.last() == *m);
            assert(text@ =~= before + export_line(*m));
            assert(text@ =~= top + export_lines(next));
        }
        i = i + 1;
    }
    assert(messages@.subrange(0, messages@.len() as int) =~= messages@);
    text
}

/// The mark a history line ends with for a message's delivery status: delivered or read,
/// failed, or on its way.
pub open spec fn status_mark(s: DeliveryStatus) -> Seq<char> {
    match s {
        DeliveryStatus::Delivered | DeliveryStatus::Read => "\u{2705}"@,
        DeliveryStatus::Failed => "\u{274c}"@,
        DeliveryStatus::Pending | DeliveryStatus::Sent => "\u{1f4e4}"@,
    }
}

/// The line of the chat history for `m`, with `time` as its time of day: the time in square
/// brackets, the sender, a colon, the content and the delivery mark.
pub open spec fn history_line_text(m: ChatMessage, time: Seq<char>) -> Seq<char> {
    "["@ + time + "] "@ + m.from@ + ": "@ + m.content@ + " "@ + status_mark(m.delivery_status)
}

/// The line the chat history shows for `m`: its time of day in UTC as `%H:%M:%S`, or
/// `??:??:??` where the time is out of the calendar's range.
pub fn history_line(m: &ChatMessage) -> (res: String)
    ensures
        m.timestamp < crate::clock::CHRONO_SAFE_SECS ==> res@ == history_line_text(
            *m,
            crate::clock::time_of_day(m.timestamp as nat),
        ),
        m.timestamp <= i64::MAX ==> (res@ == history_line_text(*m, crate::clock::time_of_day(m.timestamp as nat))
            || res@ == history_line_text(*m, "??:??:??"@)),
{
    let mut line = "[".to_string();
    let time = crate::clock::format_time_of_day(m.timestamp);
    let ghost t: Seq<char> = match &time {
        Some(x) => x@,
        None => "??:??:??"@,
    };
    match &time {
        Some(x) => line.append(x.as_str()),
        None => line.append("??:??:??"),
    }
    line.append("] ");
    line.append(m.from.as_str());
    line.append(": ");
    line.append(m.content.as_str());
    line.append(" ");
    let mark = match m.delivery_status {
        DeliveryStatus::Delivered | DeliveryStatus::Read => "\u{2705}",
        DeliveryStatus::Failed => "\u{274c}",
        DeliveryStatus::Pending | DeliveryStatus::Sent => "\u{1f4e4}",
    };
    proof {
        reveal_strlit("[");
        reveal_strlit("] ");
        reveal_strlit(": ");
        reveal_strlit(" ");
        reveal_strlit("??:??:??");
        reveal_strlit("\u{2705}");
        reveal_strlit("\u{274c}");
        reveal_strlit("\u{1f4e4}");
    }
    line.append(mark);
    assert(line@ =~= history_line_text(*m, t));
    line
}

/// The export format asked for by `format`, letter case aside: JSON or plain text; other
/// names are refused.
pub fn export_format(format: &str) -> (res: Result<crate::chats::ExportFormat, String>)
    ensures
        lowercase(format@) == "json"@ ==> res == Ok::<crate::chats::ExportFormat, String>(
            crate::chats::ExportFormat::Json,
        ),
        lowercase(format@) == "txt"@ ==> res == Ok::<crate::chats::ExportFormat, String>(
            crate::chats::ExportFormat::Txt,
        ),
        lowercase(format@) != "json"@ && lowercase(format@) != "txt"@ ==> (res matches Err(e) && e@
            == "Unsupported format. Use 'json' or 'txt'"@),
{
    let f = crate::text::to_lowercase(format);
    let json = "json".to_string();
    let txt = "txt".to_string();
    proof {
        reveal_strlit("json");
        reveal_strlit("txt");
        assert("json"@.len() != "txt"@.len());
    }
    if f == json {
        Ok(crate::chats::ExportFormat::Json)
    } else if f == txt {
        Ok(crate::chats::ExportFormat::Txt)
    } else {
        Err("Unsupported format. Use 'json' or 'txt'".to_string())
    }
}

/// The reply to marking the messages of `contact_id` as read: refused without a core.
pub fn mark_messages_as_read(initialized: bool, contact_id: &str) -> (res: Result<String, String>)
    ensures
        !initialized ==> (res matches Err(e) && e@ == "Core not initialized"@),
        initialized ==> (res matches Ok(m) && m@ == "Messages with "@ + contact_id@ + " marked as read"@),
{
    if !initialized {
        return Err("Core not initialized".to_string());
    }
    let mut m = "Messages with ".to_string();
    m.append(contact_id);
    m.append(" marked as read");
    Ok(m)
}

/// The reply to deleting the message `message_id`: refused without a core.
pub fn delete_message(initialized: bool, message_id: &str) -> (res: Result<String, String>)
    ensures
        !initialized ==> (res matches Err(e) && e@ == "Core not initialized"@),
        initialized ==> (res matches Ok(m) && m@ == "Message "@ + message_id@ + " deleted"@),
{
    if !initialized {
        return Err("Core not initialized".to_string());
    }
    let mut m = "Message ".to_string();
    m.append(message_id);
    m.append(" deleted");
    Ok(m)
}

} // verus!
