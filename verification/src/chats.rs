//! Chats: their bookkeeping, and the filtering and paging of their messages.
use vstd::prelude::*;
use crate::clock::utc_now_millis;
use crate::entropy::new_uuid_v4;
use crate::network::{ChatMessage, ChatMessageType, DeliveryStatus};
use crate::text::{contains_seq, lowercase, lowercase_contains};

verus! {

/// Errors of chat handling.
#[derive(Debug)]
pub enum ChatError {
    ChatNotFound(String),
    MessageNotFound(String),
    InvalidInput(String),
    StorageError(String),
    SerializationError(String),
}

impl ChatError {
    /// The error's message: its heading, then its detail.
    pub fn message(&self) -> (res: String)
        ensures
            res@ == match self {
                ChatError::ChatNotFound(m) => "Chat not found: "@ + m@,
                ChatError::MessageNotFound(m) => "Message not found: "@ + m@,
                ChatError::InvalidInput(m) => "Invalid input: "@ + m@,
                ChatError::StorageError(m) => "Storage error: "@ + m@,
                ChatError::SerializationError(m) => "Serialization error: "@ + m@,
            },
    {
        let (mut head, detail) = match self {
            ChatError::ChatNotFound(m) => ("Chat not found: ".to_string(), m),
            ChatError::MessageNotFound(m) => ("Message not found: ".to_string(), m),
            ChatError::InvalidInput(m) => ("Invalid input: ".to_string(), m),
            ChatError::StorageError(m) => ("Storage error: ".to_string(), m),
            ChatError::SerializationError(m) => ("Serialization error: ".to_string(), m),
        };
        head.append(detail.as_str());
        head
    }
}

/// A conversation.
#[derive(Debug, Clone)]
pub struct Chat {
    pub id: String,
    pub name: String,
    pub participants: Vec<String>,
    /// Milliseconds since the Unix epoch.
    pub created_at: i64,
    /// Milliseconds since the Unix epoch.
    pub last_message_at: Option<i64>,
    pub message_count: u64,
    pub is_group: bool,
}

/// What is known of a chat at a glance.
#[derive(Debug, Clone)]
pub struct ChatInfo {
    pub chat_id: String,
    pub name: String,
    pub participant_count: usize,
    pub message_count: u64,
    /// Milliseconds since the Unix epoch.
    pub last_activity: Option<i64>,
    pub unread_count: u64,
}

/// Which messages a search keeps; a field that is `None` keeps every message.
#[derive(Debug, Clone)]
pub struct MessageFilter {
    pub chat_id: Option<String>,
    pub sender: Option<String>,
    pub message_type: Option<ChatMessageType>,
    pub delivery_status: Option<DeliveryStatus>,
    pub from_timestamp: Option<u64>,
    pub to_timestamp: Option<u64>,
    pub content_search: Option<String>,
}

impl Default for MessageFilter {
    fn default() -> (res: Self)
        ensures
            res.chat_id is None,
            res.sender is None,
            res.message_type is None,
            res.delivery_status is None,
            res.from_timestamp is None,
            res.to_timestamp is None,
            res.content_search is None,
    {
        MessageFilter {
            chat_id: None,
            sender: None,
            message_type: None,
            delivery_status: None,
            from_timestamp: None,
            to_timestamp: None,
            content_search: None,
        }
    }
}

/// A page of messages.
#[derive(Debug, Clone)]
pub struct MessageBatch {
    pub messages: Vec<ChatMessage>,
    pub total_count: u64,
    pub has_more: bool,
    pub next_cursor: Option<String>,
}

/// The messages of one chat that a search kept.
#[derive(Debug, Clone)]
pub struct ChatSearchResult {
    pub chat_id: String,
    pub messages: Vec<ChatMessage>,
    pub total_matches: usize,
}

/// The formats a chat can be exported in.
#[derive(Debug, Clone, Copy, PartialEq, Eq, Structural)]
pub enum ExportFormat {
    Json,
    Csv,
    Txt,
    Html,
}

impl ExportFormat {
    /// The name of the format as the storage knows it.
    pub fn extension(&self) -> (res: &'static str)
        ensures
            res@ == match self {
                ExportFormat::Json => "json"@,
                ExportFormat::Csv => "csv"@,
                ExportFormat::Txt => "txt"@,
                ExportFormat::Html => "html"@,
            },
    {
        match self {
            ExportFormat::Json => "json",
            ExportFormat::Csv => "csv",
            ExportFormat::Txt => "txt",
            ExportFormat::Html => "html",
        }
    }
}

/// Whether `m` passes every condition of `f` but its chat: the sender, the type, the delivery
/// status, the time window (both ends included) and a text that the content holds, letter
/// case aside.
pub open spec fn passes(f: MessageFilter, m: ChatMessage) -> bool {
    &&& (f.sender matches Some(s) ==> m.from@ == s@)
    &&& (f.message_type matches Some(t) ==> m.msg_type == t)
    &&& (f.delivery_status matches Some(d) ==> m.delivery_status == d)
    &&& (f.from_timestamp matches Some(t) ==> m.timestamp >= t)
    &&& (f.to_timestamp matches Some(t) ==> m.timestamp <= t)
    &&& (f.content_search matches Some(q) ==> contains_seq(lowercase(m.content@), lowercase(q@)))
}

/// The predicate of the messages that pass `f`.
pub open spec fn filter_pred(f: MessageFilter) -> spec_fn(ChatMessage) -> bool {
    |m: ChatMessage| passes(f, m)
}

/// A filter on sender `s` keeps exactly the messages that `s` sent among those its other
/// conditions keep: a message from anyone else never passes, whoever it was sent to, and every
/// message a search with this filter keeps is from `s`.
pub proof fn lemma_sender_filter(ms: Seq<ChatMessage>, f: MessageFilter, s: String)
    requires
        f.sender == Some(s),
    ensures
        forall|m: ChatMessage| #[trigger] passes(f, m) <==> (m.from@ == s@ && passes(MessageFilter { sender: None, ..f }, m)),
        forall|i: int| 0 <= i < ms.filter(filter_pred(f)).len() ==> (#[trigger] ms.filter(filter_pred(f))[i]).from@ == s@,
{
    broadcast use vstd::seq_lib::group_filter_ensures;
    assert forall|i: int| 0 <= i < ms.filter(filter_pred(f)).len() implies (#[trigger] ms.filter(filter_pred(f))[i]).from@ == s@ by {
        let m = ms.filter(filter_pred(f))[i];
        assert(ms.filter(filter_pred(f)).contains(m));
        assert(filter_pred(f)(m));
    }
}

/// Each condition of a filter acts on its own field alone: setting it keeps, of the messages
/// the rest of the filter keeps, exactly those whose type, delivery status, time or content
/// meet it; a filter with no condition keeps every message.
pub proof fn lemma_filter_conditions(f: MessageFilter, m: ChatMessage)
    ensures
        f.message_type matches Some(t) ==> (passes(f, m) <==> (m.msg_type == t && passes(
            MessageFilter { message_type: None, ..f },
            m,
        ))),
        f.delivery_status matches Some(d) ==> (passes(f, m) <==> (m.delivery_status == d && passes(
            MessageFilter { delivery_status: None, ..f },
            m,
        ))),
        f.from_timestamp matches Some(t) ==> (passes(f, m) <==> (m.timestamp >= t && passes(
            MessageFilter { from_timestamp: None, ..f },
            m,
        ))),
        f.to_timestamp matches Some(t) ==> (passes(f, m) <==> (m.timestamp <= t && passes(
            MessageFilter { to_timestamp: None, ..f },
            m,
        ))),
        f.content_search matches Some(q) ==> (passes(f, m) <==> (contains_seq(lowercase(m.content@), lowercase(q@))
            && passes(MessageFilter { content_search: None, ..f }, m))),
        (f.sender is None && f.message_type is None && f.delivery_status is None && f.from_timestamp is None
            && f.to_timestamp is None && f.content_search is None) ==> passes(f, m),
{
}

/// Whether `m` passes `f`.
pub fn message_passes(f: &MessageFilter, m: &ChatMessage) -> (res: bool)
    ensures
        res == passes(*f, *m),
{
    if let Some(sender) = &f.sender {
        if m.from != *sender {
            return false;
        }
    }
    if let Some(t) = &f.message_type {
        if m.msg_type != *t {
            return false;
        }
    }
    if let Some(d) = &f.delivery_status {
        if m.delivery_status != *d {
            return false;
        }
    }
    if let Some(t) = f.from_timestamp {
        if m.timestamp < t {
            return false;
        }
    }
    if let Some(t) = f.to_timestamp {
        if m.timestamp > t {
            return false;
        }
    }
    if let Some(q) = &f.content_search {
        if !lowercase_contains(m.content.as_str(), q.as_str()) {
            return false;
        }
    }
    true
}

/// The messages of `messages` that pass `filter`, in their order.
pub fn apply_filter(messages: &[ChatMessage], filter: &MessageFilter) -> (res: Vec<ChatMessage>)
    ensures
        res@ == messages@.filter(filter_pred(*filter)),
{
    let mut kept: Vec<ChatMessage> = Vec::new();
    let mut i: usize = 0;
    while i < messages.len()
        invariant
            i <= messages@.len(),
            kept@ == messages@.subrange(0, i as int).filter(filter_pred(*filter)),
        decreases messages@.len() - i,
    {
        let m = &messages[i];
        let ghost pre = messages@.subrange(0, i as int);
        let ghost next = messages@.subrange(0, i + 1);
        assert(next.drop_last() =~= pre);
        assert(next.filter(filter_pred(*filter)) == (if passes(*filter, *m) {
            pre.filter(filter_pred(*filter)).push(*m)
        } else {
            pre.filter(filter_pred(*filter))
        })) by {
            reveal(Seq::filter);
        }
        if message_passes(filter, m) {
            kept.push(m.duplicate());
        }
        i = i + 1;
    }
    assert(messages@.subrange(0, messages@.len() as int) =~= messages@);
    kept
}

/// The result of searching the messages of chat `chat_id` with `filter`: none where no message
/// passes.
pub fn search_chat(chat_id: &str, messages: &[ChatMessage], filter: &MessageFilter) -> (res: Option<ChatSearchResult>)
    ensures
        messages@.filter(filter_pred(*filter)).len() == 0 <==> res is None,
        res matches Some(r) ==> r.chat_id@ == chat_id@ && r.messages@ == messages@.filter(
            filter_pred(*filter),
        ) && r.total_matches == r.messages@.len(),
{
    let kept = apply_filter(messages, filter);
    if kept.len() == 0 {
        None
    } else {
        let n = kept.len();
        Some(ChatSearchResult { chat_id: chat_id.to_owned(), messages: kept, total_matches: n })
    }
}

/// A filter that sets no condition keeps every message, in order.
pub proof fn lemma_open_filter_keeps_all(ms: Seq<ChatMessage>, f: MessageFilter)
    requires
        f.sender is None,
        f.message_type is None,
        f.delivery_status is None,
        f.from_timestamp is None,
        f.to_timestamp is None,
        f.content_search is None,
    ensures
        ms.filter(filter_pred(f)) == ms,
    decreases ms.len(),
{
    reveal(Seq::filter);
    if ms.len() > 0 {
        lemma_open_filter_keeps_all(ms.drop_last(), f);
        assert(ms.drop_last().push(ms.last()) =~= ms);
    }
}

/// Whether the chat `id` is searched under `f`: the chat `f` names, or every chat where it
/// names none.
pub open spec fn searched(f: MessageFilter, id: Seq<char>) -> bool {
    match f.chat_id {
        Some(c) => c@ == id,
        None => true,
    }
}

/// What a search of the chats `store` with `f` finds: for each chat searched, in order, its
/// id and the messages that pass, where any do.
pub open spec fn search_hits(store: Seq<(String, Vec<ChatMessage>)>, f: MessageFilter) -> Seq<(Seq<char>, Seq<ChatMessage>)>
    decreases store.len(),
{
    if store.len() == 0 {
        Seq::empty()
    } else {
        let before = search_hits(store.drop_last(), f);
        let e = store.last();
        let kept = e.1@.filter(filter_pred(f));
        if searched(f, e.0@) && kept.len() > 0 {
            before.push((e.0@, kept))
        } else {
            before
        }
    }
}

/// The messages of the hits `h`, chat after chat.
pub open spec fn hit_messages(h: Seq<(Seq<char>, Seq<ChatMessage>)>) -> Seq<ChatMessage>
    decreases h.len(),
{
    if h.len() == 0 {
        Seq::empty()
    } else {
        hit_messages(h.drop_last()) + h.last().1
    }
}

/// A search result as plain values: the chat and the messages found.
pub open spec fn hit_view(r: ChatSearchResult) -> (Seq<char>, Seq<ChatMessage>) {
    (r.chat_id@, r.messages@)
}

/// Searches the chats `store`, each an id with its messages, with `filter`: the chat the
/// filter names, or every chat; one result for each chat searched that has a message passing.
pub fn search_messages(store: &Vec<(String, Vec<ChatMessage>)>, filter: &MessageFilter) -> (res: Vec<ChatSearchResult>)
    ensures
        res@.map_values(|r: ChatSearchResult| hit_view(r)) == search_hits(store@, *filter),
        forall|i: int| 0 <= i < res@.len() ==> (#[trigger] res@[i]).total_matches == res@[i].messages@.len(),
{
    let mut res: Vec<ChatSearchResult> = Vec::new();
    let mut i: usize = 0;
    while i < store.len()
        invariant
            i <= store@.len(),
            res@.map_values(|r: ChatSearchResult| hit_view(r)) == search_hits(store@.subrange(0, i as int), *filter),
            forall|j: int| 0 <= j < res@.len() ==> (#[trigger] res@[j]).total_matches == res@[j].messages@.len(),
        decreases store@.len() - i,
    {
        let ghost next = store@.subrange(0, i + 1);
        assert(next.drop_last() =~= store@.subrange(0, i as int));
        let entry = &store[i];
        let wanted = match &filter.chat_id {
            Some(c) => *c == entry.0,
            None => true,
        };
        let ghost before = res@;
        if wanted {
            match search_chat(entry.0.as_str(), entry.1.as_slice(), filter) {
                Some(r) => {
                    res.push(r);
                    assert(res@.map_values(|r: ChatSearchResult| hit_view(r)) =~= before.map_values(
                        |r: ChatSearchResult| hit_view(r),
                    ).push(hit_view(res@[res@.len() - 1])));
                },
                None => {},
            }
        }
        i = i + 1;
    }
    assert(store@.subrange(0, store@.len() as int) =~= store@);
    res
}

/// The messages of all of `results`, chat after chat.
fn messages_of_results(results: Vec<ChatSearchResult>) -> (res: Vec<ChatMessage>)
    ensures
        res@ == hit_messages(results@.map_values(|r: ChatSearchResult| hit_view(r))),
{
    let ghost h = results@.map_values(|r: ChatSearchResult| hit_view(r));
    let mut res: Vec<ChatMessage> = Vec::new();
    let mut i: usize = 0;
    while i < results.len()
        invariant
            i <= results@.len(),
            h == results@.map_values(|r: ChatSearchResult| hit_view(r)),
            res@ == hit_messages(h.subrange(0, i as int)),
        decreases results@.len() - i,
    {
        let ghost next = h.subrange(0, i + 1);
        assert(next.drop_last() =~= h.subrange(0, i as int));
        let ms = &results[i].messages;
        let mut j: usize = 0;
        let ghost start = res@;
        while j < ms.len()
            invariant
                j <= ms@.len(),
                res@ == start + ms@.subrange(0, j as int),
            decreases ms@.len() - j,
        {
            res.push(ms[j].duplicate());
            j = j + 1;
            assert(res@ =~= start + ms@.subrange(0, j as int));
        }
        assert(ms@.subrange(0, ms@.len() as int) =~= ms@);
        i = i + 1;
    }
    assert(h.subrange(0, h.len() as int) =~= h);
    res
}

/// The filter that looks for `content` in the chat `chat_id`, or in every chat.
pub open spec fn content_filter(chat_id: Option<String>, content: String) -> MessageFilter {
    MessageFilter {
        chat_id,
        sender: None,
        message_type: None,
        delivery_status: None,
        from_timestamp: None,
        to_timestamp: None,
        content_search: Some(content),
    }
}

/// The filter that looks for undelivered messages in the chat `chat_id`, or in every chat.
pub open spec fn failed_filter(chat_id: Option<String>) -> MessageFilter {
    MessageFilter {
        chat_id,
        sender: None,
        message_type: None,
        delivery_status: Some(DeliveryStatus::Failed),
        from_timestamp: None,
        to_timestamp: None,
        content_search: None,
    }
}

/// The messages of the chats `store` whose content holds `content`, letter case aside: in the
/// chat `chat_id`, or in every chat, chat after chat.
pub fn search_messages_by_content(store: &Vec<(String, Vec<ChatMessage>)>, chat_id: Option<String>, content: String) -> (res: Vec<ChatMessage>)
    ensures
        res@ == hit_messages(search_hits(store@, content_filter(chat_id, content))),
{
    let filter = MessageFilter { content_search: Some(content), chat_id, ..Default::default() };
    messages_of_results(search_messages(store, &filter))
}

/// The messages of the chats `store` that failed to be delivered: in the chat `chat_id`, or in
/// every chat, chat after chat.
pub fn get_failed_messages(store: &Vec<(String, Vec<ChatMessage>)>, chat_id: Option<String>) -> (res: Vec<ChatMessage>)
    ensures
        res@ == hit_messages(search_hits(store@, failed_filter(chat_id))),
{
    let filter = MessageFilter { delivery_status: Some(DeliveryStatus::Failed), chat_id, ..Default::default() };
    messages_of_results(search_messages(store, &filter))
}

/// The slice of `messages` from `offset` (none given: the start) of at most `limit` messages
/// (none given: all). The offset must not lie past the end.
pub fn page_of(messages: &[ChatMessage], limit: Option<usize>, offset: Option<usize>) -> (res: Vec<ChatMessage>)
    requires
        offset matches Some(o) ==> o <= messages@.len(),
        (match (offset, limit) {
            (Some(o), Some(l)) => o + l <= usize::MAX,
            (None, Some(l)) => true,
            (Some(o), None) => o + messages@.len() <= usize::MAX,
            (None, None) => true,
        }),
    ensures
        ({
            let o: int = match offset { Some(o) => o as int, None => 0 };
            let l: int = match limit { Some(l) => l as int, None => messages@.len() as int };
            let end: int = if o + l < messages@.len() { o + l } else { messages@.len() as int };
            res@ == messages@.subrange(o, end)
        }),
{
    let o: usize = match offset { Some(o) => o, None => 0 };
    let l: usize = match limit { Some(l) => l, None => messages.len() };
    let end: usize = if o + l < messages.len() { o + l } else { messages.len() };
    let mut res: Vec<ChatMessage> = Vec::new();
    let mut i: usize = o;
    while i < end
        invariant
            o <= i <= end,
            end <= messages@.len(),
            res@ == messages@.subrange(o as int, i as int),
        decreases end - i,
    {
        res.push(messages[i].duplicate());
        i = i + 1;
        assert(res@ =~= messages@.subrange(o as int, i as int));
    }
    res
}

/// The number of messages of `ms` that were delivered but not yet read.
pub open spec fn delivered_count(ms: Seq<ChatMessage>) -> nat {
    ms.filter(|m: ChatMessage| m.delivery_status == DeliveryStatus::Delivered).len()
}

/// The number of messages of `messages` that were delivered but not yet read.
pub fn count_delivered(messages: &[ChatMessage]) -> (res: usize)
    ensures
        res == delivered_count(messages@),
{
    let mut n: usize = 0;
    let mut i: usize = 0;
    while i < messages.len()
        invariant
            i <= messages@.len(),
            n == delivered_count(messages@.subrange(0, i as int)),
            n <= i,
        decreases messages@.len() - i,
    {
        let ghost pre = messages@.subrange(0, i as int);
        let ghost next = messages@.subrange(0, i + 1);
        assert(next.drop_last() =~= pre);
        assert(delivered_count(next) == delivered_count(pre) + if messages@[i as int].delivery_status
            == DeliveryStatus::Delivered {
            1nat
        } else {
            0nat
        }) by {
            reveal(Seq::filter);
        }
        if messages[i].delivery_status == DeliveryStatus::Delivered {
            n = n + 1;
        }
        i = i + 1;
    }
    assert(messages@.subrange(0, messages@.len() as int) =~= messages@);
    n
}

/// Whether `s` holds `x`.
pub open spec fn holds_name(s: Seq<String>, x: Seq<char>) -> bool {
    exists|i: int| 0 <= i < s.len() && #[trigger] s[i]@ == x
}

impl Chat {
    /// A chat named `name` with identifier `id`, made at `now` (milliseconds since the Unix
    /// epoch), with no participants and no messages.
    pub fn with_id(id: String, name: String, is_group: bool, now: i64) -> (res: Chat)
        ensures
            res.id == id,
            res.name == name,
            res.participants@.len() == 0,
            res.created_at == now,
            res.last_message_at is None,
            res.message_count == 0,
            res.is_group == is_group,
    {
        Chat {
            id,
            name,
            participants: Vec::new(),
            created_at: now,
            last_message_at: None,
            message_count: 0,
            is_group,
        }
    }

    /// A new chat named `name`, with a random identifier, made now.
    pub fn new(name: String, is_group: bool) -> (res: Chat)
        ensures
            res.id@.len() == 36,
            res.name == name,
            res.participants@.len() == 0,
            res.last_message_at is None,
            res.message_count == 0,
            res.is_group == is_group,
    {
        Chat::with_id(new_uuid_v4(), name, is_group, utc_now_millis())
    }

    /// Adds `participant` unless the chat has them already.
    pub fn add_participant(&mut self, participant: String)
        ensures
            holds_name(old(self).participants@, participant@) ==> *final(self) == *old(self),
            !holds_name(old(self).participants@, participant@) ==> final(self).participants@
                == old(self).participants@.push(participant),
            final(self).id == old(self).id,
            final(self).name == old(self).name,
            final(self).message_count == old(self).message_count,
            final(self).last_message_at == old(self).last_message_at,
    {
        let mut i: usize = 0;
        while i < self.participants.len()
            invariant
                i <= self.participants@.len(),
                forall|j: int| 0 <= j < i ==> self.participants@[j]@ != participant@,
            decreases self.participants@.len() - i,
        {
            if self.participants[i] == participant {
                return;
            }
            i = i + 1;
        }
        self.participants.push(participant);
    }

    /// Removes every occurrence of `participant`.
    pub fn remove_participant(&mut self, participant: &str)
        ensures
            final(self).participants@.map_values(|p: String| p@) == old(self).participants@.map_values(
                |p: String| p@,
            ).filter(crate::config::differs_from(participant@)),
            final(self).id == old(self).id,
            final(self).name == old(self).name,
            final(self).message_count == old(self).message_count,
            final(self).last_message_at == old(self).last_message_at,
    {
        let ghost before = self.participants@.map_values(|p: String| p@);
        let target = participant.to_owned();
        let mut kept: Vec<String> = Vec::new();
        let mut i: usize = 0;
        while i < self.participants.len()
            invariant
                i <= self.participants@.len(),
                target@ == participant@,
                before == self.participants@.map_values(|p: String| p@),
                kept@.map_values(|p: String| p@) == before.subrange(0, i as int).filter(
                    crate::config::differs_from(participant@),
                ),
            decreases self.participants@.len() - i,
        {
            let item = &self.participants[i];
            let ghost pre = before.subrange(0, i as int);
            let ghost next = before.subrange(0, i + 1);
            assert(next.drop_last() =~= pre);
            assert(next.last() == item@);
            assert(next.filter(crate::config::differs_from(participant@)) == (if item@ != participant@ {
                pre.filter(crate::config::differs_from(participant@)).push(item@)
            } else {
                pre.filter(crate::config::differs_from(participant@))
            })) by {
                reveal(Seq::filter);
            }
            if !(*item == target) {
                kept.push(item.clone());
                assert(kept@.map_values(|p: String| p@) =~= next.filter(
                    crate::config::differs_from(participant@),
                ));
            }
            i = i + 1;
        }
        assert(before.subrange(0, before.len() as int) =~= before);
        self.participants = kept;
    }

    /// Notes activity at `now` (milliseconds since the Unix epoch).
    pub fn update_last_activity_at(&mut self, now: i64)
        ensures
            *final(self) == (Chat { last_message_at: Some(now), ..*old(self) }),
    {
        self.last_message_at = Some(now);
    }

    /// Notes activity now.
    pub fn update_last_activity(&mut self)
        ensures
            final(self).last_message_at is Some,
            final(self).id == old(self).id,
            final(self).message_count == old(self).message_count,
            final(self).participants == old(self).participants,
    {
        self.update_last_activity_at(utc_now_millis());
    }

    /// Counts one more message, and notes activity now.
    pub fn increment_message_count(&mut self)
        requires
            old(self).message_count < u64::MAX,
        ensures
            final(self).message_count == old(self).message_count + 1,
            final(self).last_message_at is Some,
            final(self).id == old(self).id,
            final(self).participants == old(self).participants,
    {
        self.message_count = self.message_count + 1;
        self.update_last_activity();
    }

    /// What is known of the chat at a glance, given its messages.
    pub fn info(&self, messages: &[ChatMessage]) -> (res: ChatInfo)
        ensures
            res.chat_id == self.id,
            res.name == self.name,
            res.participant_count == self.participants@.len(),
            res.message_count == self.message_count,
            res.last_activity == self.last_message_at,
            res.unread_count == delivered_count(messages@),
    {
        let unread = count_delivered(messages);
        ChatInfo {
            chat_id: self.id.clone(),
            name: self.name.clone(),
            participant_count: self.participants.len(),
            message_count: self.message_count,
            last_activity: self.last_message_at,
            unread_count: unread as u64,
        }
    }
}

/// The sum of the message counts of `chats`.
pub open spec fn total_messages(chats: Seq<Chat>) -> int
    decreases chats.len(),
{
    if chats.len() == 0 {
        0
    } else {
        total_messages(chats.drop_last()) + chats.last().message_count
    }
}

/// No two of `chats` share an identifier.
pub open spec fn unique_chat_ids(chats: Seq<Chat>) -> bool {
    forall|i: int, j: int| 0 <= i < j < chats.len() ==> chats[i].id@ != chats[j].id@
}

/// Whether a chat with identifier `id` is among `chats`.
pub open spec fn has_chat(chats: Seq<Chat>, id: Seq<char>) -> bool {
    exists|i: int| 0 <= i < chats.len() && #[trigger] chats[i].id@ == id
}

/// The chats of this installation.
pub struct Manager {
    chats: Vec<Chat>,
}

impl Manager {
    /// The chats.
    pub closed spec fn spec_chats(&self) -> Seq<Chat> {
        self.chats@
    }

    /// Chats are known by distinct identifiers.
    pub open spec fn wf(&self) -> bool {
        unique_chat_ids(self.spec_chats())
    }

    /// No chats yet.
    pub fn new() -> (res: Manager)
        ensures
            res.wf(),
            res.spec_chats().len() == 0,
    {
        Manager { chats: Vec::new() }
    }

    fn find(&self, chat_id: &str) -> (res: Option<usize>)
        ensures
            res matches Some(i) ==> i < self.spec_chats().len() && self.spec_chats()[i as int].id@
                == chat_id@,
            res is None ==> !has_chat(self.spec_chats(), chat_id@),
    {
        let target = chat_id.to_owned();
        let mut i: usize = 0;
        while i < self.chats.len()
            invariant
                i <= self.chats@.len(),
                target@ == chat_id@,
                forall|j: int| 0 <= j < i ==> self.chats@[j].id@ != chat_id@,
            decreases self.chats@.len() - i,
        {
            if self.chats[i].id == target {
                return Some(i);
            }
            i = i + 1;
        }
        None
    }

    /// Files `chat`, in place of any chat with its identifier.
    pub fn insert_chat(&mut self, chat: Chat)
        requires
            old(self).wf(),
        ensures
            final(self).wf(),
            has_chat(final(self).spec_chats(), chat.id@),
            forall|i: int| 0 <= i < final(self).spec_chats().len() && final(self).spec_chats()[i].id@
                == chat.id@ ==> final(self).spec_chats()[i] == chat,
            forall|id: Seq<char>| id != chat.id@ ==> (has_chat(final(self).spec_chats(), id)
                == has_chat(old(self).spec_chats(), id)),
    {
        let ghost before = self.chats@;
        match self.find(chat.id.as_str()) {
            Some(i) => {
                self.chats.set(i, chat);
                proof {
                    assert forall|x: Seq<char>| x != chat.id@ implies has_chat(self.chats@, x)
                        == has_chat(before, x) by {
                        if has_chat(before, x) {
                            let k = choose|k: int| 0 <= k < before.len() && #[trigger] before[k].id@ == x;
                            assert(self.chats@[k].id@ == x);
                        }
                        if has_chat(self.chats@, x) {
                            let k = choose|k: int| 0 <= k < self.chats@.len() && #[trigger] self.chats@[k].id@ == x;
                            assert(before[k].id@ == x);
                        }
                    }
                    assert(self.chats@[i as int].id@ == chat.id@);
                }
            },
            None => {
                self.chats.push(chat);
                proof {
                    assert(self.chats@[before.len() as int].id@ == chat.id@);
                    assert forall|x: Seq<char>| x != chat.id@ implies has_chat(self.chats@, x)
                        == has_chat(before, x) by {
                        if has_chat(before, x) {
                            let k = choose|k: int| 0 <= k < before.len() && #[trigger] before[k].id@ == x;
                            assert(self.chats@[k].id@ == x);
                        }
                        if has_chat(self.chats@, x) {
                            let k = choose|k: int| 0 <= k < self.chats@.len() && #[trigger] self.chats@[k].id@ == x;
                            assert(before[k].id@ == x);
                        }
                    }
                }
            },
        }
    }

    /// Opens a chat named `name` with a random identifier and files it.
    pub fn create_chat(&mut self, name: String, is_group: bool) -> (res: Result<Chat, ChatError>)
        requires
            old(self).wf(),
        ensures
            final(self).wf(),
            res matches Ok(c) && c.name == name && c.is_group == is_group && c.message_count == 0
                && c.participants@.len() == 0 && c.id@.len() == 36 && has_chat(final(self).spec_chats(), c.id@),
            forall|id: Seq<char>| has_chat(old(self).spec_chats(), id) ==> has_chat(final(self).spec_chats(), id),
    {
        let chat = Chat::new(name, is_group);
        let copy = chat.duplicate();
        self.insert_chat(chat);
        Ok(copy)
    }

    /// The chat with identifier `chat_id`.
    pub fn get_chat(&self, chat_id: &str) -> (res: Result<Chat, ChatError>)
        ensures
            has_chat(self.spec_chats(), chat_id@) <==> res is Ok,
            res matches Ok(c) ==> c.id@ == chat_id@ && exists|i: int| 0 <= i < self.spec_chats().len()
                && same_chat(c, #[trigger] self.spec_chats()[i]),
            res matches Err(e) ==> e matches ChatError::ChatNotFound(m) && m@ == chat_id@,
    {
        match self.find(chat_id) {
            Some(i) => {
                let c = self.chats[i].duplicate();
                assert(same_chat(c, self.chats@[i as int]));
                Ok(c)
            },
            None => Err(ChatError::ChatNotFound(chat_id.to_owned())),
        }
    }

    /// Every chat.
    pub fn get_all_chats(&self) -> (res: Vec<Chat>)
        ensures
            res@.len() == self.spec_chats().len(),
            forall|i: int| 0 <= i < res@.len() ==> same_chat(#[trigger] res@[i], self.spec_chats()[i]),
    {
        let mut res: Vec<Chat> = Vec::new();
        let mut i: usize = 0;
        while i < self.chats.len()
            invariant
                i <= self.chats@.len(),
                res@.len() == i,
                forall|j: int| 0 <= j < i ==> same_chat(#[trigger] res@[j], self.chats@[j]),
            decreases self.chats@.len() - i,
        {
            res.push(self.chats[i].duplicate());
            i = i + 1;
        }
        res
    }

    /// Closes the chat with identifier `chat_id`; an error where there is none.
    pub fn delete_chat(&mut self, chat_id: &str) -> (res: Result<(), ChatError>)
        requires
            old(self).wf(),
        ensures
            final(self).wf(),
            has_chat(old(self).spec_chats(), chat_id@) <==> res is Ok,
            res matches Err(e) ==> e matches ChatError::ChatNotFound(m) && m@ == chat_id@
                && final(self).spec_chats() == old(self).spec_chats(),
            !has_chat(final(self).spec_chats(), chat_id@),
            forall|id: Seq<char>| id != chat_id@ ==> (has_chat(final(self).spec_chats(), id)
                == has_chat(old(self).spec_chats(), id)),
    {
        let ghost before = self.chats@;
        match self.find(chat_id) {
            Some(i) => {
                self.chats.remove(i);
                let ghost after = self.chats@;
                proof {
                    assert(after =~= before.remove(i as int));
                    assert forall|x: Seq<char>| x != chat_id@ implies has_chat(after, x) == has_chat(
                        before,
                        x,
                    ) by {
                        if has_chat(before, x) {
                            let k = choose|k: int| 0 <= k < before.len() && #[trigger] before[k].id@ == x;
                            if k < i {
                                assert(after[k].id@ == x);
                            } else {
                                assert(after[k - 1].id@ == x);
                            }
                        }
                        if has_chat(after, x) {
                            let k = choose|k: int| 0 <= k < after.len() && #[trigger] after[k].id@ == x;
                            if k < i {
                                assert(before[k].id@ == x);
                            } else {
                                assert(before[k + 1].id@ == x);
                            }
                        }
                    }
                    if has_chat(after, chat_id@) {
                        let k = choose|k: int| 0 <= k < after.len() && #[trigger] after[k].id@ == chat_id@;
                        if k < i {
                            assert(before[k].id@ == before[i as int].id@);
                        } else {
                            assert(before[k + 1].id@ == before[i as int].id@);
                        }
                    }
                }
                Ok(())
            },
            None => Err(ChatError::ChatNotFound(chat_id.to_owned())),
        }
    }

    /// Counts a message sent in the chat `chat_id`; an error where there is no such chat.
    pub fn note_message(&mut self, chat_id: &str) -> (res: Result<(), ChatError>)
        requires
            old(self).wf(),
            forall|i: int| 0 <= i < old(self).spec_chats().len() ==> #[trigger] old(self).spec_chats()[i].message_count < u64::MAX,
        ensures
            final(self).wf(),
            has_chat(old(self).spec_chats(), chat_id@) <==> res is Ok,
            res matches Err(e) ==> e matches ChatError::ChatNotFound(m) && m@ == chat_id@,
            final(self).spec_chats().len() == old(self).spec_chats().len(),
            forall|i: int| 0 <= i < old(self).spec_chats().len() ==> #[trigger] final(self).spec_chats()[i].id
                == old(self).spec_chats()[i].id,
            forall|i: int| 0 <= i < old(self).spec_chats().len() ==> #[trigger] final(self).spec_chats()[i].message_count
                == old(self).spec_chats()[i].message_count + if old(self).spec_chats()[i].id@ == chat_id@ {
                1int
            } else {
                0int
            },
    {
        match self.find(chat_id) {
            Some(i) => {
                let mut chat = self.chats.remove(i);
                chat.increment_message_count();
                self.chats.insert(i, chat);
                proof {
                    assert forall|k: int| 0 <= k < old(self).spec_chats().len() && k != i implies
                        old(self).spec_chats()[k].id@ != chat_id@ by {}
                }
                Ok(())
            },
            None => {
                Err(ChatError::ChatNotFound(chat_id.to_owned()))
            },
        }
    }

    /// The number of chats, the sum of their message counts, and a chat with the most
    /// messages, if there is a chat. The sum must fit in 64 bits.
    pub fn summary(&self) -> (res: (usize, u64, Option<String>))
        requires
            total_messages(self.spec_chats()) <= u64::MAX,
        ensures
            res.0 == self.spec_chats().len(),
            res.1 == total_messages(self.spec_chats()),
            res.2 is None <==> self.spec_chats().len() == 0,
            res.2 matches Some(id) ==> exists|i: int| 0 <= i < self.spec_chats().len()
                && #[trigger] self.spec_chats()[i].id == id && forall|j: int| 0 <= j
                < self.spec_chats().len() ==> self.spec_chats()[j].message_count
                <= self.spec_chats()[i].message_count,
    {
        let mut total: u64 = 0;
        let mut best: Option<usize> = None;
        let mut i: usize = 0;
        while i < self.chats.len()
            invariant
                i <= self.chats@.len(),
                total_messages(self.chats@) <= u64::MAX,
                total == total_messages(self.chats@.subrange(0, i as int)),
                best is None <==> i == 0,
                best matches Some(b) ==> b < i && forall|j: int| 0 <= j < i ==> self.chats@[j].message_count
                    <= self.chats@[b as int].message_count,
            decreases self.chats@.len() - i,
        {
            proof {
                lemma_total_prefix(self.chats@, i + 1);
                assert(self.chats@.subrange(0, i + 1).drop_last() =~= self.chats@.subrange(0, i as int));
            }
            total = total + self.chats[i].message_count;
            best = match best {
                Some(b) => if self.chats[i].message_count >= self.chats[b].message_count { Some(i) } else { Some(b) },
                None => Some(i),
            };
            i = i + 1;
        }
        assert(self.chats@.subrange(0, self.chats@.len() as int) =~= self.chats@);
        let most = match best {
            Some(b) => Some(self.chats[b].id.clone()),
            None => None,
        };
        (self.chats.len(), total, most)
    }
}

/// The sum over a prefix is at most the sum over the whole.
proof fn lemma_total_prefix(chats: Seq<Chat>, k: int)
    requires
        0 <= k <= chats.len(),
    ensures
        total_messages(chats.subrange(0, k)) <= total_messages(chats),
    decreases chats.len(),
{
    if k == chats.len() {
        assert(chats.subrange(0, k) =~= chats);
    } else {
        lemma_total_prefix(chats.drop_last(), k);
        assert(chats.drop_last().subrange(0, k) =~= chats.subrange(0, k));
    }
}

/// That `a` and `b` hold the same values.
pub open spec fn same_chat(a: Chat, b: Chat) -> bool {
    &&& a.id == b.id
    &&& a.name == b.name
    &&& a.participants@ == b.participants@
    &&& a.created_at == b.created_at
    &&& a.last_message_at == b.last_message_at
    &&& a.message_count == b.message_count
    &&& a.is_group == b.is_group
}

/// A copy of the names `v`.
pub fn duplicate_names(v: &Vec<String>) -> (res: Vec<String>)
    ensures
        res@ == v@,
{
    let mut res: Vec<String> = Vec::new();
    let mut i: usize = 0;
    while i < v.len()
        invariant
            i <= v@.len(),
            res@ == v@.subrange(0, i as int),
        decreases v@.len() - i,
    {
        res.push(v[i].clone());
        i = i + 1;
        assert(res@ =~= v@.subrange(0, i as int));
    }
    assert(v@.subrange(0, v@.len() as int) =~= v@);
    res
}

impl Chat {
    /// A copy of the chat.
    pub fn duplicate(&self) -> (res: Chat)
        ensures
            same_chat(res, *self),
    {
        Chat {
            id: self.id.clone(),
            name: self.name.clone(),
            participants: duplicate_names(&self.participants),
            created_at: self.created_at,
            last_message_at: self.last_message_at,
            message_count: self.message_count,
            is_group: self.is_group,
        }
    }
}

} // verus!
