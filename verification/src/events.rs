//! The events the parts of the messenger announce, and the notices the command line gives
//! of them.
use vstd::prelude::*;
use crate::network::{ChatMessage, Contact};

verus! {

/// An event of the core, as its own bus carries it.
#[derive(Debug, Clone)]
pub enum Event {
    MessageReceived { from: String, content: String },
    ContactAdded { contact_id: String },
    NetworkStateChanged { online: bool },
}

/// An event of the network layer.
#[derive(Debug, Clone)]
pub enum NetworkEvent {
    ServerStarted { port: u16 },
    ServerStopped,
    MessageReceived { message: ChatMessage },
    ContactAdded { contact: Contact },
    Error { error: String, context: Option<String> },
    Debug { message: String },
}

/// An event of the storage.
#[derive(Debug, Clone)]
pub enum StorageEvent {
    ContactsSaved { count: usize },
    ContactsLoaded { count: usize },
    ChatHistorySaved { chat_id: String, message_count: usize },
    ChatHistoryLoaded { chat_id: String, message_count: usize },
    CleanupCompleted { removed_items: usize },
    BackupCreated { file_path: String },
    Error { error: String, operation: String },
}

/// An event of the cryptographic layer.
#[derive(Debug, Clone)]
pub enum CryptoEvent {
    KeyPairGenerated,
    Error { error: String, operation: String },
}

/// Any event of the application.
#[derive(Debug, Clone)]
pub enum AppEvent {
    Network(NetworkEvent),
    Storage(StorageEvent),
    Crypto(CryptoEvent),
    Custom { event_type: String, data: String, timestamp: u64 },
}

/// The notice the command line gives of `e`, if any: a message received, a contact added,
/// or a network error (with its context where there is one).
pub open spec fn spec_notice(e: AppEvent) -> Option<Seq<char>> {
    match e {
        AppEvent::Network(NetworkEvent::MessageReceived { message }) => Some(
            "\n💬 Новое сообщение от "@ + message.from@ + ": "@ + message.content@,
        ),
        AppEvent::Network(NetworkEvent::ContactAdded { contact }) => Some(
            "\n👥 Добавлен новый контакт: "@ + contact.name@,
        ),
        AppEvent::Network(NetworkEvent::Error { error, context }) => match context {
            Some(c) => Some("\n❌ Ошибка ["@ + c@ + "]: "@ + error@),
            None => Some("\n❌ Ошибка: "@ + error@),
        },
        _ => None,
    }
}

/// The notice the command line gives of `e`, if any.
pub fn notice(e: &AppEvent) -> (res: Option<String>)
    ensures
        match spec_notice(*e) {
            Some(t) => res matches Some(s) && s@ == t,
            None => res is None,
        },
{
    match e {
        AppEvent::Network(NetworkEvent::MessageReceived { message }) => {
            let mut s = "\n💬 Новое сообщение от ".to_string();
            s.append(message.from.as_str());
            s.append(": ");
            s.append(message.content.as_str());
            Some(s)
        },
        AppEvent::Network(NetworkEvent::ContactAdded { contact }) => {
            let mut s = "\n👥 Добавлен новый контакт: ".to_string();
            s.append(contact.name.as_str());
            Some(s)
        },
        AppEvent::Network(NetworkEvent::Error { error, context }) => match context {
            Some(c) => {
                let mut s = "\n❌ Ошибка [".to_string();
                s.append(c.as_str());
                s.append("]: ");
                s.append(error.as_str());
                Some(s)
            },
            None => {
                let mut s = "\n❌ Ошибка: ".to_string();
                s.append(error.as_str());
                Some(s)
            },
        },
        _ => None,
    }
}

/// The most events a queue keeps; past it, the oldest leave first.
pub const EVENT_QUEUE_LIMIT: usize = 1000;

/// The newest `EVENT_QUEUE_LIMIT` of `s` at most, in order.
pub open spec fn newest_window(s: Seq<AppEvent>) -> Seq<AppEvent> {
    if s.len() <= EVENT_QUEUE_LIMIT {
        s
    } else {
        s.subrange(s.len() - EVENT_QUEUE_LIMIT, s.len() as int)
    }
}

/// The events waiting to be collected, oldest first, at most `EVENT_QUEUE_LIMIT` of them.
pub struct EventQueue {
    events: Vec<AppEvent>,
}

impl EventQueue {
    /// The waiting events, oldest first.
    pub closed spec fn spec_events(&self) -> Seq<AppEvent> {
        self.events@
    }

    /// The queue holds no more than its limit.
    #[verifier::type_invariant]
    closed spec fn within_limit(&self) -> bool {
        self.events@.len() <= EVENT_QUEUE_LIMIT
    }

    /// An empty queue.
    pub fn new() -> (res: EventQueue)
        ensures
            res.spec_events() == Seq::<AppEvent>::empty(),
    {
        EventQueue { events: Vec::new() }
    }

    /// Appends `event`; where that passes the limit, the oldest event leaves.
    pub fn push(&mut self, event: AppEvent)
        ensures
            final(self).spec_events() == newest_window(old(self).spec_events().push(event)),
    {
        proof {
            use_type_invariant(&*self);
        }
        let mut events: Vec<AppEvent> = Vec::new();
        std::mem::swap(&mut events, &mut self.events);
        events.push(event);
        if events.len() > EVENT_QUEUE_LIMIT {
            events.remove(0);
        }
        self.events = events;
    }

    /// Hands out every waiting event, oldest first, and empties the queue.
    pub fn get_pending_events(&mut self) -> (res: Vec<AppEvent>)
        ensures
            res@ == old(self).spec_events(),
            final(self).spec_events() == Seq::<AppEvent>::empty(),
    {
        let mut events: Vec<AppEvent> = Vec::new();
        std::mem::swap(&mut events, &mut self.events);
        events
    }

    /// Whether events are waiting.
    pub fn has_pending_events(&self) -> (res: bool)
        ensures
            res == (self.spec_events().len() > 0),
    {
        self.events.len() > 0
    }

    /// Drops every waiting event; the confirmation text.
    pub fn clear_event_queue(&mut self) -> (res: String)
        ensures
            final(self).spec_events() == Seq::<AppEvent>::empty(),
            res@ == "Event queue cleared"@,
    {
        self.events = Vec::new();
        "Event queue cleared".to_string()
    }

    /// How many events are waiting.
    pub fn get_event_queue_size(&self) -> (res: u32)
        ensures
            res == self.spec_events().len(),
    {
        proof {
            use_type_invariant(self);
        }
        self.events.len() as u32
    }
}

/// Pushing one event after another keeps the newest `EVENT_QUEUE_LIMIT` of all the events the
/// queue ever held, in order.
pub proof fn lemma_window_push(s: Seq<AppEvent>, e: AppEvent)
    ensures
        newest_window(newest_window(s).push(e)) == newest_window(s.push(e)),
{
    let w = newest_window(s);
    if s.len() > EVENT_QUEUE_LIMIT {
        assert(newest_window(w.push(e)) =~= newest_window(s.push(e)));
    } else {
        assert(w == s);
    }
}

/// Announcing an event of kind `event_type` carrying `data` at `timestamp` (seconds since the
/// Unix epoch): the event to announce and the reply; refused without a core.
pub fn emit_custom_event(initialized: bool, event_type: String, data: String, timestamp: u64) -> (res: Result<
    (AppEvent, String),
    String,
>)
    ensures
        !initialized ==> (res matches Err(e) && e@ == "Core not initialized"@),
        initialized ==> (res matches Ok((ev, reply)) && reply@ == "Custom event '"@ + event_type@ + "' emitted: "@
            + data@ && ev == (AppEvent::Custom { event_type, data, timestamp })),
{
    if !initialized {
        return Err("Core not initialized".to_string());
    }
    let mut reply = "Custom event '".to_string();
    reply.append(event_type.as_str());
    reply.append("' emitted: ");
    reply.append(data.as_str());
    Ok((AppEvent::Custom { event_type, data, timestamp }, reply))
}

/// Whether `e` announces a received message.
pub fn is_message_event(e: &AppEvent) -> (res: bool)
    ensures
        res == (*e matches AppEvent::Network(NetworkEvent::MessageReceived { .. })),
{
    match e {
        AppEvent::Network(NetworkEvent::MessageReceived { .. }) => true,
        _ => false,
    }
}

} // verus!
