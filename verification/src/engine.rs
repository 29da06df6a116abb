//! The messenger's core: its user, its contacts, its network layer, and unread counts.
use vstd::prelude::*;
use crate::clock::{unix_time_secs, utc_now_rfc3339};
use crate::contact_manager::ContactManager;
use crate::contacts::{BlockedContactInfo, ContactError, ContactStats, named_pred, not_found_text, online_pred, search_pred, trusted_pred};
use crate::entropy::new_uuid_v4;
use crate::keyed::{find_key, keys_unique, map_insert, pairs_map};
use crate::network::{ChatMessage, ChatMessageType, Contact, DeliveryStatus, NetworkError, NetworkManager, NetworkStats, PeerData, TrustLevel};
use crate::node::CoreError;

verus! {

/// The name the user goes by when none was given.
pub open spec fn default_user() -> Seq<char> {
    seq!['u', 's', 'e', 'r']
}

/// The network layer's error as one of the core.
pub fn network_error(e: &NetworkError) -> (res: CoreError)
    ensures
        res matches CoreError::Network(m) && m@ == match e {
            NetworkError::ConnectionFailed(d) => "Connection failed: "@ + d@,
            NetworkError::SendFailed(d) => "Send failed: "@ + d@,
            NetworkError::InvalidAddress(d) => "Invalid address: "@ + d@,
        },
{
    CoreError::Network(e.message())
}

/// The contact layer's error as one of the core.
pub fn contact_error(e: &ContactError) -> (res: CoreError)
    ensures
        res matches CoreError::Contact(m) && m@ == match e {
            ContactError::InvalidContact(d) => "Invalid contact: "@ + d@,
            ContactError::ContactNotFound(d) => "Contact not found: "@ + d@,
            ContactError::ContactExists(d) => "Contact exists: "@ + d@,
            ContactError::SerializationError(d) => "Serialization error: "@ + d@,
            ContactError::IoError(d) => "IO error: "@ + d@,
        },
{
    CoreError::Contact(e.message())
}

/// The JSON record that a link carries: the identifier `id`, the name `name`, the local
/// address, no key, and the time `now` as both when connected and when last seen.
pub open spec fn link_record(id: Seq<char>, name: Seq<char>, now: Seq<char>) -> Seq<char> {
    "{\"id\":\""@ + id + "\",\"name\":\""@ + name + "\",\"address\":\"127.0.0.1:8080\",\"public_key\":[],\"connected_at\":\""@
        + now + "\",\"last_seen\":\""@ + now + "\"}"@
}

/// The messenger's core.
pub struct ShadowGhostCore {
    network_manager: NetworkManager,
    contact_manager: ContactManager,
    is_initialized: bool,
    user_name: Option<String>,
    unread_cache: Vec<(String, u64)>,
    saved_messages: Vec<(String, Vec<ChatMessage>)>,
}

impl ShadowGhostCore {
    /// Whether the core was initialized.
    pub closed spec fn spec_initialized(&self) -> bool {
        self.is_initialized
    }

    /// The user's name, once initialized.
    pub closed spec fn spec_user(&self) -> Option<Seq<char>> {
        match self.user_name {
            Some(n) => Some(n@),
            None => None,
        }
    }

    /// Whether the network layer runs.
    pub closed spec fn spec_running(&self) -> bool {
        self.network_manager.spec_active()
    }

    /// The contacts.
    pub closed spec fn spec_contacts(&self) -> Map<Seq<char>, Contact> {
        self.contact_manager.spec_contacts()
    }

    /// The contacts in the order they are kept.
    pub closed spec fn spec_contact_values(&self) -> Seq<Contact> {
        self.contact_manager.spec_values()
    }

    /// The blocked records by contact identifier.
    pub closed spec fn spec_blocked(&self) -> Map<Seq<char>, BlockedContactInfo> {
        self.contact_manager.spec_blocked()
    }

    /// The counters of the network layer.
    pub closed spec fn spec_stats(&self) -> NetworkStats {
        self.network_manager.spec_stats()
    }

    /// The unread counts by contact name.
    pub closed spec fn spec_unread(&self) -> Map<Seq<char>, u64> {
        pairs_map(self.unread_cache@)
    }

    /// The messages of the chat with `name`.
    pub closed spec fn spec_chat(&self, name: Seq<char>) -> Seq<ChatMessage> {
        self.network_manager.spec_chat(name)
    }

    /// The messages kept for the chat with the contact named `name`, as sent.
    pub closed spec fn spec_saved(&self, name: Seq<char>) -> Seq<ChatMessage> {
        if pairs_map(self.saved_messages@).dom().contains(name) {
            pairs_map(self.saved_messages@)[name]@
        } else {
            Seq::empty()
        }
    }

    /// Keeps `m` as the newest message of the chat with `contact_name`.
    fn save_message(&mut self, contact_name: &str, m: ChatMessage)
        requires
            old(self).wf(),
        ensures
            final(self).wf(),
            final(self).spec_saved(contact_name@) == old(self).spec_saved(contact_name@).push(m),
            forall|name: Seq<char>| name != contact_name@ ==> #[trigger] final(self).spec_saved(name) == old(self).spec_saved(name),
            final(self).network_manager == old(self).network_manager,
            final(self).contact_manager == old(self).contact_manager,
            final(self).is_initialized == old(self).is_initialized,
            final(self).user_name == old(self).user_name,
            final(self).unread_cache == old(self).unread_cache,
    {
        let mut kept: Vec<ChatMessage> = match find_key(&self.saved_messages, contact_name) {
            Some(i) => {
                proof {
                    crate::keyed::lemma_pairs_map_at(self.saved_messages@, i as int);
                }
                crate::network::duplicate_messages(&self.saved_messages[i].1)
            },
            None => Vec::new(),
        };
        assert(kept@ == old(self).spec_saved(contact_name@));
        kept.push(m);
        map_insert(&mut self.saved_messages, contact_name.to_owned(), kept);
    }

    /// The messages kept for the chat with the contact named `contact_name`, oldest first.
    pub fn get_chat_messages(&self, contact_name: &str) -> (res: Result<Vec<ChatMessage>, CoreError>)
        requires
            self.wf(),
        ensures
            res matches Ok(v) && v@ == self.spec_saved(contact_name@),
    {
        match find_key(&self.saved_messages, contact_name) {
            Some(i) => {
                proof {
                    crate::keyed::lemma_pairs_map_at(self.saved_messages@, i as int);
                }
                Ok(crate::network::duplicate_messages(&self.saved_messages[i].1))
            },
            None => Ok(Vec::new()),
        }
    }

    /// Whether the counters of sent messages can count one more.
    pub closed spec fn spec_send_room(&self) -> bool {
        &&& self.network_manager.spec_stats().total_messages_sent < u64::MAX
        &&& self.network_manager.spec_stats().messages_sent < u64::MAX
    }

    /// Whether the counters of sent messages can count one more.
    pub fn has_send_room(&self) -> (res: bool)
        ensures
            res == self.spec_send_room(),
    {
        match self.network_manager.get_stats() {
            Ok(st) => st.total_messages_sent < u64::MAX && st.messages_sent < u64::MAX,
            Err(_) => false,
        }
    }

    /// The parts are well formed.
    pub closed spec fn wf(&self) -> bool {
        &&& self.network_manager.wf()
        &&& self.contact_manager.wf()
        &&& keys_unique(self.unread_cache@)
        &&& keys_unique(self.saved_messages@)
    }

    /// The contacts and blocked records of a well-formed core are finite maps.
    pub proof fn lemma_contacts_finite(&self)
        requires
            self.wf(),
        ensures
            self.spec_contacts().dom().finite(),
            self.spec_blocked().dom().finite(),
    {
        self.contact_manager.lemma_contacts_finite();
    }

    /// The name the user goes by: the one given, or `user`.
    pub open spec fn spec_user_name(&self) -> Seq<char> {
        match self.spec_user() {
            Some(n) => n,
            None => default_user(),
        }
    }

    /// A core not yet initialized, with no contacts and an idle network layer.
    pub fn new() -> (res: Result<Self, CoreError>)
        ensures
            res matches Ok(c) && c.wf() && !c.spec_initialized() && c.spec_user() is None && !c.spec_running()
                && c.spec_contacts() == Map::<Seq<char>, Contact>::empty()
                && c.spec_unread() == Map::<Seq<char>, u64>::empty(),
    {
        let network_manager = match NetworkManager::new_default() {
            Ok(m) => m,
            Err(e) => {
                return Err(network_error(&e));
            },
        };
        let contact_manager = match ContactManager::new("./data/contacts.json".to_string()) {
            Ok(m) => m,
            Err(e) => {
                return Err(contact_error(&e));
            },
        };
        Ok(ShadowGhostCore {
            network_manager,
            contact_manager,
            is_initialized: false,
            user_name: None,
            unread_cache: Vec::new(),
            saved_messages: Vec::new(),
        })
    }

    /// Initializes the core for `user_name`, or for `user` where none is given.
    pub fn initialize(&mut self, user_name: Option<String>) -> (res: Result<(), CoreError>)
        requires
            old(self).wf(),
        ensures
            res is Ok,
            final(self).wf(),
            final(self).spec_initialized(),
            final(self).spec_user() == Some(match user_name {
                Some(n) => n@,
                None => "user"@,
            }),
            final(self).spec_running() == old(self).spec_running(),
            final(self).spec_contacts() == old(self).spec_contacts(),
    {
        self.user_name = match user_name {
            Some(n) => Some(n),
            None => Some("user".to_string()),
        };
        self.is_initialized = true;
        Ok(())
    }

    /// Whether the core was initialized.
    pub fn is_initialized(&self) -> (res: bool)
        ensures
            res == self.spec_initialized(),
    {
        self.is_initialized
    }

    /// `name (127.0.0.1:8080)` for the user's name, once there is one.
    pub fn get_peer_info(&self) -> (res: Option<String>)
        ensures
            match self.spec_user() {
                Some(n) => res matches Some(s) && s@ == n + " (127.0.0.1:8080)"@,
                None => res is None,
            },
    {
        match &self.user_name {
            Some(n) => {
                let mut s = n.clone();
                s.append(" (127.0.0.1:8080)");
                Some(s)
            },
            None => None,
        }
    }

    /// Whether the server was started; the core always takes it to be.
    pub fn is_server_started(&self) -> (res: bool)
        ensures
            res,
    {
        true
    }

    /// Starts the server; refused before initialization.
    pub fn start_server(&mut self) -> (res: Result<(), CoreError>)
        requires
            old(self).wf(),
        ensures
            final(self).wf(),
            !old(self).spec_initialized() ==> (res matches Err(CoreError::InvalidState(m)) && m@
                == "Core not initialized"@ && final(self).spec_running() == old(self).spec_running()),
            old(self).spec_initialized() ==> (res is Ok && final(self).spec_running()),
            final(self).spec_initialized() == old(self).spec_initialized(),
            final(self).spec_user() == old(self).spec_user(),
            final(self).spec_contacts() == old(self).spec_contacts(),
    {
        if !self.is_initialized {
            return Err(CoreError::InvalidState("Core not initialized".to_string()));
        }
        match self.network_manager.start_server() {
            Ok(()) => Ok(()),
            Err(e) => Err(network_error(&e)),
        }
    }

    /// Asks the network layer to shut down; it keeps its state.
    pub fn stop_server(&mut self) -> (res: Result<(), CoreError>)
        ensures
            res is Ok,
            *final(self) == *old(self),
    {
        Ok(())
    }

    /// `Running` or `Stopped`, as the network layer is.
    pub fn get_server_status(&self) -> (res: String)
        ensures
            res@ == (if self.spec_running() { "Running"@ } else { "Stopped"@ }),
    {
        if self.network_manager.is_running() {
            "Running".to_string()
        } else {
            "Stopped".to_string()
        }
    }

    /// The report of the connection: the local and external addresses and the server status.
    pub fn get_connection_info(&self) -> (res: Result<String, CoreError>)
        ensures
            res matches Ok(s) && s@ == "Local Address: 127.0.0.1:8080\nExternal Address: Not available\nServer Status: "@
                + (if self.spec_running() { "Running"@ } else { "Stopped"@ }),
    {
        let mut s = "Local Address: 127.0.0.1:8080\nExternal Address: Not available\nServer Status: ".to_string();
        let status = self.get_server_status();
        s.append(status.as_str());
        Ok(s)
    }

    /// The first contact, in the order they are kept, named exactly `name`.
    pub fn get_contact_by_name(&self, name: &str) -> (res: Option<Contact>)
        ensures
            ({
                let named = self.spec_contact_values().filter(named_pred(name@));
                res == (if named.len() > 0 { Some(named[0]) } else { None::<Contact> })
            }),
    {
        self.contact_manager.get_contact_by_name(name)
    }

    /// Whether a contact named exactly `name` is known.
    pub fn check_contact_online(&self, name: &str) -> (res: bool)
        ensures
            res == (self.spec_contact_values().filter(named_pred(name@)).len() > 0),
    {
        self.contact_manager.get_contact_by_name(name).is_some()
    }

    /// Sends `content` to the contact named `contact_name` at `timestamp`, and returns the
    /// message to store: refused before initialization, while the server does not run, or
    /// for an unknown contact.
    pub fn send_message_at(&mut self, contact_name: &str, content: &str, timestamp: u64) -> (res: Result<ChatMessage, CoreError>)
        requires
            old(self).wf(),
            old(self).spec_send_room(),
        ensures
            final(self).wf(),
            !old(self).spec_initialized() ==> (res matches Err(CoreError::InvalidState(m)) && m@
                == "Core not initialized"@),
            old(self).spec_initialized() && !old(self).spec_running() ==> (res matches Err(CoreError::InvalidState(m))
                && m@ == "Server not running"@),
            old(self).spec_initialized() && old(self).spec_running() && old(self).spec_contact_values().filter(
                named_pred(contact_name@),
            ).len() == 0 ==> (res matches Err(CoreError::Contact(m)) && m@ == "Contact '"@ + contact_name@
                + "' not found"@),
            old(self).spec_initialized() && old(self).spec_running() && old(self).spec_contact_values().filter(
                named_pred(contact_name@),
            ).len() > 0 ==> (res matches Ok(m) && m.from@ == old(self).spec_user_name() && m.to@ == contact_name@
                && m.content@ == content@ && m.msg_type == ChatMessageType::Text && m.timestamp == timestamp
                && m.delivery_status == DeliveryStatus::Sent && m.id@.len() == 36 && final(self).spec_chat(
                contact_name@,
            ).len() == old(self).spec_chat(contact_name@).len() + 1),
            res is Err ==> final(self).spec_chat(contact_name@) == old(self).spec_chat(contact_name@),
            res matches Ok(m) ==> final(self).spec_saved(contact_name@) == old(self).spec_saved(contact_name@).push(m),
            res is Err ==> final(self).spec_saved(contact_name@) == old(self).spec_saved(contact_name@),
            forall|name: Seq<char>| name != contact_name@ ==> #[trigger] final(self).spec_saved(name) == old(self).spec_saved(name),
            final(self).spec_contacts() == old(self).spec_contacts(),
            final(self).spec_user() == old(self).spec_user(),
            final(self).spec_initialized() == old(self).spec_initialized(),
    {
        if !self.is_initialized {
            return Err(CoreError::InvalidState("Core not initialized".to_string()));
        }
        if !self.network_manager.is_running() {
            return Err(CoreError::InvalidState("Server not running".to_string()));
        }
        if self.contact_manager.get_contact_by_name(contact_name).is_none() {
            let mut m = "Contact '".to_string();
            m.append(contact_name);
            m.append("' not found");
            return Err(CoreError::Contact(m));
        }
        let id = match self.network_manager.send_chat_message_by_name(contact_name, content) {
            Ok(id) => id,
            Err(e) => {
                return Err(network_error(&e));
            },
        };
        let from = match &self.user_name {
            Some(n) => n.clone(),
            None => "user".to_string(),
        };
        proof {
            reveal_strlit("user");
        }
        let message = ChatMessage {
            id,
            from,
            to: contact_name.to_owned(),
            content: content.to_owned(),
            msg_type: ChatMessageType::Text,
            timestamp,
            delivery_status: DeliveryStatus::Sent,
        };
        self.save_message(contact_name, message.duplicate());
        Ok(message)
    }

    /// Sends `content` to the contact named `contact_name` now, and returns the message to
    /// store.
    pub fn send_message(&mut self, contact_name: &str, content: &str) -> (res: Result<ChatMessage, CoreError>)
        requires
            old(self).wf(),
            old(self).spec_send_room(),
        ensures
            final(self).wf(),
            !old(self).spec_initialized() ==> (res matches Err(CoreError::InvalidState(m)) && m@
                == "Core not initialized"@),
            old(self).spec_initialized() && !old(self).spec_running() ==> (res matches Err(CoreError::InvalidState(m))
                && m@ == "Server not running"@),
            old(self).spec_initialized() && old(self).spec_running() && old(self).spec_contact_values().filter(
                named_pred(contact_name@),
            ).len() == 0 ==> (res matches Err(CoreError::Contact(m)) && m@ == "Contact '"@ + contact_name@
                + "' not found"@),
            old(self).spec_initialized() && old(self).spec_running() && old(self).spec_contact_values().filter(
                named_pred(contact_name@),
            ).len() > 0 ==> (res matches Ok(m) && m.from@ == old(self).spec_user_name() && m.to@ == contact_name@
                && m.content@ == content@ && m.msg_type == ChatMessageType::Text && m.delivery_status
                == DeliveryStatus::Sent && m.id@.len() == 36 && final(self).spec_chat(contact_name@).len() == old(
                self,
            ).spec_chat(contact_name@).len() + 1),
            res is Err ==> final(self).spec_chat(contact_name@) == old(self).spec_chat(contact_name@),
            res matches Ok(m) ==> final(self).spec_saved(contact_name@) == old(self).spec_saved(contact_name@).push(m),
            res is Err ==> final(self).spec_saved(contact_name@) == old(self).spec_saved(contact_name@),
            forall|name: Seq<char>| name != contact_name@ ==> #[trigger] final(self).spec_saved(name) == old(self).spec_saved(name),
            final(self).spec_contacts() == old(self).spec_contacts(),
            final(self).spec_user() == old(self).spec_user(),
            final(self).spec_initialized() == old(self).spec_initialized(),
    {
        let now = unix_time_secs();
        self.send_message_at(contact_name, content, now)
    }

    /// The contact that a link's peer record stands for, added to the contacts: refused before
    /// initialization, for the user's own record, and for a contact known already.
    pub fn add_contact_from_link_peer(&mut self, peer_data: &PeerData) -> (res: Result<Contact, CoreError>)
        requires
            old(self).wf(),
        ensures
            final(self).wf(),
            !old(self).spec_initialized() ==> (res matches Err(CoreError::InvalidState(m)) && m@
                == "Core not initialized"@ && final(self).spec_contacts() == old(self).spec_contacts()),
            old(self).spec_initialized() && peer_data.name@ == old(self).spec_user_name() ==> (res matches Err(
                CoreError::Contact(m),
            ) && m@ == "Cannot add yourself as contact"@ && final(self).spec_contacts() == old(self).spec_contacts()),
            old(self).spec_initialized() && peer_data.name@ != old(self).spec_user_name()
                && old(self).spec_contacts().dom().contains(peer_data.id@) ==> (res matches Err(CoreError::Contact(m))
                && m@ == "Contact exists: Contact with ID "@ + peer_data.id@ + " already exists"@ && final(self).spec_contacts() == old(self).spec_contacts()),
            old(self).spec_initialized() && peer_data.name@ != old(self).spec_user_name()
                && !old(self).spec_contacts().dom().contains(peer_data.id@) ==> (res matches Ok(c) && c
                == crate::contact_manager::spec_contact_from_peer(*peer_data) && final(self).spec_contacts() == old(self).spec_contacts().insert(peer_data.id@, c)),
    {
        if !self.is_initialized {
            return Err(CoreError::InvalidState("Core not initialized".to_string()));
        }
        let user = match &self.user_name {
            Some(n) => n.clone(),
            None => "user".to_string(),
        };
        proof {
            reveal_strlit("user");
        }
        assert(user@ == old(self).spec_user_name());
        if peer_data.name == user {
            return Err(CoreError::Contact("Cannot add yourself as contact".to_string()));
        }
        let contact = crate::contact_manager::create_contact_from_peer_data(peer_data);
        let copy = contact.duplicate();
        match self.contact_manager.add_contact(contact) {
            Ok(()) => Ok(copy),
            Err(e) => {
                proof {
                    reveal_strlit("Contact exists: ");
                    reveal_strlit("Contact with ID ");
                    reveal_strlit("Contact exists: Contact with ID ");
                    assert("Contact exists: "@ + ("Contact with ID "@ + peer_data.id@ + " already exists"@)
                        =~= "Contact exists: Contact with ID "@ + peer_data.id@ + " already exists"@);
                }
                Err(contact_error(&e))
            },
        }
    }

    /// The JSON record that a link of the user carries: a fresh identifier `id`, the user's
    /// name, the local address, no key, and the time `now` in RFC 3339 form, both as when
    /// connected and when last seen.
    pub fn link_json(&self, id: &str, now: &str) -> (res: String)
        ensures
            res@ == link_record(id@, self.spec_user_name(), now@),
    {
        let name = match &self.user_name {
            Some(n) => n.clone(),
            None => "user".to_string(),
        };
        proof {
            reveal_strlit("user");
        }
        let mut s = "{\"id\":\"".to_string();
        s.append(id);
        s.append("\",\"name\":\"");
        s.append(name.as_str());
        s.append("\",\"address\":\"127.0.0.1:8080\",\"public_key\":[],\"connected_at\":\"");
        s.append(now);
        s.append("\",\"last_seen\":\"");
        s.append(now);
        s.append("\"}");
        s
    }

    /// The user's connection link: refused before initialization.
    pub fn generate_sg_link(&self) -> (res: Result<String, CoreError>)
        ensures
            !self.spec_initialized() ==> (res matches Err(CoreError::InvalidState(m)) && m@ == "Core not initialized"@),
            self.spec_initialized() ==> (res matches Ok(l) && exists|id: Seq<char>, now: Seq<char>| id.len() == 36
                && l@ == #[trigger] crate::links::spec_link(link_record(id, self.spec_user_name(), now))
                && crate::links::spec_link_payload(l@) == Ok::<Seq<char>, Seq<char>>(
                link_record(id, self.spec_user_name(), now),
            )),
    {
        if !self.is_initialized {
            return Err(CoreError::InvalidState("Core not initialized".to_string()));
        }
        let id = new_uuid_v4();
        let now = utc_now_rfc3339();
        let json = self.link_json(id.as_str(), now.as_str());
        let link = crate::links::link_from_json(json.as_str());
        assert(link@ == crate::links::spec_link(link_record(id@, self.spec_user_name(), now@)));
        Ok(link)
    }

    /// Counts one more unread message from `contact_name`, wrapping at the top.
    pub fn increment_unread_count(&mut self, contact_name: &str)
        requires
            old(self).wf(),
        ensures
            final(self).wf(),
            final(self).spec_unread() == old(self).spec_unread().insert(
                contact_name@,
                (if old(self).spec_unread().dom().contains(contact_name@) {
                    old(self).spec_unread()[contact_name@]
                } else {
                    0u64
                }).wrapping_add(1),
            ),
            final(self).spec_contacts() == old(self).spec_contacts(),
    {
        let current: u64 = match find_key(&self.unread_cache, contact_name) {
            Some(i) => {
                proof {
                    crate::keyed::lemma_pairs_map_at(self.unread_cache@, i as int);
                }
                self.unread_cache[i].1
            },
            None => 0,
        };
        map_insert(&mut self.unread_cache, contact_name.to_owned(), current.wrapping_add(1));
    }

    /// Sets the unread count of `contact_name` to zero, where it has one.
    pub fn reset_unread_count(&mut self, contact_name: &str)
        requires
            old(self).wf(),
        ensures
            final(self).wf(),
            old(self).spec_unread().dom().contains(contact_name@) ==> final(self).spec_unread()
                == old(self).spec_unread().insert(contact_name@, 0u64),
            !old(self).spec_unread().dom().contains(contact_name@) ==> final(self).spec_unread()
                == old(self).spec_unread(),
            final(self).spec_contacts() == old(self).spec_contacts(),
    {
        match find_key(&self.unread_cache, contact_name) {
            Some(i) => {
                proof {
                    crate::keyed::lemma_pairs_map_at(self.unread_cache@, i as int);
                }
                map_insert(&mut self.unread_cache, contact_name.to_owned(), 0);
            },
            None => {},
        }
    }

    /// The unread count of `contact_name`, zero where it has none.
    pub fn get_unread_count_cached(&self, contact_name: &str) -> (res: u64)
        requires
            self.wf(),
        ensures
            res == (if self.spec_unread().dom().contains(contact_name@) {
                self.spec_unread()[contact_name@]
            } else {
                0u64
            }),
    {
        match find_key(&self.unread_cache, contact_name) {
            Some(i) => {
                proof {
                    crate::keyed::lemma_pairs_map_at(self.unread_cache@, i as int);
                }
                self.unread_cache[i].1
            },
            None => 0,
        }
    }

    /// Forgets every unread count.
    pub fn clear_unread_cache(&mut self)
        requires
            old(self).wf(),
        ensures
            final(self).wf(),
            final(self).spec_unread() == Map::<Seq<char>, u64>::empty(),
            final(self).spec_contacts() == old(self).spec_contacts(),
    {
        self.unread_cache = Vec::new();
    }

    /// Renames the user.
    pub fn update_user_name(&mut self, new_name: String) -> (res: Result<(), CoreError>)
        requires
            old(self).wf(),
        ensures
            res is Ok,
            final(self).wf(),
            final(self).spec_user() == Some(new_name@),
            final(self).spec_contacts() == old(self).spec_contacts(),
            final(self).spec_initialized() == old(self).spec_initialized(),
    {
        self.user_name = Some(new_name);
        Ok(())
    }

    /// The JSON text of the link `sg_link`, first step of adding a contact by link: refused
    /// before initialization; a link not opening with `sg://` is refused as such; the other
    /// failures of reading it are those of the contact layer.
    pub fn link_payload(&self, sg_link: &str) -> (res: Result<String, CoreError>)
        ensures
            !self.spec_initialized() ==> (res matches Err(CoreError::InvalidState(m)) && m@ == "Core not initialized"@),
            self.spec_initialized() ==> match crate::links::spec_link_payload(sg_link@) {
                Ok(j) => res matches Ok(t) && t@ == j,
                Err(m) => res matches Err(CoreError::Contact(e)) && (m == "Invalid SG link format"@ ==> e@ == m),
            },
    {
        if !self.is_initialized {
            return Err(CoreError::InvalidState("Core not initialized".to_string()));
        }
        match crate::links::link_payload(sg_link) {
            Ok(t) => Ok(t),
            Err(e) => {
                let ghost m = crate::links::spec_link_payload(sg_link@);
                proof {
                    reveal_strlit("Invalid SG link format");
                    reveal_strlit("Decode error");
                    reveal_strlit("UTF-8 conversion failed");
                }
                let is_scheme = match &e {
                    ContactError::InvalidContact(d) => *d == "Invalid SG link format".to_string(),
                    _ => false,
                };
                if is_scheme {
                    Err(CoreError::Contact("Invalid SG link format".to_string()))
                } else {
                    Err(contact_error(&e))
                }
            },
        }
    }

    /// Stops the server, then starts it again; refused before initialization.
    pub fn restart_server(&mut self) -> (res: Result<(), CoreError>)
        requires
            old(self).wf(),
        ensures
            final(self).wf(),
            !old(self).spec_initialized() ==> (res matches Err(CoreError::InvalidState(m)) && m@
                == "Core not initialized"@ && final(self).spec_running() == old(self).spec_running()),
            old(self).spec_initialized() ==> (res is Ok && final(self).spec_running()),
            final(self).spec_initialized() == old(self).spec_initialized(),
            final(self).spec_user() == old(self).spec_user(),
            final(self).spec_contacts() == old(self).spec_contacts(),
    {
        match self.stop_server() {
            Ok(()) => {},
            Err(e) => {
                return Err(e);
            },
        }
        self.start_server()
    }

    /// Shuts the core down; the network layer holds nothing that needs closing.
    pub fn shutdown(&self) -> (res: Result<(), CoreError>)
        ensures
            res is Ok,
    {
        Ok(())
    }

    /// The counters of the network layer.
    pub fn get_network_stats(&self) -> (res: Result<NetworkStats, CoreError>)
        ensures
            res matches Ok(s) && s == self.spec_stats(),
    {
        match self.network_manager.get_stats() {
            Ok(s) => Ok(s),
            Err(e) => Err(network_error(&e)),
        }
    }

    /// Every contact, once each.
    pub fn get_contacts(&self) -> (res: Result<Vec<Contact>, CoreError>)
        requires
            self.wf(),
        ensures
            res matches Ok(v) && v@.len() == self.spec_contacts().dom().len() && (forall|c: Contact| v@.contains(c)
                <==> exists|k: Seq<char>| #[trigger] self.spec_contacts().dom().contains(k)
                && self.spec_contacts()[k] == c),
    {
        Ok(self.contact_manager.get_contacts())
    }

    /// The contact `contact_id`.
    pub fn get_contact_by_id(&self, contact_id: &str) -> (res: Option<Contact>)
        requires
            self.wf(),
        ensures
            self.spec_contacts().dom().contains(contact_id@) <==> res is Some,
            res matches Some(c) ==> c == self.spec_contacts()[contact_id@],
    {
        self.contact_manager.get_contact(contact_id)
    }

    /// Counts over the contacts: all, online, trusted, blocked records, pending.
    pub fn get_contact_stats(&self) -> (res: Result<ContactStats, CoreError>)
        requires
            self.wf(),
        ensures
            res matches Ok(st) && st.total_contacts == self.spec_contacts().dom().len()
                && st.online_contacts == self.spec_contact_values().filter(online_pred()).len()
                && st.trusted_contacts == self.spec_contact_values().filter(trusted_pred()).len()
                && st.blocked_contacts == self.spec_blocked().dom().len() && st.pending_contacts
                == self.spec_contact_values().filter(crate::contacts::trust_pred(TrustLevel::Pending)).len(),
    {
        Ok(self.contact_manager.get_contact_stats())
    }

    /// Files `contact`; an error where its identifier is taken.
    pub fn add_contact_manual(&mut self, contact: Contact) -> (res: Result<(), CoreError>)
        requires
            old(self).wf(),
        ensures
            final(self).wf(),
            old(self).spec_contacts().dom().contains(contact.id@) ==> (res matches Err(CoreError::Contact(m))
                && m@ == "Contact exists: "@ + ("Contact with ID "@ + contact.id@ + " already exists"@)
                && final(self).spec_contacts() == old(self).spec_contacts()),
            !old(self).spec_contacts().dom().contains(contact.id@) ==> (res is Ok && final(self).spec_contacts()
                == old(self).spec_contacts().insert(contact.id@, contact)),
            final(self).spec_user() == old(self).spec_user(),
            final(self).spec_initialized() == old(self).spec_initialized(),
    {
        match self.contact_manager.add_contact(contact) {
            Ok(()) => Ok(()),
            Err(e) => Err(contact_error(&e)),
        }
    }

    /// Removes the contact `contact_id` and its blocked record; an error where there is none.
    pub fn remove_contact_by_id(&mut self, contact_id: &str) -> (res: Result<(), CoreError>)
        requires
            old(self).wf(),
        ensures
            final(self).wf(),
            final(self).spec_initialized() == old(self).spec_initialized(),
            final(self).spec_user() == old(self).spec_user(),
            old(self).spec_contacts().dom().contains(contact_id@) ==> (res is Ok && final(self).spec_contacts()
                == old(self).spec_contacts().remove(contact_id@) && final(self).spec_blocked()
                == old(self).spec_blocked().remove(contact_id@)),
            !old(self).spec_contacts().dom().contains(contact_id@) ==> (res matches Err(CoreError::Contact(m))
                && m@ == "Contact not found: "@ + not_found_text(contact_id@) && final(self).spec_contacts()
                == old(self).spec_contacts()),
    {
        match self.contact_manager.remove_contact(contact_id) {
            Ok(()) => Ok(()),
            Err(e) => Err(contact_error(&e)),
        }
    }

    /// Sets the trust level of the contact `contact_id`; an error where there is none.
    pub fn update_contact_trust_level(&mut self, contact_id: &str, trust_level: TrustLevel) -> (res: Result<(), CoreError>)
        requires
            old(self).wf(),
        ensures
            final(self).wf(),
            final(self).spec_initialized() == old(self).spec_initialized(),
            final(self).spec_user() == old(self).spec_user(),
            old(self).spec_contacts().dom().contains(contact_id@) ==> (res is Ok && final(self).spec_contacts()
                == old(self).spec_contacts().insert(
                contact_id@,
                Contact { trust_level, ..old(self).spec_contacts()[contact_id@] },
            )),
            !old(self).spec_contacts().dom().contains(contact_id@) ==> (res matches Err(CoreError::Contact(m))
                && m@ == "Contact not found: "@ + not_found_text(contact_id@) && final(self).spec_contacts()
                == old(self).spec_contacts()),
    {
        match self.contact_manager.set_trust_level(contact_id, trust_level) {
            Ok(()) => Ok(()),
            Err(e) => Err(contact_error(&e)),
        }
    }

    /// Blocks the contact `contact_id` now; an error where there is none.
    pub fn block_contact(&mut self, contact_id: &str) -> (res: Result<(), CoreError>)
        requires
            old(self).wf(),
        ensures
            final(self).wf(),
            final(self).spec_initialized() == old(self).spec_initialized(),
            final(self).spec_user() == old(self).spec_user(),
            final(self).spec_contacts() == old(self).spec_contacts(),
            old(self).spec_contacts().dom().contains(contact_id@) <==> res is Ok,
            res is Ok ==> final(self).spec_blocked().dom() == old(self).spec_blocked().dom().insert(contact_id@)
                && final(self).spec_blocked()[contact_id@].reason@ == "Blocked by user"@,
            res is Err ==> final(self).spec_blocked() == old(self).spec_blocked(),
    {
        match self.contact_manager.block_contact(contact_id) {
            Ok(()) => Ok(()),
            Err(e) => Err(contact_error(&e)),
        }
    }

    /// Files stored contacts: takes each of `contacts`, in order, whose identifier is not a
    /// contact yet, then blocks each identifier of `blocked` marked `true` that names a contact; how many contacts
    /// it took.
    pub fn restore_contacts(&mut self, contacts: Vec<Contact>, blocked: Vec<(String, bool)>) -> (res: usize)
        requires
            old(self).wf(),
        ensures
            final(self).wf(),
            final(self).spec_initialized() == old(self).spec_initialized(),
            final(self).spec_user() == old(self).spec_user(),
            final(self).spec_contacts() == crate::contact_manager::imported_contacts(old(self).spec_contacts(), contacts@),
            res == crate::contact_manager::count_new(old(self).spec_contacts(), contacts@),
            forall|k: Seq<char>| #[trigger] final(self).spec_blocked().dom().contains(k) <==> (old(self).spec_blocked().dom().contains(k)
                || (final(self).spec_contacts().dom().contains(k) && exists|i: int| 0 <= i < blocked@.len()
                && #[trigger] blocked@[i].0@ == k && blocked@[i].1)),
    {
        let n = match self.contact_manager.import_contacts(contacts) {
            Ok(n) => n,
            Err(_) => 0,
        };
        let ghost c1 = self.spec_contacts();
        let ghost b0 = self.spec_blocked();
        let mut i: usize = 0;
        while i < blocked.len()
            invariant
                i <= blocked@.len(),
                self.wf(),
                self.spec_initialized() == old(self).spec_initialized(),
                self.spec_user() == old(self).spec_user(),
                self.spec_contacts() == c1,
                b0 == old(self).spec_blocked(),
                forall|k: Seq<char>| #[trigger] self.spec_blocked().dom().contains(k) <==> (b0.dom().contains(k)
                    || (c1.dom().contains(k) && exists|j: int| 0 <= j < i && #[trigger] blocked@[j].0@ == k && blocked@[j].1)),
            decreases blocked@.len() - i,
        {
            let ghost before = self.spec_blocked();
            if blocked[i].1 {
                let _ = self.block_contact(blocked[i].0.as_str());
            }
            proof {
                assert forall|k: Seq<char>| #[trigger] self.spec_blocked().dom().contains(k) <==> (b0.dom().contains(k)
                    || (c1.dom().contains(k) && exists|j: int| 0 <= j < i + 1 && #[trigger] blocked@[j].0@ == k && blocked@[j].1)) by {
                    if k == blocked@[i as int].0@ && blocked@[i as int].1 && c1.dom().contains(k) {
                        assert(blocked@[i as int].0@ == k);
                    }
                    if exists|j: int| 0 <= j < i + 1 && #[trigger] blocked@[j].0@ == k && blocked@[j].1 {
                        let j = choose|j: int| 0 <= j < i + 1 && #[trigger] blocked@[j].0@ == k && blocked@[j].1;
                        if j < i {
                            assert(exists|j: int| 0 <= j < i && #[trigger] blocked@[j].0@ == k && blocked@[j].1);
                        }
                    }
                    if before.dom().contains(k) {
                        assert(self.spec_blocked().dom().contains(k));
                    }
                }
            }
            i = i + 1;
        }
        n
    }

    /// Unblocks `contact_id`; an error where it is not blocked.
    pub fn unblock_contact(&mut self, contact_id: &str) -> (res: Result<(), CoreError>)
        requires
            old(self).wf(),
        ensures
            final(self).wf(),
            final(self).spec_initialized() == old(self).spec_initialized(),
            final(self).spec_user() == old(self).spec_user(),
            final(self).spec_contacts() == old(self).spec_contacts(),
            final(self).spec_blocked() == old(self).spec_blocked().remove(contact_id@),
            old(self).spec_blocked().dom().contains(contact_id@) <==> res is Ok,
    {
        match self.contact_manager.unblock_contact(contact_id) {
            Ok(()) => Ok(()),
            Err(e) => Err(contact_error(&e)),
        }
    }

    /// The contacts whose name or address holds `query`, letter case aside, in the order they
    /// are kept.
    pub fn search_contacts(&self, query: &str) -> (res: Result<Vec<Contact>, CoreError>)
        requires
            self.wf(),
        ensures
            res matches Ok(v) && v@ == self.spec_contact_values().filter(search_pred(query@)),
    {
        Ok(self.contact_manager.search_contacts(query))
    }

    /// The trusted contacts, in the order they are kept.
    pub fn get_trusted_contacts(&self) -> (res: Result<Vec<Contact>, CoreError>)
        requires
            self.wf(),
        ensures
            res matches Ok(v) && v@ == self.spec_contact_values().filter(trusted_pred()),
    {
        Ok(self.contact_manager.get_trusted_contacts())
    }

    /// The online contacts, in the order they are kept.
    pub fn get_online_contacts(&self) -> (res: Result<Vec<Contact>, CoreError>)
        requires
            self.wf(),
        ensures
            res matches Ok(v) && v@ == self.spec_contact_values().filter(online_pred()),
    {
        Ok(self.contact_manager.get_online_contacts())
    }

    /// The blocked contacts: each contact with a blocked record, and no other.
    pub fn get_blocked_contacts(&self) -> (res: Result<Vec<Contact>, CoreError>)
        requires
            self.wf(),
        ensures
            res matches Ok(v) && (forall|c: Contact| v@.contains(c) ==> exists|k: Seq<char>| #[trigger] self.spec_blocked().dom().contains(k)
                && self.spec_contacts().dom().contains(k) && self.spec_contacts()[k] == c) && (forall|k: Seq<char>|
                #[trigger] self.spec_blocked().dom().contains(k) && self.spec_contacts().dom().contains(k)
                ==> v@.contains(self.spec_contacts()[k])),
    {
        let v = self.contact_manager.get_blocked_contacts();
        proof {
            assert forall|c: Contact| v@.contains(c) implies exists|k: Seq<char>| #[trigger] self.spec_blocked().dom().contains(k)
                && self.spec_contacts().dom().contains(k) && self.spec_contacts()[k] == c by {
                let k = choose|k: Seq<char>| #[trigger] self.contact_manager.spec_blocked().dom().contains(k)
                    && self.contact_manager.spec_contacts().dom().contains(k) && self.contact_manager.spec_contacts()[k] == c;
                assert(self.spec_blocked().dom().contains(k));
            }
        }
        Ok(v)
    }

    /// The contacts whose name holds `name`, letter case aside, in the order they are kept.
    pub fn find_contacts_by_name(&self, name: &str) -> (res: Vec<Contact>)
        ensures
            res@ == self.spec_contact_values().filter(crate::contacts::matching_name(name@)),
    {
        self.contact_manager.find_contacts_by_name(name)
    }

    /// How many contacts there are.
    pub fn get_contact_count(&self) -> (res: usize)
        requires
            self.wf(),
        ensures
            res == self.spec_contacts().dom().len(),
    {
        self.contact_manager.get_contact_count()
    }

    /// Forgets every contact, every blocked record and every unread count.
    pub fn clear_all_contacts(&mut self) -> (res: Result<(), CoreError>)
        requires
            old(self).wf(),
        ensures
            res is Ok,
            final(self).wf(),
            final(self).spec_contacts() == Map::<Seq<char>, Contact>::empty(),
            final(self).spec_blocked() == Map::<Seq<char>, BlockedContactInfo>::empty(),
            final(self).spec_unread() == Map::<Seq<char>, u64>::empty(),
            final(self).spec_user() == old(self).spec_user(),
            final(self).spec_initialized() == old(self).spec_initialized(),
    {
        self.contact_manager.clear_all_contacts();
        self.unread_cache = Vec::new();
        Ok(())
    }
}

/// A fresh message identifier: a random UUID in its 36-character text form.
pub fn create_message_id() -> (res: String)
    ensures
        res@.len() == 36,
{
    new_uuid_v4()
}

/// The current time in seconds since the Unix epoch.
pub fn get_current_timestamp() -> u64 {
    unix_time_secs()
}

/// A new message from `from` to `to` with `content` of kind `msg_type`: a fresh identifier,
/// stamped now, not yet sent.
pub fn format_chat_message(from: &str, to: &str, content: &str, msg_type: ChatMessageType) -> (res: ChatMessage)
    ensures
        res.id@.len() == 36,
        res.from@ == from@,
        res.to@ == to@,
        res.content@ == content@,
        res.msg_type == msg_type,
        res.delivery_status == DeliveryStatus::Pending,
{
    ChatMessage {
        id: create_message_id(),
        from: from.to_owned(),
        to: to.to_owned(),
        content: content.to_owned(),
        msg_type,
        timestamp: get_current_timestamp(),
        delivery_status: DeliveryStatus::Pending,
    }
}

} // verus!
