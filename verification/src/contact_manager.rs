//! The contacts of the local user, over the contact book: adding from peers and links,
//! searching, trust, presence, and checks of the stored data.
use vstd::prelude::*;
use crate::chats::holds_name;
use crate::clock::utc_now_millis;
use crate::contacts::{BlockedContactInfo, ContactBook, ContactError, ContactStats, Selector, not_found_text};
use crate::entropy::new_uuid_v4;
use crate::keyed::values_of;
use crate::network::{Contact, ContactStatus, PeerData, TrustLevel};
use crate::text::{last_index_of, spec_parse_u16, trim};

verus! {

/// How a contact has been in touch.
#[derive(Debug, Clone)]
pub struct ContactInteractionStats {
    pub contact_id: String,
    pub days_since_last_seen: u32,
    pub is_trusted: bool,
    pub is_blocked: bool,
    pub current_status: ContactStatus,
    pub trust_level: TrustLevel,
}

/// A kind of problem with a stored contact.
#[derive(Debug, Clone, Copy, PartialEq, Eq, Structural)]
pub enum ContactIssueType {
    EmptyName,
    EmptyAddress,
    InvalidAddress,
    DuplicateContact,
    OrphanedBlock,
}

/// How much a problem matters.
#[derive(Debug, Clone, Copy, PartialEq, Eq, Structural)]
pub enum IssueSeverity {
    Low,
    Medium,
    High,
    Critical,
}

/// A problem found with a stored contact.
#[derive(Debug, Clone)]
pub struct ContactValidationIssue {
    pub contact_id: String,
    pub issue_type: ContactIssueType,
    pub description: String,
    pub severity: IssueSeverity,
}

/// What an import of contacts did.
#[derive(Debug, Clone)]
pub struct ContactImportResult {
    pub imported_count: u32,
    pub skipped_count: u32,
    pub updated_count: u32,
    pub errors: Vec<String>,
}

/// The formats contacts can be exported in.
#[derive(Debug, Clone, Copy, PartialEq, Eq, Structural)]
pub enum ContactExportFormat {
    Json,
    Csv,
    Vcf,
}

/// What an export of contacts includes.
#[derive(Debug, Clone)]
pub struct ContactExportOptions {
    pub format: ContactExportFormat,
    pub include_blocked: bool,
    pub trust_level_filter: Option<TrustLevel>,
    pub status_filter: Option<ContactStatus>,
}

/// The conditions of a search of contacts; a field that is `None` asks nothing.
#[derive(Debug, Clone)]
pub struct ContactSearchQuery {
    pub name: Option<String>,
    pub address: Option<String>,
    pub status: Option<ContactStatus>,
    pub trust_level: Option<TrustLevel>,
    pub is_blocked: Option<bool>,
    /// Milliseconds since the Unix epoch.
    pub last_seen_after: Option<i64>,
    /// Milliseconds since the Unix epoch.
    pub last_seen_before: Option<i64>,
}

impl Default for ContactSearchQuery {
    fn default() -> (res: Self)
        ensures
            res.name is None && res.address is None && res.status is None && res.trust_level is None
                && res.is_blocked is None && res.last_seen_after is None && res.last_seen_before is None,
    {
        ContactSearchQuery {
            name: None,
            address: None,
            status: None,
            trust_level: None,
            is_blocked: None,
            last_seen_after: None,
            last_seen_before: None,
        }
    }
}

/// A named group of contacts.
#[derive(Debug, Clone)]
pub struct ContactGroup {
    pub id: String,
    pub name: String,
    pub contact_ids: Vec<String>,
    /// Milliseconds since the Unix epoch.
    pub created_at: i64,
    /// Milliseconds since the Unix epoch.
    pub updated_at: i64,
}

impl ContactGroup {
    /// An empty group named `name`, with identifier `id`, made at `now`.
    pub fn with_id(id: String, name: String, now: i64) -> (res: Self)
        ensures
            res.id == id && res.name == name && res.contact_ids@.len() == 0 && res.created_at == now
                && res.updated_at == now,
    {
        ContactGroup { id, name, contact_ids: Vec::new(), created_at: now, updated_at: now }
    }

    /// An empty group named `name`, with a random identifier, made now.
    pub fn new(name: String) -> (res: Self)
        ensures
            res.id@.len() == 36 && res.name == name && res.contact_ids@.len() == 0,
    {
        let now = utc_now_millis();
        ContactGroup::with_id(new_uuid_v4(), name, now)
    }

    /// Adds `contact_id` at `now` unless the group holds it; the group's time changes only
    /// where it grows.
    pub fn add_contact_at(&mut self, contact_id: String, now: i64)
        ensures
            holds_name(old(self).contact_ids@, contact_id@) ==> *final(self) == *old(self),
            !holds_name(old(self).contact_ids@, contact_id@) ==> final(self).contact_ids@ == old(
                self,
            ).contact_ids@.push(contact_id) && final(self).updated_at == now,
            final(self).id == old(self).id && final(self).name == old(self).name && final(self).created_at
                == old(self).created_at,
    {
        if self.contains_contact(contact_id.as_str()) {
            return;
        }
        self.contact_ids.push(contact_id);
        self.updated_at = now;
    }

    /// Adds `contact_id` now unless the group holds it.
    pub fn add_contact(&mut self, contact_id: String)
        ensures
            holds_name(old(self).contact_ids@, contact_id@) ==> final(self).contact_ids@ == old(self).contact_ids@,
            !holds_name(old(self).contact_ids@, contact_id@) ==> final(self).contact_ids@ == old(
                self,
            ).contact_ids@.push(contact_id),
            final(self).id == old(self).id && final(self).name == old(self).name,
    {
        if self.contains_contact(contact_id.as_str()) {
            return;
        }
        let now = utc_now_millis();
        self.add_contact_at(contact_id, now);
    }

    /// Removes the first occurrence of `contact_id` at `now`, if there is one.
    pub fn remove_contact_at(&mut self, contact_id: &str, now: i64)
        ensures
            !holds_name(old(self).contact_ids@, contact_id@) ==> *final(self) == *old(self),
            holds_name(old(self).contact_ids@, contact_id@) ==> exists|i: int| 0 <= i < old(self).contact_ids@.len()
                && #[trigger] old(self).contact_ids@[i]@ == contact_id@ && (forall|j: int| 0 <= j < i
                ==> old(self).contact_ids@[j]@ != contact_id@) && final(self).contact_ids@ == old(
                self,
            ).contact_ids@.remove(i) && final(self).updated_at == now,
            final(self).id == old(self).id && final(self).name == old(self).name,
    {
        let target = contact_id.to_owned();
        let mut i: usize = 0;
        while i < self.contact_ids.len()
            invariant
                i <= self.contact_ids@.len(),
                target@ == contact_id@,
                self.contact_ids@ == old(self).contact_ids@,
                *self == *old(self),
                forall|j: int| 0 <= j < i ==> self.contact_ids@[j]@ != contact_id@,
            decreases self.contact_ids@.len() - i,
        {
            if self.contact_ids[i] == target {
                self.contact_ids.remove(i);
                self.updated_at = now;
                return;
            }
            i = i + 1;
        }
    }

    /// Removes the first occurrence of `contact_id` now, if there is one.
    pub fn remove_contact(&mut self, contact_id: &str)
        ensures
            !holds_name(old(self).contact_ids@, contact_id@) ==> final(self).contact_ids@ == old(self).contact_ids@,
            holds_name(old(self).contact_ids@, contact_id@) ==> exists|i: int| 0 <= i < old(self).contact_ids@.len()
                && #[trigger] old(self).contact_ids@[i]@ == contact_id@ && final(self).contact_ids@ == old(
                self,
            ).contact_ids@.remove(i),
    {
        let now = utc_now_millis();
        self.remove_contact_at(contact_id, now);
    }

    /// Whether the group holds `contact_id`.
    pub fn contains_contact(&self, contact_id: &str) -> (res: bool)
        ensures
            res == holds_name(self.contact_ids@, contact_id@),
    {
        let target = contact_id.to_owned();
        let mut i: usize = 0;
        while i < self.contact_ids.len()
            invariant
                i <= self.contact_ids@.len(),
                target@ == contact_id@,
                forall|j: int| 0 <= j < i ==> self.contact_ids@[j]@ != contact_id@,
            decreases self.contact_ids@.len() - i,
        {
            if self.contact_ids[i] == target {
                return true;
            }
            i = i + 1;
        }
        false
    }
}

/// The contact made of a peer's record: offline, pending trust, last seen when the record says.
pub open spec fn spec_contact_from_peer(p: PeerData) -> Contact {
    Contact {
        id: p.id,
        name: p.name,
        address: p.address,
        status: ContactStatus::Offline,
        trust_level: TrustLevel::Pending,
        last_seen: Some(p.last_seen),
    }
}

/// The contact made of a peer's record: offline, pending trust, last seen when the record says.
pub fn create_contact_from_peer_data(peer_data: &PeerData) -> (res: Contact)
    ensures
        res == spec_contact_from_peer(*peer_data),
{
    Contact {
        id: peer_data.id.clone(),
        name: peer_data.name.clone(),
        address: peer_data.address.clone(),
        status: ContactStatus::Offline,
        trust_level: TrustLevel::Pending,
        last_seen: Some(peer_data.last_seen),
    }
}

/// The number of `c` in `s`.
pub open spec fn count_char(s: Seq<char>, c: char) -> nat
    decreases s.len(),
{
    if s.len() == 0 {
        0
    } else {
        count_char(s.drop_last(), c) + if s.last() == c { 1nat } else { 0nat }
    }
}

/// An address of the form `host:port`: one colon, and after it a port number.
pub open spec fn well_formed_address(a: Seq<char>) -> bool {
    &&& a.len() > 0
    &&& count_char(a, ':') == 1
    &&& last_index_of(a, ':') matches Some(i) && spec_parse_u16(a.subrange(i + 1, a.len() as int)) is Some
}

/// The number of colons in `s`.
pub fn colon_count(s: &[char]) -> (res: usize)
    ensures
        res == count_char(s@, ':'),
{
    let mut n: usize = 0;
    let mut i: usize = 0;
    while i < s.len()
        invariant
            i <= s@.len(),
            n == count_char(s@.subrange(0, i as int), ':'),
            n <= i,
        decreases s@.len() - i,
    {
        assert(s@.subrange(0, i + 1).drop_last() =~= s@.subrange(0, i as int));
        if s[i] == ':' {
            n = n + 1;
        }
        i = i + 1;
    }
    assert(s@.subrange(0, s@.len() as int) =~= s@);
    n
}

/// The port of an address of one colon, where the text after it reads as a port number.
pub fn port_of(address: &str) -> (res: Option<u16>)
    ensures
        ({
            let a = address@;
            res == (if count_char(a, ':') == 1 {
                match last_index_of(a, ':') {
                    Some(i) => spec_parse_u16(a.subrange(i + 1, a.len() as int)),
                    None => None,
                }
            } else {
                None
            })
        }),
{
    let cs = crate::text::chars_of(address);
    if colon_count(cs.as_slice()) != 1 {
        return None;
    }
    match crate::text::rfind_char(cs.as_slice(), ':') {
        Some(i) => {
            let tail = crate::text::slice_range(cs.as_slice(), i + 1, cs.len());
            crate::text::parse_u16(tail.as_slice())
        },
        None => None,
    }
}

/// A change to one contact.
pub enum ContactChange {
    /// A new trust level.
    Trust(TrustLevel),
    /// Seen at this time (milliseconds since the Unix epoch).
    Seen(i64),
    /// Active at this time: seen then, and online.
    Active(i64),
}

/// `c` after `change`.
pub open spec fn changed(c: Contact, change: ContactChange) -> Contact {
    match change {
        ContactChange::Trust(t) => Contact { trust_level: t, ..c },
        ContactChange::Seen(now) => Contact { last_seen: Some(now), ..c },
        ContactChange::Active(now) => Contact { last_seen: Some(now), status: ContactStatus::Online, ..c },
    }
}

/// The contacts after importing `cs` in order: each whose identifier is not taken yet.
pub open spec fn imported_contacts(m: Map<Seq<char>, Contact>, cs: Seq<Contact>) -> Map<Seq<char>, Contact>
    decreases cs.len(),
{
    if cs.len() == 0 {
        m
    } else {
        let r = imported_contacts(m, cs.drop_last());
        if r.dom().contains(cs.last().id@) {
            r
        } else {
            r.insert(cs.last().id@, cs.last())
        }
    }
}

/// How many of `cs` an import into `m` takes.
pub open spec fn count_new(m: Map<Seq<char>, Contact>, cs: Seq<Contact>) -> nat
    decreases cs.len(),
{
    if cs.len() == 0 {
        0
    } else {
        count_new(m, cs.drop_last()) + if imported_contacts(m, cs.drop_last()).dom().contains(cs.last().id@) {
            0nat
        } else {
            1nat
        }
    }
}

/// Whole days from `seen` to `now` (milliseconds since the Unix epoch), cut to 32 bits; zero
/// where the contact was never seen or was seen later.
pub open spec fn days_between(seen: Option<i64>, now: i64) -> u32 {
    match seen {
        Some(t) => if now - t <= 0 { 0 } else { ((now - t) / 86_400_000) as u32 },
        None => 0,
    }
}

/// An issue as plain values: the contact, the kind, the description and the severity.
pub open spec fn issue_view(i: ContactValidationIssue) -> (Seq<char>, ContactIssueType, Seq<char>, IssueSeverity) {
    (i.contact_id@, i.issue_type, i.description@, i.severity)
}

/// The problems of one stored contact.
pub open spec fn data_issues(c: Contact) -> Seq<(Seq<char>, ContactIssueType, Seq<char>, IssueSeverity)> {
    (if trim(c.name@).len() == 0 {
        seq![(c.id@, ContactIssueType::EmptyName, "Contact has empty name"@, IssueSeverity::Medium)]
    } else {
        Seq::empty()
    }) + (if trim(c.address@).len() == 0 {
        seq![(c.id@, ContactIssueType::EmptyAddress, "Contact has empty address"@, IssueSeverity::High)]
    } else {
        Seq::empty()
    }) + (if !well_formed_address(c.address@) {
        seq![(c.id@, ContactIssueType::InvalidAddress, "Invalid address format: "@ + c.address@, IssueSeverity::High)]
    } else {
        Seq::empty()
    })
}

/// The problems of the stored contacts `cs`, in order.
pub open spec fn all_data_issues(cs: Seq<Contact>) -> Seq<(Seq<char>, ContactIssueType, Seq<char>, IssueSeverity)>
    decreases cs.len(),
{
    if cs.len() == 0 {
        Seq::empty()
    } else {
        all_data_issues(cs.drop_last()) + data_issues(cs.last())
    }
}

/// The texts of `ids`.
pub open spec fn ids_set(ids: Seq<String>) -> Set<Seq<char>> {
    Set::new(|x: Seq<char>| exists|j: int| 0 <= j < ids.len() && #[trigger] ids[j]@ == x)
}

/// The contacts of the local user.
pub struct ContactManager {
    contact_book: ContactBook,
    data_path: String,
}

impl ContactManager {
    /// The contacts by identifier.
    pub closed spec fn spec_contacts(&self) -> Map<Seq<char>, Contact> {
        self.contact_book.spec_contacts()
    }

    /// The blocked records by identifier.
    pub closed spec fn spec_blocked(&self) -> Map<Seq<char>, BlockedContactInfo> {
        self.contact_book.spec_blocked()
    }

    /// The contacts in the order they are kept.
    pub closed spec fn spec_values(&self) -> Seq<Contact> {
        values_of(self.contact_book.spec_entries())
    }

    /// The book is well formed.
    pub closed spec fn wf(&self) -> bool {
        self.contact_book.wf()
    }

    /// The contacts and blocked records of a well-formed manager are finite maps, and the
    /// contacts in order are exactly the values of the map, one per key.
    pub proof fn lemma_contacts_finite(&self)
        requires
            self.wf(),
        ensures
            self.spec_contacts().dom().finite(),
            self.spec_blocked().dom().finite(),
            self.spec_values().len() == self.spec_contacts().dom().len(),
            forall|c: Contact| self.spec_values().contains(c) <==> exists|k: Seq<char>| #[trigger] self.spec_contacts().dom().contains(k)
                && self.spec_contacts()[k] == c,
    {
        self.contact_book.lemma_entries();
        crate::keyed::lemma_values_are_map_values(self.contact_book.spec_entries());
    }

    /// The place the contacts are stored.
    pub closed spec fn spec_path(&self) -> Seq<char> {
        self.data_path@
    }

    /// No contacts yet, stored under `data_path`.
    pub fn new(data_path: String) -> (res: Result<Self, ContactError>)
        ensures
            res matches Ok(m) && m.wf() && m.spec_contacts() == Map::<Seq<char>, Contact>::empty()
                && m.spec_blocked() == Map::<Seq<char>, BlockedContactInfo>::empty() && m.spec_path() == data_path@,
    {
        Ok(ContactManager { contact_book: ContactBook::new(), data_path })
    }

    /// Files `contact`; an error where its identifier is taken.
    pub fn add_contact(&mut self, contact: Contact) -> (res: Result<(), ContactError>)
        requires
            old(self).wf(),
        ensures
            final(self).wf(),
            final(self).spec_blocked() == old(self).spec_blocked(),
            old(self).spec_contacts().dom().contains(contact.id@) ==> (res matches Err(
                ContactError::ContactExists(m),
            ) && m@ == "Contact with ID "@ + contact.id@ + " already exists"@ && final(self).spec_contacts()
                == old(self).spec_contacts()),
            !old(self).spec_contacts().dom().contains(contact.id@) ==> (res is Ok && final(self).spec_contacts()
                == old(self).spec_contacts().insert(contact.id@, contact)),
    {
        if self.contact_book.has_contact(contact.id.as_str()) {
            let mut m = "Contact with ID ".to_string();
            m.append(contact.id.as_str());
            m.append(" already exists");
            return Err(ContactError::ContactExists(m));
        }
        self.contact_book.add_contact(contact)
    }

    /// Files the contact made of `peer_data`; an error where its identifier is taken.
    pub fn add_contact_from_peer_data(&mut self, peer_data: &PeerData) -> (res: Result<(), ContactError>)
        requires
            old(self).wf(),
        ensures
            final(self).wf(),
            old(self).spec_contacts().dom().contains(peer_data.id@) <==> res is Err,
            res is Ok ==> final(self).spec_contacts() == old(self).spec_contacts().insert(
                peer_data.id@,
                spec_contact_from_peer(*peer_data),
            ),
            res is Err ==> final(self).spec_contacts() == old(self).spec_contacts(),
    {
        let contact = create_contact_from_peer_data(peer_data);
        self.add_contact(contact)
    }

    /// Every contact, once each.
    pub fn get_contacts(&self) -> (res: Vec<Contact>)
        requires
            self.wf(),
        ensures
            res@.len() == self.spec_contacts().dom().len(),
            forall|c: Contact| res@.contains(c) <==> exists|k: Seq<char>| #[trigger] self.spec_contacts().dom().contains(k)
                && self.spec_contacts()[k] == c,
    {
        let res = self.contact_book.get_contacts();
        proof {
            assert forall|c: Contact| res@.contains(c) <==> exists|k: Seq<char>| #[trigger] self.spec_contacts().dom().contains(k)
                && self.spec_contacts()[k] == c by {
                if res@.contains(c) {
                    let k = choose|k: Seq<char>| #[trigger] self.contact_book.spec_contacts().dom().contains(k)
                        && self.contact_book.spec_contacts()[k] == c;
                    assert(self.spec_contacts().dom().contains(k));
                }
                if exists|k: Seq<char>| #[trigger] self.spec_contacts().dom().contains(k) && self.spec_contacts()[k] == c {
                    let k = choose|k: Seq<char>| #[trigger] self.spec_contacts().dom().contains(k) && self.spec_contacts()[k] == c;
                    assert(self.contact_book.spec_contacts().dom().contains(k));
                }
            }
        }
        res
    }

    /// The contact `contact_id`.
    pub fn get_contact(&self, contact_id: &str) -> (res: Option<Contact>)
        requires
            self.wf(),
        ensures
            self.spec_contacts().dom().contains(contact_id@) <==> res is Some,
            res matches Some(c) ==> c == self.spec_contacts()[contact_id@],
    {
        match self.contact_book.get_contact(contact_id) {
            Some(c) => Some(c.duplicate()),
            None => None,
        }
    }

    /// The first contact, in the order they are kept, named exactly `name`.
    pub fn get_contact_by_name(&self, name: &str) -> (res: Option<Contact>)
        ensures
            ({
                let named = self.spec_values().filter(crate::contacts::named_pred(name@));
                res == (if named.len() > 0 { Some(named[0]) } else { None::<Contact> })
            }),
    {
        let found = self.contact_book.select(&Selector::Named(name.to_owned()));
        if found.len() > 0 {
            Some(found[0].duplicate())
        } else {
            None
        }
    }

    /// Removes the contact `contact_id` and its blocked record; an error where there is none.
    pub fn remove_contact(&mut self, contact_id: &str) -> (res: Result<(), ContactError>)
        requires
            old(self).wf(),
        ensures
            final(self).wf(),
            old(self).spec_contacts().dom().contains(contact_id@) <==> res is Ok,
            res matches Err(e) ==> e matches ContactError::ContactNotFound(m) && m@ == not_found_text(contact_id@),
            res is Ok ==> final(self).spec_contacts() == old(self).spec_contacts().remove(contact_id@)
                && final(self).spec_blocked() == old(self).spec_blocked().remove(contact_id@),
            res is Err ==> final(self).spec_contacts() == old(self).spec_contacts() && final(self).spec_blocked()
                == old(self).spec_blocked(),
    {
        self.contact_book.remove_contact(contact_id)
    }

    /// Sets the status of the contact `contact_id`; an error where there is none.
    pub fn update_contact_status(&mut self, contact_id: &str, status: ContactStatus) -> (res: Result<(), ContactError>)
        requires
            old(self).wf(),
        ensures
            final(self).wf(),
            final(self).spec_blocked() == old(self).spec_blocked(),
            old(self).spec_contacts().dom().contains(contact_id@) <==> res is Ok,
            res matches Err(e) ==> e matches ContactError::ContactNotFound(m) && m@ == not_found_text(contact_id@)
                && final(self).spec_contacts() == old(self).spec_contacts(),
            res is Ok ==> final(self).spec_contacts() == old(self).spec_contacts().insert(
                contact_id@,
                Contact { status, ..old(self).spec_contacts()[contact_id@] },
            ),
    {
        self.contact_book.update_contact_status(contact_id, status)
    }

    /// Changes the contact `contact_id` by `change`; an error where there is none.
    fn change_contact(&mut self, contact_id: &str, change: &ContactChange) -> (res: Result<(), ContactError>)
        requires
            old(self).wf(),
        ensures
            final(self).wf(),
            final(self).spec_blocked() == old(self).spec_blocked(),
            old(self).spec_contacts().dom().contains(contact_id@) <==> res is Ok,
            res matches Err(e) ==> e matches ContactError::ContactNotFound(m) && m@ == not_found_text(contact_id@)
                && final(self).spec_contacts() == old(self).spec_contacts(),
            res is Ok ==> final(self).spec_contacts() == old(self).spec_contacts().insert(
                contact_id@,
                changed(old(self).spec_contacts()[contact_id@], *change),
            ),
    {
        match self.contact_book.get_contact(contact_id) {
            Some(c) => {
                let mut d = c.duplicate();
                match change {
                    ContactChange::Trust(t) => {
                        d.trust_level = *t;
                    },
                    ContactChange::Seen(now) => {
                        d.last_seen = Some(*now);
                    },
                    ContactChange::Active(now) => {
                        d.last_seen = Some(*now);
                        d.status = ContactStatus::Online;
                    },
                }
                self.contact_book.set_contact_at(contact_id, d)
            },
            None => Err(crate::contacts::not_found(contact_id)),
        }
    }

    /// Sets the trust level of the contact `contact_id`; an error where there is none.
    pub fn set_trust_level(&mut self, contact_id: &str, trust_level: TrustLevel) -> (res: Result<(), ContactError>)
        requires
            old(self).wf(),
        ensures
            final(self).wf(),
            final(self).spec_blocked() == old(self).spec_blocked(),
            old(self).spec_contacts().dom().contains(contact_id@) <==> res is Ok,
            res matches Err(e) ==> e matches ContactError::ContactNotFound(m) && m@ == not_found_text(contact_id@)
                && final(self).spec_contacts() == old(self).spec_contacts(),
            res is Ok ==> final(self).spec_contacts() == old(self).spec_contacts().insert(
                contact_id@,
                Contact { trust_level, ..old(self).spec_contacts()[contact_id@] },
            ),
    {
        self.change_contact(contact_id, &ContactChange::Trust(trust_level))
    }

    /// Notes that the contact `contact_id` was seen at `now` (milliseconds since the Unix
    /// epoch); an error where there is none.
    pub fn update_last_seen_at(&mut self, contact_id: &str, now: i64) -> (res: Result<(), ContactError>)
        requires
            old(self).wf(),
        ensures
            final(self).wf(),
            final(self).spec_blocked() == old(self).spec_blocked(),
            old(self).spec_contacts().dom().contains(contact_id@) <==> res is Ok,
            res matches Err(e) ==> e matches ContactError::ContactNotFound(m) && m@ == not_found_text(contact_id@)
                && final(self).spec_contacts() == old(self).spec_contacts(),
            res is Ok ==> final(self).spec_contacts() == old(self).spec_contacts().insert(
                contact_id@,
                Contact { last_seen: Some(now), ..old(self).spec_contacts()[contact_id@] },
            ),
    {
        self.change_contact(contact_id, &ContactChange::Seen(now))
    }

    /// Notes that the contact `contact_id` was seen now; an error where there is none.
    pub fn update_last_seen(&mut self, contact_id: &str) -> (res: Result<(), ContactError>)
        requires
            old(self).wf(),
        ensures
            final(self).wf(),
            final(self).spec_blocked() == old(self).spec_blocked(),
            old(self).spec_contacts().dom().contains(contact_id@) <==> res is Ok,
            res is Ok ==> exists|now: i64| final(self).spec_contacts() == old(self).spec_contacts().insert(
                contact_id@,
                #[trigger] changed(old(self).spec_contacts()[contact_id@], ContactChange::Seen(now)),
            ),
            res is Err ==> final(self).spec_contacts() == old(self).spec_contacts(),
    {
        let now = utc_now_millis();
        let ghost before = self.spec_contacts();
        let res = self.update_last_seen_at(contact_id, now);
        assert(res is Ok ==> self.spec_contacts() == before.insert(
            contact_id@,
            changed(before[contact_id@], ContactChange::Seen(now)),
        ));
        res
    }

    /// Notes that the contact `contact_id` was active at `now`: seen then, and online; an
    /// error where there is none.
    pub fn update_contact_activity_at(&mut self, contact_id: &str, now: i64) -> (res: Result<(), ContactError>)
        requires
            old(self).wf(),
        ensures
            final(self).wf(),
            final(self).spec_blocked() == old(self).spec_blocked(),
            old(self).spec_contacts().dom().contains(contact_id@) <==> res is Ok,
            res matches Err(e) ==> e matches ContactError::ContactNotFound(m) && m@ == not_found_text(contact_id@)
                && final(self).spec_contacts() == old(self).spec_contacts(),
            res is Ok ==> final(self).spec_contacts() == old(self).spec_contacts().insert(
                contact_id@,
                Contact { last_seen: Some(now), status: ContactStatus::Online, ..old(self).spec_contacts()[contact_id@] },
            ),
    {
        self.change_contact(contact_id, &ContactChange::Active(now))
    }

    /// Blocks the contact `contact_id` now; an error where there is none.
    pub fn block_contact(&mut self, contact_id: &str) -> (res: Result<(), ContactError>)
        requires
            old(self).wf(),
        ensures
            final(self).wf(),
            final(self).spec_contacts() == old(self).spec_contacts(),
            old(self).spec_contacts().dom().contains(contact_id@) <==> res is Ok,
            res is Ok ==> final(self).spec_blocked().dom() == old(self).spec_blocked().dom().insert(contact_id@)
                && final(self).spec_blocked()[contact_id@].reason@ == "Blocked by user"@,
            res is Err ==> final(self).spec_blocked() == old(self).spec_blocked(),
    {
        self.contact_book.block_contact(contact_id)
    }

    /// Unblocks `contact_id`; an error where it is not blocked.
    pub fn unblock_contact(&mut self, contact_id: &str) -> (res: Result<(), ContactError>)
        requires
            old(self).wf(),
        ensures
            final(self).wf(),
            final(self).spec_contacts() == old(self).spec_contacts(),
            final(self).spec_blocked() == old(self).spec_blocked().remove(contact_id@),
            old(self).spec_blocked().dom().contains(contact_id@) <==> res is Ok,
    {
        self.contact_book.unblock_contact(contact_id)
    }

    /// The blocked contacts: each contact with a blocked record, and no other.
    pub fn get_blocked_contacts(&self) -> (res: Vec<Contact>)
        requires
            self.wf(),
        ensures
            forall|c: Contact| res@.contains(c) ==> exists|k: Seq<char>| #[trigger] self.spec_blocked().dom().contains(k)
                && self.spec_contacts().dom().contains(k) && self.spec_contacts()[k] == c,
            forall|k: Seq<char>| #[trigger] self.spec_blocked().dom().contains(k) && self.spec_contacts().dom().contains(k)
                ==> res@.contains(self.spec_contacts()[k]),
    {
        let res = self.contact_book.get_blocked_contacts();
        proof {
            assert forall|c: Contact| res@.contains(c) implies exists|k: Seq<char>| #[trigger] self.spec_blocked().dom().contains(k)
                && self.spec_contacts().dom().contains(k) && self.spec_contacts()[k] == c by {
                let k = choose|k: Seq<char>| #[trigger] self.contact_book.spec_blocked().dom().contains(k)
                    && self.contact_book.spec_contacts().dom().contains(k) && self.contact_book.spec_contacts()[k] == c;
                assert(self.spec_blocked().dom().contains(k));
            }
        }
        res
    }

    /// Whether `contact_id` is blocked.
    pub fn is_contact_blocked(&self, contact_id: &str) -> (res: bool)
        requires
            self.wf(),
        ensures
            res == self.spec_blocked().dom().contains(contact_id@),
    {
        self.contact_book.is_blocked(contact_id)
    }

    /// The contacts whose name or address holds `query`, letter case aside, in the order they
    /// are kept.
    pub fn search_contacts(&self, query: &str) -> (res: Vec<Contact>)
        ensures
            res@ == self.spec_values().filter(crate::contacts::search_pred(query@)),
    {
        self.contact_book.select(&Selector::Search(query.to_owned()))
    }

    /// The trusted contacts, in the order they are kept.
    pub fn get_trusted_contacts(&self) -> (res: Vec<Contact>)
        ensures
            res@ == self.spec_values().filter(crate::contacts::trusted_pred()),
    {
        self.contact_book.select(&Selector::Trusted)
    }

    /// The online contacts, in the order they are kept.
    pub fn get_online_contacts(&self) -> (res: Vec<Contact>)
        ensures
            res@ == self.spec_values().filter(crate::contacts::online_pred()),
    {
        self.contact_book.select(&Selector::Online)
    }

    /// The contacts at `trust_level`, in the order they are kept.
    pub fn get_contacts_by_trust_level(&self, trust_level: TrustLevel) -> (res: Vec<Contact>)
        ensures
            res@ == self.spec_values().filter(crate::contacts::trust_pred(trust_level)),
    {
        self.contact_book.select(&Selector::Trust(trust_level))
    }

    /// The contacts with `status`, in the order they are kept.
    pub fn get_contacts_by_status(&self, status: ContactStatus) -> (res: Vec<Contact>)
        ensures
            res@ == self.spec_values().filter(crate::contacts::status_pred(status)),
    {
        self.contact_book.select(&Selector::Status(status))
    }

    /// The contacts whose name holds `name`, letter case aside.
    pub fn find_contacts_by_name(&self, name: &str) -> (res: Vec<Contact>)
        ensures
            res@ == self.spec_values().filter(crate::contacts::matching_name(name@)),
    {
        self.contact_book.find_contacts_by_name(name)
    }

    /// The contacts whose address holds `address`, letter case aside.
    pub fn find_contacts_by_address(&self, address: &str) -> (res: Vec<Contact>)
        ensures
            res@ == self.spec_values().filter(crate::contacts::matching_address(address@)),
    {
        self.contact_book.find_contacts_by_address(address)
    }

    /// How many contacts there are.
    pub fn get_contact_count(&self) -> (res: usize)
        requires
            self.wf(),
        ensures
            res == self.spec_contacts().dom().len(),
    {
        self.contact_book.get_contacts_count()
    }

    /// Forgets every contact and every blocked record.
    pub fn clear_all_contacts(&mut self)
        ensures
            final(self).wf(),
            final(self).spec_contacts() == Map::<Seq<char>, Contact>::empty(),
            final(self).spec_blocked() == Map::<Seq<char>, BlockedContactInfo>::empty(),
            final(self).spec_path() == old(self).spec_path(),
    {
        self.contact_book = ContactBook::new();
    }

    /// Takes each of `imported`, in order, whose identifier is not a contact yet (so of several
    /// with one identifier only the first); how many it took.
    pub fn import_contacts(&mut self, imported: Vec<Contact>) -> (res: Result<usize, ContactError>)
        requires
            old(self).wf(),
        ensures
            final(self).wf(),
            final(self).spec_blocked() == old(self).spec_blocked(),
            final(self).spec_contacts() == imported_contacts(old(self).spec_contacts(), imported@),
            res matches Ok(n) && n == count_new(old(self).spec_contacts(), imported@),
    {
        let ghost c0 = self.spec_contacts();
        let mut n: usize = 0;
        let mut i: usize = 0;
        while i < imported.len()
            invariant
                i <= imported@.len(),
                self.wf(),
                self.spec_blocked() == old(self).spec_blocked(),
                self.spec_contacts() == imported_contacts(c0, imported@.subrange(0, i as int)),
                n == count_new(c0, imported@.subrange(0, i as int)),
                n <= i,
            decreases imported@.len() - i,
        {
            let ghost next = imported@.subrange(0, i + 1);
            assert(next.drop_last() =~= imported@.subrange(0, i as int));
            let c = &imported[i];
            if !self.contact_book.has_contact(c.id.as_str()) {
                self.contact_book.add_contact(c.duplicate());
                n = n + 1;
            }
            i = i + 1;
        }
        assert(imported@.subrange(0, imported@.len() as int) =~= imported@);
        Ok(n)
    }

    /// Counts over the contacts: all, online, trusted, blocked records, pending.
    pub fn get_contact_stats(&self) -> (res: ContactStats)
        requires
            self.wf(),
        ensures
            res.total_contacts == self.spec_contacts().dom().len(),
            res.online_contacts == self.spec_values().filter(crate::contacts::online_pred()).len(),
            res.trusted_contacts == self.spec_values().filter(crate::contacts::trusted_pred()).len(),
            res.blocked_contacts == self.spec_blocked().dom().len(),
            res.pending_contacts == self.spec_values().filter(
                crate::contacts::trust_pred(TrustLevel::Pending),
            ).len(),
    {
        let total = self.contact_book.get_contacts_count();
        let online = self.contact_book.select(&Selector::Online).len();
        let trusted = self.contact_book.select(&Selector::Trusted).len();
        let blocked = self.contact_book.get_blocked_count();
        let pending = self.contact_book.select(&Selector::Trust(TrustLevel::Pending)).len();
        ContactStats {
            total_contacts: total,
            online_contacts: online,
            trusted_contacts: trusted,
            blocked_contacts: blocked,
            pending_contacts: pending,
        }
    }

    /// Marks offline every online contact last seen before `cutoff` (milliseconds since the
    /// Unix epoch); how many it marked.
    pub fn mark_contacts_offline_before(&mut self, cutoff: i64) -> (res: Result<u32, ContactError>)
        requires
            old(self).wf(),
            old(self).spec_values().len() <= u32::MAX,
        ensures
            final(self).wf(),
            final(self).spec_blocked() == old(self).spec_blocked(),
            final(self).spec_contacts().dom() == old(self).spec_contacts().dom(),
            forall|k: Seq<char>| #[trigger] old(self).spec_contacts().dom().contains(k) ==> final(self).spec_contacts()[k]
                == crate::contacts::stale_to_offline(old(self).spec_contacts()[k], cutoff),
            res matches Ok(n) && n == crate::contacts::count_stale(old(self).spec_values(), cutoff),
    {
        Ok(self.contact_book.mark_offline_before(cutoff))
    }

    /// Marks offline every online contact not seen for `older_than_minutes` minutes, by the
    /// machine's clock; how many it marked.
    pub fn mark_contacts_offline(&mut self, older_than_minutes: u32) -> (res: Result<u32, ContactError>)
        requires
            old(self).wf(),
            old(self).spec_values().len() <= u32::MAX,
        ensures
            final(self).wf(),
            final(self).spec_blocked() == old(self).spec_blocked(),
            final(self).spec_contacts().dom() == old(self).spec_contacts().dom(),
            res matches Ok(n) && exists|cutoff: i64| n == #[trigger] crate::contacts::count_stale(old(self).spec_values(), cutoff),
    {
        let now = utc_now_millis();
        let span: i64 = (older_than_minutes as i64) * 60_000;
        let cutoff: i64 = if now >= i64::MIN + span { now - span } else { i64::MIN };
        self.mark_contacts_offline_before(cutoff)
    }

    /// How the contact `contact_id` has been in touch, at `now` (milliseconds since the Unix
    /// epoch): whole days since last seen (none seen, or seen later: zero); an error where
    /// there is no such contact.
    pub fn get_contact_interaction_stats_at(&self, contact_id: &str, now: i64) -> (res: Result<ContactInteractionStats, ContactError>)
        requires
            self.wf(),
        ensures
            self.spec_contacts().dom().contains(contact_id@) <==> res is Ok,
            res matches Err(e) ==> e matches ContactError::ContactNotFound(m) && m@ == not_found_text(contact_id@),
            res matches Ok(st) ==> ({
                let c = self.spec_contacts()[contact_id@];
                &&& st.contact_id@ == contact_id@
                &&& st.days_since_last_seen == days_between(c.last_seen, now)
                &&& st.is_trusted == (c.trust_level == TrustLevel::Trusted)
                &&& st.is_blocked == self.spec_blocked().dom().contains(contact_id@)
                &&& st.current_status == c.status
                &&& st.trust_level == c.trust_level
            }),
    {
        match self.contact_book.get_contact(contact_id) {
            Some(c) => {
                let days: u32 = match c.last_seen {
                    Some(t) => {
                        let diff: i128 = (now as i128) - (t as i128);
                        if diff <= 0 {
                            0
                        } else {
                            (diff / 86_400_000) as u32
                        }
                    },
                    None => 0,
                };
                Ok(ContactInteractionStats {
                    contact_id: contact_id.to_owned(),
                    days_since_last_seen: days,
                    is_trusted: c.trust_level == TrustLevel::Trusted,
                    is_blocked: self.contact_book.is_blocked(contact_id),
                    current_status: c.status,
                    trust_level: c.trust_level,
                })
            },
            None => Err(crate::contacts::not_found(contact_id)),
        }
    }

    /// Whether `address` is of the form `host:port`: not empty, one colon, and after it a
    /// port number.
    pub fn is_valid_address(address: &str) -> (res: bool)
        ensures
            res == well_formed_address(address@),
    {
        let cs = crate::text::chars_of(address);
        if cs.len() == 0 {
            return false;
        }
        match port_of(address) {
            Some(_) => true,
            None => false,
        }
    }

    /// The problems of the stored contacts, in the order they are kept: an empty name, an
    /// empty address, an address not of the form `host:port`.
    pub fn validate_contact_data(&self) -> (res: Vec<ContactValidationIssue>)
        ensures
            res@.map_values(|i: ContactValidationIssue| issue_view(i)) == all_data_issues(self.spec_values()),
    {
        let cs = self.contact_book.values_in_order();
        let ghost vals = self.spec_values();
        let mut issues: Vec<ContactValidationIssue> = Vec::new();
        let mut i: usize = 0;
        while i < cs.len()
            invariant
                i <= cs@.len(),
                cs@ == vals,
                issues@.map_values(|i: ContactValidationIssue| issue_view(i)) == all_data_issues(vals.subrange(0, i as int)),
            decreases cs@.len() - i,
        {
            let ghost next = vals.subrange(0, i + 1);
            assert(next.drop_last() =~= vals.subrange(0, i as int));
            let ghost before = issues@.map_values(|i: ContactValidationIssue| issue_view(i));
            let c = &cs[i];
            let ghost e1: Seq<(Seq<char>, ContactIssueType, Seq<char>, IssueSeverity)> = if trim(c.name@).len() == 0 {
                seq![(c.id@, ContactIssueType::EmptyName, "Contact has empty name"@, IssueSeverity::Medium)]
            } else {
                Seq::empty()
            };
            let ghost e2: Seq<(Seq<char>, ContactIssueType, Seq<char>, IssueSeverity)> = if trim(c.address@).len() == 0 {
                seq![(c.id@, ContactIssueType::EmptyAddress, "Contact has empty address"@, IssueSeverity::High)]
            } else {
                Seq::empty()
            };
            let ghost e3: Seq<(Seq<char>, ContactIssueType, Seq<char>, IssueSeverity)> = if !well_formed_address(c.address@) {
                seq![(c.id@, ContactIssueType::InvalidAddress, "Invalid address format: "@ + c.address@, IssueSeverity::High)]
            } else {
                Seq::empty()
            };
            if crate::text::is_blank(c.name.as_str()) {
                issues.push(ContactValidationIssue {
                    contact_id: c.id.clone(),
                    issue_type: ContactIssueType::EmptyName,
                    description: "Contact has empty name".to_string(),
                    severity: IssueSeverity::Medium,
                });
            }
            assert(issues@.map_values(|i: ContactValidationIssue| issue_view(i)) =~= before + e1);
            if crate::text::is_blank(c.address.as_str()) {
                issues.push(ContactValidationIssue {
                    contact_id: c.id.clone(),
                    issue_type: ContactIssueType::EmptyAddress,
                    description: "Contact has empty address".to_string(),
                    severity: IssueSeverity::High,
                });
            }
            assert(issues@.map_values(|i: ContactValidationIssue| issue_view(i)) =~= before + e1 + e2);
            if !ContactManager::is_valid_address(c.address.as_str()) {
                let mut d = "Invalid address format: ".to_string();
                d.append(c.address.as_str());
                issues.push(ContactValidationIssue {
                    contact_id: c.id.clone(),
                    issue_type: ContactIssueType::InvalidAddress,
                    description: d,
                    severity: IssueSeverity::High,
                });
            }
            assert(issues@.map_values(|i: ContactValidationIssue| issue_view(i)) =~= before + e1 + e2 + e3);
            assert(next.last() == *c);
            assert(data_issues(*c) =~= e1 + e2 + e3);
            i = i + 1;
        }
        assert(vals.subrange(0, vals.len() as int) =~= vals);
        issues
    }

    /// Blocks, now, each of `contact_ids` that is a contact; how many blockings succeeded.
    pub fn batch_block_contacts(&mut self, contact_ids: Vec<String>) -> (res: Result<u32, ContactError>)
        requires
            old(self).wf(),
            contact_ids@.len() <= u32::MAX,
        ensures
            final(self).wf(),
            final(self).spec_contacts() == old(self).spec_contacts(),
            res matches Ok(n) && n == crate::contacts::count_known(old(self).spec_contacts(), contact_ids@),
            final(self).spec_blocked().dom() == old(self).spec_blocked().dom().union(
                ids_set(contact_ids@).intersect(old(self).spec_contacts().dom()),
            ),
    {
        let ghost c0 = self.spec_contacts();
        let ghost d0 = self.spec_blocked().dom();
        let mut n: u32 = 0;
        let mut i: usize = 0;
        while i < contact_ids.len()
            invariant
                i <= contact_ids@.len(),
                contact_ids@.len() <= u32::MAX,
                self.wf(),
                self.spec_contacts() == c0,
                self.spec_blocked().dom() == d0.union(ids_set(contact_ids@.subrange(0, i as int)).intersect(c0.dom())),
                n == crate::contacts::count_known(c0, contact_ids@.subrange(0, i as int)),
                n <= i,
            decreases contact_ids@.len() - i,
        {
            let ghost next = contact_ids@.subrange(0, i + 1);
            assert(next.drop_last() =~= contact_ids@.subrange(0, i as int));
            assert(ids_set(next) =~= ids_set(contact_ids@.subrange(0, i as int)).insert(contact_ids@[i as int]@)) by {
                assert forall|x: Seq<char>| ids_set(next).contains(x) <==> ids_set(contact_ids@.subrange(0, i as int)).insert(
                    contact_ids@[i as int]@,
                ).contains(x) by {
                    if ids_set(next).contains(x) {
                        let j = choose|j: int| 0 <= j < next.len() && #[trigger] next[j]@ == x;
                        if j < i {
                            assert(contact_ids@.subrange(0, i as int)[j]@ == x);
                        }
                    }
                    if ids_set(contact_ids@.subrange(0, i as int)).contains(x) {
                        let j = choose|j: int| 0 <= j < i && #[trigger] contact_ids@.subrange(0, i as int)[j]@ == x;
                        assert(next[j]@ == x);
                    }
                    if x == contact_ids@[i as int]@ {
                        assert(next[i as int]@ == x);
                    }
                }
            }
            let ok = self.block_contact(contact_ids[i].as_str()).is_ok();
            if ok {
                n = n + 1;
            }
            proof {
                assert(self.spec_blocked().dom() =~= d0.union(ids_set(next).intersect(c0.dom())));
            }
            i = i + 1;
        }
        assert(contact_ids@.subrange(0, contact_ids@.len() as int) =~= contact_ids@);
        Ok(n)
    }

    /// Unblocks each of `contact_ids`; how many unblockings succeeded.
    pub fn batch_unblock_contacts(&mut self, contact_ids: Vec<String>) -> (res: Result<u32, ContactError>)
        requires
            old(self).wf(),
            contact_ids@.len() <= u32::MAX,
        ensures
            final(self).wf(),
            final(self).spec_contacts() == old(self).spec_contacts(),
            final(self).spec_blocked() == crate::contacts::bulk_unblocked(old(self).spec_blocked(), contact_ids@),
            res matches Ok(n) && n == crate::contacts::count_unblocked(old(self).spec_blocked(), contact_ids@),
    {
        Ok(self.contact_book.bulk_unblock_contacts(contact_ids))
    }
}

} // verus!
