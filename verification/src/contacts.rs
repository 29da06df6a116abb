//! The contact book: contacts by identifier, and the blocked ones with why and when.
use vstd::prelude::*;
use crate::clock::utc_now_millis;
use crate::keyed::{find_key, keys_unique, lemma_pairs_map_at, lemma_pairs_map_dom, lemma_pairs_map_len,
    lemma_values_are_map_values, map_insert, map_remove, pairs_map, values_of};
use crate::network::{Contact, ContactStatus};
use crate::text::{contains_seq, is_blank, lowercase, lowercase_contains, trim};

verus! {

/// Errors of contact handling.
#[derive(Debug)]
pub enum ContactError {
    InvalidContact(String),
    ContactNotFound(String),
    ContactExists(String),
    SerializationError(String),
    IoError(String),
}

impl ContactError {
    /// The error's message: its heading, then its detail.
    pub fn message(&self) -> (res: String)
        ensures
            res@ == match self {
                ContactError::InvalidContact(m) => "Invalid contact: "@ + m@,
                ContactError::ContactNotFound(m) => "Contact not found: "@ + m@,
                ContactError::ContactExists(m) => "Contact exists: "@ + m@,
                ContactError::SerializationError(m) => "Serialization error: "@ + m@,
                ContactError::IoError(m) => "IO error: "@ + m@,
            },
    {
        let (mut head, detail) = match self {
            ContactError::InvalidContact(m) => ("Invalid contact: ".to_string(), m),
            ContactError::ContactNotFound(m) => ("Contact not found: ".to_string(), m),
            ContactError::ContactExists(m) => ("Contact exists: ".to_string(), m),
            ContactError::SerializationError(m) => ("Serialization error: ".to_string(), m),
            ContactError::IoError(m) => ("IO error: ".to_string(), m),
        };
        head.append(detail.as_str());
        head
    }
}

/// Counts over the contact book.
#[derive(Debug, Clone, Copy, PartialEq, Eq, Structural)]
pub struct ContactStats {
    pub total_contacts: usize,
    pub online_contacts: usize,
    pub trusted_contacts: usize,
    pub blocked_contacts: usize,
    pub pending_contacts: usize,
}

/// Why and when a contact was blocked.
#[derive(Debug, Clone)]
pub struct BlockedContactInfo {
    /// Milliseconds since the Unix epoch.
    pub blocked_at: i64,
    pub reason: String,
    pub blocked_by_user: bool,
}

impl BlockedContactInfo {
    /// A copy of the record.
    pub fn duplicate(&self) -> (res: Self)
        ensures
            res == *self,
    {
        BlockedContactInfo { blocked_at: self.blocked_at, reason: self.reason.clone(), blocked_by_user: self.blocked_by_user }
    }
}

/// A contact of another book that differs, in name or address, from the one kept here.
#[derive(Debug, Clone)]
pub struct ContactMergeConflict {
    pub contact_id: String,
    pub existing_contact: Contact,
    pub incoming_contact: Contact,
}

/// What a merge of contact books did.
#[derive(Debug, Clone)]
pub struct MergeResult {
    pub contacts_added: u32,
    pub contacts_updated: u32,
    pub conflicts: Vec<ContactMergeConflict>,
    /// Milliseconds since the Unix epoch.
    pub merge_time: i64,
}

/// The message of a contact that was looked for and not found.
pub open spec fn not_found_text(id: Seq<char>) -> Seq<char> {
    "Contact with ID "@ + id + " not found"@
}

/// The message of a blocked contact that was looked for and not found.
pub open spec fn blocked_not_found_text(id: Seq<char>) -> Seq<char> {
    "Blocked contact with ID "@ + id + " not found"@
}

/// `Contact with ID <id> not found`.
pub fn not_found(id: &str) -> (res: ContactError)
    ensures
        res matches ContactError::ContactNotFound(m) && m@ == not_found_text(id@),
{
    let mut m = "Contact with ID ".to_string();
    m.append(id);
    m.append(" not found");
    ContactError::ContactNotFound(m)
}

/// The contacts of `m` whose field `f` holds `q`, letter case aside.
pub open spec fn matching_name(q: Seq<char>) -> spec_fn(Contact) -> bool {
    |c: Contact| contains_seq(lowercase(c.name@), lowercase(q))
}

/// The contacts whose address holds `q`, letter case aside.
pub open spec fn matching_address(q: Seq<char>) -> spec_fn(Contact) -> bool {
    |c: Contact| contains_seq(lowercase(c.address@), lowercase(q))
}

/// The contact book after merging in `theirs`, pair by pair: a contact that is here already
/// under the same identifier with another name or address stays as it is; any other is taken.
pub open spec fn merged_contacts(mine: Map<Seq<char>, Contact>, theirs: Seq<(String, Contact)>) -> Map<Seq<char>, Contact>
    decreases theirs.len(),
{
    if theirs.len() == 0 {
        mine
    } else {
        let m = merged_contacts(mine, theirs.drop_last());
        let (id, c) = theirs.last();
        if conflicts_with(m, id@, c) {
            m
        } else {
            m.insert(id@, c)
        }
    }
}

/// Whether `c` under `id` conflicts with `m`: `m` has `id` with another name or address.
pub open spec fn conflicts_with(m: Map<Seq<char>, Contact>, id: Seq<char>, c: Contact) -> bool {
    m.dom().contains(id) && (m[id].name@ != c.name@ || m[id].address@ != c.address@)
}

/// How many contacts of `theirs` a merge into `mine` adds and how many it updates.
pub open spec fn merge_counts(mine: Map<Seq<char>, Contact>, theirs: Seq<(String, Contact)>) -> (nat, nat)
    decreases theirs.len(),
{
    if theirs.len() == 0 {
        (0, 0)
    } else {
        let m = merged_contacts(mine, theirs.drop_last());
        let (a, u) = merge_counts(mine, theirs.drop_last());
        let (id, c) = theirs.last();
        if conflicts_with(m, id@, c) {
            (a, u)
        } else if m.dom().contains(id@) {
            (a, u + 1)
        } else {
            (a + 1, u)
        }
    }
}

/// The conflicts of a merge of `theirs` into `mine`, in order: the identifier, the contact
/// kept here, and the contact of `theirs` that was not taken.
pub open spec fn merge_conflicts(mine: Map<Seq<char>, Contact>, theirs: Seq<(String, Contact)>) -> Seq<(Seq<char>, Contact, Contact)>
    decreases theirs.len(),
{
    if theirs.len() == 0 {
        Seq::empty()
    } else {
        let m = merged_contacts(mine, theirs.drop_last());
        let (id, c) = theirs.last();
        if conflicts_with(m, id@, c) {
            merge_conflicts(mine, theirs.drop_last()).push((id@, m[id@], c))
        } else {
            merge_conflicts(mine, theirs.drop_last())
        }
    }
}

/// A conflict record as its identifier, the contact kept and the contact not taken.
pub open spec fn conflict_view(c: ContactMergeConflict) -> (Seq<char>, Contact, Contact) {
    (c.contact_id@, c.existing_contact, c.incoming_contact)
}

/// The blocked records after merging in `theirs`: those here stay; the others are taken.
pub open spec fn merged_blocked(mine: Map<Seq<char>, BlockedContactInfo>, theirs: Seq<(String, BlockedContactInfo)>) -> Map<Seq<char>, BlockedContactInfo>
    decreases theirs.len(),
{
    if theirs.len() == 0 {
        mine
    } else {
        let m = merged_blocked(mine, theirs.drop_last());
        let (id, b) = theirs.last();
        if m.dom().contains(id@) {
            m
        } else {
            m.insert(id@, b)
        }
    }
}

/// The blocked records after blocking each of `ids` that is a contact, in order.
pub open spec fn bulk_blocked(
    blocked: Map<Seq<char>, BlockedContactInfo>,
    contacts: Map<Seq<char>, Contact>,
    ids: Seq<String>,
    info: BlockedContactInfo,
) -> Map<Seq<char>, BlockedContactInfo>
    decreases ids.len(),
{
    if ids.len() == 0 {
        blocked
    } else {
        let m = bulk_blocked(blocked, contacts, ids.drop_last(), info);
        if contacts.dom().contains(ids.last()@) {
            m.insert(ids.last()@, info)
        } else {
            m
        }
    }
}

/// How many of `ids` are contacts, counting repeats.
pub open spec fn count_known(contacts: Map<Seq<char>, Contact>, ids: Seq<String>) -> nat
    decreases ids.len(),
{
    if ids.len() == 0 {
        0
    } else {
        count_known(contacts, ids.drop_last()) + if contacts.dom().contains(ids.last()@) { 1nat } else { 0nat }
    }
}

/// The blocked records after unblocking each of `ids`, in order.
pub open spec fn bulk_unblocked(blocked: Map<Seq<char>, BlockedContactInfo>, ids: Seq<String>) -> Map<Seq<char>, BlockedContactInfo>
    decreases ids.len(),
{
    if ids.len() == 0 {
        blocked
    } else {
        bulk_unblocked(blocked, ids.drop_last()).remove(ids.last()@)
    }
}

/// How many of `ids` unblocking in order finds blocked.
pub open spec fn count_unblocked(blocked: Map<Seq<char>, BlockedContactInfo>, ids: Seq<String>) -> nat
    decreases ids.len(),
{
    if ids.len() == 0 {
        0
    } else {
        count_unblocked(blocked, ids.drop_last()) + if bulk_unblocked(blocked, ids.drop_last()).dom().contains(ids.last()@) {
            1nat
        } else {
            0nat
        }
    }
}

/// The blocked records that importing `list` takes: those of contacts.
pub open spec fn imported_blocked(
    blocked: Map<Seq<char>, BlockedContactInfo>,
    contacts: Map<Seq<char>, Contact>,
    list: Seq<(String, BlockedContactInfo)>,
) -> Map<Seq<char>, BlockedContactInfo>
    decreases list.len(),
{
    if list.len() == 0 {
        blocked
    } else {
        let m = imported_blocked(blocked, contacts, list.drop_last());
        if contacts.dom().contains(list.last().0@) {
            m.insert(list.last().0@, list.last().1)
        } else {
            m
        }
    }
}

/// How many records of `list` are of contacts.
pub open spec fn count_imported(contacts: Map<Seq<char>, Contact>, list: Seq<(String, BlockedContactInfo)>) -> nat
    decreases list.len(),
{
    if list.len() == 0 {
        0
    } else {
        count_imported(contacts, list.drop_last()) + if contacts.dom().contains(list.last().0@) { 1nat } else { 0nat }
    }
}

/// The problems found with one entry of the book.
pub open spec fn entry_issues(id: Seq<char>, c: Contact) -> Seq<Seq<char>> {
    (if c.id@ != id {
        seq!["Contact ID mismatch: "@ + c.id@ + " vs "@ + id]
    } else {
        Seq::empty()
    }) + (if trim(c.name@).len() == 0 {
        seq!["Contact "@ + id + " has empty name"@]
    } else {
        Seq::empty()
    }) + (if trim(c.address@).len() == 0 {
        seq!["Contact "@ + id + " has empty address"@]
    } else {
        Seq::empty()
    })
}

/// The problems found with the entries `s`, in order.
pub open spec fn contact_issues(s: Seq<(String, Contact)>) -> Seq<Seq<char>>
    decreases s.len(),
{
    if s.len() == 0 {
        Seq::empty()
    } else {
        contact_issues(s.drop_last()) + entry_issues(s.last().0@, s.last().1)
    }
}

/// The blocked records of `s` that name no contact of `contacts`, as problems, in order.
pub open spec fn orphan_issues(s: Seq<(String, BlockedContactInfo)>, contacts: Map<Seq<char>, Contact>) -> Seq<Seq<char>>
    decreases s.len(),
{
    if s.len() == 0 {
        Seq::empty()
    } else {
        orphan_issues(s.drop_last(), contacts) + if contacts.dom().contains(s.last().0@) {
            Seq::empty()
        } else {
            seq!["Blocked contact "@ + s.last().0@ + " not found in contacts"@]
        }
    }
}

/// The contacts, by identifier, and the blocked ones.
pub struct ContactBook {
    contacts: Vec<(String, Contact)>,
    blocked_contacts: Vec<(String, BlockedContactInfo)>,
}

impl ContactBook {
    /// The contacts by identifier.
    pub closed spec fn spec_contacts(&self) -> Map<Seq<char>, Contact> {
        pairs_map(self.contacts@)
    }

    /// The blocked records by identifier.
    pub closed spec fn spec_blocked(&self) -> Map<Seq<char>, BlockedContactInfo> {
        pairs_map(self.blocked_contacts@)
    }

    /// The entries of the book, in the order it keeps them.
    pub closed spec fn spec_entries(&self) -> Seq<(String, Contact)> {
        self.contacts@
    }

    /// The blocked records, in the order the book keeps them.
    pub closed spec fn spec_blocked_entries(&self) -> Seq<(String, BlockedContactInfo)> {
        self.blocked_contacts@
    }

    /// Each identifier is kept once.
    pub closed spec fn wf(&self) -> bool {
        keys_unique(self.contacts@) && keys_unique(self.blocked_contacts@)
    }

    /// The entries of a well-formed book hold each identifier once and make up its map of
    /// contacts, which is finite with one key per entry; so do the blocked records.
    pub proof fn lemma_entries(&self)
        requires
            self.wf(),
        ensures
            keys_unique(self.spec_entries()),
            pairs_map(self.spec_entries()) == self.spec_contacts(),
            self.spec_contacts().dom().finite(),
            self.spec_contacts().dom().len() == self.spec_entries().len(),
            keys_unique(self.spec_blocked_entries()),
            pairs_map(self.spec_blocked_entries()) == self.spec_blocked(),
            self.spec_blocked().dom().finite(),
            self.spec_blocked().dom().len() == self.spec_blocked_entries().len(),
    {
        lemma_pairs_map_len(self.contacts@);
        lemma_pairs_map_len(self.blocked_contacts@);
    }

    /// An empty book.
    pub fn new() -> (res: Self)
        ensures
            res.wf(),
            res.spec_contacts() == Map::<Seq<char>, Contact>::empty(),
            res.spec_blocked() == Map::<Seq<char>, BlockedContactInfo>::empty(),
    {
        ContactBook { contacts: Vec::new(), blocked_contacts: Vec::new() }
    }

    /// A book of the given entries and blocked records, as loaded; the keys of each must be
    /// distinct, as those of a map are.
    pub fn from_entries(contacts: Vec<(String, Contact)>, blocked: Vec<(String, BlockedContactInfo)>) -> (res: Self)
        requires
            keys_unique(contacts@),
            keys_unique(blocked@),
        ensures
            res.wf(),
            res.spec_entries() == contacts@,
            res.spec_blocked_entries() == blocked@,
            res.spec_contacts() == pairs_map(contacts@),
            res.spec_blocked() == pairs_map(blocked@),
    {
        ContactBook { contacts, blocked_contacts: blocked }
    }

    /// Files `contact` under its identifier, in place of any contact there.
    pub fn add_contact(&mut self, contact: Contact) -> (res: Result<(), ContactError>)
        requires
            old(self).wf(),
        ensures
            final(self).wf(),
            res is Ok,
            final(self).spec_contacts() == old(self).spec_contacts().insert(contact.id@, contact),
            final(self).spec_blocked() == old(self).spec_blocked(),
    {
        let id = contact.id.clone();
        map_insert(&mut self.contacts, id, contact);
        Ok(())
    }

    /// Removes the contact `contact_id`, and its blocked record; an error where there is no
    /// such contact.
    pub fn remove_contact(&mut self, contact_id: &str) -> (res: Result<(), ContactError>)
        requires
            old(self).wf(),
        ensures
            final(self).wf(),
            !old(self).spec_contacts().dom().contains(contact_id@) ==> (res matches Err(
                ContactError::ContactNotFound(m),
            ) && m@ == not_found_text(contact_id@) && final(self).spec_contacts() == old(self).spec_contacts()
                && final(self).spec_blocked() == old(self).spec_blocked()),
            old(self).spec_contacts().dom().contains(contact_id@) ==> (res is Ok && final(self).spec_contacts()
                == old(self).spec_contacts().remove(contact_id@) && final(self).spec_blocked() == old(
                self,
            ).spec_blocked().remove(contact_id@)),
    {
        match find_key(&self.contacts, contact_id) {
            None => {
                return Err(not_found(contact_id));
            },
            Some(i) => {
                proof {
                    lemma_pairs_map_at(self.contacts@, i as int);
                }
            },
        }
        map_remove(&mut self.contacts, contact_id);
        map_remove(&mut self.blocked_contacts, contact_id);
        Ok(())
    }

    /// The contact `contact_id`.
    pub fn get_contact(&self, contact_id: &str) -> (res: Option<&Contact>)
        requires
            self.wf(),
        ensures
            self.spec_contacts().dom().contains(contact_id@) <==> res is Some,
            res matches Some(c) ==> *c == self.spec_contacts()[contact_id@],
    {
        match find_key(&self.contacts, contact_id) {
            Some(i) => {
                proof {
                    lemma_pairs_map_at(self.contacts@, i as int);
                }
                Some(&self.contacts[i].1)
            },
            None => None,
        }
    }

    /// Every contact, once each.
    pub fn get_contacts(&self) -> (res: Vec<Contact>)
        requires
            self.wf(),
        ensures
            res@.len() == self.spec_contacts().dom().len(),
            forall|c: Contact| res@.contains(c) <==> exists|k: Seq<char>| #[trigger] self.spec_contacts().dom().contains(k)
                && self.spec_contacts()[k] == c,
    {
        let mut res: Vec<Contact> = Vec::new();
        let mut i: usize = 0;
        while i < self.contacts.len()
            invariant
                i <= self.contacts@.len(),
                res@ == values_of(self.contacts@).subrange(0, i as int),
            decreases self.contacts@.len() - i,
        {
            res.push(self.contacts[i].1.duplicate());
            i = i + 1;
            assert(res@ =~= values_of(self.contacts@).subrange(0, i as int));
        }
        assert(values_of(self.contacts@).subrange(0, self.contacts@.len() as int) =~= values_of(self.contacts@));
        proof {
            lemma_pairs_map_len(self.contacts@);
            lemma_values_are_map_values(self.contacts@);
            assert(res@ == values_of(self.contacts@));
            assert forall|c: Contact| res@.contains(c) <==> exists|k: Seq<char>| #[trigger] self.spec_contacts().dom().contains(k)
                && self.spec_contacts()[k] == c by {
                assert(res@.contains(c) == values_of(self.contacts@).contains(c));
                assert(self.spec_contacts() == pairs_map(self.contacts@));
                if res@.contains(c) {
                    let k = choose|k: Seq<char>| #[trigger] pairs_map(self.contacts@).dom().contains(k)
                        && pairs_map(self.contacts@)[k] == c;
                    assert(self.spec_contacts().dom().contains(k));
                }
                if exists|k: Seq<char>| #[trigger] self.spec_contacts().dom().contains(k) && self.spec_contacts()[k] == c {
                    let k = choose|k: Seq<char>| #[trigger] self.spec_contacts().dom().contains(k) && self.spec_contacts()[k] == c;
                    assert(pairs_map(self.contacts@).dom().contains(k));
                }
            }
        }
        res
    }

    /// The contacts, in the book's order, whose name (or, with `by_address`, address) holds
    /// `q`, letter case aside.
    fn contacts_matching(&self, q: &str, by_address: bool) -> (res: Vec<Contact>)
        ensures
            res@ == values_of(self.contacts@).filter(
                if by_address { matching_address(q@) } else { matching_name(q@) },
            ),
    {
        let ghost pred = if by_address { matching_address(q@) } else { matching_name(q@) };
        let mut kept: Vec<Contact> = Vec::new();
        let mut i: usize = 0;
        while i < self.contacts.len()
            invariant
                i <= self.contacts@.len(),
                pred == (if by_address { matching_address(q@) } else { matching_name(q@) }),
                kept@ == values_of(self.contacts@).subrange(0, i as int).filter(pred),
            decreases self.contacts@.len() - i,
        {
            let c = &self.contacts[i].1;
            let ghost pre = values_of(self.contacts@).subrange(0, i as int);
            let ghost next = values_of(self.contacts@).subrange(0, i + 1);
            assert(next.drop_last() =~= pre);
            assert(next.last() == *c);
            assert(next.filter(pred) == (if pred(*c) { pre.filter(pred).push(*c) } else { pre.filter(pred) })) by {
                reveal(Seq::filter);
            }
            let hit = if by_address {
                lowercase_contains(c.address.as_str(), q)
            } else {
                lowercase_contains(c.name.as_str(), q)
            };
            if hit {
                kept.push(c.duplicate());
            }
            i = i + 1;
        }
        assert(values_of(self.contacts@).subrange(0, self.contacts@.len() as int) =~= values_of(self.contacts@));
        kept
    }

    /// Whether `contact_id` is a contact.
    pub fn has_contact(&self, contact_id: &str) -> (res: bool)
        requires
            self.wf(),
        ensures
            res == self.spec_contacts().dom().contains(contact_id@),
    {
        match find_key(&self.contacts, contact_id) {
            Some(i) => {
                proof {
                    lemma_pairs_map_at(self.contacts@, i as int);
                }
                true
            },
            None => false,
        }
    }

    /// Whether `contact_id` is blocked.
    pub fn is_blocked(&self, contact_id: &str) -> (res: bool)
        requires
            self.wf(),
        ensures
            res == self.spec_blocked().dom().contains(contact_id@),
    {
        match find_key(&self.blocked_contacts, contact_id) {
            Some(i) => {
                proof {
                    lemma_pairs_map_at(self.blocked_contacts@, i as int);
                }
                true
            },
            None => false,
        }
    }

    /// Sets the status of the contact `contact_id`; an error where there is no such contact.
    pub fn update_contact_status(&mut self, contact_id: &str, status: ContactStatus) -> (res: Result<(), ContactError>)
        requires
            old(self).wf(),
        ensures
            final(self).wf(),
            final(self).spec_blocked() == old(self).spec_blocked(),
            !old(self).spec_contacts().dom().contains(contact_id@) ==> (res matches Err(
                ContactError::ContactNotFound(m),
            ) && m@ == not_found_text(contact_id@) && final(self).spec_contacts() == old(self).spec_contacts()),
            old(self).spec_contacts().dom().contains(contact_id@) ==> (res is Ok && final(self).spec_contacts()
                == old(self).spec_contacts().insert(
                contact_id@,
                Contact { status, ..old(self).spec_contacts()[contact_id@] },
            )),
    {
        match find_key(&self.contacts, contact_id) {
            Some(i) => {
                let ghost before = self.contacts@;
                proof {
                    lemma_pairs_map_at(before, i as int);
                }
                let (k, mut c) = self.contacts.remove(i);
                c.status = status;
                let ghost p = (k, c);
                self.contacts.insert(i, (k, c));
                proof {
                    assert(self.contacts@ =~= before.update(i as int, p));
                    crate::keyed::lemma_pairs_map_set(before, i as int, p);
                }
                Ok(())
            },
            None => Err(not_found(contact_id)),
        }
    }

    /// Blocks the contact `contact_id` at `now` (milliseconds since the Unix epoch) for
    /// `reason`; an error where there is no such contact.
    pub fn block_contact_with_reason_at(&mut self, contact_id: &str, reason: String, now: i64) -> (res: Result<(), ContactError>)
        requires
            old(self).wf(),
        ensures
            final(self).wf(),
            final(self).spec_contacts() == old(self).spec_contacts(),
            !old(self).spec_contacts().dom().contains(contact_id@) ==> (res matches Err(
                ContactError::ContactNotFound(m),
            ) && m@ == not_found_text(contact_id@) && final(self).spec_blocked() == old(self).spec_blocked()),
            old(self).spec_contacts().dom().contains(contact_id@) ==> (res is Ok && final(self).spec_blocked()
                == old(self).spec_blocked().insert(
                contact_id@,
                BlockedContactInfo { blocked_at: now, reason, blocked_by_user: true },
            )),
    {
        if !self.has_contact(contact_id) {
            return Err(not_found(contact_id));
        }
        let info = BlockedContactInfo { blocked_at: now, reason, blocked_by_user: true };
        map_insert(&mut self.blocked_contacts, contact_id.to_owned(), info);
        Ok(())
    }

    /// Blocks the contact `contact_id` now, for `reason`.
    pub fn block_contact_with_reason(&mut self, contact_id: &str, reason: String) -> (res: Result<(), ContactError>)
        requires
            old(self).wf(),
        ensures
            final(self).wf(),
            final(self).spec_contacts() == old(self).spec_contacts(),
            old(self).spec_contacts().dom().contains(contact_id@) <==> res is Ok,
            res matches Err(e) ==> e matches ContactError::ContactNotFound(m) && m@ == not_found_text(contact_id@)
                && final(self).spec_blocked() == old(self).spec_blocked(),
            res is Ok ==> final(self).spec_blocked().dom() == old(self).spec_blocked().dom().insert(contact_id@)
                && final(self).spec_blocked()[contact_id@].reason == reason
                && final(self).spec_blocked()[contact_id@].blocked_by_user
                && forall|k: Seq<char>| k != contact_id@ && #[trigger] old(self).spec_blocked().dom().contains(k)
                    ==> final(self).spec_blocked()[k] == old(self).spec_blocked()[k],
    {
        let now = utc_now_millis();
        self.block_contact_with_reason_at(contact_id, reason, now)
    }

    /// Blocks the contact `contact_id` now, by the user's choice.
    pub fn block_contact(&mut self, contact_id: &str) -> (res: Result<(), ContactError>)
        requires
            old(self).wf(),
        ensures
            final(self).wf(),
            final(self).spec_contacts() == old(self).spec_contacts(),
            old(self).spec_contacts().dom().contains(contact_id@) <==> res is Ok,
            res matches Err(e) ==> e matches ContactError::ContactNotFound(m) && m@ == not_found_text(contact_id@)
                && final(self).spec_blocked() == old(self).spec_blocked(),
            res is Ok ==> final(self).spec_blocked().dom() == old(self).spec_blocked().dom().insert(contact_id@)
                && final(self).spec_blocked()[contact_id@].reason@ == "Blocked by user"@
                && final(self).spec_blocked()[contact_id@].blocked_by_user
                && forall|k: Seq<char>| k != contact_id@ && #[trigger] old(self).spec_blocked().dom().contains(k)
                    ==> final(self).spec_blocked()[k] == old(self).spec_blocked()[k],
    {
        self.block_contact_with_reason(contact_id, "Blocked by user".to_string())
    }

    /// Unblocks `contact_id`; an error where it is not blocked.
    pub fn unblock_contact(&mut self, contact_id: &str) -> (res: Result<(), ContactError>)
        requires
            old(self).wf(),
        ensures
            final(self).wf(),
            final(self).spec_contacts() == old(self).spec_contacts(),
            final(self).spec_blocked() == old(self).spec_blocked().remove(contact_id@),
            old(self).spec_blocked().dom().contains(contact_id@) <==> res is Ok,
            res matches Err(e) ==> e matches ContactError::ContactNotFound(m) && m@ == blocked_not_found_text(
                contact_id@,
            ),
    {
        if map_remove(&mut self.blocked_contacts, contact_id) {
            Ok(())
        } else {
            let mut m = "Blocked contact with ID ".to_string();
            m.append(contact_id);
            m.append(" not found");
            Err(ContactError::ContactNotFound(m))
        }
    }

    /// The identifiers of the blocked contacts, once each.
    pub fn get_blocked_contact_ids(&self) -> (res: Vec<String>)
        requires
            self.wf(),
        ensures
            res@.len() == self.spec_blocked().dom().len(),
            forall|k: Seq<char>| self.spec_blocked().dom().contains(k) <==> exists|i: int| 0 <= i < res@.len()
                && #[trigger] res@[i]@ == k,
    {
        let mut res: Vec<String> = Vec::new();
        let mut i: usize = 0;
        while i < self.blocked_contacts.len()
            invariant
                i <= self.blocked_contacts@.len(),
                res@.len() == i,
                forall|j: int| 0 <= j < i ==> #[trigger] res@[j]@ == self.blocked_contacts@[j].0@,
            decreases self.blocked_contacts@.len() - i,
        {
            res.push(self.blocked_contacts[i].0.clone());
            i = i + 1;
        }
        proof {
            lemma_pairs_map_len(self.blocked_contacts@);
            assert forall|k: Seq<char>| self.spec_blocked().dom().contains(k) <==> exists|i: int| 0 <= i < res@.len()
                && #[trigger] res@[i]@ == k by {
                lemma_pairs_map_dom(self.blocked_contacts@, k);
                if self.spec_blocked().dom().contains(k) {
                    let i = choose|i: int| 0 <= i < self.blocked_contacts@.len() && #[trigger] self.blocked_contacts@[i].0@ == k;
                    assert(res@[i]@ == k);
                }
                if exists|i: int| 0 <= i < res@.len() && #[trigger] res@[i]@ == k {
                    let i = choose|i: int| 0 <= i < res@.len() && #[trigger] res@[i]@ == k;
                    assert(self.blocked_contacts@[i].0@ == k);
                }
            }
        }
        res
    }

    /// The contacts that are blocked, in the order of the blocked records.
    pub fn get_blocked_contacts(&self) -> (res: Vec<Contact>)
        requires
            self.wf(),
        ensures
            forall|c: Contact| res@.contains(c) ==> exists|k: Seq<char>| #[trigger] self.spec_blocked().dom().contains(k)
                && self.spec_contacts().dom().contains(k) && self.spec_contacts()[k] == c,
            forall|k: Seq<char>| #[trigger] self.spec_blocked().dom().contains(k) && self.spec_contacts().dom().contains(k)
                ==> res@.contains(self.spec_contacts()[k]),
    {
        let mut res: Vec<Contact> = Vec::new();
        let mut i: usize = 0;
        while i < self.blocked_contacts.len()
            invariant
                i <= self.blocked_contacts@.len(),
                keys_unique(self.blocked_contacts@),
                keys_unique(self.contacts@),
                forall|c: Contact| res@.contains(c) ==> exists|k: Seq<char>| #[trigger] pairs_map(self.blocked_contacts@).dom().contains(k)
                    && pairs_map(self.contacts@).dom().contains(k) && pairs_map(self.contacts@)[k] == c,
                forall|j: int| 0 <= j < i && #[trigger] pairs_map(self.contacts@).dom().contains(self.blocked_contacts@[j].0@)
                    ==> res@.contains(pairs_map(self.contacts@)[self.blocked_contacts@[j].0@]),
            decreases self.blocked_contacts@.len() - i,
        {
            let id = &self.blocked_contacts[i].0;
            proof {
                lemma_pairs_map_at(self.blocked_contacts@, i as int);
            }
            match find_key(&self.contacts, id.as_str()) {
                Some(j) => {
                    proof {
                        lemma_pairs_map_at(self.contacts@, j as int);
                    }
                    let ghost before = res@;
                    res.push(self.contacts[j].1.duplicate());
                    proof {
                        assert forall|c: Contact| res@.contains(c) implies exists|k: Seq<char>| #[trigger] pairs_map(self.blocked_contacts@).dom().contains(k)
                            && pairs_map(self.contacts@).dom().contains(k) && pairs_map(self.contacts@)[k] == c by {
                            if !before.contains(c) {
                                assert(c == res@.last());
                                assert(pairs_map(self.blocked_contacts@).dom().contains(id@));
                            }
                        }
                        assert forall|x: int| 0 <= x < i + 1 && #[trigger] pairs_map(self.contacts@).dom().contains(self.blocked_contacts@[x].0@)
                            implies res@.contains(pairs_map(self.contacts@)[self.blocked_contacts@[x].0@]) by {
                            if x < i {
                                let c = pairs_map(self.contacts@)[self.blocked_contacts@[x].0@];
                                let w = choose|w: int| 0 <= w < before.len() && before[w] == c;
                                assert(res@[w] == c);
                            } else {
                                assert(res@[res@.len() - 1] == pairs_map(self.contacts@)[self.blocked_contacts@[x].0@]);
                            }
                        }
                    }
                },
                None => {},
            }
            i = i + 1;
        }
        proof {
            assert forall|c: Contact| res@.contains(c) implies exists|k: Seq<char>| #[trigger] self.spec_blocked().dom().contains(k)
                && self.spec_contacts().dom().contains(k) && self.spec_contacts()[k] == c by {
                let k = choose|k: Seq<char>| #[trigger] pairs_map(self.blocked_contacts@).dom().contains(k)
                    && pairs_map(self.contacts@).dom().contains(k) && pairs_map(self.contacts@)[k] == c;
                assert(self.spec_blocked().dom().contains(k));
            }
            assert forall|k: Seq<char>| #[trigger] self.spec_blocked().dom().contains(k) && self.spec_contacts().dom().contains(k)
                implies res@.contains(self.spec_contacts()[k]) by {
                lemma_pairs_map_dom(self.blocked_contacts@, k);
                let j = choose|j: int| 0 <= j < self.blocked_contacts@.len() && #[trigger] self.blocked_contacts@[j].0@ == k;
                assert(pairs_map(self.contacts@).dom().contains(self.blocked_contacts@[j].0@));
            }
        }
        res
    }

    /// The blocked record of `contact_id`.
    pub fn get_blocked_contact_info(&self, contact_id: &str) -> (res: Option<&BlockedContactInfo>)
        requires
            self.wf(),
        ensures
            self.spec_blocked().dom().contains(contact_id@) <==> res is Some,
            res matches Some(b) ==> *b == self.spec_blocked()[contact_id@],
    {
        match find_key(&self.blocked_contacts, contact_id) {
            Some(i) => {
                proof {
                    lemma_pairs_map_at(self.blocked_contacts@, i as int);
                }
                Some(&self.blocked_contacts[i].1)
            },
            None => None,
        }
    }

    /// The blocked records, each with its identifier.
    pub fn get_all_blocked_info(&self) -> (res: Vec<(String, BlockedContactInfo)>)
        requires
            self.wf(),
        ensures
            keys_unique(res@),
            pairs_map(res@) == self.spec_blocked(),
    {
        let mut res: Vec<(String, BlockedContactInfo)> = Vec::new();
        let mut i: usize = 0;
        while i < self.blocked_contacts.len()
            invariant
                i <= self.blocked_contacts@.len(),
                keys_unique(self.blocked_contacts@),
                res@ == self.blocked_contacts@.subrange(0, i as int),
            decreases self.blocked_contacts@.len() - i,
        {
            let (k, b) = (&self.blocked_contacts[i].0, &self.blocked_contacts[i].1);
            res.push((k.clone(), b.duplicate()));
            i = i + 1;
            assert(res@ =~= self.blocked_contacts@.subrange(0, i as int));
        }
        assert(self.blocked_contacts@.subrange(0, self.blocked_contacts@.len() as int) =~= self.blocked_contacts@);
        res
    }

    /// The blocked records, each with its identifier.
    pub fn export_blocked_list(&self) -> (res: Vec<(String, BlockedContactInfo)>)
        requires
            self.wf(),
        ensures
            keys_unique(res@),
            pairs_map(res@) == self.spec_blocked(),
    {
        self.get_all_blocked_info()
    }

    /// How many contacts there are.
    pub fn get_contacts_count(&self) -> (res: usize)
        requires
            self.wf(),
        ensures
            res == self.spec_contacts().dom().len(),
    {
        proof {
            lemma_pairs_map_len(self.contacts@);
        }
        self.contacts.len()
    }

    /// How many contacts are blocked.
    pub fn get_blocked_count(&self) -> (res: usize)
        requires
            self.wf(),
        ensures
            res == self.spec_blocked().dom().len(),
    {
        proof {
            lemma_pairs_map_len(self.blocked_contacts@);
        }
        self.blocked_contacts.len()
    }

    /// Replaces the contact under the identifier of `contact`; an error where there is none.
    pub fn update_contact(&mut self, contact: Contact) -> (res: Result<(), ContactError>)
        requires
            old(self).wf(),
        ensures
            final(self).wf(),
            final(self).spec_blocked() == old(self).spec_blocked(),
            !old(self).spec_contacts().dom().contains(contact.id@) ==> (res matches Err(
                ContactError::ContactNotFound(m),
            ) && m@ == not_found_text(contact.id@) && final(self).spec_contacts() == old(self).spec_contacts()),
            old(self).spec_contacts().dom().contains(contact.id@) ==> (res is Ok && final(self).spec_contacts()
                == old(self).spec_contacts().insert(contact.id@, contact)),
    {
        if !self.has_contact(contact.id.as_str()) {
            return Err(not_found(contact.id.as_str()));
        }
        let id = contact.id.clone();
        map_insert(&mut self.contacts, id, contact);
        Ok(())
    }

    /// Blocks, at `now`, each of `contact_ids` that is a contact, for `reason`; how many of
    /// the identifiers were contacts, repeats counted.
    pub fn bulk_block_contacts_at(&mut self, contact_ids: Vec<String>, reason: String, now: i64) -> (res: u32)
        requires
            old(self).wf(),
            contact_ids@.len() <= u32::MAX,
        ensures
            final(self).wf(),
            final(self).spec_contacts() == old(self).spec_contacts(),
            final(self).spec_blocked() == bulk_blocked(
                old(self).spec_blocked(),
                old(self).spec_contacts(),
                contact_ids@,
                BlockedContactInfo { blocked_at: now, reason, blocked_by_user: true },
            ),
            res == count_known(old(self).spec_contacts(), contact_ids@),
    {
        let ghost info = BlockedContactInfo { blocked_at: now, reason, blocked_by_user: true };
        let ghost blocked0 = pairs_map(self.blocked_contacts@);
        let mut count: u32 = 0;
        let mut i: usize = 0;
        while i < contact_ids.len()
            invariant
                i <= contact_ids@.len(),
                contact_ids@.len() <= u32::MAX,
                keys_unique(self.contacts@),
                keys_unique(self.blocked_contacts@),
                self.contacts@ == old(self).contacts@,
                info == (BlockedContactInfo { blocked_at: now, reason, blocked_by_user: true }),
                pairs_map(self.blocked_contacts@) == bulk_blocked(
                    blocked0,
                    pairs_map(self.contacts@),
                    contact_ids@.subrange(0, i as int),
                    info,
                ),
                count == count_known(pairs_map(self.contacts@), contact_ids@.subrange(0, i as int)),
                count <= i,
            decreases contact_ids@.len() - i,
        {
            let ghost next = contact_ids@.subrange(0, i + 1);
            assert(next.drop_last() =~= contact_ids@.subrange(0, i as int));
            let id = &contact_ids[i];
            if self.has_contact(id.as_str()) {
                let b = BlockedContactInfo { blocked_at: now, reason: reason.clone(), blocked_by_user: true };
                map_insert(&mut self.blocked_contacts, id.clone(), b);
                count = count + 1;
            }
            i = i + 1;
        }
        assert(contact_ids@.subrange(0, contact_ids@.len() as int) =~= contact_ids@);
        count
    }

    /// Blocks, now, each of `contact_ids` that is a contact, for `reason`; how many of the
    /// identifiers were contacts, repeats counted.
    pub fn bulk_block_contacts(&mut self, contact_ids: Vec<String>, reason: String) -> (res: u32)
        requires
            old(self).wf(),
            contact_ids@.len() <= u32::MAX,
        ensures
            final(self).wf(),
            final(self).spec_contacts() == old(self).spec_contacts(),
            exists|now: i64| final(self).spec_blocked() == bulk_blocked(
                old(self).spec_blocked(),
                old(self).spec_contacts(),
                contact_ids@,
                BlockedContactInfo { blocked_at: now, reason, blocked_by_user: true },
            ),
            res == count_known(old(self).spec_contacts(), contact_ids@),
    {
        let now = utc_now_millis();
        self.bulk_block_contacts_at(contact_ids, reason, now)
    }

    /// Unblocks each of `contact_ids`; how many were blocked when their turn came.
    pub fn bulk_unblock_contacts(&mut self, contact_ids: Vec<String>) -> (res: u32)
        requires
            old(self).wf(),
            contact_ids@.len() <= u32::MAX,
        ensures
            final(self).wf(),
            final(self).spec_contacts() == old(self).spec_contacts(),
            final(self).spec_blocked() == bulk_unblocked(old(self).spec_blocked(), contact_ids@),
            res == count_unblocked(old(self).spec_blocked(), contact_ids@),
    {
        let ghost blocked0 = pairs_map(self.blocked_contacts@);
        let mut count: u32 = 0;
        let mut i: usize = 0;
        while i < contact_ids.len()
            invariant
                i <= contact_ids@.len(),
                contact_ids@.len() <= u32::MAX,
                keys_unique(self.blocked_contacts@),
                self.contacts@ == old(self).contacts@,
                pairs_map(self.blocked_contacts@) == bulk_unblocked(blocked0, contact_ids@.subrange(0, i as int)),
                count == count_unblocked(blocked0, contact_ids@.subrange(0, i as int)),
                count <= i,
            decreases contact_ids@.len() - i,
        {
            let ghost next = contact_ids@.subrange(0, i + 1);
            assert(next.drop_last() =~= contact_ids@.subrange(0, i as int));
            if map_remove(&mut self.blocked_contacts, contact_ids[i].as_str()) {
                count = count + 1;
            }
            i = i + 1;
        }
        assert(contact_ids@.subrange(0, contact_ids@.len() as int) =~= contact_ids@);
        count
    }

    /// Takes each record of `blocked_list` whose identifier is a contact; how many it took.
    /// The identifiers of the list are distinct, as those of a map are.
    pub fn import_blocked_list(&mut self, blocked_list: Vec<(String, BlockedContactInfo)>) -> (res: u32)
        requires
            old(self).wf(),
            keys_unique(blocked_list@),
            blocked_list@.len() <= u32::MAX,
        ensures
            final(self).wf(),
            final(self).spec_contacts() == old(self).spec_contacts(),
            final(self).spec_blocked() == imported_blocked(old(self).spec_blocked(), old(self).spec_contacts(), blocked_list@),
            res == count_imported(old(self).spec_contacts(), blocked_list@),
    {
        let ghost blocked0 = pairs_map(self.blocked_contacts@);
        let mut count: u32 = 0;
        let mut i: usize = 0;
        while i < blocked_list.len()
            invariant
                i <= blocked_list@.len(),
                blocked_list@.len() <= u32::MAX,
                keys_unique(self.contacts@),
                keys_unique(self.blocked_contacts@),
                self.contacts@ == old(self).contacts@,
                pairs_map(self.blocked_contacts@) == imported_blocked(
                    blocked0,
                    pairs_map(self.contacts@),
                    blocked_list@.subrange(0, i as int),
                ),
                count == count_imported(pairs_map(self.contacts@), blocked_list@.subrange(0, i as int)),
                count <= i,
            decreases blocked_list@.len() - i,
        {
            let ghost next = blocked_list@.subrange(0, i + 1);
            assert(next.drop_last() =~= blocked_list@.subrange(0, i as int));
            let (id, info) = (&blocked_list[i].0, &blocked_list[i].1);
            if self.has_contact(id.as_str()) {
                map_insert(&mut self.blocked_contacts, id.clone(), info.duplicate());
                count = count + 1;
            }
            i = i + 1;
        }
        assert(blocked_list@.subrange(0, blocked_list@.len() as int) =~= blocked_list@);
        count
    }

    /// Forgets the blocked records made before `cutoff` (milliseconds since the Unix epoch);
    /// how many it forgot.
    pub fn cleanup_blocked_before(&mut self, cutoff: i64) -> (res: u32)
        requires
            old(self).wf(),
            old(self).spec_blocked_entries().len() <= u32::MAX,
        ensures
            final(self).wf(),
            final(self).spec_contacts() == old(self).spec_contacts(),
            final(self).spec_blocked() == old(self).spec_blocked().restrict(
                old(self).spec_blocked().dom().filter(|k: Seq<char>| old(self).spec_blocked()[k].blocked_at >= cutoff),
            ),
            res == old(self).spec_blocked().dom().len() - final(self).spec_blocked().dom().len(),
    {
        let ghost s0 = self.blocked_contacts@;
        let mut kept: Vec<(String, BlockedContactInfo)> = Vec::new();
        let mut removed: u32 = 0;
        let mut i: usize = 0;
        while i < self.blocked_contacts.len()
            invariant
                i <= self.blocked_contacts@.len(),
                self.blocked_contacts@ == s0,
                keys_unique(s0),
                s0.len() <= u32::MAX,
                kept@ == blocked_since(s0.subrange(0, i as int), cutoff),
                removed == i - kept@.len(),
                kept@.len() <= i,
            decreases self.blocked_contacts@.len() - i,
        {
            let ghost next = s0.subrange(0, i + 1);
            assert(next.drop_last() =~= s0.subrange(0, i as int));
            let (id, info) = (&self.blocked_contacts[i].0, &self.blocked_contacts[i].1);
            if info.blocked_at >= cutoff {
                kept.push((id.clone(), info.duplicate()));
            } else {
                removed = removed + 1;
            }
            i = i + 1;
        }
        assert(s0.subrange(0, s0.len() as int) =~= s0);
        proof {
            lemma_blocked_since(s0, cutoff);
            lemma_pairs_map_len(s0);
            lemma_pairs_map_len(kept@);
        }
        self.blocked_contacts = kept;
        removed
    }

    /// Forgets the blocked records older than `days` days, by the machine's clock; how many
    /// it forgot. For the clock's reading `now`, the records kept are exactly those made at or
    /// after `days_cutoff(now, days)`.
    pub fn cleanup_old_blocked_contacts(&mut self, days: u32) -> (res: u32)
        requires
            old(self).wf(),
            old(self).spec_blocked_entries().len() <= u32::MAX,
        ensures
            final(self).wf(),
            final(self).spec_contacts() == old(self).spec_contacts(),
            exists|now: i64| #![trigger days_cutoff(now, days)] final(self).spec_blocked() == blocked_from(old(self).spec_blocked(), days_cutoff(now, days)),
            final(self).spec_blocked().dom().subset_of(old(self).spec_blocked().dom()),
            forall|k: Seq<char>| #[trigger] final(self).spec_blocked().dom().contains(k) ==> final(self).spec_blocked()[k]
                == old(self).spec_blocked()[k],
            res == old(self).spec_blocked().dom().len() - final(self).spec_blocked().dom().len(),
    {
        let now = utc_now_millis();
        let span: i64 = (days as i64) * 86_400_000;
        let cutoff: i64 = if now >= i64::MIN + span { now - span } else { i64::MIN };
        assert(cutoff == days_cutoff(now, days));
        let res = self.cleanup_blocked_before(cutoff);
        assert(self.spec_blocked() == blocked_from(old(self).spec_blocked(), days_cutoff(now, days)));
        res
    }

    /// Merges `other` into this book at `now` (milliseconds since the Unix epoch), in the
    /// order `other` keeps its entries: a contact here under the same identifier with another
    /// name or address is a conflict and stays; others are added or updated. Blocked records
    /// of `other` are taken where there is none here.
    pub fn merge_contact_book_at(&mut self, other: &ContactBook, now: i64) -> (res: Result<MergeResult, ContactError>)
        requires
            old(self).wf(),
            other.wf(),
            other.spec_entries().len() <= u32::MAX,
        ensures
            final(self).wf(),
            final(self).spec_contacts() == merged_contacts(old(self).spec_contacts(), other.spec_entries()),
            final(self).spec_blocked() == merged_blocked(old(self).spec_blocked(), other.spec_blocked_entries()),
            res matches Ok(r) && r.contacts_added == merge_counts(old(self).spec_contacts(), other.spec_entries()).0
                && r.contacts_updated == merge_counts(old(self).spec_contacts(), other.spec_entries()).1
                && r.conflicts@.map_values(|c: ContactMergeConflict| conflict_view(c)) == merge_conflicts(
                old(self).spec_contacts(),
                other.spec_entries(),
            ) && r.merge_time == now,
    {
        let ghost mine0 = pairs_map(self.contacts@);
        let ghost theirs = other.contacts@;
        let mut added: u32 = 0;
        let mut updated: u32 = 0;
        let mut conflicts: Vec<ContactMergeConflict> = Vec::new();
        let mut i: usize = 0;
        while i < other.contacts.len()
            invariant
                i <= theirs.len(),
                theirs == other.contacts@,
                theirs.len() <= u32::MAX,
                keys_unique(self.contacts@),
                keys_unique(self.blocked_contacts@),
                self.blocked_contacts@ == old(self).blocked_contacts@,
                pairs_map(self.contacts@) == merged_contacts(mine0, theirs.subrange(0, i as int)),
                added == merge_counts(mine0, theirs.subrange(0, i as int)).0,
                updated == merge_counts(mine0, theirs.subrange(0, i as int)).1,
                added + updated <= i,
                conflicts@.map_values(|c: ContactMergeConflict| conflict_view(c)) == merge_conflicts(
                    mine0,
                    theirs.subrange(0, i as int),
                ),
            decreases theirs.len() - i,
        {
            let ghost next = theirs.subrange(0, i + 1);
            assert(next.drop_last() =~= theirs.subrange(0, i as int));
            assert(next.last() == theirs[i as int]);
            let (id, c) = (&other.contacts[i].0, &other.contacts[i].1);
            match find_key(&self.contacts, id.as_str()) {
                Some(j) => {
                    proof {
                        lemma_pairs_map_at(self.contacts@, j as int);
                    }
                    let existing = &self.contacts[j].1;
                    if existing.name != c.name || existing.address != c.address {
                        let conflict = ContactMergeConflict {
                            contact_id: id.clone(),
                            existing_contact: existing.duplicate(),
                            incoming_contact: c.duplicate(),
                        };
                        let ghost before = conflicts@;
                        conflicts.push(conflict);
                        assert(conflicts@.map_values(|c: ContactMergeConflict| conflict_view(c)) =~= before.map_values(
                            |c: ContactMergeConflict| conflict_view(c),
                        ).push((id@, *existing, *c)));
                    } else {
                        map_insert(&mut self.contacts, id.clone(), c.duplicate());
                        updated = updated + 1;
                    }
                },
                None => {
                    map_insert(&mut self.contacts, id.clone(), c.duplicate());
                    added = added + 1;
                },
            }
            i = i + 1;
        }
        assert(theirs.subrange(0, theirs.len() as int) =~= theirs);
        let ghost blocked0 = pairs_map(self.blocked_contacts@);
        let ghost their_blocked = other.blocked_contacts@;
        let ghost contacts_after = self.contacts@;
        let mut k: usize = 0;
        while k < other.blocked_contacts.len()
            invariant
                k <= their_blocked.len(),
                self.contacts@ == contacts_after,
                keys_unique(contacts_after),
                their_blocked == other.blocked_contacts@,
                keys_unique(self.blocked_contacts@),
                pairs_map(self.blocked_contacts@) == merged_blocked(blocked0, their_blocked.subrange(0, k as int)),
            decreases their_blocked.len() - k,
        {
            let ghost next = their_blocked.subrange(0, k + 1);
            assert(next.drop_last() =~= their_blocked.subrange(0, k as int));
            let (id, b) = (&other.blocked_contacts[k].0, &other.blocked_contacts[k].1);
            match find_key(&self.blocked_contacts, id.as_str()) {
                Some(j) => {
                    proof {
                        lemma_pairs_map_at(self.blocked_contacts@, j as int);
                    }
                },
                None => {
                    map_insert(&mut self.blocked_contacts, id.clone(), b.duplicate());
                },
            }
            k = k + 1;
        }
        assert(their_blocked.subrange(0, their_blocked.len() as int) =~= their_blocked);
        Ok(MergeResult { contacts_added: added, contacts_updated: updated, conflicts, merge_time: now })
    }

    /// Merges `other` into this book now.
    pub fn merge_contact_book(&mut self, other: &ContactBook) -> (res: Result<MergeResult, ContactError>)
        requires
            old(self).wf(),
            other.wf(),
            other.spec_entries().len() <= u32::MAX,
        ensures
            final(self).wf(),
            final(self).spec_contacts() == merged_contacts(old(self).spec_contacts(), other.spec_entries()),
            final(self).spec_blocked() == merged_blocked(old(self).spec_blocked(), other.spec_blocked_entries()),
            res matches Ok(r) && r.contacts_added == merge_counts(old(self).spec_contacts(), other.spec_entries()).0
                && r.contacts_updated == merge_counts(old(self).spec_contacts(), other.spec_entries()).1
                && r.conflicts@.map_values(|c: ContactMergeConflict| conflict_view(c)) == merge_conflicts(
                old(self).spec_contacts(),
                other.spec_entries(),
            ),
    {
        let now = utc_now_millis();
        self.merge_contact_book_at(other, now)
    }

    /// The problems of the book, as messages: for each entry, in order, an identifier that
    /// differs from its key, an empty name, an empty address; then each blocked record that
    /// names no contact.
    pub fn validate_integrity(&self) -> (res: Vec<String>)
        requires
            self.wf(),
        ensures
            res@.map_values(|m: String| m@) == contact_issues(self.spec_entries()) + orphan_issues(
                self.spec_blocked_entries(),
                self.spec_contacts(),
            ),
    {
        let mut issues: Vec<String> = Vec::new();
        let mut i: usize = 0;
        while i < self.contacts.len()
            invariant
                i <= self.contacts@.len(),
                issues@.map_values(|m: String| m@) == contact_issues(self.contacts@.subrange(0, i as int)),
            decreases self.contacts@.len() - i,
        {
            let ghost next = self.contacts@.subrange(0, i + 1);
            assert(next.drop_last() =~= self.contacts@.subrange(0, i as int));
            let ghost before = issues@.map_values(|m: String| m@);
            let (id, c) = (&self.contacts[i].0, &self.contacts[i].1);
            let ghost e1: Seq<Seq<char>> = if c.id@ != id@ {
                seq!["Contact ID mismatch: "@ + c.id@ + " vs "@ + id@]
            } else {
                Seq::empty()
            };
            let ghost e2: Seq<Seq<char>> = if trim(c.name@).len() == 0 {
                seq!["Contact "@ + id@ + " has empty name"@]
            } else {
                Seq::empty()
            };
            let ghost e3: Seq<Seq<char>> = if trim(c.address@).len() == 0 {
                seq!["Contact "@ + id@ + " has empty address"@]
            } else {
                Seq::empty()
            };
            if c.id != *id {
                let mut m = "Contact ID mismatch: ".to_string();
                m.append(c.id.as_str());
                m.append(" vs ");
                m.append(id.as_str());
                issues.push(m);
            }
            assert(issues@.map_values(|m: String| m@) =~= before + e1);
            if is_blank(c.name.as_str()) {
                let mut m = "Contact ".to_string();
                m.append(id.as_str());
                m.append(" has empty name");
                issues.push(m);
            }
            assert(issues@.map_values(|m: String| m@) =~= before + e1 + e2);
            if is_blank(c.address.as_str()) {
                let mut m = "Contact ".to_string();
                m.append(id.as_str());
                m.append(" has empty address");
                issues.push(m);
            }
            assert(issues@.map_values(|m: String| m@) =~= before + e1 + e2 + e3);
            assert(entry_issues(id@, *c) =~= e1 + e2 + e3);
            assert(next.last() == self.contacts@[i as int]);
            assert(issues@.map_values(|m: String| m@) =~= before + entry_issues(id@, *c));
            i = i + 1;
        }
        assert(self.contacts@.subrange(0, self.contacts@.len() as int) =~= self.contacts@);
        let ghost head = issues@.map_values(|m: String| m@);
        let mut k: usize = 0;
        while k < self.blocked_contacts.len()
            invariant
                k <= self.blocked_contacts@.len(),
                keys_unique(self.contacts@),
                keys_unique(self.blocked_contacts@),
                head == contact_issues(self.contacts@),
                issues@.map_values(|m: String| m@) == head + orphan_issues(
                    self.blocked_contacts@.subrange(0, k as int),
                    pairs_map(self.contacts@),
                ),
            decreases self.blocked_contacts@.len() - k,
        {
            let ghost next = self.blocked_contacts@.subrange(0, k + 1);
            assert(next.drop_last() =~= self.blocked_contacts@.subrange(0, k as int));
            let ghost before = issues@.map_values(|m: String| m@);
            let id = &self.blocked_contacts[k].0;
            if !self.has_contact(id.as_str()) {
                let mut m = "Blocked contact ".to_string();
                m.append(id.as_str());
                m.append(" not found in contacts");
                issues.push(m);
                assert(issues@.map_values(|m: String| m@) =~= before.push(
                    "Blocked contact "@ + id@ + " not found in contacts"@,
                ));
            }
            assert(issues@.map_values(|m: String| m@) =~= head + orphan_issues(next, pairs_map(self.contacts@)));
            k = k + 1;
        }
        assert(self.blocked_contacts@.subrange(0, self.blocked_contacts@.len() as int) =~= self.blocked_contacts@);
        issues
    }

    /// Replaces the contact under the key `contact_id` by `contact`; an error where there is
    /// no such key.
    pub fn set_contact_at(&mut self, contact_id: &str, contact: Contact) -> (res: Result<(), ContactError>)
        requires
            old(self).wf(),
        ensures
            final(self).wf(),
            final(self).spec_blocked() == old(self).spec_blocked(),
            !old(self).spec_contacts().dom().contains(contact_id@) ==> (res matches Err(
                ContactError::ContactNotFound(m),
            ) && m@ == not_found_text(contact_id@) && final(self).spec_contacts() == old(self).spec_contacts()),
            old(self).spec_contacts().dom().contains(contact_id@) ==> (res is Ok && final(self).spec_contacts()
                == old(self).spec_contacts().insert(contact_id@, contact)),
    {
        if !self.has_contact(contact_id) {
            return Err(not_found(contact_id));
        }
        map_insert(&mut self.contacts, contact_id.to_owned(), contact);
        Ok(())
    }

    /// Marks offline every online contact last seen before `cutoff` (milliseconds since the
    /// Unix epoch); how many it marked.
    pub fn mark_offline_before(&mut self, cutoff: i64) -> (res: u32)
        requires
            old(self).wf(),
            old(self).spec_entries().len() <= u32::MAX,
        ensures
            final(self).wf(),
            final(self).spec_blocked() == old(self).spec_blocked(),
            final(self).spec_contacts().dom() == old(self).spec_contacts().dom(),
            forall|k: Seq<char>| #[trigger] old(self).spec_contacts().dom().contains(k) ==> final(self).spec_contacts()[k]
                == stale_to_offline(old(self).spec_contacts()[k], cutoff),
            res == count_stale(values_of(old(self).spec_entries()), cutoff),
    {
        let ghost s0 = self.contacts@;
        let mut count: u32 = 0;
        let mut i: usize = 0;
        while i < self.contacts.len()
            invariant
                i <= self.contacts@.len(),
                self.contacts@.len() == s0.len(),
                s0.len() <= u32::MAX,
                keys_unique(s0),
                self.blocked_contacts@ == old(self).blocked_contacts@,
                forall|j: int| 0 <= j < s0.len() ==> #[trigger] self.contacts@[j].0 == s0[j].0,
                forall|j: int| 0 <= j < i ==> #[trigger] self.contacts@[j].1 == stale_to_offline(s0[j].1, cutoff),
                forall|j: int| i <= j < s0.len() ==> #[trigger] self.contacts@[j].1 == s0[j].1,
                count == count_stale(values_of(s0).subrange(0, i as int), cutoff),
                count <= i,
            decreases s0.len() - i,
        {
            let ghost next = values_of(s0).subrange(0, i + 1);
            assert(next.drop_last() =~= values_of(s0).subrange(0, i as int));
            let stale = match self.contacts[i].1.last_seen {
                Some(t) => self.contacts[i].1.status == ContactStatus::Online && t < cutoff,
                None => false,
            };
            if stale {
                let (k, mut c) = self.contacts.remove(i);
                c.status = ContactStatus::Offline;
                self.contacts.insert(i, (k, c));
                count = count + 1;
            }
            i = i + 1;
        }
        assert(values_of(s0).subrange(0, s0.len() as int) =~= values_of(s0));
        proof {
            assert(keys_unique(self.contacts@)) by {
                assert forall|x: int, y: int| 0 <= x < y < self.contacts@.len() implies self.contacts@[x].0@
                    != self.contacts@[y].0@ by {
                    assert(self.contacts@[x].0 == s0[x].0);
                    assert(self.contacts@[y].0 == s0[y].0);
                }
            }
            assert forall|k: Seq<char>| pairs_map(self.contacts@).dom().contains(k) == pairs_map(s0).dom().contains(k) by {
                lemma_pairs_map_dom(self.contacts@, k);
                lemma_pairs_map_dom(s0, k);
                if pairs_map(s0).dom().contains(k) {
                    let j = choose|j: int| 0 <= j < s0.len() && #[trigger] s0[j].0@ == k;
                    assert(self.contacts@[j].0@ == k);
                }
                if pairs_map(self.contacts@).dom().contains(k) {
                    let j = choose|j: int| 0 <= j < self.contacts@.len() && #[trigger] self.contacts@[j].0@ == k;
                    assert(s0[j].0@ == k);
                }
            }
            assert(pairs_map(self.contacts@).dom() =~= pairs_map(s0).dom());
            assert forall|k: Seq<char>| #[trigger] pairs_map(s0).dom().contains(k) implies pairs_map(self.contacts@)[k]
                == stale_to_offline(pairs_map(s0)[k], cutoff) by {
                lemma_pairs_map_dom(s0, k);
                let j = choose|j: int| 0 <= j < s0.len() && #[trigger] s0[j].0@ == k;
                lemma_pairs_map_at(s0, j);
                lemma_pairs_map_at(self.contacts@, j);
            }
        }
        count
    }

    /// Every contact, in the book's order.
    pub fn values_in_order(&self) -> (res: Vec<Contact>)
        ensures
            res@ == values_of(self.spec_entries()),
    {
        let mut res: Vec<Contact> = Vec::new();
        let mut i: usize = 0;
        while i < self.contacts.len()
            invariant
                i <= self.contacts@.len(),
                res@ == values_of(self.contacts@).subrange(0, i as int),
            decreases self.contacts@.len() - i,
        {
            res.push(self.contacts[i].1.duplicate());
            i = i + 1;
            assert(res@ =~= values_of(self.contacts@).subrange(0, i as int));
        }
        assert(values_of(self.contacts@).subrange(0, self.contacts@.len() as int) =~= values_of(self.contacts@));
        res
    }

    /// The contacts that `sel` picks, in the book's order.
    pub fn select(&self, sel: &Selector) -> (res: Vec<Contact>)
        ensures
            res@ == values_of(self.spec_entries()).filter(picks(*sel)),
    {
        let ghost pred = picks(*sel);
        let mut kept: Vec<Contact> = Vec::new();
        let mut i: usize = 0;
        while i < self.contacts.len()
            invariant
                i <= self.contacts@.len(),
                pred == picks(*sel),
                kept@ == values_of(self.contacts@).subrange(0, i as int).filter(pred),
            decreases self.contacts@.len() - i,
        {
            let c = &self.contacts[i].1;
            let ghost pre = values_of(self.contacts@).subrange(0, i as int);
            let ghost next = values_of(self.contacts@).subrange(0, i + 1);
            assert(next.drop_last() =~= pre);
            assert(next.last() == *c);
            assert(next.filter(pred) == (if pred(*c) { pre.filter(pred).push(*c) } else { pre.filter(pred) })) by {
                reveal(Seq::filter);
            }
            if selector_picks(sel, c) {
                kept.push(c.duplicate());
            }
            i = i + 1;
        }
        assert(values_of(self.contacts@).subrange(0, self.contacts@.len() as int) =~= values_of(self.contacts@));
        kept
    }

    /// The contacts whose name holds `name`, letter case aside, in the book's order.
    pub fn find_contacts_by_name(&self, name: &str) -> (res: Vec<Contact>)
        ensures
            res@ == values_of(self.spec_entries()).filter(matching_name(name@)),
    {
        self.contacts_matching(name, false)
    }

    /// The contacts whose address holds `address`, letter case aside, in the book's order.
    pub fn find_contacts_by_address(&self, address: &str) -> (res: Vec<Contact>)
        ensures
            res@ == values_of(self.spec_entries()).filter(matching_address(address@)),
    {
        self.contacts_matching(address, true)
    }
}

/// A way of picking contacts.
#[derive(Debug, Clone)]
pub enum Selector {
    /// Those trusted.
    Trusted,
    /// Those online.
    Online,
    /// Those at the trust level.
    Trust(crate::network::TrustLevel),
    /// Those with the status.
    Status(ContactStatus),
    /// Those whose name or address holds the text, letter case aside.
    Search(String),
    /// Those with exactly this name.
    Named(String),
}

/// The contacts trusted.
pub open spec fn trusted_pred() -> spec_fn(Contact) -> bool {
    |c: Contact| c.trust_level == crate::network::TrustLevel::Trusted
}

/// The contacts online.
pub open spec fn online_pred() -> spec_fn(Contact) -> bool {
    |c: Contact| c.status == ContactStatus::Online
}

/// The contacts at trust level `t`.
pub open spec fn trust_pred(t: crate::network::TrustLevel) -> spec_fn(Contact) -> bool {
    |c: Contact| c.trust_level == t
}

/// The contacts with status `st`.
pub open spec fn status_pred(st: ContactStatus) -> spec_fn(Contact) -> bool {
    |c: Contact| c.status == st
}

/// The contacts whose name or address holds `q`, letter case aside.
pub open spec fn search_pred(q: Seq<char>) -> spec_fn(Contact) -> bool {
    |c: Contact| contains_seq(lowercase(c.name@), lowercase(q)) || contains_seq(lowercase(c.address@), lowercase(q))
}

/// The contacts named exactly `n`.
pub open spec fn named_pred(n: Seq<char>) -> spec_fn(Contact) -> bool {
    |c: Contact| c.name@ == n
}

/// The contacts `sel` picks.
pub open spec fn picks(sel: Selector) -> spec_fn(Contact) -> bool {
    match sel {
        Selector::Trusted => trusted_pred(),
        Selector::Online => online_pred(),
        Selector::Trust(t) => trust_pred(t),
        Selector::Status(st) => status_pred(st),
        Selector::Search(q) => search_pred(q@),
        Selector::Named(n) => named_pred(n@),
    }
}

/// Whether `sel` picks `c`.
pub fn selector_picks(sel: &Selector, c: &Contact) -> (res: bool)
    ensures
        res == picks(*sel)(*c),
{
    match sel {
        Selector::Trusted => c.trust_level == crate::network::TrustLevel::Trusted,
        Selector::Online => c.status == ContactStatus::Online,
        Selector::Trust(t) => c.trust_level == *t,
        Selector::Status(st) => c.status == *st,
        Selector::Search(q) => lowercase_contains(c.name.as_str(), q.as_str()) || lowercase_contains(
            c.address.as_str(),
            q.as_str(),
        ),
        Selector::Named(n) => c.name == *n,
    }
}

/// Whether `c` is online but was last seen before `cutoff`.
pub open spec fn is_stale(c: Contact, cutoff: i64) -> bool {
    c.status == ContactStatus::Online && (c.last_seen matches Some(t) && t < cutoff)
}

/// `c`, marked offline where it is online but was last seen before `cutoff`.
pub open spec fn stale_to_offline(c: Contact, cutoff: i64) -> Contact {
    if is_stale(c, cutoff) {
        Contact { status: ContactStatus::Offline, ..c }
    } else {
        c
    }
}

/// How many of `cs` are online but were last seen before `cutoff`.
pub open spec fn count_stale(cs: Seq<Contact>, cutoff: i64) -> nat
    decreases cs.len(),
{
    if cs.len() == 0 {
        0
    } else {
        count_stale(cs.drop_last(), cutoff) + if is_stale(cs.last(), cutoff) { 1nat } else { 0nat }
    }
}

/// The records of `s` made at or after `cutoff`, in order.
pub open spec fn blocked_since(s: Seq<(String, BlockedContactInfo)>, cutoff: i64) -> Seq<(String, BlockedContactInfo)>
    decreases s.len(),
{
    if s.len() == 0 {
        s
    } else {
        let r = blocked_since(s.drop_last(), cutoff);
        if s.last().1.blocked_at >= cutoff {
            r.push(s.last())
        } else {
            r
        }
    }
}

/// Keeping the records made at or after `cutoff` keeps the map's keys whose record is that
/// recent, and the keys stay distinct.
pub proof fn lemma_blocked_since(s: Seq<(String, BlockedContactInfo)>, cutoff: i64)
    requires
        keys_unique(s),
    ensures
        keys_unique(blocked_since(s, cutoff)),
        pairs_map(blocked_since(s, cutoff)) == pairs_map(s).restrict(
            pairs_map(s).dom().filter(|k: Seq<char>| pairs_map(s)[k].blocked_at >= cutoff),
        ),
        forall|k: Seq<char>| pairs_map(blocked_since(s, cutoff)).dom().contains(k) ==> pairs_map(s).dom().contains(k),
    decreases s.len(),
{
    let r = blocked_since(s, cutoff);
    if s.len() > 0 {
        let d = s.drop_last();
        lemma_blocked_since(d, cutoff);
        let rd = blocked_since(d, cutoff);
        let lk = s.last().0@;
        lemma_pairs_map_dom(d, lk);
        if pairs_map(d).dom().contains(lk) {
            let j = choose|j: int| 0 <= j < d.len() && #[trigger] d[j].0@ == lk;
            assert(s[j].0@ == s[s.len() - 1].0@);
        }
        if s.last().1.blocked_at >= cutoff {
            assert(r.drop_last() =~= rd);
            assert forall|i: int, j: int| 0 <= i < j < r.len() implies r[i].0@ != r[j].0@ by {
                if j == r.len() - 1 {
                    lemma_pairs_map_dom(rd, r[i].0@);
                    assert(rd[i].0@ == r[i].0@);
                }
            }
        }
        assert(pairs_map(r) =~= pairs_map(s).restrict(
            pairs_map(s).dom().filter(|k: Seq<char>| pairs_map(s)[k].blocked_at >= cutoff),
        ));
    } else {
        assert(pairs_map(r) =~= pairs_map(s).restrict(
            pairs_map(s).dom().filter(|k: Seq<char>| pairs_map(s)[k].blocked_at >= cutoff),
        ));
    }
}

/// The moment `days` days before `now`, in milliseconds since the Unix epoch; the earliest
/// representable moment where that lies before it.
pub open spec fn days_cutoff(now: i64, days: u32) -> i64 {
    let span: int = days as int * 86_400_000;
    if now as int - span >= i64::MIN as int {
        (now as int - span) as i64
    } else {
        i64::MIN
    }
}

/// The blocked records of `m` made at or after `cutoff`.
pub open spec fn blocked_from(m: Map<Seq<char>, BlockedContactInfo>, cutoff: i64) -> Map<Seq<char>, BlockedContactInfo> {
    m.restrict(m.dom().filter(|k: Seq<char>| m[k].blocked_at >= cutoff))
}

/// Every contact of a merged-in book is counted once, as added, updated or in conflict, and
/// the merged book holds exactly the identifiers of both books.
pub proof fn lemma_merge_accounts(mine: Map<Seq<char>, Contact>, theirs: Seq<(String, Contact)>)
    ensures
        merge_counts(mine, theirs).0 + merge_counts(mine, theirs).1 + merge_conflicts(mine, theirs).len() == theirs.len(),
        forall|k: Seq<char>| #[trigger] merged_contacts(mine, theirs).dom().contains(k) <==> (mine.dom().contains(k)
            || exists|i: int| 0 <= i < theirs.len() && #[trigger] theirs[i].0@ == k),
    decreases theirs.len(),
{
    if theirs.len() > 0 {
        let p = theirs.drop_last();
        lemma_merge_accounts(mine, p);
        let last = theirs.last();
        assert forall|k: Seq<char>| #[trigger] merged_contacts(mine, theirs).dom().contains(k) <==> (mine.dom().contains(k)
            || exists|i: int| 0 <= i < theirs.len() && #[trigger] theirs[i].0@ == k) by {
            if exists|i: int| 0 <= i < theirs.len() && #[trigger] theirs[i].0@ == k {
                let i = choose|i: int| 0 <= i < theirs.len() && #[trigger] theirs[i].0@ == k;
                if i < theirs.len() - 1 {
                    assert(p[i] == theirs[i]);
                }
            }
            if exists|i: int| 0 <= i < p.len() && #[trigger] p[i].0@ == k {
                let i = choose|i: int| 0 <= i < p.len() && #[trigger] p[i].0@ == k;
                assert(theirs[i] == p[i]);
            }
            if k == last.0@ {
                assert(theirs[theirs.len() - 1].0@ == k);
            }
        }
    }
}

/// How many entries of `s` satisfy `p`.
pub open spec fn count_entries<V>(s: Seq<(String, V)>, p: spec_fn((String, V)) -> bool) -> nat
    decreases s.len(),
{
    if s.len() == 0 {
        0
    } else {
        count_entries(s.drop_last(), p) + if p(s.last()) { 1nat } else { 0nat }
    }
}

/// The integrity check finds one problem per entry whose contact carries another identifier,
/// one per blank name, one per blank address, and one per blocked record of no contact.
pub proof fn lemma_integrity_counts(
    s: Seq<(String, Contact)>,
    b: Seq<(String, BlockedContactInfo)>,
    contacts: Map<Seq<char>, Contact>,
)
    ensures
        contact_issues(s).len() == count_entries(s, |e: (String, Contact)| e.1.id@ != e.0@) + count_entries(
            s,
            |e: (String, Contact)| trim(e.1.name@).len() == 0,
        ) + count_entries(s, |e: (String, Contact)| trim(e.1.address@).len() == 0),
        orphan_issues(b, contacts).len() == count_entries(
            b,
            |e: (String, BlockedContactInfo)| !contacts.dom().contains(e.0@),
        ),
    decreases s.len() + b.len(),
{
    if s.len() > 0 {
        lemma_integrity_counts(s.drop_last(), b, contacts);
    }
    if b.len() > 0 {
        lemma_integrity_counts(s, b.drop_last(), contacts);
    }
}

/// Removing a contact that is in a well-formed book lowers the count of contacts by one.
pub proof fn lemma_remove_lowers_count(book: ContactBook, id: Seq<char>)
    requires
        book.wf(),
        book.spec_contacts().dom().contains(id),
    ensures
        book.spec_contacts().remove(id).dom().len() + 1 == book.spec_contacts().dom().len(),
{
    book.lemma_entries();
}

/// Merging leaves a contact that no entry of `theirs` names as it was.
proof fn lemma_merge_untouched(mine: Map<Seq<char>, Contact>, theirs: Seq<(String, Contact)>, k: Seq<char>)
    requires
        forall|i: int| 0 <= i < theirs.len() ==> theirs[i].0@ != k,
    ensures
        merged_contacts(mine, theirs).dom().contains(k) == mine.dom().contains(k),
        mine.dom().contains(k) ==> merged_contacts(mine, theirs)[k] == mine[k],
    decreases theirs.len(),
{
    if theirs.len() > 0 {
        let p = theirs.drop_last();
        assert forall|i: int| 0 <= i < p.len() implies p[i].0@ != k by {
            assert(p[i] == theirs[i]);
        }
        lemma_merge_untouched(mine, p, k);
        assert(theirs[theirs.len() - 1].0@ != k);
    }
}

/// What a merge does with each incoming contact, by what this book holds under its
/// identifier: one with another name or another address is a conflict, recorded with the
/// contact here and the incoming one, and the contact here stays; one with the same name and
/// address replaces the contact here; one under a new identifier is added. The counts of added
/// and updated contacts and the number of conflicts add up to the incoming contacts.
pub proof fn lemma_merge_outcomes(mine: Map<Seq<char>, Contact>, theirs: Seq<(String, Contact)>)
    requires
        keys_unique(theirs),
    ensures
        forall|i: int| #![trigger theirs[i]] 0 <= i < theirs.len() && mine.dom().contains(theirs[i].0@) && (
        mine[theirs[i].0@].name@ != theirs[i].1.name@ || mine[theirs[i].0@].address@ != theirs[i].1.address@)
            ==> merged_contacts(mine, theirs)[theirs[i].0@] == mine[theirs[i].0@] && merge_conflicts(
            mine,
            theirs,
        ).contains((theirs[i].0@, mine[theirs[i].0@], theirs[i].1)),
        forall|i: int| #![trigger theirs[i]] 0 <= i < theirs.len() && mine.dom().contains(theirs[i].0@)
            && mine[theirs[i].0@].name@ == theirs[i].1.name@ && mine[theirs[i].0@].address@ == theirs[i].1.address@
            ==> merged_contacts(mine, theirs)[theirs[i].0@] == theirs[i].1,
        forall|i: int| #![trigger theirs[i]] 0 <= i < theirs.len() && !mine.dom().contains(theirs[i].0@)
            ==> merged_contacts(mine, theirs).dom().contains(theirs[i].0@) && merged_contacts(mine, theirs)[theirs[i].0@]
            == theirs[i].1,
        forall|j: int| #![trigger merge_conflicts(mine, theirs)[j]] 0 <= j < merge_conflicts(mine, theirs).len() ==> {
            let t = merge_conflicts(mine, theirs)[j];
            &&& mine.dom().contains(t.0)
            &&& t.1 == mine[t.0]
            &&& (t.1.name@ != t.2.name@ || t.1.address@ != t.2.address@)
            &&& exists|i: int| 0 <= i < theirs.len() && #[trigger] theirs[i].0@ == t.0 && theirs[i].1 == t.2
        },
    decreases theirs.len(),
{
    if theirs.len() > 0 {
        let p = theirs.drop_last();
        let n = theirs.len() - 1;
        assert(keys_unique(p)) by {
            assert forall|a: int, b: int| 0 <= a < b < p.len() implies p[a].0@ != p[b].0@ by {
                assert(p[a] == theirs[a] && p[b] == theirs[b]);
            }
        }
        lemma_merge_outcomes(mine, p);
        let (id, c) = theirs[n];
        assert forall|i: int| 0 <= i < p.len() implies p[i].0@ != id@ by {
            assert(p[i] == theirs[i]);
        }
        lemma_merge_untouched(mine, p, id@);
        let m = merged_contacts(mine, p);
        assert forall|i: int| #![trigger theirs[i]] 0 <= i < n implies theirs[i] == p[i] && theirs[i].0@ != id@ by {
            assert(p[i] == theirs[i]);
        }
        assert(merged_contacts(mine, theirs) == (if conflicts_with(m, id@, c) { m } else { m.insert(id@, c) }));
        assert(merge_conflicts(mine, theirs) == (if conflicts_with(m, id@, c) {
            merge_conflicts(mine, p).push((id@, m[id@], c))
        } else {
            merge_conflicts(mine, p)
        }));
        assert forall|j: int| #![trigger merge_conflicts(mine, theirs)[j]] 0 <= j < merge_conflicts(mine, theirs).len() implies {
            let t = merge_conflicts(mine, theirs)[j];
            &&& mine.dom().contains(t.0)
            &&& t.1 == mine[t.0]
            &&& (t.1.name@ != t.2.name@ || t.1.address@ != t.2.address@)
            &&& exists|i: int| 0 <= i < theirs.len() && #[trigger] theirs[i].0@ == t.0 && theirs[i].1 == t.2
        } by {
            if j < merge_conflicts(mine, p).len() {
                let t = merge_conflicts(mine, p)[j];
                assert(merge_conflicts(mine, theirs)[j] == t);
                let i = choose|i: int| 0 <= i < p.len() && #[trigger] p[i].0@ == t.0 && p[i].1 == t.2;
                assert(theirs[i] == p[i]);
            } else {
                assert(theirs[n] == (id, c));
                assert(conflicts_with(m, id@, c));
                assert(merge_conflicts(mine, theirs)[j] == (id@, m[id@], c));
                assert(theirs[n].0@ == id@);
            }
        }
        assert forall|i: int| #![trigger theirs[i]] 0 <= i < theirs.len() && mine.dom().contains(theirs[i].0@) && (
        mine[theirs[i].0@].name@ != theirs[i].1.name@ || mine[theirs[i].0@].address@ != theirs[i].1.address@)
            implies merged_contacts(mine, theirs)[theirs[i].0@] == mine[theirs[i].0@] && merge_conflicts(mine, theirs).contains(
            (theirs[i].0@, mine[theirs[i].0@], theirs[i].1),
        ) by {
            if i < n {
                assert(theirs[i] == p[i]);
                let t = (theirs[i].0@, mine[theirs[i].0@], theirs[i].1);
                assert(merge_conflicts(mine, p).contains(t));
                let j = choose|j: int| 0 <= j < merge_conflicts(mine, p).len() && merge_conflicts(mine, p)[j] == t;
                assert(merge_conflicts(mine, theirs)[j] == t);
            } else {
                assert(merge_conflicts(mine, theirs)[merge_conflicts(mine, theirs).len() - 1] == (id@, m[id@], c));
            }
        }
    } else {
        assert(merge_conflicts(mine, theirs) =~= Seq::<(Seq<char>, Contact, Contact)>::empty());
    }
}

/// The counts of a merge: the incoming contacts under identifiers new to this book are the
/// added ones, and those whose name and address both match the contact here are the updated
/// ones.
pub proof fn lemma_merge_counts(mine: Map<Seq<char>, Contact>, theirs: Seq<(String, Contact)>)
    requires
        keys_unique(theirs),
    ensures
        merge_counts(mine, theirs).0 == theirs.filter(|e: (String, Contact)| !mine.dom().contains(e.0@)).len(),
        merge_counts(mine, theirs).1 == theirs.filter(
            |e: (String, Contact)|
                mine.dom().contains(e.0@) && mine[e.0@].name@ == e.1.name@ && mine[e.0@].address@ == e.1.address@,
        ).len(),
    decreases theirs.len(),
{
    reveal(Seq::filter);
    if theirs.len() > 0 {
        let p = theirs.drop_last();
        let n = theirs.len() - 1;
        assert(keys_unique(p)) by {
            assert forall|a: int, b: int| 0 <= a < b < p.len() implies p[a].0@ != p[b].0@ by {
                assert(p[a] == theirs[a] && p[b] == theirs[b]);
            }
        }
        lemma_merge_counts(mine, p);
        let (id, c) = theirs[n];
        assert forall|i: int| 0 <= i < p.len() implies p[i].0@ != id@ by {
            assert(p[i] == theirs[i]);
        }
        lemma_merge_untouched(mine, p, id@);
    }
}

/// How the contact queries relate: a search matches a contact exactly where its name or its
/// address matches; the trusted contacts are those at trust level `Trusted`; the online ones
/// are those whose status is `Online`.
pub proof fn lemma_contact_queries(c: Contact, q: Seq<char>)
    ensures
        search_pred(q)(c) <==> (matching_name(q)(c) || matching_address(q)(c)),
        trusted_pred()(c) <==> trust_pred(crate::network::TrustLevel::Trusted)(c),
        online_pred()(c) <==> status_pred(ContactStatus::Online)(c),
{
}

/// Unblocking a contact right after blocking it leaves the record of blocked contacts as if it
/// had only been unblocked; while blocked, the contact is in the record.
pub proof fn lemma_unblock_contact_after_block(
    blocked: Map<Seq<char>, BlockedContactInfo>,
    id: Seq<char>,
    info: BlockedContactInfo,
)
    ensures
        blocked.insert(id, info).dom().contains(id),
        blocked.insert(id, info).remove(id) == blocked.remove(id),
{
    assert(blocked.insert(id, info).remove(id) =~= blocked.remove(id));
}

} // verus!
