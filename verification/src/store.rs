//! The identity store: four tables with store-enforced uniqueness.

use vstd::prelude::*;

verus! {

/// Why a store operation did not succeed.
#[derive(Clone, Copy, Debug, PartialEq, Eq, Structural)]
pub enum StoreError {
    /// No row has the key that was looked up.
    NotFound,
    /// A row with that key, or that pair, exists already.
    Conflict,
    /// The store cannot take the operation.
    Unavailable,
}

/// Metadata of one direct message; the payload itself is never kept.
#[derive(Clone, Copy, Debug, PartialEq, Eq, Structural)]
pub struct DirectMessage {
    pub recipient: i32,
    pub sender: i32,
    pub size: i64,
}

/// One operation asked of a store.
#[derive(Debug)]
pub enum Request {
    IdentityId(String),
    CreateIdentity(String),
    AddressId(String),
    CreateAddress(String),
    LinkExists(i32, i32),
    CreateLink(i32, i32),
    RecordDirectMessage(DirectMessage),
}

/// A request by the views of its keys.
pub enum RequestView {
    IdentityId(Seq<char>),
    CreateIdentity(Seq<char>),
    AddressId(Seq<char>),
    CreateAddress(Seq<char>),
    LinkExists(i32, i32),
    CreateLink(i32, i32),
    RecordDirectMessage(DirectMessage),
}

impl View for Request {
    type V = RequestView;

    open spec fn view(&self) -> RequestView {
        match *self {
            Request::IdentityId(key) => RequestView::IdentityId(key@),
            Request::CreateIdentity(key) => RequestView::CreateIdentity(key@),
            Request::AddressId(key) => RequestView::AddressId(key@),
            Request::CreateAddress(key) => RequestView::CreateAddress(key@),
            Request::LinkExists(identity, address) => RequestView::LinkExists(identity, address),
            Request::CreateLink(identity, address) => RequestView::CreateLink(identity, address),
            Request::RecordDirectMessage(message) => RequestView::RecordDirectMessage(message),
        }
    }
}

/// What a store answers to a request.
#[derive(Clone, Copy, Debug, PartialEq, Eq)]
pub enum Reply {
    /// To a lookup or a creation of an identity or an address.
    Id(Result<i32, StoreError>),
    /// To an existence check of a link.
    Exists(bool),
    /// To the creation of a link or the recording of a direct message.
    Done(Result<(), StoreError>),
}

/// The most rows a keyed table holds: ids are 32-bit positions.
pub open spec fn capacity() -> int {
    i32::MAX as int
}

/// The id under which `rows` holds `key`.
pub open spec fn find(rows: Seq<Seq<char>>, key: Seq<char>) -> Result<i32, StoreError> {
    if rows.contains(key) {
        Ok(rows.index_of(key) as i32)
    } else {
        Err(StoreError::NotFound)
    }
}

/// A keyed table after an attempt to add `key`, and the answer.
pub open spec fn insert(rows: Seq<Seq<char>>, key: Seq<char>) -> (
    Seq<Seq<char>>,
    Result<i32, StoreError>,
) {
    if rows.contains(key) {
        (rows, Err(StoreError::Conflict))
    } else if rows.len() >= capacity() {
        (rows, Err(StoreError::Unavailable))
    } else {
        (rows.push(key), Ok(rows.len() as i32))
    }
}

/// The link table after an attempt to add `pair`, and the answer.
pub open spec fn connect(links: Seq<(i32, i32)>, pair: (i32, i32)) -> (
    Seq<(i32, i32)>,
    Result<(), StoreError>,
) {
    if links.contains(pair) {
        (links, Err(StoreError::Conflict))
    } else {
        (links.push(pair), Ok(()))
    }
}

/// Whether a count of matching links says that the link exists. A count
/// that could not be had says that it does not: the redundant insert that
/// may follow is refused by the store.
pub fn link_found(count: Option<i64>) -> (found: bool)
    ensures
        found == (count is Some && count.unwrap() != 0),
{
    match count {
        Some(n) => n != 0,
        None => false,
    }
}

/// The contents of a store. A row's id is its position in its table.
pub struct Tables {
    /// Public keys of the identities.
    pub identities: Seq<Seq<char>>,
    /// Verified addresses.
    pub addresses: Seq<Seq<char>>,
    /// Links, each an identity id and an address id.
    pub links: Seq<(i32, i32)>,
    /// Direct-message records, oldest first.
    pub messages: Seq<DirectMessage>,
}

impl Tables {
    /// No key and no link occurs twice, and every id fits in 32 bits.
    pub open spec fn wf(self) -> bool {
        &&& self.identities.no_duplicates()
        &&& self.addresses.no_duplicates()
        &&& self.links.no_duplicates()
        &&& self.identities.len() <= capacity()
        &&& self.addresses.len() <= capacity()
    }

    /// A store without rows.
    pub open spec fn empty() -> Tables {
        Tables {
            identities: Seq::empty(),
            addresses: Seq::empty(),
            links: Seq::empty(),
            messages: Seq::empty(),
        }
    }

    /// The store after `request`, and its answer.
    pub open spec fn answer(self, request: RequestView) -> (Tables, Reply) {
        match request {
            RequestView::IdentityId(key) => (self, Reply::Id(find(self.identities, key))),
            RequestView::CreateIdentity(key) => {
                let (rows, id) = insert(self.identities, key);
                (Tables { identities: rows, ..self }, Reply::Id(id))
            },
            RequestView::AddressId(key) => (self, Reply::Id(find(self.addresses, key))),
            RequestView::CreateAddress(key) => {
                let (rows, id) = insert(self.addresses, key);
                (Tables { addresses: rows, ..self }, Reply::Id(id))
            },
            RequestView::LinkExists(identity, address) => (
                self,
                Reply::Exists(self.links.contains((identity, address))),
            ),
            RequestView::CreateLink(identity, address) => {
                let (links, done) = connect(self.links, (identity, address));
                (Tables { links, ..self }, Reply::Done(done))
            },
            RequestView::RecordDirectMessage(message) => (
                Tables { messages: self.messages.push(message), ..self },
                Reply::Done(Ok(())),
            ),
        }
    }
}

/// The keys of a table's rows.
pub open spec fn keys_of(rows: Seq<String>) -> Seq<Seq<char>> {
    rows.map_values(|s: String| s@)
}

/// In a table without duplicates, the id found for a key is its one position.
pub proof fn lemma_find_at(rows: Seq<Seq<char>>, key: Seq<char>, i: int)
    requires
        rows.no_duplicates(),
        0 <= i < rows.len(),
        rows[i] == key,
    ensures
        rows.contains(key),
        rows.index_of(key) == i,
{
    assert(rows.contains(key));
    let j = rows.index_of(key);
    assert(0 <= j < rows.len() && rows[j] == key);
}

fn find_row(rows: &Vec<String>, key: &str) -> (id: Result<i32, StoreError>)
    requires
        keys_of(rows@).no_duplicates(),
        rows@.len() <= capacity(),
    ensures
        id == find(keys_of(rows@), key@),
{
    let wanted = key.to_owned();
    let mut i: usize = 0;
    while i < rows.len()
        invariant
            i <= rows.len(),
            rows@.len() <= capacity(),
            wanted@ == key@,
            keys_of(rows@).no_duplicates(),
            forall|j: int| 0 <= j < i ==> keys_of(rows@)[j] != key@,
        decreases rows.len() - i,
    {
        if rows[i] == wanted {
            proof {
                lemma_find_at(keys_of(rows@), key@, i as int);
            }
            return Ok(i as i32);
        }
        i += 1;
    }
    Err(StoreError::NotFound)
}

fn insert_row(rows: &mut Vec<String>, key: &str) -> (id: Result<i32, StoreError>)
    requires
        keys_of(old(rows)@).no_duplicates(),
        old(rows)@.len() <= capacity(),
    ensures
        (keys_of(final(rows)@), id) == insert(keys_of(old(rows)@), key@),
        keys_of(final(rows)@).no_duplicates(),
        final(rows)@.len() <= capacity(),
{
    match find_row(rows, key) {
        Ok(_) => Err(StoreError::Conflict),
        Err(_) => {
            if rows.len() >= 0x7fff_ffff {
                Err(StoreError::Unavailable)
            } else {
                let id = rows.len() as i32;
                rows.push(key.to_owned());
                proof {
                    assert(keys_of(rows@) =~= keys_of(old(rows)@).push(key@));
                }
                Ok(id)
            }
        },
    }
}

/// An identity store held in memory.
pub struct Database {
    identities: Vec<String>,
    addresses: Vec<String>,
    links: Vec<(i32, i32)>,
    messages: Vec<DirectMessage>,
}

impl View for Database {
    type V = Tables;

    closed spec fn view(&self) -> Tables {
        Tables {
            identities: keys_of(self.identities@),
            addresses: keys_of(self.addresses@),
            links: self.links@,
            messages: self.messages@,
        }
    }
}

impl Database {
    /// The store's invariant: that of its contents.
    pub open spec fn wf(&self) -> bool {
        self@.wf()
    }

    /// An empty store.
    pub fn new() -> (db: Database)
        ensures
            db.wf(),
            db@ == Tables::empty(),
    {
        let db = Database {
            identities: Vec::new(),
            addresses: Vec::new(),
            links: Vec::new(),
            messages: Vec::new(),
        };
        proof {
            assert(db@.identities =~= Seq::empty());
            assert(db@.addresses =~= Seq::empty());
            assert(db@.links =~= Seq::empty());
            assert(db@.messages =~= Seq::empty());
        }
        db
    }

    /// The id of the identity with this public key; creates nothing.
    pub fn pubkey_id(&self, pubkey: &str) -> (id: Result<i32, StoreError>)
        requires
            self.wf(),
        ensures
            id == find(self@.identities, pubkey@),
    {
        find_row(&self.identities, pubkey)
    }

    /// Adds an identity; `Conflict` where the public key is there already.
    pub fn insert_pubkey(&mut self, pubkey: &str) -> (id: Result<i32, StoreError>)
        requires
            old(self).wf(),
        ensures
            final(self).wf(),
            (final(self)@.identities, id) == insert(old(self)@.identities, pubkey@),
            final(self)@ == (Tables { identities: final(self)@.identities, ..old(self)@ }),
    {
        insert_row(&mut self.identities, pubkey)
    }

    /// The id of this verified address; creates nothing.
    pub fn address_id(&self, address: &str) -> (id: Result<i32, StoreError>)
        requires
            self.wf(),
        ensures
            id == find(self@.addresses, address@),
    {
        find_row(&self.addresses, address)
    }

    /// Adds a verified address; `Conflict` where it is there already.
    pub fn insert_address(&mut self, address: &str) -> (id: Result<i32, StoreError>)
        requires
            old(self).wf(),
        ensures
            final(self).wf(),
            (final(self)@.addresses, id) == insert(old(self)@.addresses, address@),
            final(self)@ == (Tables { addresses: final(self)@.addresses, ..old(self)@ }),
    {
        insert_row(&mut self.addresses, address)
    }

    /// Whether the identity is linked to the address.
    pub fn pubkey_has_address(&self, pubkey_id: i32, address_id: i32) -> (linked: bool)
        requires
            self.wf(),
        ensures
            linked == self@.links.contains((pubkey_id, address_id)),
    {
        let mut i: usize = 0;
        while i < self.links.len()
            invariant
                i <= self.links.len(),
                forall|j: int| 0 <= j < i ==> self.links@[j] != (pubkey_id, address_id),
            decreases self.links.len() - i,
        {
            let link = self.links[i];
            if link.0 == pubkey_id && link.1 == address_id {
                assert(self.links@[i as int] == (pubkey_id, address_id));
                return true;
            }
            i += 1;
        }
        false
    }

    /// Links the identity to the address; `Conflict` where the link exists.
    pub fn connect_pubkey_address(&mut self, pubkey_id: i32, address_id: i32) -> (done: Result<
        (),
        StoreError,
    >)
        requires
            old(self).wf(),
        ensures
            final(self).wf(),
            (final(self)@.links, done) == connect(old(self)@.links, (pubkey_id, address_id)),
            final(self)@ == (Tables { links: final(self)@.links, ..old(self)@ }),
    {
        if self.pubkey_has_address(pubkey_id, address_id) {
            Err(StoreError::Conflict)
        } else {
            self.links.push((pubkey_id, address_id));
            Ok(())
        }
    }

    /// Appends the record of one direct message.
    pub fn save_dm(&mut self, to_id: i32, from_id: i32, size: i64) -> (done: Result<
        (),
        StoreError,
    >)
        requires
            old(self).wf(),
        ensures
            final(self).wf(),
            done == Ok::<(), StoreError>(()),
            final(self)@ == (Tables {
                messages: old(self)@.messages.push(
                    DirectMessage { recipient: to_id, sender: from_id, size },
                ),
                ..old(self)@
            }),
    {
        self.messages.push(DirectMessage { recipient: to_id, sender: from_id, size });
        Ok(())
    }

    /// Performs one request and answers it.
    pub fn answer(&mut self, request: &Request) -> (reply: Reply)
        requires
            old(self).wf(),
        ensures
            final(self).wf(),
            (final(self)@, reply) == old(self)@.answer(request@),
    {
        match request {
            Request::IdentityId(key) => Reply::Id(self.pubkey_id(key.as_str())),
            Request::CreateIdentity(key) => Reply::Id(self.insert_pubkey(key.as_str())),
            Request::AddressId(key) => Reply::Id(self.address_id(key.as_str())),
            Request::CreateAddress(key) => Reply::Id(self.insert_address(key.as_str())),
            Request::LinkExists(identity, address) => Reply::Exists(
                self.pubkey_has_address(*identity, *address),
            ),
            Request::CreateLink(identity, address) => Reply::Done(
                self.connect_pubkey_address(*identity, *address),
            ),
            Request::RecordDirectMessage(message) => Reply::Done(
                self.save_dm(message.recipient, message.sender, message.size),
            ),
        }
    }

    /// The public keys, each at the position that is its id.
    pub fn pubkeys(&self) -> (rows: &Vec<String>)
        ensures
            keys_of(rows@) == self@.identities,
    {
        &self.identities
    }

    /// The verified addresses, each at the position that is its id.
    pub fn addresses(&self) -> (rows: &Vec<String>)
        ensures
            keys_of(rows@) == self@.addresses,
    {
        &self.addresses
    }

    /// The links, each an identity id and an address id.
    pub fn links(&self) -> (rows: &Vec<(i32, i32)>)
        ensures
            rows@ == self@.links,
    {
        &self.links
    }

    /// The direct-message records, oldest first.
    pub fn messages(&self) -> (rows: &Vec<DirectMessage>)
        ensures
            rows@ == self@.messages,
    {
        &self.messages
    }
}

} // verus!
