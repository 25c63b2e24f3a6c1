//! The ingestion pipeline: what the handling of events does to a store.

use crate::codec::{base64_decoding, claimed_address, metadata_claim, payload_size, size_of};
use crate::error::HandlerError;
use crate::event::{first_pubkey, recipient, route_of, Event, Notification, Route};
use crate::session::{
    message_start, metadata_start, start, start_message, start_metadata, Step, StepView,
};
use crate::store::{capacity, Database, DirectMessage, StoreError, Tables};
use vstd::prelude::*;

verus! {

/// The most handler invocations that may be in flight at once. Events
/// beyond it wait; none is dropped.
pub const MAX_IN_FLIGHT: usize = 15;

/// What running a session to its end against a store leaves: the store's
/// contents and the handler's result.
pub open spec fn outcome(tables: Tables, step: StepView) -> (Tables, Result<(), HandlerError>)
    decreases step.rank(),
{
    match step {
        StepView::Finished(result) => (tables, result),
        StepView::Continue(session) => {
            let (next, reply) = tables.answer(session.request());
            outcome(next, session.advance(reply))
        },
    }
}

/// A keyed table after a get-or-create of `key`, and the row's id.
pub open spec fn got_or_created(rows: Seq<Seq<char>>, key: Seq<char>) -> (
    Seq<Seq<char>>,
    Result<i32, StoreError>,
) {
    if rows.contains(key) {
        (rows, Ok(rows.index_of(key) as i32))
    } else if rows.len() >= capacity() {
        (rows, Err(StoreError::Unavailable))
    } else {
        (rows.push(key), Ok(rows.len() as i32))
    }
}

/// The link table once `pair` is linked.
pub open spec fn linked(links: Seq<(i32, i32)>, pair: (i32, i32)) -> Seq<(i32, i32)> {
    if links.contains(pair) {
        links
    } else {
        links.push(pair)
    }
}

/// What a metadata event does: nothing where its content is malformed; else
/// the publisher exists, and where an address is claimed, the address exists
/// and is linked to the publisher.
pub open spec fn metadata_effect(
    tables: Tables,
    pubkey: Seq<char>,
    parsed: Option<Option<Seq<char>>>,
) -> (Tables, Result<(), HandlerError>) {
    match parsed {
        None => (tables, Err(HandlerError::MalformedPayload)),
        Some(claim) => {
            let (identities, publisher) = got_or_created(tables.identities, pubkey);
            let known = Tables { identities, ..tables };
            match publisher {
                Err(e) => (known, Err(HandlerError::Store(e))),
                Ok(identity) => match claim {
                    None => (known, Ok(())),
                    Some(claimed) => {
                        let (addresses, found) = got_or_created(tables.addresses, claimed);
                        let named = Tables { addresses, ..known };
                        match found {
                            Err(e) => (named, Err(HandlerError::Store(e))),
                            Ok(address) => (
                                Tables {
                                    links: linked(tables.links, (identity, address)),
                                    ..named
                                },
                                Ok(()),
                            ),
                        }
                    },
                },
            }
        },
    }
}

/// What a direct message does: the sender exists; then, where a recipient is
/// named, the recipient exists; then, where the payload has a size, one
/// record is appended.
pub open spec fn message_effect(
    tables: Tables,
    pubkey: Seq<char>,
    recipient: Option<Seq<char>>,
    size: Result<i64, HandlerError>,
) -> (Tables, Result<(), HandlerError>) {
    let (senders, from) = got_or_created(tables.identities, pubkey);
    let sent = Tables { identities: senders, ..tables };
    match (from, recipient) {
        (Err(e), _) => (sent, Err(HandlerError::Store(e))),
        (Ok(_), None) => (sent, Err(HandlerError::MissingRecipient)),
        (Ok(sender), Some(to)) => {
            let (identities, found) = got_or_created(senders, to);
            let addressed = Tables { identities, ..tables };
            match (found, size) {
                (Err(e), _) => (addressed, Err(HandlerError::Store(e))),
                (Ok(_), Err(e)) => (addressed, Err(e)),
                (Ok(receiver), Ok(n)) => (
                    Tables {
                        messages: tables.messages.push(
                            DirectMessage { recipient: receiver, sender, size: n },
                        ),
                        ..addressed
                    },
                    Ok(()),
                ),
            }
        },
    }
}

/// What any event does, by its kind.
pub open spec fn event_effect(tables: Tables, event: Event) -> (
    Tables,
    Result<(), HandlerError>,
) {
    match route_of(event.kind) {
        Route::Metadata => metadata_effect(
            tables,
            event.pubkey@,
            metadata_claim(event.content@),
        ),
        Route::DirectMessage => message_effect(
            tables,
            event.pubkey@,
            first_pubkey(event.tags@),
            size_of(base64_decoding(event.content@)),
        ),
        Route::Drop => (tables, Ok(())),
    }
}

/// Whether a handler's result ends the whole pipeline. A store that cannot
/// take an operation does; every other failure ends its own event only.
pub open spec fn fatal(result: Result<(), HandlerError>) -> bool {
    result == Err::<(), HandlerError>(HandlerError::Store(StoreError::Unavailable))
}

/// What a stream of notifications does, each event handled in turn: the
/// stream stops at the first event whose handler ends with a fatal error,
/// and that error is the result; the failure of any other event is
/// discarded and the stream goes on.
pub open spec fn dispatched(tables: Tables, notifications: Seq<Notification>) -> (
    Tables,
    Result<(), HandlerError>,
)
    decreases notifications.len(),
{
    if notifications.len() == 0 {
        (tables, Ok(()))
    } else {
        let (before, so_far) = dispatched(tables, notifications.drop_last());
        match (so_far, notifications.last()) {
            (Err(e), _) => (before, Err(e)),
            (Ok(_), Notification::Other) => (before, Ok(())),
            (Ok(_), Notification::Event(event)) => {
                let (after, result) = event_effect(before, event);
                if fatal(result) {
                    (after, result)
                } else {
                    (after, Ok(()))
                }
            },
        }
    }
}

/// A stream that has stopped stays stopped: what follows the fatal event
/// is not handled.
pub proof fn lemma_dispatched_stops(tables: Tables, notifications: Seq<Notification>, i: int)
    requires
        0 <= i <= notifications.len(),
        dispatched(tables, notifications.take(i)).1 is Err,
    ensures
        dispatched(tables, notifications) == dispatched(tables, notifications.take(i)),
    decreases notifications.len(),
{
    if i == notifications.len() {
        assert(notifications.take(i) =~= notifications);
    } else {
        assert(notifications.drop_last().take(i) =~= notifications.take(i));
        lemma_dispatched_stops(tables, notifications.drop_last(), i);
    }
}

/// Whether a handler's result ends the whole pipeline.
pub fn is_fatal(result: &Result<(), HandlerError>) -> (stop: bool)
    ensures
        stop == fatal(*result),
{
    match result {
        Err(HandlerError::Store(StoreError::Unavailable)) => true,
        _ => false,
    }
}

/// A session for a metadata event, run to its end, does what
/// `metadata_effect` says.
pub proof fn lemma_metadata_outcome(
    tables: Tables,
    pubkey: Seq<char>,
    parsed: Option<Option<Seq<char>>>,
)
    requires
        tables.wf(),
    ensures
        outcome(tables, metadata_start(pubkey, parsed)) == metadata_effect(tables, pubkey, parsed),
{
    reveal_with_fuel(outcome, 8);
}

/// A session for a direct message, run to its end, does what
/// `message_effect` says.
pub proof fn lemma_message_outcome(
    tables: Tables,
    pubkey: Seq<char>,
    recipient: Option<Seq<char>>,
    size: Result<i64, HandlerError>,
)
    requires
        tables.wf(),
    ensures
        outcome(tables, message_start(pubkey, recipient, size)) == message_effect(
            tables,
            pubkey,
            recipient,
            size,
        ),
{
    reveal_with_fuel(outcome, 8);
}

/// Runs a session against the store until it is finished.
pub fn run(db: &mut Database, step: Step) -> (result: Result<(), HandlerError>)
    requires
        old(db).wf(),
    ensures
        final(db).wf(),
        (final(db)@, result) == outcome(old(db)@, step@),
{
    let mut current = step;
    loop
        invariant
            db.wf(),
            outcome(db@, current@) == outcome(old(db)@, step@),
        decreases current@.rank(),
    {
        match current {
            Step::Finished(result) => {
                assert(outcome(db@, StepView::Finished(result)) == (db@, result));
                return result;
            },
            Step::Continue(session) => {
                let request = session.request();
                let reply = db.answer(&request);
                current = session.advance(reply);
            },
        }
    }
}

/// The pipeline: it owns the store and applies events to it.
pub struct Nostr {
    db: Database,
}

impl View for Nostr {
    type V = Tables;

    closed spec fn view(&self) -> Tables {
        self.db@
    }
}

impl Nostr {
    /// The invariant of the store that the pipeline owns.
    pub open spec fn wf(&self) -> bool {
        self@.wf()
    }

    /// A pipeline over `db`.
    pub fn new(db: Database) -> (nostr: Nostr)
        requires
            db.wf(),
        ensures
            nostr.wf(),
            nostr@ == db@,
    {
        Nostr { db }
    }

    /// The store as it stands.
    pub fn database(&self) -> (db: &Database)
        ensures
            db@ == self@,
    {
        &self.db
    }

    /// The id of the identity with this public key, created where it was
    /// not there.
    pub fn get_or_create_pubkey(&mut self, pubkey: &str) -> (id: Result<i32, StoreError>)
        requires
            old(self).wf(),
        ensures
            final(self).wf(),
            (final(self)@.identities, id) == got_or_created(old(self)@.identities, pubkey@),
            final(self)@ == (Tables { identities: final(self)@.identities, ..old(self)@ }),
    {
        match self.db.pubkey_id(pubkey) {
            Ok(id) => Ok(id),
            Err(_) => self.db.insert_pubkey(pubkey),
        }
    }

    /// Handles one event of any kind, by its kind.
    pub fn handle_event(&mut self, event: &Event) -> (result: Result<(), HandlerError>)
        requires
            old(self).wf(),
        ensures
            final(self).wf(),
            (final(self)@, result) == event_effect(old(self)@, *event),
    {
        proof {
            lemma_metadata_outcome(self@, event.pubkey@, metadata_claim(event.content@));
            lemma_message_outcome(
                self@,
                event.pubkey@,
                first_pubkey(event.tags@),
                size_of(base64_decoding(event.content@)),
            );
        }
        run(&mut self.db, start(event))
    }

    /// Handles a metadata event: the publisher exists afterwards, and where
    /// the document claims an address, the address exists and is linked to
    /// the publisher. Content that is no metadata document changes nothing.
    pub fn save_metadata(&mut self, event: &Event) -> (result: Result<(), HandlerError>)
        requires
            old(self).wf(),
        ensures
            final(self).wf(),
            (final(self)@, result) == metadata_effect(
                old(self)@,
                event.pubkey@,
                metadata_claim(event.content@),
            ),
            metadata_claim(event.content@) is None ==> final(self)@ == old(self)@ && result == Err::<
                (),
                HandlerError,
            >(HandlerError::MalformedPayload),
    {
        proof {
            lemma_metadata_outcome(self@, event.pubkey@, metadata_claim(event.content@));
        }
        let parsed = claimed_address(event.content.as_str());
        run(&mut self.db, start_metadata(event.pubkey.clone(), parsed))
    }

    /// Handles a direct message: sender and recipient exist afterwards, and
    /// one record holds their ids and the exact number of bytes that the
    /// content encodes. Without a recipient, or with content that is not
    /// base64, no record is added.
    pub fn save_dm(&mut self, event: &Event) -> (result: Result<(), HandlerError>)
        requires
            old(self).wf(),
        ensures
            final(self).wf(),
            (final(self)@, result) == message_effect(
                old(self)@,
                event.pubkey@,
                first_pubkey(event.tags@),
                size_of(base64_decoding(event.content@)),
            ),
            first_pubkey(event.tags@) is None ==> result is Err && final(self)@.messages == old(
                self,
            )@.messages,
            result is Err ==> final(self)@.messages == old(self)@.messages,
            result is Ok ==> base64_decoding(event.content@) is Some && final(self)@.messages
                == old(self)@.messages.push(final(self)@.messages.last())
                && final(self)@.messages.last().size == base64_decoding(
                event.content@,
            ).unwrap().len(),
    {
        proof {
            lemma_message_outcome(
                self@,
                event.pubkey@,
                first_pubkey(event.tags@),
                size_of(base64_decoding(event.content@)),
            );
        }
        let to = recipient(&event.tags);
        let size = payload_size(event.content.as_str());
        run(&mut self.db, start_message(event.pubkey.clone(), to, size))
    }

    /// Applies a stream of notifications in the order given. Items that
    /// carry no event are skipped. An event that fails for a reason of its
    /// own is given up and the stream goes on; an event that fails because
    /// the store cannot take an operation ends the stream with that error.
    pub fn hydrate_messages(&mut self, notifications: &Vec<Notification>) -> (result: Result<
        (),
        HandlerError,
    >)
        requires
            old(self).wf(),
        ensures
            final(self).wf(),
            (final(self)@, result) == dispatched(old(self)@, notifications@),
    {
        let mut i: usize = 0;
        while i < notifications.len()
            invariant
                i <= notifications.len(),
                self.wf(),
                (self@, Ok::<(), HandlerError>(())) == dispatched(
                    old(self)@,
                    notifications@.take(i as int),
                ),
            decreases notifications.len() - i,
        {
            proof {
                assert(notifications@.take(i + 1).drop_last() =~= notifications@.take(i as int));
            }
            match &notifications[i] {
                Notification::Event(event) => {
                    let result = self.handle_event(event);
                    if is_fatal(&result) {
                        proof {
                            lemma_dispatched_stops(old(self)@, notifications@, i + 1);
                        }
                        return result;
                    }
                },
                Notification::Other => {},
            }
            i += 1;
        }
        proof {
            assert(notifications@.take(i as int) =~= notifications@);
        }
        Ok(())
    }
}

} // verus!
