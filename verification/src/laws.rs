//! What holds of the store whatever events arrive, in whatever order.

use crate::codec::{base64_decoding, metadata_claim, size_of};
use crate::error::HandlerError;
use crate::event::{first_pubkey, route_of, Event, Notification, Route};
use crate::pipeline::{
    dispatched, event_effect, fatal, got_or_created, lemma_dispatched_stops, message_effect,
    metadata_effect, outcome,
};
use crate::session::{
    event_start, message_start, metadata_start, SessionView, Stage, StepView,
};
use crate::store::{capacity, lemma_find_at, DirectMessage, RequestView, Tables};
use vstd::prelude::*;

verus! {

/// How many rows of a table hold `key`.
pub open spec fn rows_with<A>(rows: Seq<A>, key: A) -> nat {
    rows.to_multiset().count(key)
}

/// `after` holds every row of `before` at its old position.
pub open spec fn extends<A>(after: Seq<A>, before: Seq<A>) -> bool {
    &&& before.len() <= after.len()
    &&& forall|i: int| 0 <= i < before.len() ==> after[i] == before[i]
}

/// The table holds `key` or has room for it.
pub open spec fn has_room(rows: Seq<Seq<char>>, key: Seq<char>) -> bool {
    rows.contains(key) || rows.len() < capacity()
}

/// The handler of `event` comes to resolve the publisher and the store can
/// hold it: the event is of a handled kind, its content parses where it is
/// metadata, and the identity table has room.
pub open spec fn publisher_resolved(tables: Tables, event: Event) -> bool {
    &&& route_of(event.kind) != Route::Drop
    &&& route_of(event.kind) == Route::Metadata ==> metadata_claim(event.content@) is Some
    &&& has_room(tables.identities, event.pubkey@)
}

/// Nothing was removed or changed, and no id was reassigned.
pub open spec fn grown(after: Tables, before: Tables) -> bool {
    &&& extends(after.identities, before.identities)
    &&& extends(after.addresses, before.addresses)
    &&& extends(after.links, before.links)
    &&& extends(after.messages, before.messages)
}

/// The store after a sequence of requests, from whatever sessions they
/// come and however these are interleaved.
pub open spec fn served(tables: Tables, requests: Seq<RequestView>) -> Tables
    decreases requests.len(),
{
    if requests.len() == 0 {
        tables
    } else {
        served(tables, requests.drop_last()).answer(requests.last()).0
    }
}

/// In a table without duplicates a key that is there is there once, and no
/// key is there twice.
pub proof fn lemma_rows_with<A>(rows: Seq<A>, key: A)
    requires
        rows.no_duplicates(),
    ensures
        rows_with(rows, key) <= 1,
        rows.contains(key) <==> rows_with(rows, key) == 1,
{
    rows.to_multiset_ensures();
    rows.lemma_multiset_has_no_duplicates();
    assert(rows.to_multiset().contains(key) <==> rows.to_multiset().count(key) > 0);
}

/// A get-or-create keeps a table free of duplicates, keeps every row where
/// it was, and where it succeeds the id it gives is that of the key's row.
pub proof fn lemma_got_or_created(rows: Seq<Seq<char>>, key: Seq<char>)
    requires
        rows.no_duplicates(),
        rows.len() <= i32::MAX,
    ensures
        got_or_created(rows, key).0.no_duplicates(),
        got_or_created(rows, key).0.len() <= i32::MAX,
        extends(got_or_created(rows, key).0, rows),
        match got_or_created(rows, key).1 {
            Ok(id) => 0 <= id < got_or_created(rows, key).0.len() && got_or_created(
                rows,
                key,
            ).0[id as int] == key && got_or_created(rows, key).0.contains(key),
            Err(_) => got_or_created(rows, key).0 == rows,
        },
{
    if rows.contains(key) {
        let i = rows.index_of(key);
        assert(0 <= i < rows.len() && rows[i] == key);
    } else if rows.len() < i32::MAX {
        let after = rows.push(key);
        assert(after[rows.len() as int] == key);
        assert(after.contains(key));
    }
}

/// Whatever is asked of a store, it keeps its invariant and loses nothing.
pub proof fn lemma_answer_keeps_invariant(tables: Tables, request: RequestView)
    requires
        tables.wf(),
    ensures
        tables.answer(request).0.wf(),
        grown(tables.answer(request).0, tables),
{
}

/// Uniqueness under any interleaving: after any sequence of requests no
/// public key, no address and no link is held twice, and every row is
/// where it was.
pub proof fn lemma_served_keeps_invariant(tables: Tables, requests: Seq<RequestView>)
    requires
        tables.wf(),
    ensures
        served(tables, requests).wf(),
        grown(served(tables, requests), tables),
        forall|key: Seq<char>| rows_with(served(tables, requests).identities, key) <= 1,
        forall|key: Seq<char>| rows_with(served(tables, requests).addresses, key) <= 1,
        forall|pair: (i32, i32)| rows_with(served(tables, requests).links, pair) <= 1,
    decreases requests.len(),
{
    if requests.len() > 0 {
        lemma_served_keeps_invariant(tables, requests.drop_last());
        lemma_answer_keeps_invariant(served(tables, requests.drop_last()), requests.last());
    }
    let after = served(tables, requests);
    assert forall|key: Seq<char>| rows_with(after.identities, key) <= 1 by {
        lemma_rows_with(after.identities, key);
    }
    assert forall|key: Seq<char>| rows_with(after.addresses, key) <= 1 by {
        lemma_rows_with(after.addresses, key);
    }
    assert forall|pair: (i32, i32)| rows_with(after.links, pair) <= 1 by {
        lemma_rows_with(after.links, pair);
    }
}

/// Handling an event keeps the store's invariant and loses nothing,
/// whether the handler succeeds or fails.
pub proof fn lemma_effect_keeps_invariant(tables: Tables, event: Event)
    requires
        tables.wf(),
    ensures
        event_effect(tables, event).0.wf(),
        grown(event_effect(tables, event).0, tables),
{
    lemma_metadata_keeps_invariant(
        tables,
        event.pubkey@,
        metadata_claim(event.content@),
    );
    lemma_message_keeps_invariant(
        tables,
        event.pubkey@,
        first_pubkey(event.tags@),
        size_of(base64_decoding(event.content@)),
    );
}

/// A metadata event keeps the store's invariant and loses nothing. Where
/// its content parses and the store has room, the publisher is held
/// exactly once afterwards, whether or not the rest succeeds.
pub proof fn lemma_metadata_keeps_invariant(
    tables: Tables,
    pubkey: Seq<char>,
    parsed: Option<Option<Seq<char>>>,
)
    requires
        tables.wf(),
    ensures
        metadata_effect(tables, pubkey, parsed).0.wf(),
        grown(metadata_effect(tables, pubkey, parsed).0, tables),
        parsed is Some && has_room(tables.identities, pubkey) ==> rows_with(
            metadata_effect(tables, pubkey, parsed).0.identities,
            pubkey,
        ) == 1,
{
    lemma_got_or_created(tables.identities, pubkey);
    match parsed {
        Some(Some(claimed)) => {
            lemma_got_or_created(tables.addresses, claimed);
        },
        _ => {},
    }
    lemma_rows_with(metadata_effect(tables, pubkey, parsed).0.identities, pubkey);
}

/// A direct message keeps the store's invariant and loses nothing. Where
/// the store has room the sender is held exactly once afterwards, and
/// where the message succeeds so is the recipient.
pub proof fn lemma_message_keeps_invariant(
    tables: Tables,
    pubkey: Seq<char>,
    recipient: Option<Seq<char>>,
    size: Result<i64, HandlerError>,
)
    requires
        tables.wf(),
    ensures
        message_effect(tables, pubkey, recipient, size).0.wf(),
        grown(message_effect(tables, pubkey, recipient, size).0, tables),
        has_room(tables.identities, pubkey) ==> rows_with(
            message_effect(tables, pubkey, recipient, size).0.identities,
            pubkey,
        ) == 1,
        message_effect(tables, pubkey, recipient, size).1 is Ok ==> recipient is Some && rows_with(
            message_effect(tables, pubkey, recipient, size).0.identities,
            recipient.unwrap(),
        ) == 1,
{
    lemma_got_or_created(tables.identities, pubkey);
    let senders = got_or_created(tables.identities, pubkey).0;
    let after = message_effect(tables, pubkey, recipient, size).0;
    match recipient {
        Some(to) => {
            lemma_got_or_created(senders, to);
            lemma_rows_with(after.identities, to);
            if has_room(tables.identities, pubkey) {
                let id = got_or_created(tables.identities, pubkey).1.unwrap();
                assert(after.identities[id as int] == pubkey);
                assert(after.identities.contains(pubkey));
            }
        },
        None => {},
    }
    lemma_rows_with(after.identities, pubkey);
}

/// A stream of notifications, whatever it holds and wherever it stops,
/// keeps the store's invariant and loses nothing: no failing event undoes
/// an earlier one.
pub proof fn lemma_dispatched_keeps_invariant(tables: Tables, notifications: Seq<Notification>)
    requires
        tables.wf(),
    ensures
        dispatched(tables, notifications).0.wf(),
        grown(dispatched(tables, notifications).0, tables),
    decreases notifications.len(),
{
    if notifications.len() > 0 {
        let before = dispatched(tables, notifications.drop_last()).0;
        lemma_dispatched_keeps_invariant(tables, notifications.drop_last());
        match notifications.last() {
            Notification::Event(event) => {
                lemma_effect_keeps_invariant(before, event);
            },
            Notification::Other => {},
        }
    }
}

/// A store that cannot be reached ends the pipeline: where the stream
/// has come to an event whose handler ends with a fatal error, the stream's
/// result is that error and the store is what that event left; no later
/// event is handled.
pub proof fn lemma_fatal_event_ends_stream(
    tables: Tables,
    notifications: Seq<Notification>,
    i: int,
    event: Event,
)
    requires
        0 <= i < notifications.len(),
        notifications[i] == Notification::Event(event),
        dispatched(tables, notifications.take(i)).1 is Ok,
        fatal(event_effect(dispatched(tables, notifications.take(i)).0, event).1),
    ensures
        dispatched(tables, notifications) == event_effect(
            dispatched(tables, notifications.take(i)).0,
            event,
        ),
{
    assert(notifications.take(i + 1).drop_last() =~= notifications.take(i));
    lemma_dispatched_stops(tables, notifications, i + 1);
}

/// A failure of an event's own does not end the pipeline: where no
/// handler ends with a fatal error, the stream's result is success.
pub proof fn lemma_stream_goes_on(tables: Tables, notifications: Seq<Notification>)
    requires
        forall|i: int|
            0 <= i < notifications.len() ==> match #[trigger] notifications[i] {
                Notification::Event(event) => !fatal(
                    event_effect(dispatched(tables, notifications.take(i)).0, event).1,
                ),
                Notification::Other => true,
            },
    ensures
        dispatched(tables, notifications).1 is Ok,
    decreases notifications.len(),
{
    if notifications.len() > 0 {
        let rest = notifications.drop_last();
        assert forall|i: int| 0 <= i < rest.len() implies match #[trigger] rest[i] {
            Notification::Event(event) => !fatal(
                event_effect(dispatched(tables, rest.take(i)).0, event).1,
            ),
            Notification::Other => true,
        } by {
            assert(rest[i] == notifications[i]);
            assert(rest.take(i) =~= notifications.take(i));
        }
        lemma_stream_goes_on(tables, rest);
        let last = notifications.len() - 1;
        assert(notifications.take(last) =~= rest);
        assert(notifications[last] == notifications.last());
    }
}

/// One identity per public key: after a stream in which the handler of
/// some event came to resolve its publisher, exactly one identity row
/// holds that public key, however many events of the key the stream holds
/// and in whatever order.
pub proof fn lemma_one_identity_per_key(
    tables: Tables,
    notifications: Seq<Notification>,
    i: int,
    event: Event,
)
    requires
        tables.wf(),
        0 <= i < notifications.len(),
        notifications[i] == Notification::Event(event),
        dispatched(tables, notifications.take(i)).1 is Ok,
        publisher_resolved(dispatched(tables, notifications.take(i)).0, event),
    ensures
        rows_with(dispatched(tables, notifications).0.identities, event.pubkey@) == 1,
    decreases notifications.len(),
{
    let rest = notifications.drop_last();
    let before = dispatched(tables, rest).0;
    lemma_dispatched_keeps_invariant(tables, rest);
    lemma_dispatched_keeps_invariant(tables, notifications);
    let after = dispatched(tables, notifications).0;
    if i == notifications.len() - 1 {
        assert(notifications.take(i) =~= rest);
        lemma_metadata_keeps_invariant(before, event.pubkey@, metadata_claim(event.content@));
        lemma_message_keeps_invariant(
            before,
            event.pubkey@,
            first_pubkey(event.tags@),
            size_of(base64_decoding(event.content@)),
        );
    } else {
        assert(rest.take(i) =~= notifications.take(i));
        lemma_one_identity_per_key(tables, rest, i, event);
        lemma_rows_with(before.identities, event.pubkey@);
        if dispatched(tables, rest).1 is Ok {
            match notifications.last() {
                Notification::Event(last) => {
                    lemma_effect_keeps_invariant(before, last);
                },
                Notification::Other => {},
            }
        }
        lemma_extends_contains(after.identities, before.identities, event.pubkey@);
        lemma_rows_with(after.identities, event.pubkey@);
    }
}

/// A repeated claim changes nothing: once a metadata event has been
/// handled, the same event handled again leaves every table as it is, so
/// the link it asserts is held once however often it is asserted.
pub proof fn lemma_repeated_metadata_changes_nothing(
    tables: Tables,
    pubkey: Seq<char>,
    parsed: Option<Option<Seq<char>>>,
)
    requires
        tables.wf(),
    ensures
        metadata_effect(metadata_effect(tables, pubkey, parsed).0, pubkey, parsed).0
            == metadata_effect(tables, pubkey, parsed).0,
        forall|pair: (i32, i32)|
            rows_with(metadata_effect(tables, pubkey, parsed).0.links, pair) <= 1,
{
    let once = metadata_effect(tables, pubkey, parsed).0;
    lemma_metadata_keeps_invariant(tables, pubkey, parsed);
    lemma_got_or_created(tables.identities, pubkey);
    let (identities, publisher) = got_or_created(tables.identities, pubkey);
    if let (Some(claim), Ok(identity)) = (parsed, publisher) {
        lemma_find_at(identities, pubkey, identity as int);
        if let Some(claimed) = claim {
            lemma_got_or_created(tables.addresses, claimed);
            let (addresses, found) = got_or_created(tables.addresses, claimed);
            if let Ok(address) = found {
                lemma_find_at(addresses, claimed, address as int);
                if !tables.links.contains((identity, address)) {
                    assert(once.links[tables.links.len() as int] == (identity, address));
                }
                assert(once.links.contains((identity, address)));
            }
        }
    }
    assert forall|pair: (i32, i32)| rows_with(once.links, pair) <= 1 by {
        lemma_rows_with(once.links, pair);
    }
}

/// What a session leaves when the requests of other sessions reach the
/// store between its own: before the request that the session makes at rank
/// `r`, the store serves `others(r)`, whatever that holds.
pub open spec fn outcome_among(
    tables: Tables,
    step: StepView,
    others: spec_fn(nat) -> Seq<RequestView>,
) -> (Tables, Result<(), HandlerError>)
    decreases step.rank(),
{
    match step {
        StepView::Finished(result) => (tables, result),
        StepView::Continue(session) => {
            let now = served(tables, others(session.rank()));
            let (next, reply) = now.answer(session.request());
            outcome_among(next, session.advance(reply), others)
        },
    }
}

/// The session has resolved the identity of `key`, or has yet to.
pub open spec fn resolves(session: SessionView, tables: Tables, key: Seq<char>) -> bool {
    match session {
        SessionView::Publisher { pubkey, .. } => pubkey == key,
        SessionView::Sender { pubkey, recipient, .. } => pubkey == key || recipient == Some(key),
        SessionView::Recipient { pubkey, .. } => pubkey == key || tables.identities.contains(key),
        _ => tables.identities.contains(key),
    }
}

/// A row that a table holds it still holds once the table has grown.
pub proof fn lemma_extends_contains<A>(after: Seq<A>, before: Seq<A>, key: A)
    requires
        extends(after, before),
        before.contains(key),
    ensures
        after.contains(key),
{
    let i = before.index_of(key);
    assert(0 <= i < before.len() && before[i] == key);
    assert(after[i] == key);
}

/// A session that reads a key again does so because a creation found the
/// key there already.
pub open spec fn rereads_known(session: SessionView, tables: Tables) -> bool {
    match session {
        SessionView::Publisher { stage, pubkey, .. } => stage == Stage::Reread
            ==> tables.identities.contains(pubkey),
        SessionView::Sender { stage, pubkey, .. } => stage == Stage::Reread
            ==> tables.identities.contains(pubkey),
        SessionView::Recipient { stage, pubkey, .. } => stage == Stage::Reread
            ==> tables.identities.contains(pubkey),
        SessionView::Address { stage, address, .. } => stage == Stage::Reread
            ==> tables.addresses.contains(address),
        _ => true,
    }
}

/// Among any requests of other sessions, a session keeps the store's
/// invariant and loses nothing. The store then holds exactly once every
/// identity that the session had to resolve, where the session ends with
/// success and also where it fails, as long as the identity table is not
/// full at the end.
pub proof fn lemma_session_among_others(
    tables: Tables,
    session: SessionView,
    others: spec_fn(nat) -> Seq<RequestView>,
    key: Seq<char>,
)
    requires
        tables.wf(),
        resolves(session, tables, key),
        rereads_known(session, tables),
    ensures
        outcome_among(tables, StepView::Continue(session), others).0.wf(),
        grown(outcome_among(tables, StepView::Continue(session), others).0, tables),
        outcome_among(tables, StepView::Continue(session), others).1 is Ok ==> rows_with(
            outcome_among(tables, StepView::Continue(session), others).0.identities,
            key,
        ) == 1,
        outcome_among(tables, StepView::Continue(session), others).0.identities.len()
            < capacity() ==> rows_with(
            outcome_among(tables, StepView::Continue(session), others).0.identities,
            key,
        ) == 1,
    decreases session.rank(),
{
    reveal_with_fuel(outcome_among, 2);
    let now = served(tables, others(session.rank()));
    lemma_served_keeps_invariant(tables, others(session.rank()));
    if tables.identities.contains(key) {
        lemma_extends_contains(now.identities, tables.identities, key);
    }
    match session {
        SessionView::Publisher { pubkey, .. } => {
            if tables.identities.contains(pubkey) {
                lemma_extends_contains(now.identities, tables.identities, pubkey);
            }
        },
        SessionView::Sender { pubkey, .. } => {
            if tables.identities.contains(pubkey) {
                lemma_extends_contains(now.identities, tables.identities, pubkey);
            }
        },
        SessionView::Recipient { pubkey, .. } => {
            if tables.identities.contains(pubkey) {
                lemma_extends_contains(now.identities, tables.identities, pubkey);
            }
        },
        SessionView::Address { address, .. } => {
            if tables.addresses.contains(address) {
                lemma_extends_contains(now.addresses, tables.addresses, address);
            }
        },
        _ => {},
    }
    let (next, reply) = now.answer(session.request());
    lemma_answer_keeps_invariant(now, session.request());
    if now.identities.contains(key) {
        lemma_extends_contains(next.identities, now.identities, key);
    }
    lemma_got_or_created(now.identities, key);
    if now.identities.contains(key) {
        let i = now.identities.index_of(key);
        assert(0 <= i < now.identities.len() && now.identities[i] == key);
    } else if now.identities.len() < i32::MAX {
        assert(now.identities.push(key)[now.identities.len() as int] == key);
    }
    match session.advance(reply) {
        StepView::Finished(result) => {
            if result is Ok || next.identities.len() < capacity() {
                assert(next.identities.contains(key));
            }
            lemma_rows_with(next.identities, key);
        },
        StepView::Continue(following) => {
            assert(resolves(following, next, key));
            assert(rereads_known(following, next));
            lemma_session_among_others(next, following, others, key);
            let end = outcome_among(next, StepView::Continue(following), others).0;
            assert(grown(end, tables));
        },
    }
}

/// One identity per public key under concurrency: however the requests
/// of other sessions fall between those of a metadata event, the store
/// keeps its invariant. Where the content parses, the store then holds
/// exactly one identity of the publisher, if the event is handled with
/// success or the identity table is not full.
pub proof fn lemma_metadata_among_others(
    tables: Tables,
    pubkey: Seq<char>,
    parsed: Option<Option<Seq<char>>>,
    others: spec_fn(nat) -> Seq<RequestView>,
)
    requires
        tables.wf(),
    ensures
        outcome_among(tables, metadata_start(pubkey, parsed), others).0.wf(),
        grown(outcome_among(tables, metadata_start(pubkey, parsed), others).0, tables),
        outcome_among(tables, metadata_start(pubkey, parsed), others).1 is Ok ==> rows_with(
            outcome_among(tables, metadata_start(pubkey, parsed), others).0.identities,
            pubkey,
        ) == 1,
        parsed is Some && outcome_among(
            tables,
            metadata_start(pubkey, parsed),
            others,
        ).0.identities.len() < capacity() ==> rows_with(
            outcome_among(tables, metadata_start(pubkey, parsed), others).0.identities,
            pubkey,
        ) == 1,
        parsed is None ==> outcome_among(tables, metadata_start(pubkey, parsed), others).0
            == tables,
{
    if let StepView::Continue(session) = metadata_start(pubkey, parsed) {
        lemma_session_among_others(tables, session, others, pubkey);
    }
}

/// The same for a direct message: the store then holds exactly one
/// identity of its sender and, where it names one, of its recipient, if
/// the message is handled with success or the identity table is not full.
pub proof fn lemma_message_among_others(
    tables: Tables,
    pubkey: Seq<char>,
    recipient: Option<Seq<char>>,
    size: Result<i64, HandlerError>,
    others: spec_fn(nat) -> Seq<RequestView>,
)
    requires
        tables.wf(),
    ensures
        outcome_among(tables, message_start(pubkey, recipient, size), others).0.wf(),
        grown(outcome_among(tables, message_start(pubkey, recipient, size), others).0, tables),
        outcome_among(tables, message_start(pubkey, recipient, size), others).1 is Ok ==> {
            let after = outcome_among(tables, message_start(pubkey, recipient, size), others).0;
            &&& recipient is Some
            &&& rows_with(after.identities, pubkey) == 1
            &&& rows_with(after.identities, recipient.unwrap()) == 1
        },
        outcome_among(tables, message_start(pubkey, recipient, size), others).0.identities.len()
            < capacity() ==> {
            let after = outcome_among(tables, message_start(pubkey, recipient, size), others).0;
            &&& rows_with(after.identities, pubkey) == 1
            &&& recipient is Some ==> rows_with(after.identities, recipient.unwrap()) == 1
        },
{
    if let StepView::Continue(session) = message_start(pubkey, recipient, size) {
        lemma_session_among_others(tables, session, others, pubkey);
        if let Some(to) = recipient {
            lemma_session_among_others(tables, session, others, to);
        } else {
            lemma_no_recipient_no_success(tables, session, others);
        }
    }
}

/// One identity per public key, whatever the number of events and their
/// interleaving: take an event of a handled kind whose content parses
/// where it is metadata. However the requests of other sessions fall
/// between its own (`others`) and whatever is asked of the store
/// afterwards (`later`), no public key is held twice, and the event's own
/// public key is held exactly once unless the identity table is full.
pub proof fn lemma_one_identity_under_any_interleaving(
    tables: Tables,
    event: Event,
    others: spec_fn(nat) -> Seq<RequestView>,
    later: Seq<RequestView>,
)
    requires
        tables.wf(),
        route_of(event.kind) != Route::Drop,
        route_of(event.kind) == Route::Metadata ==> metadata_claim(event.content@) is Some,
    ensures
        forall|key: Seq<char>|
            rows_with(
                served(outcome_among(tables, event_start(event), others).0, later).identities,
                key,
            ) <= 1,
        served(outcome_among(tables, event_start(event), others).0, later).identities.len()
            < capacity() ==> rows_with(
            served(outcome_among(tables, event_start(event), others).0, later).identities,
            event.pubkey@,
        ) == 1,
{
    let after = outcome_among(tables, event_start(event), others).0;
    if route_of(event.kind) == Route::Metadata {
        lemma_metadata_among_others(
            tables,
            event.pubkey@,
            metadata_claim(event.content@),
            others,
        );
    } else {
        lemma_message_among_others(
            tables,
            event.pubkey@,
            first_pubkey(event.tags@),
            size_of(base64_decoding(event.content@)),
            others,
        );
    }
    lemma_served_keeps_invariant(after, later);
    let end = served(after, later);
    if end.identities.len() < capacity() {
        lemma_rows_with(after.identities, event.pubkey@);
        lemma_extends_contains(end.identities, after.identities, event.pubkey@);
        lemma_rows_with(end.identities, event.pubkey@);
    }
}

/// A direct message that names no recipient never ends with success,
/// whatever the store answers and whatever other sessions ask of it.
pub proof fn lemma_no_recipient_no_success(
    tables: Tables,
    session: SessionView,
    others: spec_fn(nat) -> Seq<RequestView>,
)
    requires
        tables.wf(),
        session is Sender,
        session->Sender_recipient is None,
    ensures
        outcome_among(tables, StepView::Continue(session), others).1 is Err,
    decreases session.rank(),
{
    reveal_with_fuel(outcome_among, 2);
    let now = served(tables, others(session.rank()));
    lemma_served_keeps_invariant(tables, others(session.rank()));
    let (next, reply) = now.answer(session.request());
    lemma_answer_keeps_invariant(now, session.request());
    match session.advance(reply) {
        StepView::Finished(result) => {},
        StepView::Continue(following) => {
            lemma_no_recipient_no_success(next, following, others);
        },
    }
}

/// Left alone, a session leaves what it leaves among others that ask
/// nothing.
pub proof fn lemma_alone_among_none(tables: Tables, step: StepView)
    ensures
        outcome_among(tables, step, |rank: nat| Seq::<RequestView>::empty()) == outcome(
            tables,
            step,
        ),
    decreases step.rank(),
{
    let none = |rank: nat| Seq::<RequestView>::empty();
    if let StepView::Continue(session) = step {
        assert(served(tables, none(session.rank())) == tables);
        let (next, reply) = tables.answer(session.request());
        lemma_alone_among_none(next, session.advance(reply));
    }
}

/// The row with id `id` holds `key`.
pub open spec fn row_is(rows: Seq<Seq<char>>, id: i32, key: Seq<char>) -> bool {
    0 <= id < rows.len() && rows[id as int] == key
}

/// The session is on its way to link the identity of `pubkey` to the
/// address `claimed`, and every id it holds is the id of the right row.
pub open spec fn links_toward(
    session: SessionView,
    tables: Tables,
    pubkey: Seq<char>,
    claimed: Seq<char>,
) -> bool {
    match session {
        SessionView::Publisher { pubkey: key, claim, .. } => key == pubkey && claim == Some(
            claimed,
        ),
        SessionView::Address { identity, address, .. } => address == claimed && row_is(
            tables.identities,
            identity,
            pubkey,
        ),
        SessionView::LinkCheck { identity, address } => row_is(
            tables.identities,
            identity,
            pubkey,
        ) && row_is(tables.addresses, address, claimed),
        SessionView::LinkCreate { identity, address } => row_is(
            tables.identities,
            identity,
            pubkey,
        ) && row_is(tables.addresses, address, claimed),
        _ => false,
    }
}

/// The store links the identity of `pubkey` to the address `claimed`,
/// each held once, by exactly one link.
pub open spec fn linked_once(tables: Tables, pubkey: Seq<char>, claimed: Seq<char>) -> bool {
    exists|identity: i32, address: i32|
        #![trigger tables.links.contains((identity, address))]
        row_is(tables.identities, identity, pubkey) && row_is(tables.addresses, address, claimed)
            && tables.links.contains((identity, address)) && rows_with(
            tables.links,
            (identity, address),
        ) == 1
}

/// Among any requests of other sessions, a metadata session that ends
/// with success leaves its claim linked exactly once.
pub proof fn lemma_link_among_others(
    tables: Tables,
    session: SessionView,
    others: spec_fn(nat) -> Seq<RequestView>,
    pubkey: Seq<char>,
    claimed: Seq<char>,
)
    requires
        tables.wf(),
        links_toward(session, tables, pubkey, claimed),
    ensures
        outcome_among(tables, StepView::Continue(session), others).1 is Ok ==> linked_once(
            outcome_among(tables, StepView::Continue(session), others).0,
            pubkey,
            claimed,
        ),
    decreases session.rank(),
{
    reveal_with_fuel(outcome_among, 2);
    let now = served(tables, others(session.rank()));
    lemma_served_keeps_invariant(tables, others(session.rank()));
    let (next, reply) = now.answer(session.request());
    lemma_answer_keeps_invariant(now, session.request());
    lemma_got_or_created(now.identities, pubkey);
    lemma_got_or_created(now.addresses, claimed);
    match session.advance(reply) {
        StepView::Finished(result) => {
            if result is Ok {
                match session {
                    SessionView::LinkCheck { identity, address } => {
                        assert(next.links.contains((identity, address)));
                        lemma_rows_with(next.links, (identity, address));
                    },
                    SessionView::LinkCreate { identity, address } => {
                        assert(next.links[now.links.len() as int] == (identity, address));
                        assert(next.links.contains((identity, address)));
                        lemma_rows_with(next.links, (identity, address));
                    },
                    _ => {},
                }
            }
        },
        StepView::Continue(following) => {
            assert(links_toward(following, next, pubkey, claimed));
            lemma_link_among_others(next, following, others, pubkey, claimed);
        },
    }
}

/// The session is on its way to record a message of `size` bytes from
/// `pubkey` to `to`, and every id it holds is the id of the right row.
pub open spec fn records_toward(
    session: SessionView,
    tables: Tables,
    pubkey: Seq<char>,
    to: Seq<char>,
    bytes: i64,
) -> bool {
    match session {
        SessionView::Sender { pubkey: key, recipient, size, .. } => key == pubkey && recipient
            == Some(to) && size == Ok::<i64, HandlerError>(bytes),
        SessionView::Recipient { sender, pubkey: key, size, .. } => key == to && size == Ok::<
            i64,
            HandlerError,
        >(bytes) && row_is(tables.identities, sender, pubkey),
        SessionView::Record { message } => message.size == bytes && row_is(
            tables.identities,
            message.sender,
            pubkey,
        ) && row_is(tables.identities, message.recipient, to),
        _ => false,
    }
}

/// The store holds a record of a message of `size` bytes from the
/// identity of `pubkey` to the identity of `to`.
pub open spec fn recorded(tables: Tables, pubkey: Seq<char>, to: Seq<char>, bytes: i64) -> bool {
    exists|sender: i32, recipient: i32|
        #![trigger tables.messages.contains(DirectMessage { recipient, sender, size: bytes })]
        row_is(tables.identities, sender, pubkey) && row_is(tables.identities, recipient, to)
            && tables.messages.contains(DirectMessage { recipient, sender, size: bytes })
}

/// Among any requests of other sessions, a direct-message session that
/// ends with success leaves a record with the ids of its sender and its
/// recipient and with its size.
pub proof fn lemma_record_among_others(
    tables: Tables,
    session: SessionView,
    others: spec_fn(nat) -> Seq<RequestView>,
    pubkey: Seq<char>,
    to: Seq<char>,
    bytes: i64,
)
    requires
        tables.wf(),
        records_toward(session, tables, pubkey, to, bytes),
    ensures
        outcome_among(tables, StepView::Continue(session), others).1 is Ok ==> recorded(
            outcome_among(tables, StepView::Continue(session), others).0,
            pubkey,
            to,
            bytes,
        ),
    decreases session.rank(),
{
    reveal_with_fuel(outcome_among, 2);
    let now = served(tables, others(session.rank()));
    lemma_served_keeps_invariant(tables, others(session.rank()));
    let (next, reply) = now.answer(session.request());
    lemma_answer_keeps_invariant(now, session.request());
    lemma_got_or_created(now.identities, pubkey);
    lemma_got_or_created(now.identities, to);
    match session.advance(reply) {
        StepView::Finished(result) => {
            if result is Ok {
                match session {
                    SessionView::Record { message } => {
                        assert(next.messages[now.messages.len() as int] == message);
                        assert(next.messages.contains(
                            DirectMessage {
                                recipient: message.recipient,
                                sender: message.sender,
                                size: bytes,
                            },
                        ));
                    },
                    _ => {},
                }
            }
        },
        StepView::Continue(following) => {
            assert(records_toward(following, next, pubkey, to, bytes));
            lemma_record_among_others(next, following, others, pubkey, to, bytes);
        },
    }
}

/// A claim is linked under concurrency: however the requests of other
/// sessions fall between those of a metadata event that claims an address,
/// where the event is handled with success the store links its publisher
/// to that address by exactly one link.
pub proof fn lemma_claim_linked_among_others(
    tables: Tables,
    pubkey: Seq<char>,
    claimed: Seq<char>,
    others: spec_fn(nat) -> Seq<RequestView>,
)
    requires
        tables.wf(),
    ensures
        outcome_among(tables, metadata_start(pubkey, Some(Some(claimed))), others).1 is Ok
            ==> linked_once(
            outcome_among(tables, metadata_start(pubkey, Some(Some(claimed))), others).0,
            pubkey,
            claimed,
        ),
{
    if let StepView::Continue(session) = metadata_start(pubkey, Some(Some(claimed))) {
        lemma_link_among_others(tables, session, others, pubkey, claimed);
    }
}

/// Size accounting under concurrency: however the requests of other
/// sessions fall between those of a direct message whose payload has
/// `bytes` bytes, where the message is handled with success the store holds
/// a record of exactly that size between its sender and its recipient.
pub proof fn lemma_message_recorded_among_others(
    tables: Tables,
    pubkey: Seq<char>,
    to: Seq<char>,
    bytes: i64,
    others: spec_fn(nat) -> Seq<RequestView>,
)
    requires
        tables.wf(),
    ensures
        outcome_among(tables, message_start(pubkey, Some(to), Ok(bytes)), others).1 is Ok
            ==> recorded(
            outcome_among(tables, message_start(pubkey, Some(to), Ok(bytes)), others).0,
            pubkey,
            to,
            bytes,
        ),
{
    if let StepView::Continue(session) = message_start(pubkey, Some(to), Ok(bytes)) {
        lemma_record_among_others(tables, session, others, pubkey, to, bytes);
    }
}

/// `after` holds the records of `before` and one more, the last: a
/// message of `bytes` bytes from the identity of `pubkey` to that of `to`.
pub open spec fn recorded_last(
    after: Tables,
    before: Tables,
    pubkey: Seq<char>,
    to: Seq<char>,
    bytes: i64,
) -> bool {
    exists|sender: i32, recipient: i32|
        #![trigger row_is(after.identities, sender, pubkey), row_is(after.identities, recipient, to)]
        row_is(after.identities, sender, pubkey) && row_is(after.identities, recipient, to)
            && after.messages == before.messages.push(
            DirectMessage { recipient, sender, size: bytes },
        )
}

/// Size accounting: where the store has room for sender and recipient, a
/// direct message with a recipient and a payload of `bytes` bytes is
/// handled with success, and exactly one record is appended: the ids of
/// recipient and sender, and `bytes`.
pub proof fn lemma_message_is_recorded(
    tables: Tables,
    pubkey: Seq<char>,
    to: Seq<char>,
    bytes: i64,
)
    requires
        tables.wf(),
        has_room(tables.identities, pubkey),
        has_room(got_or_created(tables.identities, pubkey).0, to),
    ensures
        message_effect(tables, pubkey, Some(to), Ok(bytes)).1 is Ok,
        recorded_last(
            message_effect(tables, pubkey, Some(to), Ok(bytes)).0,
            tables,
            pubkey,
            to,
            bytes,
        ),
{
    lemma_got_or_created(tables.identities, pubkey);
    let (senders, from) = got_or_created(tables.identities, pubkey);
    lemma_got_or_created(senders, to);
    let (identities, found) = got_or_created(senders, to);
    let sender = from.unwrap();
    let recipient = found.unwrap();
    let after = message_effect(tables, pubkey, Some(to), Ok(bytes)).0;
    assert(after.identities == identities);
    assert(row_is(after.identities, sender, pubkey));
    assert(row_is(after.identities, recipient, to));
    assert(after.messages == tables.messages.push(
        DirectMessage { recipient, sender, size: bytes },
    ));
}

} // verus!
