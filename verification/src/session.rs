//! The handling of one event as a sequence of store requests.
//!
//! A session holds what is still to do for one event. It names the next
//! request, and the store's reply moves it on or ends it. Whoever owns the
//! store performs the requests, so a session never waits and never blocks.

use crate::codec::{
    base64_decoding, claim_of, claimed_address, metadata_claim, payload_size, size_of,
};
use crate::error::{surfaced, HandlerError};
use crate::event::{first_pubkey, recipient, route_of, text_of, Event, EventKind, Route};
use crate::store::{DirectMessage, Reply, Request, RequestView, StoreError};
use vstd::prelude::*;

verus! {

/// How far a get-or-create of one row has come.
#[derive(Clone, Copy, Debug, PartialEq, Eq, Structural)]
pub enum Stage {
    /// Looking the key up.
    Lookup,
    /// Creating the row, the lookup having found none.
    Create,
    /// Looking the key up again, a concurrent creation having won.
    Reread,
}

/// What a reply means for a get-or-create at some stage.
pub enum Resolution {
    /// The row has this id.
    Found(i32),
    /// Ask again, at this stage.
    Next(Stage),
    /// The row cannot be had.
    Failed(StoreError),
}

/// The id in a reply; a reply of another form counts as a failed store.
pub open spec fn reply_id(reply: Reply) -> Result<i32, StoreError> {
    match reply {
        Reply::Id(id) => id,
        _ => Err(StoreError::Unavailable),
    }
}

/// The outcome of a write; a reply of another form counts as a failed store.
pub open spec fn reply_done(reply: Reply) -> Result<(), StoreError> {
    match reply {
        Reply::Done(done) => done,
        _ => Err(StoreError::Unavailable),
    }
}

/// Whether a reply says that the link exists; any other reply says no.
pub open spec fn reply_exists(reply: Reply) -> bool {
    match reply {
        Reply::Exists(found) => found,
        _ => false,
    }
}

/// Get-or-create: a found id ends it, a lookup that finds nothing leads to a
/// creation, a conflicting creation to one more lookup, and any other
/// failure ends it.
pub open spec fn resolve(stage: Stage, reply: Reply) -> Resolution {
    match reply_id(reply) {
        Ok(id) => Resolution::Found(id),
        Err(e) => match stage {
            Stage::Lookup => if e == StoreError::NotFound {
                Resolution::Next(Stage::Create)
            } else {
                Resolution::Failed(e)
            },
            Stage::Create => if e == StoreError::Conflict {
                Resolution::Next(Stage::Reread)
            } else {
                Resolution::Failed(e)
            },
            Stage::Reread => Resolution::Failed(e),
        },
    }
}

/// The request of a get-or-create of an identity at `stage`.
pub open spec fn identity_request(stage: Stage, pubkey: Seq<char>) -> RequestView {
    match stage {
        Stage::Create => RequestView::CreateIdentity(pubkey),
        _ => RequestView::IdentityId(pubkey),
    }
}

/// The request of a get-or-create of an address at `stage`.
pub open spec fn address_request(stage: Stage, address: Seq<char>) -> RequestView {
    match stage {
        Stage::Create => RequestView::CreateAddress(address),
        _ => RequestView::AddressId(address),
    }
}

/// What is still to do for one event.
#[derive(Debug)]
#[allow(inconsistent_fields)]
pub enum Session {
    /// Metadata: resolving the publishing identity.
    Publisher { stage: Stage, pubkey: String, claim: Option<String> },
    /// Metadata: resolving the claimed address.
    Address { stage: Stage, identity: i32, address: String },
    /// Metadata: asking whether the link exists.
    LinkCheck { identity: i32, address: i32 },
    /// Metadata: creating the link.
    LinkCreate { identity: i32, address: i32 },
    /// Direct message: resolving the sender.
    Sender { stage: Stage, pubkey: String, recipient: Option<String>, size: Result<
        i64,
        HandlerError,
    > },
    /// Direct message: resolving the recipient.
    Recipient { stage: Stage, sender: i32, pubkey: String, size: Result<i64, HandlerError> },
    /// Direct message: appending the record.
    Record { message: DirectMessage },
}

/// A session by the views of its strings.
#[allow(inconsistent_fields)]
pub enum SessionView {
    Publisher { stage: Stage, pubkey: Seq<char>, claim: Option<Seq<char>> },
    Address { stage: Stage, identity: i32, address: Seq<char> },
    LinkCheck { identity: i32, address: i32 },
    LinkCreate { identity: i32, address: i32 },
    Sender { stage: Stage, pubkey: Seq<char>, recipient: Option<Seq<char>>, size: Result<
        i64,
        HandlerError,
    > },
    Recipient { stage: Stage, sender: i32, pubkey: Seq<char>, size: Result<i64, HandlerError> },
    Record { message: DirectMessage },
}

/// Where a session stands after a reply, or before the first request.
#[derive(Debug)]
pub enum Step {
    /// The session goes on: perform its request and hand it the reply.
    Continue(Session),
    /// The event is done, with this result.
    Finished(Result<(), HandlerError>),
}

/// A step by the views of its strings.
pub enum StepView {
    Continue(SessionView),
    Finished(Result<(), HandlerError>),
}

impl View for Session {
    type V = SessionView;

    open spec fn view(&self) -> SessionView {
        match *self {
            Session::Publisher { stage, pubkey, claim } => SessionView::Publisher {
                stage,
                pubkey: pubkey@,
                claim: text_of(claim),
            },
            Session::Address { stage, identity, address } => SessionView::Address {
                stage,
                identity,
                address: address@,
            },
            Session::LinkCheck { identity, address } => SessionView::LinkCheck {
                identity,
                address,
            },
            Session::LinkCreate { identity, address } => SessionView::LinkCreate {
                identity,
                address,
            },
            Session::Sender { stage, pubkey, recipient, size } => SessionView::Sender {
                stage,
                pubkey: pubkey@,
                recipient: text_of(recipient),
                size,
            },
            Session::Recipient { stage, sender, pubkey, size } => SessionView::Recipient {
                stage,
                sender,
                pubkey: pubkey@,
                size,
            },
            Session::Record { message } => SessionView::Record { message },
        }
    }
}

impl View for Step {
    type V = StepView;

    open spec fn view(&self) -> StepView {
        match *self {
            Step::Continue(session) => StepView::Continue(session@),
            Step::Finished(result) => StepView::Finished(result),
        }
    }
}

impl SessionView {
    /// The request that the session waits on.
    pub open spec fn request(self) -> RequestView {
        match self {
            SessionView::Publisher { stage, pubkey, .. } => identity_request(stage, pubkey),
            SessionView::Address { stage, address, .. } => address_request(stage, address),
            SessionView::LinkCheck { identity, address } => RequestView::LinkExists(
                identity,
                address,
            ),
            SessionView::LinkCreate { identity, address } => RequestView::CreateLink(
                identity,
                address,
            ),
            SessionView::Sender { stage, pubkey, .. } => identity_request(stage, pubkey),
            SessionView::Recipient { stage, pubkey, .. } => identity_request(stage, pubkey),
            SessionView::Record { message } => RequestView::RecordDirectMessage(message),
        }
    }

    /// Where the session stands once its request is answered by `reply`.
    pub open spec fn advance(self, reply: Reply) -> StepView {
        match self {
            SessionView::Publisher { stage, pubkey, claim } => match resolve(stage, reply) {
                Resolution::Found(identity) => match claim {
                    None => StepView::Finished(Ok(())),
                    Some(address) => StepView::Continue(
                        SessionView::Address { stage: Stage::Lookup, identity, address },
                    ),
                },
                Resolution::Next(stage) => StepView::Continue(
                    SessionView::Publisher { stage, pubkey, claim },
                ),
                Resolution::Failed(e) => StepView::Finished(Err(HandlerError::Store(e))),
            },
            SessionView::Address { stage, identity, address } => match resolve(stage, reply) {
                Resolution::Found(id) => StepView::Continue(
                    SessionView::LinkCheck { identity, address: id },
                ),
                Resolution::Next(stage) => StepView::Continue(
                    SessionView::Address { stage, identity, address },
                ),
                Resolution::Failed(e) => StepView::Finished(Err(HandlerError::Store(e))),
            },
            SessionView::LinkCheck { identity, address } => if reply_exists(reply) {
                StepView::Finished(Ok(()))
            } else {
                StepView::Continue(SessionView::LinkCreate { identity, address })
            },
            SessionView::LinkCreate { .. } => StepView::Finished(surfaced(reply_done(reply))),
            SessionView::Sender { stage, pubkey, recipient, size } => match resolve(
                stage,
                reply,
            ) {
                Resolution::Found(sender) => match recipient {
                    None => StepView::Finished(Err(HandlerError::MissingRecipient)),
                    Some(to) => StepView::Continue(
                        SessionView::Recipient { stage: Stage::Lookup, sender, pubkey: to, size },
                    ),
                },
                Resolution::Next(stage) => StepView::Continue(
                    SessionView::Sender { stage, pubkey, recipient, size },
                ),
                Resolution::Failed(e) => StepView::Finished(Err(HandlerError::Store(e))),
            },
            SessionView::Recipient { stage, sender, pubkey, size } => match resolve(
                stage,
                reply,
            ) {
                Resolution::Found(to) => match size {
                    Err(e) => StepView::Finished(Err(e)),
                    Ok(n) => StepView::Continue(
                        SessionView::Record {
                            message: DirectMessage { recipient: to, sender, size: n },
                        },
                    ),
                },
                Resolution::Next(stage) => StepView::Continue(
                    SessionView::Recipient { stage, sender, pubkey, size },
                ),
                Resolution::Failed(e) => StepView::Finished(Err(HandlerError::Store(e))),
            },
            SessionView::Record { .. } => StepView::Finished(surfaced(reply_done(reply))),
        }
    }

    /// A bound on the requests that the session still makes.
    pub open spec fn rank(self) -> nat {
        match self {
            SessionView::Publisher { stage, .. } => 5 + stage_rank(stage),
            SessionView::Address { stage, .. } => 2 + stage_rank(stage),
            SessionView::LinkCheck { .. } => 2,
            SessionView::LinkCreate { .. } => 1,
            SessionView::Sender { stage, .. } => 4 + stage_rank(stage),
            SessionView::Recipient { stage, .. } => 1 + stage_rank(stage),
            SessionView::Record { .. } => 1,
        }
    }
}

/// A bound on the requests that a get-or-create still makes.
pub open spec fn stage_rank(stage: Stage) -> nat {
    match stage {
        Stage::Lookup => 3,
        Stage::Create => 2,
        Stage::Reread => 1,
    }
}

impl StepView {
    /// A bound on the requests still to come.
    pub open spec fn rank(self) -> nat {
        match self {
            StepView::Continue(session) => session.rank(),
            StepView::Finished(_) => 0,
        }
    }
}

/// The first step for a metadata event, given what its content parsed to.
pub open spec fn metadata_start(pubkey: Seq<char>, parsed: Option<Option<Seq<char>>>) -> StepView {
    match parsed {
        None => StepView::Finished(Err(HandlerError::MalformedPayload)),
        Some(claim) => StepView::Continue(
            SessionView::Publisher { stage: Stage::Lookup, pubkey, claim },
        ),
    }
}

/// The first step for a direct message, given its recipient and its size.
pub open spec fn message_start(
    pubkey: Seq<char>,
    recipient: Option<Seq<char>>,
    size: Result<i64, HandlerError>,
) -> StepView {
    StepView::Continue(SessionView::Sender { stage: Stage::Lookup, pubkey, recipient, size })
}

/// The first step for any event: by its kind, and for no other kind any work.
pub open spec fn event_start(event: Event) -> StepView {
    match route_of(event.kind) {
        Route::Metadata => metadata_start(event.pubkey@, metadata_claim(event.content@)),
        Route::DirectMessage => message_start(
            event.pubkey@,
            first_pubkey(event.tags@),
            size_of(base64_decoding(event.content@)),
        ),
        Route::Drop => StepView::Finished(Ok(())),
    }
}

fn resolve_reply(stage: Stage, reply: Reply) -> (resolution: Resolution)
    ensures
        resolution == resolve(stage, reply),
{
    let id = match reply {
        Reply::Id(id) => id,
        _ => Err(StoreError::Unavailable),
    };
    match id {
        Ok(id) => Resolution::Found(id),
        Err(e) => match stage {
            Stage::Lookup => match e {
                StoreError::NotFound => Resolution::Next(Stage::Create),
                _ => Resolution::Failed(e),
            },
            Stage::Create => match e {
                StoreError::Conflict => Resolution::Next(Stage::Reread),
                _ => Resolution::Failed(e),
            },
            Stage::Reread => Resolution::Failed(e),
        },
    }
}

fn surface(reply: Reply) -> (result: Result<(), HandlerError>)
    ensures
        result == surfaced(reply_done(reply)),
{
    match reply {
        Reply::Done(Ok(())) => Ok(()),
        Reply::Done(Err(e)) => Err(HandlerError::Store(e)),
        _ => Err(HandlerError::Store(StoreError::Unavailable)),
    }
}

fn identity_request_for(stage: Stage, pubkey: &String) -> (request: Request)
    ensures
        request@ == identity_request(stage, pubkey@),
{
    match stage {
        Stage::Create => Request::CreateIdentity(pubkey.clone()),
        _ => Request::IdentityId(pubkey.clone()),
    }
}

impl Session {
    /// The request that the session waits on.
    pub fn request(&self) -> (request: Request)
        ensures
            request@ == self@.request(),
    {
        match self {
            Session::Publisher { stage, pubkey, .. } => identity_request_for(*stage, pubkey),
            Session::Address { stage, address, .. } => match stage {
                Stage::Create => Request::CreateAddress(address.clone()),
                _ => Request::AddressId(address.clone()),
            },
            Session::LinkCheck { identity, address } => Request::LinkExists(*identity, *address),
            Session::LinkCreate { identity, address } => Request::CreateLink(
                *identity,
                *address,
            ),
            Session::Sender { stage, pubkey, .. } => identity_request_for(*stage, pubkey),
            Session::Recipient { stage, pubkey, .. } => identity_request_for(*stage, pubkey),
            Session::Record { message } => Request::RecordDirectMessage(*message),
        }
    }

    /// Takes the reply to the session's request and says how it goes on.
    /// Each reply brings the session strictly nearer to its end.
    pub fn advance(self, reply: Reply) -> (step: Step)
        ensures
            step@ == self@.advance(reply),
            step@.rank() < self@.rank(),
    {
        match self {
            Session::Publisher { stage, pubkey, claim } => match resolve_reply(stage, reply) {
                Resolution::Found(identity) => match claim {
                    None => Step::Finished(Ok(())),
                    Some(address) => Step::Continue(
                        Session::Address { stage: Stage::Lookup, identity, address },
                    ),
                },
                Resolution::Next(stage) => Step::Continue(
                    Session::Publisher { stage, pubkey, claim },
                ),
                Resolution::Failed(e) => Step::Finished(Err(HandlerError::Store(e))),
            },
            Session::Address { stage, identity, address } => match resolve_reply(stage, reply) {
                Resolution::Found(id) => Step::Continue(
                    Session::LinkCheck { identity, address: id },
                ),
                Resolution::Next(stage) => Step::Continue(
                    Session::Address { stage, identity, address },
                ),
                Resolution::Failed(e) => Step::Finished(Err(HandlerError::Store(e))),
            },
            Session::LinkCheck { identity, address } => match reply {
                Reply::Exists(true) => Step::Finished(Ok(())),
                _ => Step::Continue(Session::LinkCreate { identity, address }),
            },
            Session::LinkCreate { .. } => Step::Finished(surface(reply)),
            Session::Sender { stage, pubkey, recipient, size } => match resolve_reply(
                stage,
                reply,
            ) {
                Resolution::Found(sender) => match recipient {
                    None => Step::Finished(Err(HandlerError::MissingRecipient)),
                    Some(to) => Step::Continue(
                        Session::Recipient { stage: Stage::Lookup, sender, pubkey: to, size },
                    ),
                },
                Resolution::Next(stage) => Step::Continue(
                    Session::Sender { stage, pubkey, recipient, size },
                ),
                Resolution::Failed(e) => Step::Finished(Err(HandlerError::Store(e))),
            },
            Session::Recipient { stage, sender, pubkey, size } => match resolve_reply(
                stage,
                reply,
            ) {
                Resolution::Found(to) => match size {
                    Err(e) => Step::Finished(Err(e)),
                    Ok(n) => Step::Continue(
                        Session::Record {
                            message: DirectMessage { recipient: to, sender, size: n },
                        },
                    ),
                },
                Resolution::Next(stage) => Step::Continue(
                    Session::Recipient { stage, sender, pubkey, size },
                ),
                Resolution::Failed(e) => Step::Finished(Err(HandlerError::Store(e))),
            },
            Session::Record { .. } => Step::Finished(surface(reply)),
        }
    }
}

/// Begins the handling of a metadata event whose content parsed to `parsed`:
/// `None` where it is no metadata document, else the claim it makes.
pub fn start_metadata(pubkey: String, parsed: Option<Option<String>>) -> (step: Step)
    ensures
        step@ == metadata_start(pubkey@, claim_of(parsed)),
{
    match parsed {
        None => Step::Finished(Err(HandlerError::MalformedPayload)),
        Some(claim) => Step::Continue(Session::Publisher { stage: Stage::Lookup, pubkey, claim }),
    }
}

/// Begins the handling of a direct message with this recipient and size.
pub fn start_message(
    pubkey: String,
    recipient: Option<String>,
    size: Result<i64, HandlerError>,
) -> (step: Step)
    ensures
        step@ == message_start(pubkey@, text_of(recipient), size),
{
    Step::Continue(Session::Sender { stage: Stage::Lookup, pubkey, recipient, size })
}

/// Begins the handling of an event: classifies it and reads its payload.
pub fn start(event: &Event) -> (step: Step)
    ensures
        step@ == event_start(*event),
{
    match event.kind {
        EventKind::Metadata => {
            let parsed = claimed_address(event.content.as_str());
            start_metadata(event.pubkey.clone(), parsed)
        },
        EventKind::EncryptedDirectMessage => {
            let to = recipient(&event.tags);
            let size = payload_size(event.content.as_str());
            start_message(event.pubkey.clone(), to, size)
        },
        EventKind::Other => Step::Finished(Ok(())),
    }
}

} // verus!
