//! Events as the pipeline sees them: plain values, free of relay detail.

use vstd::prelude::*;

verus! {

/// The declared kind of an event, as far as the pipeline tells kinds apart.
#[derive(Clone, Copy, Debug, PartialEq, Eq, Structural)]
pub enum EventKind {
    /// Profile metadata.
    Metadata,
    /// An encrypted direct message.
    EncryptedDirectMessage,
    /// Every other kind.
    Other,
}

/// One tag of an event.
#[derive(Clone, Debug)]
pub enum Tag {
    /// Names a public key; on a direct message, the recipient.
    PubKey(String),
    /// Any other tag.
    Other,
}

/// A signed event whose signature has been checked upstream.
#[derive(Clone, Debug)]
pub struct Event {
    /// The publishing public key.
    pub pubkey: String,
    pub kind: EventKind,
    pub tags: Vec<Tag>,
    pub content: String,
}

/// One item of the merged notification stream.
#[derive(Clone, Debug)]
pub enum Notification {
    /// A deliverable event.
    Event(Event),
    /// An error item or a notification that carries no event.
    Other,
}

/// Where the classifier sends an event.
#[derive(Clone, Copy, Debug, PartialEq, Eq, Structural)]
pub enum Route {
    Metadata,
    DirectMessage,
    Drop,
}

/// The route of an event kind.
pub open spec fn route_of(kind: EventKind) -> Route {
    match kind {
        EventKind::Metadata => Route::Metadata,
        EventKind::EncryptedDirectMessage => Route::DirectMessage,
        EventKind::Other => Route::Drop,
    }
}

/// Routes an event by its declared kind alone.
pub fn classify(event: &Event) -> (route: Route)
    ensures
        route == route_of(event.kind),
{
    match event.kind {
        EventKind::Metadata => Route::Metadata,
        EventKind::EncryptedDirectMessage => Route::DirectMessage,
        EventKind::Other => Route::Drop,
    }
}

/// The key of the first public-key tag in `tags`, if there is one.
pub open spec fn first_pubkey(tags: Seq<Tag>) -> Option<Seq<char>>
    decreases tags.len(),
{
    if tags.len() == 0 {
        None
    } else {
        match tags[0] {
            Tag::PubKey(key) => Some(key@),
            Tag::Other => first_pubkey(tags.skip(1)),
        }
    }
}

/// The view of an optional string.
pub open spec fn text_of(value: Option<String>) -> Option<Seq<char>> {
    match value {
        Some(s) => Some(s@),
        None => None,
    }
}

/// The recipient of a direct message: the first public-key tag.
pub fn recipient(tags: &Vec<Tag>) -> (found: Option<String>)
    ensures
        text_of(found) == first_pubkey(tags@),
{
    let mut i: usize = 0;
    proof {
        assert(tags@.skip(0) =~= tags@);
    }
    while i < tags.len()
        invariant
            i <= tags.len(),
            first_pubkey(tags@) == first_pubkey(tags@.skip(i as int)),
        decreases tags.len() - i,
    {
        proof {
            assert(tags@.skip(i as int).skip(1) =~= tags@.skip(i + 1));
        }
        match &tags[i] {
            Tag::PubKey(key) => {
                return Some(key.clone());
            },
            Tag::Other => {},
        }
        i += 1;
    }
    None
}

} // verus!
