use base64::Engine;
use nostr_ingest::error::HandlerError;
use nostr_ingest::event::{classify, recipient, Event, EventKind, Notification, Route, Tag};
use nostr_ingest::pipeline::{Nostr, MAX_IN_FLIGHT};
use nostr_ingest::store::{Database, DirectMessage};

fn encoded(len: usize) -> String {
    let bytes: Vec<u8> = (0..len).map(|i| (i % 251) as u8).collect();
    base64::engine::general_purpose::STANDARD.encode(bytes)
}

fn metadata(pubkey: &str, content: &str) -> Event {
    Event {
        pubkey: pubkey.to_string(),
        kind: EventKind::Metadata,
        tags: Vec::new(),
        content: content.to_string(),
    }
}

fn message(from: &str, to: Option<&str>, content: &str) -> Event {
    let mut tags = vec![Tag::Other];
    if let Some(to) = to {
        tags.push(Tag::PubKey(to.to_string()));
    }
    Event {
        pubkey: from.to_string(),
        kind: EventKind::EncryptedDirectMessage,
        tags,
        content: content.to_string(),
    }
}

fn strings(rows: &[&str]) -> Vec<String> {
    rows.iter().map(|s| s.to_string()).collect()
}

#[test]
fn metadata_links_identity_to_claimed_address() {
    let mut nostr = Nostr::new(Database::new());
    let event = metadata("npub_A", r#"{"nip05":"a@example.com"}"#);
    assert_eq!(nostr.save_metadata(&event), Ok(()));
    let db = nostr.database();
    assert_eq!(db.pubkeys(), &strings(&["npub_A"]));
    assert_eq!(db.addresses(), &strings(&["a@example.com"]));
    assert_eq!(db.links(), &vec![(0, 0)]);
    assert!(db.messages().is_empty());
}

#[test]
fn second_identical_metadata_event_changes_no_table() {
    let mut nostr = Nostr::new(Database::new());
    let event = metadata("npub_A", r#"{"nip05":"a@example.com"}"#);
    assert_eq!(nostr.save_metadata(&event), Ok(()));
    assert_eq!(nostr.save_metadata(&event), Ok(()));
    let db = nostr.database();
    assert_eq!(db.pubkeys(), &strings(&["npub_A"]));
    assert_eq!(db.addresses(), &strings(&["a@example.com"]));
    assert_eq!(db.links(), &vec![(0, 0)]);
}

#[test]
fn scenario_metadata_twice_then_direct_message() {
    let mut nostr = Nostr::new(Database::new());
    let claim = metadata("npub_A", r#"{"nip05":"a@example.com"}"#);
    let dm = message("npub_A", Some("npub_B"), &encoded(42));
    let stream = vec![
        Notification::Event(claim.clone()),
        Notification::Event(claim),
        Notification::Event(dm),
    ];
    assert_eq!(nostr.hydrate_messages(&stream), Ok(()));
    let db = nostr.database();
    assert_eq!(db.pubkeys(), &strings(&["npub_A", "npub_B"]));
    assert_eq!(db.addresses(), &strings(&["a@example.com"]));
    assert_eq!(db.links(), &vec![(0, 0)]);
    let a = db.pubkey_id("npub_A").unwrap();
    let b = db.pubkey_id("npub_B").unwrap();
    assert_eq!(
        db.messages(),
        &vec![DirectMessage { recipient: b, sender: a, size: 42 }]
    );
}

#[test]
fn many_events_of_one_key_leave_one_identity() {
    let mut nostr = Nostr::new(Database::new());
    let mut stream = Vec::new();
    for i in 0..20 {
        stream.push(Notification::Event(metadata("npub_K", "{}")));
        stream.push(Notification::Event(message("npub_K", Some("npub_K"), &encoded(i))));
    }
    assert_eq!(nostr.hydrate_messages(&stream), Ok(()));
    let db = nostr.database();
    assert_eq!(db.pubkeys(), &strings(&["npub_K"]));
    assert_eq!(db.messages().len(), 20);
}

#[test]
fn repeated_claims_leave_one_link_per_pair() {
    let mut nostr = Nostr::new(Database::new());
    for _ in 0..5 {
        assert_eq!(nostr.save_metadata(&metadata("k1", r#"{"nip05":"x@y.z"}"#)), Ok(()));
        assert_eq!(nostr.save_metadata(&metadata("k2", r#"{"nip05":"x@y.z"}"#)), Ok(()));
        assert_eq!(nostr.save_metadata(&metadata("k1", r#"{"nip05":"w@y.z"}"#)), Ok(()));
    }
    let db = nostr.database();
    assert_eq!(db.pubkeys(), &strings(&["k1", "k2"]));
    assert_eq!(db.addresses(), &strings(&["x@y.z", "w@y.z"]));
    assert_eq!(db.links(), &vec![(0, 0), (1, 0), (0, 1)]);
}

#[test]
fn malformed_metadata_creates_nothing_and_stream_goes_on() {
    let mut nostr = Nostr::new(Database::new());
    assert_eq!(
        nostr.save_metadata(&metadata("npub_bad", "this is not json")),
        Err(HandlerError::MalformedPayload)
    );
    assert_eq!(
        nostr.save_metadata(&metadata("npub_bad", r#"{"nip05":5}"#)),
        Err(HandlerError::MalformedPayload)
    );
    assert!(nostr.database().pubkeys().is_empty());
    assert!(nostr.database().addresses().is_empty());
    assert!(nostr.database().links().is_empty());

    let stream = vec![
        Notification::Event(metadata("npub_bad", "[1,2")),
        Notification::Other,
        Notification::Event(metadata("npub_good", r#"{"name":"n","nip05":"g@example.com"}"#)),
    ];
    assert_eq!(nostr.hydrate_messages(&stream), Ok(()));
    let db = nostr.database();
    assert_eq!(db.pubkeys(), &strings(&["npub_good"]));
    assert_eq!(db.addresses(), &strings(&["g@example.com"]));
    assert_eq!(db.links(), &vec![(0, 0)]);
}

#[test]
fn metadata_without_claim_creates_only_the_identity() {
    let mut nostr = Nostr::new(Database::new());
    assert_eq!(nostr.save_metadata(&metadata("npub_A", r#"{"name":"alice"}"#)), Ok(()));
    let db = nostr.database();
    assert_eq!(db.pubkeys(), &strings(&["npub_A"]));
    assert!(db.addresses().is_empty());
    assert!(db.links().is_empty());
}

#[test]
fn direct_message_size_is_the_decoded_length() {
    for len in [0usize, 1, 2, 3, 4, 42, 100, 1000] {
        let mut nostr = Nostr::new(Database::new());
        let content = encoded(len);
        assert_eq!(nostr.save_dm(&message("from", Some("to"), &content)), Ok(()));
        let db = nostr.database();
        assert_eq!(
            db.messages(),
            &vec![DirectMessage { recipient: 1, sender: 0, size: len as i64 }]
        );
        if len > 0 {
            assert_ne!(content.len(), len);
        }
    }
}

#[test]
fn every_direct_message_between_a_pair_is_recorded() {
    let mut nostr = Nostr::new(Database::new());
    let dm = message("from", Some("to"), &encoded(7));
    assert_eq!(nostr.save_dm(&dm), Ok(()));
    assert_eq!(nostr.save_dm(&dm), Ok(()));
    let one = DirectMessage { recipient: 1, sender: 0, size: 7 };
    assert_eq!(nostr.database().messages(), &vec![one, one]);
    assert_eq!(nostr.database().pubkeys().len(), 2);
}

#[test]
fn direct_message_without_recipient_records_nothing() {
    let mut nostr = Nostr::new(Database::new());
    let dm = message("npub_A", None, &encoded(42));
    assert_eq!(nostr.save_dm(&dm), Err(HandlerError::MissingRecipient));
    assert!(nostr.database().messages().is_empty());
    assert_eq!(nostr.database().pubkeys(), &strings(&["npub_A"]));

    let stream = vec![
        Notification::Event(dm),
        Notification::Event(message("npub_A", Some("npub_B"), &encoded(3))),
    ];
    assert_eq!(nostr.hydrate_messages(&stream), Ok(()));
    assert_eq!(
        nostr.database().messages(),
        &vec![DirectMessage { recipient: 1, sender: 0, size: 3 }]
    );
}

#[test]
fn direct_message_with_bad_encoding_records_nothing() {
    let mut nostr = Nostr::new(Database::new());
    let dm = message("npub_A", Some("npub_B"), "not base64!");
    assert_eq!(nostr.save_dm(&dm), Err(HandlerError::InvalidEncoding));
    assert!(nostr.database().messages().is_empty());
    assert_eq!(nostr.database().pubkeys(), &strings(&["npub_A", "npub_B"]));
    let unpadded = message("npub_A", Some("npub_B"), "QQ");
    assert_eq!(nostr.save_dm(&unpadded), Err(HandlerError::InvalidEncoding));
    assert!(nostr.database().messages().is_empty());
}

#[test]
fn events_of_other_kinds_are_dropped() {
    let mut nostr = Nostr::new(Database::new());
    let other = Event {
        pubkey: "npub_A".to_string(),
        kind: EventKind::Other,
        tags: vec![Tag::PubKey("npub_B".to_string())],
        content: r#"{"nip05":"a@example.com"}"#.to_string(),
    };
    assert_eq!(classify(&other), Route::Drop);
    assert_eq!(nostr.handle_event(&other), Ok(()));
    assert!(nostr.database().pubkeys().is_empty());
    assert!(nostr.database().addresses().is_empty());
}

#[test]
fn classifier_routes_by_kind() {
    assert_eq!(classify(&metadata("k", "")), Route::Metadata);
    assert_eq!(classify(&message("k", None, "")), Route::DirectMessage);
}

#[test]
fn handle_event_follows_the_route() {
    let mut nostr = Nostr::new(Database::new());
    assert_eq!(nostr.handle_event(&metadata("a", r#"{"nip05":"a@b.c"}"#)), Ok(()));
    assert_eq!(nostr.handle_event(&message("a", Some("b"), &encoded(5))), Ok(()));
    assert_eq!(nostr.handle_event(&message("a", Some("b"), "%%%")), Err(HandlerError::InvalidEncoding));
    let db = nostr.database();
    assert_eq!(db.links(), &vec![(0, 0)]);
    assert_eq!(db.messages(), &vec![DirectMessage { recipient: 1, sender: 0, size: 5 }]);
}

#[test]
fn recipient_is_the_first_public_key_tag() {
    let tags = vec![
        Tag::Other,
        Tag::PubKey("first".to_string()),
        Tag::PubKey("second".to_string()),
    ];
    assert_eq!(recipient(&tags), Some("first".to_string()));
    assert_eq!(recipient(&vec![Tag::Other, Tag::Other]), None);
    assert_eq!(recipient(&Vec::new()), None);
}

#[test]
fn get_or_create_returns_the_same_id_each_time() {
    let mut nostr = Nostr::new(Database::new());
    assert_eq!(nostr.get_or_create_pubkey("a"), Ok(0));
    assert_eq!(nostr.get_or_create_pubkey("b"), Ok(1));
    assert_eq!(nostr.get_or_create_pubkey("a"), Ok(0));
    assert_eq!(nostr.database().pubkeys(), &strings(&["a", "b"]));
}

#[test]
fn ceiling_of_in_flight_handlers() {
    assert_eq!(MAX_IN_FLIGHT, 15);
}
