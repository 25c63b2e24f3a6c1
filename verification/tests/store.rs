use nostr_ingest::codec::{claimed_address, measure, payload_size};
use nostr_ingest::error::HandlerError;
use nostr_ingest::http::{hello, HELLO_STATUS};
use nostr_ingest::session::{start, start_message, start_metadata, Session, Stage, Step};
use nostr_ingest::pipeline::is_fatal;
use nostr_ingest::store::{link_found, Database, DirectMessage, Reply, Request, StoreError};

fn continued(step: Step) -> Session {
    match step {
        Step::Continue(session) => session,
        Step::Finished(result) => panic!("finished early: {:?}", result),
    }
}

fn finished(step: Step) -> Result<(), HandlerError> {
    match step {
        Step::Finished(result) => result,
        Step::Continue(session) => panic!("not finished: {:?}", session),
    }
}

fn asks(session: &Session) -> String {
    format!("{:?}", session.request())
}

#[test]
fn lookups_create_nothing() {
    let db = Database::new();
    assert_eq!(db.pubkey_id("k"), Err(StoreError::NotFound));
    assert_eq!(db.address_id("a"), Err(StoreError::NotFound));
    assert!(!db.pubkey_has_address(0, 0));
    assert!(db.pubkeys().is_empty());
    assert!(db.addresses().is_empty());
}

#[test]
fn keys_are_unique_in_each_table() {
    let mut db = Database::new();
    assert_eq!(db.insert_pubkey("k"), Ok(0));
    assert_eq!(db.insert_pubkey("k"), Err(StoreError::Conflict));
    assert_eq!(db.insert_pubkey("l"), Ok(1));
    assert_eq!(db.insert_address("k"), Ok(0));
    assert_eq!(db.insert_address("k"), Err(StoreError::Conflict));
    assert_eq!(db.pubkey_id("l"), Ok(1));
    assert_eq!(db.address_id("k"), Ok(0));
    assert_eq!(db.address_id("l"), Err(StoreError::NotFound));
    assert_eq!(db.pubkeys().len(), 2);
    assert_eq!(db.addresses().len(), 1);
}

#[test]
fn links_are_unique_and_directed() {
    let mut db = Database::new();
    assert_eq!(db.connect_pubkey_address(1, 2), Ok(()));
    assert!(db.pubkey_has_address(1, 2));
    assert!(!db.pubkey_has_address(2, 1));
    assert_eq!(db.connect_pubkey_address(1, 2), Err(StoreError::Conflict));
    assert_eq!(db.connect_pubkey_address(2, 1), Ok(()));
    assert_eq!(db.links(), &vec![(1, 2), (2, 1)]);
}

#[test]
fn direct_messages_are_appended() {
    let mut db = Database::new();
    assert_eq!(db.save_dm(1, 0, 10), Ok(()));
    assert_eq!(db.save_dm(1, 0, 10), Ok(()));
    let record = DirectMessage { recipient: 1, sender: 0, size: 10 };
    assert_eq!(db.messages(), &vec![record, record]);
}

#[test]
fn answers_follow_the_operations() {
    let mut db = Database::new();
    let key = "k".to_string();
    assert_eq!(db.answer(&Request::IdentityId(key.clone())), Reply::Id(Err(StoreError::NotFound)));
    assert_eq!(db.answer(&Request::CreateIdentity(key.clone())), Reply::Id(Ok(0)));
    assert_eq!(db.answer(&Request::CreateIdentity(key.clone())), Reply::Id(Err(StoreError::Conflict)));
    assert_eq!(db.answer(&Request::IdentityId(key.clone())), Reply::Id(Ok(0)));
    assert_eq!(db.answer(&Request::AddressId(key.clone())), Reply::Id(Err(StoreError::NotFound)));
    assert_eq!(db.answer(&Request::CreateAddress(key.clone())), Reply::Id(Ok(0)));
    assert_eq!(db.answer(&Request::LinkExists(0, 0)), Reply::Exists(false));
    assert_eq!(db.answer(&Request::CreateLink(0, 0)), Reply::Done(Ok(())));
    assert_eq!(db.answer(&Request::LinkExists(0, 0)), Reply::Exists(true));
    assert_eq!(db.answer(&Request::CreateLink(0, 0)), Reply::Done(Err(StoreError::Conflict)));
    let record = DirectMessage { recipient: 0, sender: 0, size: 1 };
    assert_eq!(db.answer(&Request::RecordDirectMessage(record)), Reply::Done(Ok(())));
    assert_eq!(db.messages(), &vec![record]);
}

#[test]
fn payload_size_counts_decoded_bytes() {
    assert_eq!(payload_size(""), Ok(0));
    assert_eq!(payload_size("QQ=="), Ok(1));
    assert_eq!(payload_size("QUI="), Ok(2));
    assert_eq!(payload_size("QUJD"), Ok(3));
    assert_eq!(payload_size("aGVsbG8gd29ybGQ="), Ok(11));
    assert_eq!(payload_size("QUJD*"), Err(HandlerError::InvalidEncoding));
    assert_eq!(payload_size("QUJ"), Err(HandlerError::InvalidEncoding));
    assert_eq!(payload_size("QUJD-_"), Err(HandlerError::InvalidEncoding));
}

#[test]
fn measure_is_the_number_of_bytes() {
    assert_eq!(measure(&Some(vec![9u8; 42])), Ok(42));
    assert_eq!(measure(&Some(Vec::new())), Ok(0));
    assert_eq!(measure(&None), Err(HandlerError::InvalidEncoding));
}

#[test]
fn claimed_address_reads_the_claim() {
    assert_eq!(
        claimed_address(r#"{"nip05":"a@example.com"}"#),
        Some(Some("a@example.com".to_string()))
    );
    assert_eq!(claimed_address(r#"{"name":"a","about":"b"}"#), Some(None));
    assert_eq!(claimed_address("{}"), Some(None));
    assert_eq!(claimed_address(""), None);
    assert_eq!(claimed_address("a@example.com"), None);
    assert_eq!(claimed_address(r#"{"nip05":["a@example.com"]}"#), None);
}

#[test]
fn malformed_metadata_asks_nothing_of_the_store() {
    assert_eq!(
        finished(start_metadata("k".to_string(), None)),
        Err(HandlerError::MalformedPayload)
    );
}

#[test]
fn metadata_session_asks_in_order() {
    let s = continued(start_metadata("k".to_string(), Some(Some("a@b.c".to_string()))));
    assert_eq!(asks(&s), r#"IdentityId("k")"#);
    let s = continued(s.advance(Reply::Id(Err(StoreError::NotFound))));
    assert_eq!(asks(&s), r#"CreateIdentity("k")"#);
    let s = continued(s.advance(Reply::Id(Ok(7))));
    assert_eq!(asks(&s), r#"AddressId("a@b.c")"#);
    let s = continued(s.advance(Reply::Id(Ok(3))));
    assert_eq!(asks(&s), "LinkExists(7, 3)");
    let s = continued(s.advance(Reply::Exists(false)));
    assert_eq!(asks(&s), "CreateLink(7, 3)");
    assert_eq!(finished(s.advance(Reply::Done(Ok(())))), Ok(()));
}

#[test]
fn existing_link_ends_the_session() {
    let s = continued(start_metadata("k".to_string(), Some(Some("a@b.c".to_string()))));
    let s = continued(s.advance(Reply::Id(Ok(1))));
    let s = continued(s.advance(Reply::Id(Err(StoreError::NotFound))));
    assert_eq!(asks(&s), r#"CreateAddress("a@b.c")"#);
    let s = continued(s.advance(Reply::Id(Ok(2))));
    assert_eq!(finished(s.advance(Reply::Exists(true))), Ok(()));
}

#[test]
fn lost_race_is_settled_by_reading_again() {
    let s = continued(start_metadata("k".to_string(), Some(None)));
    let s = continued(s.advance(Reply::Id(Err(StoreError::NotFound))));
    let s = continued(s.advance(Reply::Id(Err(StoreError::Conflict))));
    assert_eq!(asks(&s), r#"IdentityId("k")"#);
    assert!(matches!(s, Session::Publisher { stage: Stage::Reread, .. }));
    assert_eq!(finished(s.advance(Reply::Id(Ok(4)))), Ok(()));
}

#[test]
fn store_failures_end_the_event_only() {
    let s = continued(start_metadata("k".to_string(), Some(None)));
    let s = continued(s.advance(Reply::Id(Err(StoreError::NotFound))));
    assert_eq!(
        finished(s.advance(Reply::Id(Err(StoreError::Unavailable)))),
        Err(HandlerError::Store(StoreError::Unavailable))
    );
    let s = continued(start_metadata("k".to_string(), Some(None)));
    let s = continued(s.advance(Reply::Id(Err(StoreError::NotFound))));
    let s = continued(s.advance(Reply::Id(Err(StoreError::Conflict))));
    assert_eq!(
        finished(s.advance(Reply::Id(Err(StoreError::NotFound)))),
        Err(HandlerError::Store(StoreError::NotFound))
    );
    let s = continued(start_message("a".to_string(), Some("b".to_string()), Ok(1)));
    let s = continued(s.advance(Reply::Id(Ok(0))));
    let s = continued(s.advance(Reply::Id(Ok(1))));
    assert_eq!(
        finished(s.advance(Reply::Done(Err(StoreError::Unavailable)))),
        Err(HandlerError::Store(StoreError::Unavailable))
    );
}

#[test]
fn reply_of_another_form_counts_as_failure() {
    let s = continued(start_metadata("k".to_string(), Some(None)));
    assert_eq!(
        finished(s.advance(Reply::Exists(true))),
        Err(HandlerError::Store(StoreError::Unavailable))
    );
    let s = continued(start_metadata("k".to_string(), Some(None)));
    let s = continued(s.advance(Reply::Id(Err(StoreError::NotFound))));
    assert_eq!(asks(&s), r#"CreateIdentity("k")"#);
    assert_eq!(
        finished(s.advance(Reply::Done(Ok(())))),
        Err(HandlerError::Store(StoreError::Unavailable))
    );
}

#[test]
fn message_session_asks_in_order() {
    let s = continued(start_message("from".to_string(), Some("to".to_string()), Ok(42)));
    assert_eq!(asks(&s), r#"IdentityId("from")"#);
    let s = continued(s.advance(Reply::Id(Ok(5))));
    assert_eq!(asks(&s), r#"IdentityId("to")"#);
    let s = continued(s.advance(Reply::Id(Err(StoreError::NotFound))));
    assert_eq!(asks(&s), r#"CreateIdentity("to")"#);
    let s = continued(s.advance(Reply::Id(Ok(6))));
    assert_eq!(
        asks(&s),
        "RecordDirectMessage(DirectMessage { recipient: 6, sender: 5, size: 42 })"
    );
    assert_eq!(finished(s.advance(Reply::Done(Ok(())))), Ok(()));
}

#[test]
fn message_errors_come_after_the_identities() {
    let s = continued(start_message("from".to_string(), None, Ok(42)));
    assert_eq!(finished(s.advance(Reply::Id(Ok(0)))), Err(HandlerError::MissingRecipient));
    let s = continued(start_message(
        "from".to_string(),
        Some("to".to_string()),
        Err(HandlerError::InvalidEncoding),
    ));
    let s = continued(s.advance(Reply::Id(Ok(0))));
    assert_eq!(finished(s.advance(Reply::Id(Ok(1)))), Err(HandlerError::InvalidEncoding));
}

#[test]
fn interleaved_sessions_of_one_key_create_one_identity() {
    let mut db = Database::new();
    let mut sessions: Vec<Session> = (0..4)
        .map(|_| continued(start_metadata("npub_K".to_string(), Some(Some("k@x.y".to_string())))))
        .collect();
    let mut results = Vec::new();
    while !sessions.is_empty() {
        let mut next = Vec::new();
        for session in sessions {
            let reply = db.answer(&session.request());
            match session.advance(reply) {
                Step::Continue(session) => next.push(session),
                Step::Finished(result) => results.push(result),
            }
        }
        sessions = next;
    }
    assert_eq!(db.pubkeys(), &vec!["npub_K".to_string()]);
    assert_eq!(db.addresses(), &vec!["k@x.y".to_string()]);
    assert_eq!(db.links(), &vec![(0, 0)]);
    assert_eq!(results.len(), 4);
    assert_eq!(results.iter().filter(|r| r.is_ok()).count(), 1);
    assert_eq!(
        results.iter().filter(|r| **r == Err(HandlerError::Store(StoreError::Conflict))).count(),
        3
    );
}

#[test]
fn start_reads_the_payload_by_kind() {
    let event = nostr_ingest::event::Event {
        pubkey: "k".to_string(),
        kind: nostr_ingest::event::EventKind::Metadata,
        tags: Vec::new(),
        content: "nonsense".to_string(),
    };
    assert_eq!(finished(start(&event)), Err(HandlerError::MalformedPayload));
    let event = nostr_ingest::event::Event {
        kind: nostr_ingest::event::EventKind::EncryptedDirectMessage,
        ..event
    };
    let s = continued(start(&event));
    assert_eq!(finished(s.advance(Reply::Id(Ok(0)))), Err(HandlerError::MissingRecipient));
}

#[test]
fn hello_greets() {
    let (status, body) = hello();
    assert_eq!(status, 201);
    assert_eq!(status, HELLO_STATUS);
    assert_eq!(body.message, "hello, wonderful");
}

#[test]
fn failed_lookup_ends_the_session_without_a_creation() {
    let s = continued(start_metadata("k".to_string(), Some(Some("a@b.c".to_string()))));
    assert_eq!(
        finished(s.advance(Reply::Id(Err(StoreError::Unavailable)))),
        Err(HandlerError::Store(StoreError::Unavailable))
    );
    let s = continued(start_metadata("k".to_string(), Some(Some("a@b.c".to_string()))));
    let s = continued(s.advance(Reply::Id(Ok(1))));
    assert_eq!(
        finished(s.advance(Reply::Id(Err(StoreError::Unavailable)))),
        Err(HandlerError::Store(StoreError::Unavailable))
    );
    let s = continued(start_message("a".to_string(), Some("b".to_string()), Ok(1)));
    let s = continued(s.advance(Reply::Id(Ok(0))));
    assert_eq!(
        finished(s.advance(Reply::Id(Err(StoreError::Conflict)))),
        Err(HandlerError::Store(StoreError::Conflict))
    );
}

#[test]
fn only_an_unavailable_store_ends_the_pipeline() {
    assert!(is_fatal(&Err(HandlerError::Store(StoreError::Unavailable))));
    assert!(!is_fatal(&Ok(())));
    assert!(!is_fatal(&Err(HandlerError::MalformedPayload)));
    assert!(!is_fatal(&Err(HandlerError::MissingRecipient)));
    assert!(!is_fatal(&Err(HandlerError::InvalidEncoding)));
    assert!(!is_fatal(&Err(HandlerError::PayloadTooLarge)));
    assert!(!is_fatal(&Err(HandlerError::Store(StoreError::Conflict))));
    assert!(!is_fatal(&Err(HandlerError::Store(StoreError::NotFound))));
}

#[test]
fn link_is_found_by_a_positive_count_only() {
    assert!(!link_found(None));
    assert!(!link_found(Some(0)));
    assert!(link_found(Some(1)));
    assert!(link_found(Some(7)));
}
