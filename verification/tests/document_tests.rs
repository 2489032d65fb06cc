use doc_sync::document::DocumentHandle;
use doc_sync::protocol::OutboundMessage;
use doc_sync::protocol::ReconciliationError;
use doc_sync::protocol::Revision;
use doc_sync::protocol::SyncResponse;
use doc_sync::registry::Registry;

fn rev(doc_id: &[u8], revision_id: u64, base_revision_id: u64, delta: &[u8]) -> Revision {
    Revision {
        doc_id: doc_id.to_vec(),
        revision_id,
        base_revision_id,
        delta: delta.to_vec(),
        checksum: Vec::new(),
    }
}

fn acked_id(messages: &[OutboundMessage], recipient: &[u8]) -> u64 {
    for m in messages {
        if m.recipient == recipient {
            if let SyncResponse::Ack { revision_id, .. } = &m.response {
                return *revision_id;
            }
        }
    }
    panic!("no Ack for that recipient");
}

fn pushes_to<'a>(messages: &'a [OutboundMessage], recipient: &[u8]) -> Vec<&'a Revision> {
    let mut out = Vec::new();
    for m in messages {
        if m.recipient == recipient {
            if let SyncResponse::Push { revision } = &m.response {
                out.push(revision);
            }
        }
    }
    out
}

#[test]
fn first_revision_creates_document_with_id_one() {
    // Scenario: a push with base 0 against a brand-new document id.
    let mut reg = Registry::new(16);
    let alice = b"alice".to_vec();
    let msgs = reg.apply_revision(&alice, &rev(b"new-doc", 0, 0, b"hello")).unwrap();

    let handle = reg.get(&b"new-doc".to_vec()).expect("document was created");
    assert_eq!(handle.revision_id, 1);
    assert_eq!(handle.content, b"hello".to_vec());

    assert_eq!(acked_id(&msgs, b"alice"), 1);
    let committed: Vec<_> = msgs
        .iter()
        .filter(|m| matches!(m.response, SyncResponse::NewRevisionCommitted { .. }))
        .collect();
    assert_eq!(committed.len(), 1);
    match &committed[0].response {
        SyncResponse::NewRevisionCommitted { doc_id, revision_id, snapshot } => {
            assert_eq!(doc_id, &b"new-doc".to_vec());
            assert_eq!(*revision_id, 1);
            assert_eq!(snapshot, &b"hello".to_vec());
        },
        _ => unreachable!(),
    }
}

#[test]
fn concurrent_pushes_with_same_base_are_serialized_and_both_acked() {
    // Scenario: two sessions race a push against the same base revision 5.
    let mut reg = Registry::new(16);
    let alice = b"alice".to_vec();
    let bob = b"bob".to_vec();
    let carol = b"carol".to_vec();
    let d = b"doc".to_vec();

    for i in 0..5u64 {
        reg.apply_revision(&alice, &rev(b"doc", 0, i, b"x")).unwrap();
    }
    assert_eq!(reg.get(&d).unwrap().revision_id, 5);

    // Carol subscribes by redelivering the latest committed revision, the
    // same path a UserConnect announcement takes.
    let msgs = reg.apply_revision(&carol, &rev(b"doc", 5, 4, b"x")).unwrap();
    assert_eq!(acked_id(&msgs, b"carol"), 5);

    // The race: whichever submission acquires the document's serialization
    // slot first wins id 6; the loser is transformed onto it and gets 7.
    let first = reg.apply_revision(&alice, &rev(b"doc", 0, 5, b"A")).unwrap();
    let second = reg.apply_revision(&bob, &rev(b"doc", 0, 5, b"B")).unwrap();

    assert_eq!(acked_id(&first, b"alice"), 6);
    assert_eq!(acked_id(&second, b"bob"), 7);
    assert_eq!(reg.get(&d).unwrap().revision_id, 7);
    // Both authors' content survives, in commit order.
    assert!(reg.get(&d).unwrap().content.ends_with(b"AB"));

    // Every other subscriber sees both committed revisions, in commit order.
    let carol_first = pushes_to(&first, b"carol");
    let carol_second = pushes_to(&second, b"carol");
    assert_eq!(carol_first.len(), 1);
    assert_eq!(carol_second.len(), 1);
    assert_eq!(carol_first[0].revision_id, 6);
    assert_eq!(carol_first[0].delta, b"A".to_vec());
    assert_eq!(carol_second[0].revision_id, 7);
    assert_eq!(carol_second[0].delta, b"B".to_vec());
}

#[test]
fn redelivery_of_applied_revision_changes_nothing() {
    let mut reg = Registry::new(16);
    let alice = b"alice".to_vec();
    let d = b"doc".to_vec();
    reg.apply_revision(&alice, &rev(b"doc", 0, 0, b"one")).unwrap();
    reg.apply_revision(&alice, &rev(b"doc", 0, 1, b"two")).unwrap();

    let before_rev = reg.get(&d).unwrap().revision_id;
    let before_content = reg.get(&d).unwrap().content.clone();
    let before_history = reg.get(&d).unwrap().history.clone();

    // Redeliver revision 2, which is already applied and still retained.
    let msgs = reg.apply_revision(&alice, &rev(b"doc", 2, 1, b"two")).unwrap();

    assert_eq!(reg.get(&d).unwrap().revision_id, before_rev);
    assert_eq!(reg.get(&d).unwrap().content, before_content);
    assert_eq!(reg.get(&d).unwrap().history, before_history);
    assert_eq!(msgs.len(), 1);
    assert_eq!(acked_id(&msgs, b"alice"), 2);
}

#[test]
fn redelivery_outside_retention_window_is_rejected() {
    let mut reg = Registry::new(2);
    let alice = b"alice".to_vec();
    for i in 0..4u64 {
        reg.apply_revision(&alice, &rev(b"doc", 0, i, b"x")).unwrap();
    }
    // Revision 1 left the window (only 3 and 4 are retained).
    let err = reg.apply_revision(&alice, &rev(b"doc", 1, 0, b"x")).unwrap_err();
    assert_eq!(err, ReconciliationError::TooStale);
}

#[test]
fn base_older_than_retention_window_is_rejected() {
    let mut reg = Registry::new(2);
    let alice = b"alice".to_vec();
    for i in 0..4u64 {
        reg.apply_revision(&alice, &rev(b"doc", 0, i, b"x")).unwrap();
    }
    let err = reg.apply_revision(&alice, &rev(b"doc", 0, 0, b"y")).unwrap_err();
    assert_eq!(err, ReconciliationError::TooStale);
    // The rejection changed nothing.
    assert_eq!(reg.get(&b"doc".to_vec()).unwrap().revision_id, 4);
}

#[test]
fn base_ahead_of_canonical_state_is_rejected() {
    let mut reg = Registry::new(16);
    let alice = b"alice".to_vec();
    reg.apply_revision(&alice, &rev(b"doc", 0, 0, b"x")).unwrap();
    let err = reg.apply_revision(&alice, &rev(b"doc", 0, 9, b"y")).unwrap_err();
    assert_eq!(err, ReconciliationError::TooStale);
}

#[test]
fn exhausted_revision_id_space_is_rejected() {
    let mut handle = DocumentHandle::new(b"doc".to_vec(), 4);
    handle.revision_id = u64::MAX;
    let err = handle
        .apply_revision(&b"alice".to_vec(), &rev(b"doc", 0, u64::MAX, b"x"))
        .unwrap_err();
    assert_eq!(err, ReconciliationError::IdSpaceExhausted);
}

#[test]
fn history_is_trimmed_to_the_retention_bound() {
    let mut reg = Registry::new(3);
    let alice = b"alice".to_vec();
    for i in 0..10u64 {
        reg.apply_revision(&alice, &rev(b"doc", 0, i, b"x")).unwrap();
    }
    let handle = reg.get(&b"doc".to_vec()).unwrap();
    assert_eq!(handle.history.len(), 3);
    assert_eq!(handle.history[0].revision_id, 8);
    assert_eq!(handle.history[2].revision_id, 10);
}

#[test]
fn reconciliation_touches_no_other_document() {
    let mut reg = Registry::new(16);
    let alice = b"alice".to_vec();
    reg.apply_revision(&alice, &rev(b"doc-a", 0, 0, b"a")).unwrap();
    reg.apply_revision(&alice, &rev(b"doc-b", 0, 0, b"b")).unwrap();

    let b_rev = reg.get(&b"doc-b".to_vec()).unwrap().revision_id;
    let b_content = reg.get(&b"doc-b".to_vec()).unwrap().content.clone();

    reg.apply_revision(&alice, &rev(b"doc-a", 0, 1, b"more")).unwrap();

    assert_eq!(reg.get(&b"doc-b".to_vec()).unwrap().revision_id, b_rev);
    assert_eq!(reg.get(&b"doc-b".to_vec()).unwrap().content, b_content);
}

#[test]
fn reconciliations_of_distinct_documents_commute() {
    let alice = b"alice".to_vec();
    let bob = b"bob".to_vec();
    let ra = rev(b"doc-a", 0, 0, b"alpha");
    let rb = rev(b"doc-b", 0, 0, b"beta");

    let mut one = Registry::new(16);
    let one_a = one.apply_revision(&alice, &ra).unwrap();
    let one_b = one.apply_revision(&bob, &rb).unwrap();

    let mut two = Registry::new(16);
    let two_b = two.apply_revision(&bob, &rb).unwrap();
    let two_a = two.apply_revision(&alice, &ra).unwrap();

    assert_eq!(one_a, two_a);
    assert_eq!(one_b, two_b);
    for d in [b"doc-a".to_vec(), b"doc-b".to_vec()] {
        let h1 = one.get(&d).unwrap();
        let h2 = two.get(&d).unwrap();
        assert_eq!(h1.revision_id, h2.revision_id);
        assert_eq!(h1.content, h2.content);
        assert_eq!(h1.history, h2.history);
        assert_eq!(h1.subscribers, h2.subscribers);
    }
}
