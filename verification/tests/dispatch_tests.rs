use doc_sync::codec::encode_envelope;
use doc_sync::codec::encode_new_user;
use doc_sync::codec::encode_revision;
use doc_sync::dispatch::process_client_frame;
use doc_sync::protocol::ClientFrame;
use doc_sync::protocol::DispatchError;
use doc_sync::protocol::FrameKind;
use doc_sync::protocol::NewUserPayload;
use doc_sync::protocol::ProtocolError;
use doc_sync::protocol::ReconciliationError;
use doc_sync::protocol::Revision;
use doc_sync::protocol::SyncResponse;
use doc_sync::registry::Registry;
use doc_sync::session::Session;
use doc_sync::session::SessionEffect;

fn rev(doc_id: &[u8], revision_id: u64, base_revision_id: u64, delta: &[u8]) -> Revision {
    Revision {
        doc_id: doc_id.to_vec(),
        revision_id,
        base_revision_id,
        delta: delta.to_vec(),
        checksum: Vec::new(),
    }
}

fn push_frame(r: &Revision) -> Vec<u8> {
    encode_envelope(&ClientFrame {
        document_id: r.doc_id.clone(),
        frame_id: 1,
        kind: FrameKind::PushRevision,
        payload: encode_revision(r),
    })
}

#[test]
fn malformed_envelope_is_reported_and_touches_nothing() {
    // Scenario: garbage bytes reach the dispatch actor.
    let mut reg = Registry::new(16);
    let alice = b"alice".to_vec();
    let garbage = vec![0xFF, 0x01, 0x02];
    let outcome = process_client_frame(&mut reg, &alice, &garbage);
    assert_eq!(
        outcome.completion,
        Err(DispatchError::Protocol(ProtocolError::MalformedEnvelope))
    );
    assert!(outcome.messages.is_empty());
    assert_eq!(reg.docs.len(), 0);
}

#[test]
fn malformed_payload_is_reported_and_touches_nothing() {
    let mut reg = Registry::new(16);
    let alice = b"alice".to_vec();
    let data = encode_envelope(&ClientFrame {
        document_id: b"doc".to_vec(),
        frame_id: 1,
        kind: FrameKind::PushRevision,
        payload: vec![1, 2, 3], // not a revision
    });
    let outcome = process_client_frame(&mut reg, &alice, &data);
    assert_eq!(
        outcome.completion,
        Err(DispatchError::Protocol(ProtocolError::MalformedPayload))
    );
    assert!(outcome.messages.is_empty());
    assert_eq!(reg.docs.len(), 0);
}

#[test]
fn acknowledge_and_pull_frames_are_noops() {
    let mut reg = Registry::new(16);
    let alice = b"alice".to_vec();
    for kind in [FrameKind::Acknowledge, FrameKind::PullRevision] {
        let data = encode_envelope(&ClientFrame {
            document_id: b"doc".to_vec(),
            frame_id: 1,
            kind,
            payload: Vec::new(),
        });
        let outcome = process_client_frame(&mut reg, &alice, &data);
        assert_eq!(outcome.completion, Ok(()));
        assert!(outcome.messages.is_empty());
    }
    assert_eq!(reg.docs.len(), 0);
}

#[test]
fn pushed_revision_is_reconciled_through_dispatch() {
    let mut reg = Registry::new(16);
    let alice = b"alice".to_vec();
    let outcome = process_client_frame(&mut reg, &alice, &push_frame(&rev(b"doc", 0, 0, b"hi")));
    assert_eq!(outcome.completion, Ok(()));
    assert_eq!(reg.get(&b"doc".to_vec()).unwrap().revision_id, 1);
    assert!(outcome.messages.iter().any(|m| matches!(
        m.response,
        SyncResponse::Ack { revision_id: 1, .. }
    ) && m.recipient == alice));
}

#[test]
fn user_connect_creates_document_from_embedded_baseline() {
    // Scenario: a connect announcement for a previously unknown document.
    let mut reg = Registry::new(16);
    let alice = b"alice".to_vec();
    let payload = encode_new_user(&NewUserPayload {
        user_id: alice.clone(),
        revision: rev(b"fresh-doc", 0, 0, b"baseline"),
    });
    let data = encode_envelope(&ClientFrame {
        document_id: b"fresh-doc".to_vec(),
        frame_id: 2,
        kind: FrameKind::UserConnect,
        payload,
    });
    let outcome = process_client_frame(&mut reg, &alice, &data);
    assert_eq!(outcome.completion, Ok(()));
    let handle = reg.get(&b"fresh-doc".to_vec()).expect("document created from baseline");
    assert_eq!(handle.revision_id, 1);
    assert_eq!(handle.content, b"baseline".to_vec());
    assert!(outcome.messages.iter().any(|m| matches!(
        m.response,
        SyncResponse::Ack { revision_id: 1, .. }
    ) && m.recipient == alice));
}

#[test]
fn stale_revision_directs_submitter_to_pull() {
    let mut reg = Registry::new(1);
    let alice = b"alice".to_vec();
    for i in 0..3u64 {
        process_client_frame(&mut reg, &alice, &push_frame(&rev(b"doc", 0, i, b"x")));
    }
    // Base 0 left the one-revision window long ago.
    let outcome = process_client_frame(&mut reg, &alice, &push_frame(&rev(b"doc", 0, 0, b"y")));
    assert_eq!(
        outcome.completion,
        Err(DispatchError::Reconciliation(ReconciliationError::TooStale))
    );
    assert_eq!(outcome.messages.len(), 1);
    assert_eq!(outcome.messages[0].recipient, alice);
    match &outcome.messages[0].response {
        SyncResponse::Pull { doc_id, current_revision_id } => {
            assert_eq!(doc_id, &b"doc".to_vec());
            assert_eq!(*current_revision_id, 3);
        },
        other => panic!("expected Pull, got {:?}", other),
    }
}

#[test]
fn session_serializes_ack_for_the_outbound_channel() {
    let session = Session::new(b"alice".to_vec());
    let effect = session.receive(SyncResponse::Ack { doc_id: b"doc".to_vec(), revision_id: 5 });
    let expected = encode_envelope(&ClientFrame {
        document_id: b"doc".to_vec(),
        frame_id: 0,
        kind: FrameKind::Acknowledge,
        payload: vec![0, 0, 0, 0, 0, 0, 0, 5],
    });
    assert_eq!(effect, SessionEffect::Send { bytes: expected });
}

#[test]
fn session_serializes_push_for_the_outbound_channel() {
    let session = Session::new(b"carol".to_vec());
    let revision = rev(b"doc", 6, 5, b"delta");
    let effect = session.receive(SyncResponse::Push { revision: revision.clone() });
    let expected = encode_envelope(&ClientFrame {
        document_id: b"doc".to_vec(),
        frame_id: 0,
        kind: FrameKind::PushRevision,
        payload: encode_revision(&revision),
    });
    assert_eq!(effect, SessionEffect::Send { bytes: expected });
}

#[test]
fn session_serializes_pull_for_the_outbound_channel() {
    let session = Session::new(b"alice".to_vec());
    let effect = session.receive(SyncResponse::Pull {
        doc_id: b"doc".to_vec(),
        current_revision_id: 9,
    });
    let expected = encode_envelope(&ClientFrame {
        document_id: b"doc".to_vec(),
        frame_id: 0,
        kind: FrameKind::PullRevision,
        payload: vec![0, 0, 0, 0, 0, 0, 0, 9],
    });
    assert_eq!(effect, SessionEffect::Send { bytes: expected });
}

#[test]
fn session_turns_commit_into_persistence_request() {
    let session = Session::new(b"alice".to_vec());
    let effect = session.receive(SyncResponse::NewRevisionCommitted {
        doc_id: b"doc".to_vec(),
        revision_id: 7,
        snapshot: b"full snapshot".to_vec(),
    });
    assert_eq!(
        effect,
        SessionEffect::Persist {
            doc_id: b"doc".to_vec(),
            snapshot: b"full snapshot".to_vec(),
            revision_id: 7,
        }
    );
}
