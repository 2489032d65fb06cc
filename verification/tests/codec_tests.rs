use doc_sync::codec::decode_envelope;
use doc_sync::codec::decode_new_user;
use doc_sync::codec::decode_revision;
use doc_sync::codec::encode_envelope;
use doc_sync::codec::encode_new_user;
use doc_sync::codec::encode_revision;
use doc_sync::protocol::ClientFrame;
use doc_sync::protocol::FrameKind;
use doc_sync::protocol::NewUserPayload;
use doc_sync::protocol::ProtocolError;
use doc_sync::protocol::Revision;

fn sample_revision() -> Revision {
    Revision {
        doc_id: b"doc-7".to_vec(),
        revision_id: 12,
        base_revision_id: 11,
        delta: b"hello world".to_vec(),
        checksum: vec![0xAA, 0xBB, 0xCC],
    }
}

#[test]
fn envelope_round_trip_all_kinds() {
    for kind in [
        FrameKind::Acknowledge,
        FrameKind::PushRevision,
        FrameKind::PullRevision,
        FrameKind::UserConnect,
    ] {
        let frame = ClientFrame {
            document_id: b"some-document".to_vec(),
            frame_id: 0x0123_4567_89AB_CDEF,
            kind,
            payload: vec![1, 2, 3, 4, 5],
        };
        let bytes = encode_envelope(&frame);
        let decoded = decode_envelope(&bytes).expect("well-formed envelope must decode");
        assert_eq!(decoded, frame);
    }
}

#[test]
fn envelope_round_trip_empty_fields() {
    let frame = ClientFrame {
        document_id: Vec::new(),
        frame_id: 0,
        kind: FrameKind::Acknowledge,
        payload: Vec::new(),
    };
    let bytes = encode_envelope(&frame);
    assert_eq!(bytes.len(), 17);
    assert_eq!(decode_envelope(&bytes).unwrap(), frame);
}

#[test]
fn envelope_wire_layout_is_big_endian() {
    let frame = ClientFrame {
        document_id: b"d".to_vec(),
        frame_id: 2,
        kind: FrameKind::PushRevision,
        payload: vec![9],
    };
    let bytes = encode_envelope(&frame);
    let expected = vec![
        1, // PushRevision
        0, 0, 0, 0, 0, 0, 0, 2, // frame id
        0, 0, 0, 1, b'd', // document id
        0, 0, 0, 1, 9, // payload
    ];
    assert_eq!(bytes, expected);
}

#[test]
fn revision_round_trip() {
    let rev = sample_revision();
    let bytes = encode_revision(&rev);
    assert_eq!(decode_revision(&bytes).unwrap(), rev);
}

#[test]
fn new_user_round_trip() {
    let p = NewUserPayload { user_id: b"user-1".to_vec(), revision: sample_revision() };
    let bytes = encode_new_user(&p);
    assert_eq!(decode_new_user(&bytes).unwrap(), p);
}

#[test]
fn short_envelope_is_malformed() {
    let bytes = vec![0, 1, 2];
    assert_eq!(decode_envelope(&bytes), Err(ProtocolError::MalformedEnvelope));
}

#[test]
fn unknown_kind_is_malformed() {
    let frame = ClientFrame {
        document_id: Vec::new(),
        frame_id: 1,
        kind: FrameKind::Acknowledge,
        payload: Vec::new(),
    };
    let mut bytes = encode_envelope(&frame);
    bytes[0] = 4; // no such kind
    assert_eq!(decode_envelope(&bytes), Err(ProtocolError::MalformedEnvelope));
}

#[test]
fn trailing_byte_is_malformed() {
    let frame = ClientFrame {
        document_id: b"doc".to_vec(),
        frame_id: 1,
        kind: FrameKind::PullRevision,
        payload: vec![7, 8],
    };
    let mut bytes = encode_envelope(&frame);
    bytes.push(0);
    assert_eq!(decode_envelope(&bytes), Err(ProtocolError::MalformedEnvelope));
}

#[test]
fn truncated_revision_payload_is_malformed() {
    let mut bytes = encode_revision(&sample_revision());
    bytes.pop();
    assert_eq!(decode_revision(&bytes), Err(ProtocolError::MalformedPayload));
}

#[test]
fn lying_length_prefix_is_malformed() {
    let mut bytes = encode_revision(&sample_revision());
    // Inflate the document-id length prefix far past the buffer.
    bytes[0] = 0xFF;
    assert_eq!(decode_revision(&bytes), Err(ProtocolError::MalformedPayload));
}
