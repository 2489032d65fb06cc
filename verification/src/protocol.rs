//! Data model of the synchronization core: wire frames, revisions, sync
//! responses and the error taxonomy.

use vstd::prelude::*;

verus! {

/// Kind of a wire envelope. The numeric wire values are Acknowledge = 0,
/// PushRevision = 1, PullRevision = 2, UserConnect = 3; an envelope whose
/// kind byte is none of these is a protocol error.
#[derive(Clone, Copy, Debug, PartialEq, Eq, Structural)]
pub enum FrameKind {
    Acknowledge,
    PushRevision,
    PullRevision,
    UserConnect,
}

/// One edit against a document. `revision_id` is only a hint from the
/// client: the owning document handler assigns ids authoritatively.
/// `base_revision_id` is the revision the client believed was current when
/// it authored the edit. `checksum` is the content hash of `delta`.
#[derive(Clone, Debug, PartialEq, Eq)]
pub struct Revision {
    pub doc_id: Vec<u8>,
    pub revision_id: u64,
    pub base_revision_id: u64,
    pub delta: Vec<u8>,
    pub checksum: Vec<u8>,
}

/// Mathematical model of a [`Revision`].
pub struct RevisionModel {
    pub doc_id: Seq<u8>,
    pub revision_id: u64,
    pub base_revision_id: u64,
    pub delta: Seq<u8>,
    pub checksum: Seq<u8>,
}

impl View for Revision {
    type V = RevisionModel;

    open spec fn view(&self) -> RevisionModel {
        RevisionModel {
            doc_id: self.doc_id@,
            revision_id: self.revision_id,
            base_revision_id: self.base_revision_id,
            delta: self.delta@,
            checksum: self.checksum@,
        }
    }
}

/// An inbound wire envelope: `kind` selects how `payload` must be decoded.
#[derive(Clone, Debug, PartialEq, Eq)]
pub struct ClientFrame {
    pub document_id: Vec<u8>,
    pub frame_id: u64,
    pub kind: FrameKind,
    pub payload: Vec<u8>,
}

/// Mathematical model of a [`ClientFrame`].
pub struct ClientFrameModel {
    pub document_id: Seq<u8>,
    pub frame_id: u64,
    pub kind: FrameKind,
    pub payload: Seq<u8>,
}

impl View for ClientFrame {
    type V = ClientFrameModel;

    open spec fn view(&self) -> ClientFrameModel {
        ClientFrameModel {
            document_id: self.document_id@,
            frame_id: self.frame_id,
            kind: self.kind,
            payload: self.payload@,
        }
    }
}

/// Payload of a `UserConnect` envelope: a new-user announcement carrying an
/// embedded baseline revision. Connecting is modeled as submitting that
/// revision.
#[derive(Clone, Debug, PartialEq, Eq)]
pub struct NewUserPayload {
    pub user_id: Vec<u8>,
    pub revision: Revision,
}

/// Mathematical model of a [`NewUserPayload`].
pub struct NewUserPayloadModel {
    pub user_id: Seq<u8>,
    pub revision: RevisionModel,
}

impl View for NewUserPayload {
    type V = NewUserPayloadModel;

    open spec fn view(&self) -> NewUserPayloadModel {
        NewUserPayloadModel { user_id: self.user_id@, revision: self.revision@ }
    }
}

/// Outcome of reconciling one revision, delivered to sessions.
///
/// `Pull` tells a client it is behind and must fetch missing revisions;
/// `Push` broadcasts a committed revision to the other subscribers; `Ack`
/// confirms the submitter's revision; `NewRevisionCommitted` signals that a
/// new canonical revision exists and carries the post-transform snapshot for
/// persistence.
#[derive(Clone, Debug, PartialEq, Eq)]
pub enum SyncResponse {
    Pull { doc_id: Vec<u8>, current_revision_id: u64 },
    Push { revision: Revision },
    Ack { doc_id: Vec<u8>, revision_id: u64 },
    NewRevisionCommitted { doc_id: Vec<u8>, revision_id: u64, snapshot: Vec<u8> },
}

/// Mathematical model of a [`SyncResponse`].
pub enum SyncResponseModel {
    Pull { doc_id: Seq<u8>, current_revision_id: u64 },
    Push { revision: RevisionModel },
    Ack { doc_id: Seq<u8>, revision_id: u64 },
    NewRevisionCommitted { doc_id: Seq<u8>, revision_id: u64, snapshot: Seq<u8> },
}

impl View for SyncResponse {
    type V = SyncResponseModel;

    open spec fn view(&self) -> SyncResponseModel {
        match self {
            SyncResponse::Pull { doc_id, current_revision_id } => SyncResponseModel::Pull {
                doc_id: doc_id@,
                current_revision_id: *current_revision_id,
            },
            SyncResponse::Push { revision } => SyncResponseModel::Push { revision: revision@ },
            SyncResponse::Ack { doc_id, revision_id } => SyncResponseModel::Ack {
                doc_id: doc_id@,
                revision_id: *revision_id,
            },
            SyncResponse::NewRevisionCommitted { doc_id, revision_id, snapshot } => {
                SyncResponseModel::NewRevisionCommitted {
                    doc_id: doc_id@,
                    revision_id: *revision_id,
                    snapshot: snapshot@,
                }
            },
        }
    }
}

/// One outbound delivery: a sync response addressed to one user's session.
#[derive(Clone, Debug, PartialEq, Eq)]
pub struct OutboundMessage {
    pub recipient: Vec<u8>,
    pub response: SyncResponse,
}

/// Mathematical model of an [`OutboundMessage`].
pub struct OutboundMessageModel {
    pub recipient: Seq<u8>,
    pub response: SyncResponseModel,
}

impl View for OutboundMessage {
    type V = OutboundMessageModel;

    open spec fn view(&self) -> OutboundMessageModel {
        OutboundMessageModel { recipient: self.recipient@, response: self.response@ }
    }
}

/// A frame was rejected before reaching any document: either the envelope
/// itself or its kind-selected payload failed to parse.
#[derive(Clone, Copy, Debug, PartialEq, Eq, Structural)]
pub enum ProtocolError {
    MalformedEnvelope,
    MalformedPayload,
}

/// A revision could not be reconciled.
///
/// `TooStale`: the revision's base refers outside the handler's retained
/// history window, so the edit cannot be transformed; the submitter must be
/// directed to pull. `IdSpaceExhausted`: the document's revision-id counter
/// cannot be advanced any further (a machine limit, never reached in
/// practice).
#[derive(Clone, Copy, Debug, PartialEq, Eq, Structural)]
pub enum ReconciliationError {
    TooStale,
    IdSpaceExhausted,
}

/// Error surfaced to the dispatch caller as the completion result of one
/// inbound frame.
#[derive(Clone, Copy, Debug, PartialEq, Eq, Structural)]
pub enum DispatchError {
    Protocol(ProtocolError),
    Reconciliation(ReconciliationError),
}

/// Compares two byte strings; equality of opaque identifiers and hashes.
pub fn bytes_equal(a: &Vec<u8>, b: &Vec<u8>) -> (r: bool)
    ensures
        r == (a@ == b@),
{
    if a.len() != b.len() {
        assert(a@ != b@) by {
            assert(a@.len() != b@.len());
        }
        return false;
    }
    let n: usize = a.len();
    let mut i: usize = 0;
    while i < n
        invariant
            n == a@.len(),
            n == b@.len(),
            0 <= i <= n,
            forall|k: int| 0 <= k < i ==> a@[k] == b@[k],
        decreases n - i,
    {
        if a[i] != b[i] {
            return false;
        }
        i = i + 1;
    }
    assert(a@ =~= b@);
    true
}

} // verus!
