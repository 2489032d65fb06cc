//! Session: the server-side representative of one connected client.
//!
//! A session carries reconciliation output back out: `Pull`, `Push` and `Ack`
//! responses are shaped into wire envelopes for the session's outbound
//! channel, and `NewRevisionCommitted` becomes a persistence request for the
//! document's new snapshot. The channel write and the storage write
//! themselves are transport concerns outside this library; [`Session::receive`]
//! produces the exact effect to perform.

use vstd::prelude::*;

use crate::codec::encode_envelope;
use crate::codec::encode_revision;
use crate::codec::encode_u64_be;
use crate::codec::revision_encodable;
use crate::codec::spec_encode_envelope;
use crate::codec::spec_encode_revision;
use crate::codec::u64_be_bytes;
use crate::document::clone_bytes;
use crate::protocol::ClientFrame;
use crate::protocol::ClientFrameModel;
use crate::protocol::FrameKind;
use crate::protocol::SyncResponse;
use crate::protocol::SyncResponseModel;

verus! {

/// One connected, authenticated client.
pub struct Session {
    pub user_id: Vec<u8>,
}

/// The side effect one sync response asks the hosting transport to perform:
/// either write bytes to the session's outbound channel, or persist a new
/// document snapshot. Persistence is best-effort: it is spawned detached,
/// never awaited by reconciliation, and its failure is logged and discarded.
#[derive(Clone, Debug, PartialEq, Eq)]
pub enum SessionEffect {
    Send { bytes: Vec<u8> },
    Persist { doc_id: Vec<u8>, snapshot: Vec<u8>, revision_id: u64 },
}

/// Mathematical model of a [`SessionEffect`].
pub enum SessionEffectModel {
    Send { bytes: Seq<u8> },
    Persist { doc_id: Seq<u8>, snapshot: Seq<u8>, revision_id: u64 },
}

impl View for SessionEffect {
    type V = SessionEffectModel;

    open spec fn view(&self) -> SessionEffectModel {
        match self {
            SessionEffect::Send { bytes } => SessionEffectModel::Send { bytes: bytes@ },
            SessionEffect::Persist { doc_id, snapshot, revision_id } => {
                SessionEffectModel::Persist {
                    doc_id: doc_id@,
                    snapshot: snapshot@,
                    revision_id: *revision_id,
                }
            },
        }
    }
}

/// The outbound wire envelope a `Pull`, `Push` or `Ack` response is shaped
/// into. Outbound envelopes carry frame id zero: frame ids identify inbound
/// client requests.
pub open spec fn spec_response_frame(resp: SyncResponseModel) -> ClientFrameModel
    recommends
        !(resp is NewRevisionCommitted),
{
    match resp {
        SyncResponseModel::Pull { doc_id, current_revision_id } => ClientFrameModel {
            document_id: doc_id,
            frame_id: 0,
            kind: FrameKind::PullRevision,
            payload: u64_be_bytes(current_revision_id),
        },
        SyncResponseModel::Ack { doc_id, revision_id } => ClientFrameModel {
            document_id: doc_id,
            frame_id: 0,
            kind: FrameKind::Acknowledge,
            payload: u64_be_bytes(revision_id),
        },
        SyncResponseModel::Push { revision } => ClientFrameModel {
            document_id: revision.doc_id,
            frame_id: 0,
            kind: FrameKind::PushRevision,
            payload: spec_encode_revision(revision),
        },
        SyncResponseModel::NewRevisionCommitted { .. } => ClientFrameModel {
            document_id: Seq::empty(),
            frame_id: 0,
            kind: FrameKind::Acknowledge,
            payload: Seq::empty(),
        },
    }
}

/// The response's variable-length fields fit the wire format's 32-bit length
/// prefixes (a machine limit).
pub open spec fn response_encodable(resp: SyncResponseModel) -> bool {
    match resp {
        SyncResponseModel::Pull { doc_id, .. } => doc_id.len() <= u32::MAX,
        SyncResponseModel::Ack { doc_id, .. } => doc_id.len() <= u32::MAX,
        SyncResponseModel::Push { revision } => revision_encodable(revision)
            && spec_encode_revision(revision).len() <= u32::MAX,
        SyncResponseModel::NewRevisionCommitted { .. } => true,
    }
}

/// The 8 big-endian bytes of `v` as a fresh vector.
fn u64_payload(v: u64) -> (r: Vec<u8>)
    ensures
        r@ == u64_be_bytes(v),
{
    let mut r: Vec<u8> = Vec::new();
    encode_u64_be(&mut r, v);
    assert(r@ =~= u64_be_bytes(v));
    r
}

impl Session {
    /// A session for the connected user with this id.
    pub fn new(user_id: Vec<u8>) -> (s: Session)
        ensures
            s.user_id@ == user_id@,
    {
        Session { user_id }
    }

    /// The id of the connected user this session represents.
    pub fn user_id(&self) -> (r: &Vec<u8>)
        ensures
            r@ == self.user_id@,
    {
        &self.user_id
    }

    /// Dispatches one reconciliation outcome: `Pull`, `Push` and `Ack` are
    /// serialized via the codec for the outbound channel;
    /// `NewRevisionCommitted` becomes the persistence request for the new
    /// snapshot.
    pub fn receive(&self, resp: SyncResponse) -> (e: SessionEffect)
        requires
            response_encodable(resp@),
        ensures
            match resp@ {
                SyncResponseModel::NewRevisionCommitted { doc_id, revision_id, snapshot } => e@
                    == (SessionEffectModel::Persist { doc_id, snapshot, revision_id }),
                _ => e@ == (SessionEffectModel::Send {
                    bytes: spec_encode_envelope(spec_response_frame(resp@)),
                }),
            },
    {
        match resp {
            SyncResponse::Pull { doc_id, current_revision_id } => {
                let frame = ClientFrame {
                    document_id: doc_id,
                    frame_id: 0,
                    kind: FrameKind::PullRevision,
                    payload: u64_payload(current_revision_id),
                };
                SessionEffect::Send { bytes: encode_envelope(&frame) }
            },
            SyncResponse::Ack { doc_id, revision_id } => {
                let frame = ClientFrame {
                    document_id: doc_id,
                    frame_id: 0,
                    kind: FrameKind::Acknowledge,
                    payload: u64_payload(revision_id),
                };
                SessionEffect::Send { bytes: encode_envelope(&frame) }
            },
            SyncResponse::Push { revision } => {
                let document_id = clone_bytes(&revision.doc_id);
                let frame = ClientFrame {
                    document_id,
                    frame_id: 0,
                    kind: FrameKind::PushRevision,
                    payload: encode_revision(&revision),
                };
                SessionEffect::Send { bytes: encode_envelope(&frame) }
            },
            SyncResponse::NewRevisionCommitted { doc_id, revision_id, snapshot } => {
                SessionEffect::Persist { doc_id, snapshot, revision_id }
            },
        }
    }
}

} // verus!
