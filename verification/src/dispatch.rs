//! Dispatch of one inbound client frame.
//!
//! [`process_client_frame`] is the decision core of the message-dispatch
//! actor: it decodes the envelope, branches on the frame kind, routes
//! revisions through the registry, and answers with the outbound messages and
//! a completion result. The hosting actor loop (mailbox, worker pool,
//! completion channels) performs the I/O around it; this function performs
//! every decision. A failing frame is rejected without touching any
//! document's state and never affects another frame.

use vstd::prelude::*;

use crate::codec::decode_envelope;
use crate::codec::decode_new_user;
use crate::codec::decode_revision;
use crate::codec::spec_decode_envelope;
use crate::codec::spec_decode_new_user;
use crate::codec::spec_decode_revision;
use crate::document::clone_bytes;
use crate::document::messages_view;
use crate::protocol::DispatchError;
use crate::protocol::FrameKind;
use crate::protocol::OutboundMessage;
use crate::protocol::OutboundMessageModel;
use crate::protocol::ProtocolError;
use crate::protocol::Revision;
use crate::protocol::RevisionModel;
use crate::protocol::SyncResponse;
use crate::protocol::SyncResponseModel;
use crate::registry::lemma_apply_unfold;
use crate::registry::Registry;
use crate::registry::RegistryModel;

verus! {

/// What dispatching one inbound frame produced: the outbound deliveries, and
/// the completion result answered to the caller of the dispatch actor —
/// exactly once per frame, success or a structured error.
pub struct DispatchOutcome {
    pub messages: Vec<OutboundMessage>,
    pub completion: Result<(), DispatchError>,
}

/// Model-level result of dispatching one frame.
pub struct DispatchResultModel {
    pub reg: RegistryModel,
    pub messages: Seq<OutboundMessageModel>,
    pub completion: Result<(), DispatchError>,
}

/// Routing one decoded revision: the registry applies it; a reconciliation
/// error additionally directs the submitter to pull the missing revisions
/// from the document's current state.
pub open spec fn spec_dispatch_revision(
    reg: RegistryModel,
    submitter: Seq<u8>,
    rev: RevisionModel,
) -> DispatchResultModel {
    let r = reg.spec_apply(submitter, rev);
    match r.outcome {
        Ok(msgs) => DispatchResultModel { reg: r.reg, messages: msgs, completion: Ok(()) },
        Err(e) => DispatchResultModel {
            reg: r.reg,
            messages: seq![
                OutboundMessageModel {
                    recipient: submitter,
                    response: SyncResponseModel::Pull {
                        doc_id: rev.doc_id,
                        current_revision_id: reg.target_handle(rev.doc_id).revision_id,
                    },
                },
            ],
            completion: Err(DispatchError::Reconciliation(e)),
        },
    }
}

/// Dispatching one inbound frame, at the model level: a malformed envelope or
/// payload is rejected without touching any document; `Acknowledge` and
/// `PullRevision` are accepted as no-ops at this layer; `PushRevision`
/// carries a revision and `UserConnect` a new-user announcement whose
/// embedded baseline revision takes the same reconciliation path.
pub open spec fn spec_dispatch(
    reg: RegistryModel,
    submitter: Seq<u8>,
    data: Seq<u8>,
) -> DispatchResultModel {
    match spec_decode_envelope(data) {
        None => DispatchResultModel {
            reg,
            messages: Seq::empty(),
            completion: Err(DispatchError::Protocol(ProtocolError::MalformedEnvelope)),
        },
        Some(frame) => match frame.kind {
            FrameKind::Acknowledge => DispatchResultModel {
                reg,
                messages: Seq::empty(),
                completion: Ok(()),
            },
            FrameKind::PullRevision => DispatchResultModel {
                reg,
                messages: Seq::empty(),
                completion: Ok(()),
            },
            FrameKind::PushRevision => match spec_decode_revision(frame.payload) {
                None => DispatchResultModel {
                    reg,
                    messages: Seq::empty(),
                    completion: Err(DispatchError::Protocol(ProtocolError::MalformedPayload)),
                },
                Some(rev) => spec_dispatch_revision(reg, submitter, rev),
            },
            FrameKind::UserConnect => match spec_decode_new_user(frame.payload) {
                None => DispatchResultModel {
                    reg,
                    messages: Seq::empty(),
                    completion: Err(DispatchError::Protocol(ProtocolError::MalformedPayload)),
                },
                Some(p) => spec_dispatch_revision(reg, submitter, p.revision),
            },
        },
    }
}

/// A frame that fails to decode — as an envelope, or as the payload its kind
/// demands — is rejected with the matching protocol error, produces no
/// outbound message, and leaves every document's state untouched.
pub proof fn lemma_rejected_frame_touches_nothing(
    reg: RegistryModel,
    submitter: Seq<u8>,
    data: Seq<u8>,
)
    ensures
        spec_dispatch(reg, submitter, data).completion matches Err(DispatchError::Protocol(_))
            ==> spec_dispatch(reg, submitter, data).reg == reg && spec_dispatch(
            reg,
            submitter,
            data,
        ).messages =~= Seq::<OutboundMessageModel>::empty(),
        spec_decode_envelope(data) is None ==> spec_dispatch(reg, submitter, data).completion
            == Err::<(), DispatchError>(DispatchError::Protocol(ProtocolError::MalformedEnvelope)),
{
    if spec_decode_envelope(data) is Some {
        let frame = spec_decode_envelope(data).unwrap();
        match frame.kind {
            FrameKind::PushRevision => {
                if spec_decode_revision(frame.payload) is Some {
                    let rev = spec_decode_revision(frame.payload).unwrap();
                    assert(!(spec_dispatch_revision(reg, submitter, rev).completion
                        matches Err(DispatchError::Protocol(_))));
                }
            },
            FrameKind::UserConnect => {
                if spec_decode_new_user(frame.payload) is Some {
                    let p = spec_decode_new_user(frame.payload).unwrap();
                    assert(!(spec_dispatch_revision(reg, submitter, p.revision).completion
                        matches Err(DispatchError::Protocol(_))));
                }
            },
            _ => {},
        }
    }
}

/// Routes one decoded revision to its document and shapes the error path.
fn dispatch_revision(registry: &mut Registry, submitter: &Vec<u8>, rev: &Revision) -> (r:
    DispatchOutcome)
    requires
        old(registry).wf(),
    ensures
        final(registry).wf(),
        final(registry)@ == spec_dispatch_revision(old(registry)@, submitter@, rev@).reg,
        messages_view(r.messages@) == spec_dispatch_revision(old(registry)@, submitter@, rev@).messages,
        r.completion == spec_dispatch_revision(old(registry)@, submitter@, rev@).completion,
{
    match registry.apply_revision(submitter, rev) {
        Ok(msgs) => DispatchOutcome { messages: msgs, completion: Ok(()) },
        Err(e) => {
            proof {
                lemma_apply_unfold(old(registry)@, submitter@, rev@);
            }
            // The handle exists even after a rejected revision: the registry
            // creates it on first reference, so this lookup cannot miss.
            let current_revision_id = match registry.get(&rev.doc_id) {
                Some(d) => d.revision_id,
                None => {
                    proof {
                        assert(false);
                    }
                    0
                },
            };
            let mut msgs: Vec<OutboundMessage> = Vec::new();
            msgs.push(
                OutboundMessage {
                    recipient: clone_bytes(submitter),
                    response: SyncResponse::Pull {
                        doc_id: clone_bytes(&rev.doc_id),
                        current_revision_id,
                    },
                },
            );
            assert(messages_view(msgs@) =~= spec_dispatch_revision(
                old(registry)@,
                submitter@,
                rev@,
            ).messages);
            DispatchOutcome { messages: msgs, completion: Err(DispatchError::Reconciliation(e)) }
        },
    }
}

/// Processes one inbound client frame end to end: decode, branch on the
/// kind, reconcile, and answer. The entire step — registry change, outbound
/// messages and completion result — is pinned to [`spec_dispatch`] on the
/// registry's previous state.
pub fn process_client_frame(registry: &mut Registry, submitter: &Vec<u8>, data: &Vec<u8>) -> (r:
    DispatchOutcome)
    requires
        old(registry).wf(),
    ensures
        final(registry).wf(),
        final(registry)@ == spec_dispatch(old(registry)@, submitter@, data@).reg,
        messages_view(r.messages@) == spec_dispatch(old(registry)@, submitter@, data@).messages,
        r.completion == spec_dispatch(old(registry)@, submitter@, data@).completion,
{
    let frame = match decode_envelope(data) {
        Err(_) => {
            let msgs: Vec<OutboundMessage> = Vec::new();
            assert(messages_view(msgs@) =~= Seq::<OutboundMessageModel>::empty());
            return DispatchOutcome {
                messages: msgs,
                completion: Err(DispatchError::Protocol(ProtocolError::MalformedEnvelope)),
            };
        },
        Ok(frame) => frame,
    };
    match frame.kind {
        FrameKind::Acknowledge => {
            let msgs: Vec<OutboundMessage> = Vec::new();
            assert(messages_view(msgs@) =~= Seq::<OutboundMessageModel>::empty());
            DispatchOutcome { messages: msgs, completion: Ok(()) }
        },
        FrameKind::PullRevision => {
            let msgs: Vec<OutboundMessage> = Vec::new();
            assert(messages_view(msgs@) =~= Seq::<OutboundMessageModel>::empty());
            DispatchOutcome { messages: msgs, completion: Ok(()) }
        },
        FrameKind::PushRevision => {
            match decode_revision(&frame.payload) {
                Err(_) => {
                    let msgs: Vec<OutboundMessage> = Vec::new();
                    assert(messages_view(msgs@) =~= Seq::<OutboundMessageModel>::empty());
                    DispatchOutcome {
                        messages: msgs,
                        completion: Err(DispatchError::Protocol(ProtocolError::MalformedPayload)),
                    }
                },
                Ok(rev) => dispatch_revision(registry, submitter, &rev),
            }
        },
        FrameKind::UserConnect => {
            match decode_new_user(&frame.payload) {
                Err(_) => {
                    let msgs: Vec<OutboundMessage> = Vec::new();
                    assert(messages_view(msgs@) =~= Seq::<OutboundMessageModel>::empty());
                    DispatchOutcome {
                        messages: msgs,
                        completion: Err(DispatchError::Protocol(ProtocolError::MalformedPayload)),
                    }
                },
                Ok(p) => dispatch_revision(registry, submitter, &p.revision),
            }
        },
    }
}

} // verus!
