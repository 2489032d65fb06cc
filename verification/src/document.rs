//! Per-document revision handler: the reconciliation core.
//!
//! A [`DocumentHandle`] owns the live state of exactly one document: the
//! current canonical revision id, the canonical content, the retained window
//! of recently applied revisions, and the subscribed sessions. All revision
//! applications for a document go through [`DocumentHandle::apply_revision`],
//! which the owner must call with exclusive access (`&mut`): that exclusive
//! access is the per-document serialization slot, so concurrent submissions
//! to one document are applied one at a time, in the order they acquire it,
//! while handles of different documents are disjoint values that proceed in
//! parallel.
//!
//! Deltas are opaque composable edits: applying one appends it to the
//! canonical content, and the operational-transform step that rewrites a
//! delta against the revisions committed since its base is the identity under
//! this composition. A richer transform would replace [`spec_transform`] and
//! the content update without changing the shape of the contracts.

use vstd::prelude::*;

use crate::codec::append_bytes;
use crate::protocol::bytes_equal;
use crate::protocol::OutboundMessage;
use crate::protocol::OutboundMessageModel;
use crate::protocol::ReconciliationError;
use crate::protocol::Revision;
use crate::protocol::RevisionModel;
use crate::protocol::SyncResponse;
use crate::protocol::SyncResponseModel;

verus! {

/// Clones a byte string; the copy holds the same bytes.
pub fn clone_bytes(v: &Vec<u8>) -> (r: Vec<u8>)
    ensures
        r@ == v@,
{
    let r = v.clone();
    assert(r@ =~= v@);
    r
}

/// One revision already applied to a document, kept in the retained history
/// window so later submissions can be transformed against it.
#[derive(Clone, Debug, PartialEq, Eq)]
pub struct AppliedRevision {
    pub revision_id: u64,
    pub delta: Vec<u8>,
}

/// Mathematical model of an [`AppliedRevision`].
pub struct AppliedRevisionModel {
    pub revision_id: u64,
    pub delta: Seq<u8>,
}

impl View for AppliedRevision {
    type V = AppliedRevisionModel;

    open spec fn view(&self) -> AppliedRevisionModel {
        AppliedRevisionModel { revision_id: self.revision_id, delta: self.delta@ }
    }
}

/// The live, in-memory reconciliation state of one document.
pub struct DocumentHandle {
    pub doc_id: Vec<u8>,
    /// Current canonical revision id; `0` for a document with no revision yet.
    pub revision_id: u64,
    /// Canonical content: the composition of every applied delta, in commit
    /// order.
    pub content: Vec<u8>,
    /// The retained window of applied revisions, oldest first; covers exactly
    /// the revision ids `revision_id - history.len() + 1 ..= revision_id`.
    pub history: Vec<AppliedRevision>,
    /// User ids of the currently subscribed sessions, no duplicates.
    pub subscribers: Vec<Vec<u8>>,
    /// Upper bound on the history window, at least 1.
    pub retention: usize,
}

/// Mathematical model of a [`DocumentHandle`].
pub struct DocumentHandleModel {
    pub doc_id: Seq<u8>,
    pub revision_id: u64,
    pub content: Seq<u8>,
    pub history: Seq<AppliedRevisionModel>,
    pub subscribers: Seq<Seq<u8>>,
    pub retention: usize,
}

impl View for DocumentHandle {
    type V = DocumentHandleModel;

    open spec fn view(&self) -> DocumentHandleModel {
        DocumentHandleModel {
            doc_id: self.doc_id@,
            revision_id: self.revision_id,
            content: self.content@,
            history: self.history@.map_values(|a: AppliedRevision| a@),
            subscribers: self.subscribers@.map_values(|u: Vec<u8>| u@),
            retention: self.retention,
        }
    }
}

/// The model of a sequence of outbound messages.
pub open spec fn messages_view(s: Seq<OutboundMessage>) -> Seq<OutboundMessageModel> {
    s.map_values(|m: OutboundMessage| m@)
}

/// The operational-transform step: rewrites `delta` so it applies after the
/// retained revisions committed since the revision's base. Deltas compose by
/// appending, so the rewrite leaves the delta unchanged; a positional
/// transform would replace this function.
pub open spec fn spec_transform(delta: Seq<u8>, since: Seq<AppliedRevisionModel>) -> Seq<u8> {
    delta
}

/// The `Push` broadcasts sent to every subscriber other than the submitter,
/// in subscription order.
pub open spec fn push_messages(
    subs: Seq<Seq<u8>>,
    submitter: Seq<u8>,
    committed: RevisionModel,
) -> Seq<OutboundMessageModel>
    decreases subs.len(),
{
    if subs.len() == 0 {
        Seq::empty()
    } else {
        let rest = push_messages(subs.drop_last(), submitter, committed);
        if subs.last() == submitter {
            rest
        } else {
            rest.push(
                OutboundMessageModel {
                    recipient: subs.last(),
                    response: SyncResponseModel::Push { revision: committed },
                },
            )
        }
    }
}

/// State and outcome of one reconciliation step, at the model level.
pub struct ApplyResultModel {
    pub doc: DocumentHandleModel,
    pub outcome: Result<Seq<OutboundMessageModel>, ReconciliationError>,
}

impl DocumentHandleModel {
    /// Well-formedness: the history window is a contiguous run of the most
    /// recently committed revisions, bounded by the retention limit, and
    /// subscribers are distinct.
    pub open spec fn wf(self) -> bool {
        &&& self.retention >= 1
        &&& self.history.len() <= self.retention
        &&& self.history.len() <= self.revision_id
        &&& forall|i: int|
            0 <= i < self.history.len() ==> self.history[i].revision_id == self.revision_id - (
            self.history.len() - 1 - i)
        &&& forall|i: int, j: int|
            0 <= i < j < self.subscribers.len() ==> self.subscribers[i] != self.subscribers[j]
    }

    /// A handle for a document no revision has touched yet.
    pub open spec fn fresh(doc_id: Seq<u8>, retention: usize) -> DocumentHandleModel {
        DocumentHandleModel {
            doc_id,
            revision_id: 0,
            content: Seq::empty(),
            history: Seq::empty(),
            subscribers: Seq::empty(),
            retention,
        }
    }

    /// The lowest revision id the handler can still see: ids at or below it
    /// have left the retained window.
    pub open spec fn oldest_retained(self) -> int {
        self.revision_id - self.history.len()
    }

    /// The submission redelivers a revision the handler has already applied:
    /// its id was already assigned.
    pub open spec fn is_redelivery(self, rev: RevisionModel) -> bool {
        1 <= rev.revision_id <= self.revision_id
    }

    /// The redelivered revision is still inside the retained window, so the
    /// handler can recognize it instead of re-applying it.
    pub open spec fn redelivery_detectable(self, rev: RevisionModel) -> bool {
        rev.revision_id > self.oldest_retained()
    }

    /// The revision's declared base is one the handler can still transform
    /// against: not ahead of the canonical state, and not superseded by more
    /// than the retained window.
    pub open spec fn base_in_window(self, rev: RevisionModel) -> bool {
        rev.base_revision_id <= self.revision_id && rev.base_revision_id >= self.oldest_retained()
    }

    /// The retained revisions committed after `base`, oldest first.
    pub open spec fn retained_since(self, base: u64) -> Seq<AppliedRevisionModel>
        recommends
            self.revision_id - base <= self.history.len(),
    {
        self.history.subrange(self.history.len() - (self.revision_id - base), self.history.len() as int)
    }

    /// The handle with `user` subscribed.
    pub open spec fn spec_subscribe(self, user: Seq<u8>) -> DocumentHandleModel {
        if self.subscribers.contains(user) {
            self
        } else {
            DocumentHandleModel { subscribers: self.subscribers.push(user), ..self }
        }
    }

    /// The revision as committed: the server-assigned next id, rebased on the
    /// current canonical revision, carrying the transformed delta.
    pub open spec fn committed_revision(self, rev: RevisionModel) -> RevisionModel
        recommends
            self.revision_id < u64::MAX,
    {
        RevisionModel {
            doc_id: self.doc_id,
            revision_id: (self.revision_id + 1) as u64,
            base_revision_id: self.revision_id,
            delta: spec_transform(rev.delta, self.retained_since(rev.base_revision_id)),
            checksum: rev.checksum,
        }
    }

    /// One reconciliation step. A redelivery inside the retained window is
    /// acknowledged without changing canonical state; a redelivery that has
    /// left the window, or a fresh revision whose base has, is rejected as
    /// too stale. A fresh revision in the window is transformed, assigned the
    /// next revision id, committed to content and history, acknowledged to
    /// the submitter together with the persistence signal, and pushed to
    /// every other subscriber; the submitter ends up subscribed.
    pub open spec fn spec_apply(self, submitter: Seq<u8>, rev: RevisionModel) -> ApplyResultModel
        recommends
            self.wf(),
            rev.doc_id == self.doc_id,
    {
        if self.is_redelivery(rev) {
            if self.redelivery_detectable(rev) {
                ApplyResultModel {
                    doc: self.spec_subscribe(submitter),
                    outcome: Ok(
                        seq![
                            OutboundMessageModel {
                                recipient: submitter,
                                response: SyncResponseModel::Ack {
                                    doc_id: self.doc_id,
                                    revision_id: rev.revision_id,
                                },
                            },
                        ],
                    ),
                }
            } else {
                ApplyResultModel { doc: self, outcome: Err(ReconciliationError::TooStale) }
            }
        } else {
            if !self.base_in_window(rev) {
                ApplyResultModel { doc: self, outcome: Err(ReconciliationError::TooStale) }
            } else if self.revision_id == u64::MAX {
                ApplyResultModel { doc: self, outcome: Err(ReconciliationError::IdSpaceExhausted) }
            } else {
                let committed = self.committed_revision(rev);
                let pushed = self.history.push(
                    AppliedRevisionModel {
                        revision_id: committed.revision_id,
                        delta: committed.delta,
                    },
                );
                let new_history = if pushed.len() > self.retention {
                    pushed.subrange(1, pushed.len() as int)
                } else {
                    pushed
                };
                let new_content = self.content + committed.delta;
                let doc = DocumentHandleModel {
                    doc_id: self.doc_id,
                    revision_id: committed.revision_id,
                    content: new_content,
                    history: new_history,
                    subscribers: self.subscribers,
                    retention: self.retention,
                };
                let messages = seq![
                    OutboundMessageModel {
                        recipient: submitter,
                        response: SyncResponseModel::Ack {
                            doc_id: self.doc_id,
                            revision_id: committed.revision_id,
                        },
                    },
                    OutboundMessageModel {
                        recipient: submitter,
                        response: SyncResponseModel::NewRevisionCommitted {
                            doc_id: self.doc_id,
                            revision_id: committed.revision_id,
                            snapshot: new_content,
                        },
                    },
                ] + push_messages(self.subscribers, submitter, committed);
                ApplyResultModel { doc: doc.spec_subscribe(submitter), outcome: Ok(messages) }
            }
        }
    }
}

/// Subscribing keeps a handle well-formed and changes nothing but the
/// subscriber set.
pub proof fn lemma_subscribe_preserves_wf(d: DocumentHandleModel, user: Seq<u8>)
    requires
        d.wf(),
    ensures
        d.spec_subscribe(user).wf(),
        d.spec_subscribe(user).doc_id == d.doc_id,
        d.spec_subscribe(user).revision_id == d.revision_id,
        d.spec_subscribe(user).content == d.content,
        d.spec_subscribe(user).history == d.history,
        d.spec_subscribe(user).subscribers.contains(user),
{
    if !d.subscribers.contains(user) {
        let subs = d.subscribers.push(user);
        assert(forall|i: int, j: int| 0 <= i < j < subs.len() ==> subs[i] != subs[j]) by {
            assert(forall|i: int| 0 <= i < d.subscribers.len() ==> subs[i] == d.subscribers[i]);
        }
        assert(subs[subs.len() - 1] == user);
    }
}

/// Reconciliation preserves well-formedness, never changes the document id,
/// and never moves the canonical revision id backwards.
pub proof fn lemma_apply_preserves_wf(d: DocumentHandleModel, submitter: Seq<u8>, rev: RevisionModel)
    requires
        d.wf(),
    ensures
        d.spec_apply(submitter, rev).doc.wf(),
        d.spec_apply(submitter, rev).doc.doc_id == d.doc_id,
        d.spec_apply(submitter, rev).doc.revision_id >= d.revision_id,
        d.spec_apply(submitter, rev).doc.retention == d.retention,
{
    if d.is_redelivery(rev) {
        if d.redelivery_detectable(rev) {
            lemma_subscribe_preserves_wf(d, submitter);
        }
    } else {
        if d.base_in_window(rev) && d.revision_id != u64::MAX {
            let committed = d.committed_revision(rev);
            let pushed = d.history.push(
                AppliedRevisionModel { revision_id: committed.revision_id, delta: committed.delta },
            );
            let new_history = if pushed.len() > d.retention {
                pushed.subrange(1, pushed.len() as int)
            } else {
                pushed
            };
            let doc = DocumentHandleModel {
                doc_id: d.doc_id,
                revision_id: committed.revision_id,
                content: d.content + committed.delta,
                history: new_history,
                subscribers: d.subscribers,
                retention: d.retention,
            };
            assert(forall|i: int|
                0 <= i < doc.history.len() ==> doc.history[i].revision_id == doc.revision_id - (
                doc.history.len() - 1 - i));
            assert(doc.wf());
            lemma_subscribe_preserves_wf(doc, submitter);
        }
    }
}

impl DocumentHandle {
    /// Well-formedness of the executable handle, stated over its model.
    pub open spec fn wf(&self) -> bool {
        self@.wf()
    }

    /// Creates the handle for a document no revision has touched yet.
    pub fn new(doc_id: Vec<u8>, retention: usize) -> (d: DocumentHandle)
        requires
            retention >= 1,
        ensures
            d@ == DocumentHandleModel::fresh(doc_id@, retention),
            d.wf(),
    {
        let d = DocumentHandle {
            doc_id,
            revision_id: 0,
            content: Vec::new(),
            history: Vec::new(),
            subscribers: Vec::new(),
            retention,
        };
        assert(d@.history =~= Seq::<AppliedRevisionModel>::empty());
        assert(d@.subscribers =~= Seq::<Seq<u8>>::empty());
        assert(d@ == DocumentHandleModel::fresh(d.doc_id@, retention));
        d
    }

    /// Adds `user` to the subscriber set if it is not there yet.
    pub fn subscribe(&mut self, user: &Vec<u8>)
        requires
            old(self).wf(),
        ensures
            final(self)@ == old(self)@.spec_subscribe(user@),
            final(self).wf(),
    {
        let n: usize = self.subscribers.len();
        let mut i: usize = 0;
        while i < n
            invariant
                n == self.subscribers@.len(),
                0 <= i <= n,
                forall|k: int| 0 <= k < i ==> self@.subscribers[k] != user@,
                self == old(self),
                old(self).wf(),
            decreases n - i,
        {
            if bytes_equal(&self.subscribers[i], user) {
                assert(self@.subscribers[i as int] == user@);
                assert(self@.subscribers.contains(user@));
                proof {
                    lemma_subscribe_preserves_wf(old(self)@, user@);
                }
                return ;
            }
            i = i + 1;
        }
        assert(!self@.subscribers.contains(user@));
        self.subscribers.push(clone_bytes(user));
        assert(final(self)@.subscribers =~= old(self)@.subscribers.push(user@));
        proof {
            lemma_subscribe_preserves_wf(old(self)@, user@);
        }
    }

    /// Accepts one revision from one submitting session and produces the
    /// resulting outbound messages, or the reconciliation error. The entire
    /// step — canonical state change and messages — is pinned to
    /// [`DocumentHandleModel::spec_apply`] on the handle's previous state.
    pub fn apply_revision(&mut self, submitter: &Vec<u8>, rev: &Revision) -> (r: Result<
        Vec<OutboundMessage>,
        ReconciliationError,
    >)
        requires
            old(self).wf(),
            rev@.doc_id == old(self)@.doc_id,
        ensures
            final(self)@ == old(self)@.spec_apply(submitter@, rev@).doc,
            final(self).wf(),
            match r {
                Ok(msgs) => old(self)@.spec_apply(submitter@, rev@).outcome == Ok::<
                    Seq<OutboundMessageModel>,
                    ReconciliationError,
                >(messages_view(msgs@)),
                Err(e) => old(self)@.spec_apply(submitter@, rev@).outcome == Err::<
                    Seq<OutboundMessageModel>,
                    ReconciliationError,
                >(e),
            },
    {
        proof {
            lemma_apply_preserves_wf(old(self)@, submitter@, rev@);
        }
        let hist_len: u64 = self.history.len() as u64;
        if rev.revision_id >= 1 && rev.revision_id <= self.revision_id {
            // Redelivery of an id the handler has already assigned.
            if rev.revision_id > self.revision_id - hist_len {
                self.subscribe(submitter);
                let mut msgs: Vec<OutboundMessage> = Vec::new();
                msgs.push(
                    OutboundMessage {
                        recipient: clone_bytes(submitter),
                        response: SyncResponse::Ack {
                            doc_id: clone_bytes(&self.doc_id),
                            revision_id: rev.revision_id,
                        },
                    },
                );
                assert(messages_view(msgs@) =~= old(self)@.spec_apply(
                    submitter@,
                    rev@,
                ).outcome.unwrap());
                Ok(msgs)
            } else {
                Err(ReconciliationError::TooStale)
            }
        } else {
            // A fresh revision; the client-sent id is only a hint.
            if !(rev.base_revision_id <= self.revision_id && self.revision_id
                - rev.base_revision_id <= hist_len) {
                return Err(ReconciliationError::TooStale);
            }
            if self.revision_id == u64::MAX {
                return Err(ReconciliationError::IdSpaceExhausted);
            }
            let ghost committed = old(self)@.committed_revision(rev@);
            let new_id = self.revision_id + 1;
            let mut msgs: Vec<OutboundMessage> = Vec::new();
            msgs.push(
                OutboundMessage {
                    recipient: clone_bytes(submitter),
                    response: SyncResponse::Ack {
                        doc_id: clone_bytes(&self.doc_id),
                        revision_id: new_id,
                    },
                },
            );
            let mut snapshot = clone_bytes(&self.content);
            append_bytes(&mut snapshot, &rev.delta);
            msgs.push(
                OutboundMessage {
                    recipient: clone_bytes(submitter),
                    response: SyncResponse::NewRevisionCommitted {
                        doc_id: clone_bytes(&self.doc_id),
                        revision_id: new_id,
                        snapshot: clone_bytes(&snapshot),
                    },
                },
            );
            let ghost head = messages_view(msgs@);
            let n: usize = self.subscribers.len();
            let mut i: usize = 0;
            assert(messages_view(msgs@) =~= head + push_messages(
                self@.subscribers.take(0),
                submitter@,
                committed,
            ));
            while i < n
                invariant
                    n == self.subscribers@.len(),
                    0 <= i <= n,
                    self == old(self),
                    old(self).wf(),
                    new_id == committed.revision_id,
                    rev@.delta == committed.delta,
                    rev@.checksum == committed.checksum,
                    self@.doc_id == committed.doc_id,
                    self.revision_id == committed.base_revision_id,
                    messages_view(msgs@) == head + push_messages(
                        self@.subscribers.take(i as int),
                        submitter@,
                        committed,
                    ),
                decreases n - i,
            {
                proof {
                    assert(self@.subscribers.take(i as int + 1).drop_last() =~= self@.subscribers.take(
                        i as int,
                    ));
                    assert(self@.subscribers.take(i as int + 1).last() == self@.subscribers[i as int]);
                }
                let ghost prev = msgs@;
                if !bytes_equal(&self.subscribers[i], submitter) {
                    let pushed_rev = Revision {
                        doc_id: clone_bytes(&self.doc_id),
                        revision_id: new_id,
                        base_revision_id: self.revision_id,
                        delta: clone_bytes(&rev.delta),
                        checksum: clone_bytes(&rev.checksum),
                    };
                    assert(pushed_rev@ == committed);
                    let m = OutboundMessage {
                        recipient: clone_bytes(&self.subscribers[i]),
                        response: SyncResponse::Push { revision: pushed_rev },
                    };
                    proof {
                        assert(m@ == OutboundMessageModel {
                            recipient: self@.subscribers[i as int],
                            response: SyncResponseModel::Push { revision: committed },
                        });
                        assert(push_messages(self@.subscribers.take(i as int + 1), submitter@, committed)
                            == push_messages(self@.subscribers.take(i as int), submitter@, committed).push(
                            m@,
                        ));
                    }
                    msgs.push(m);
                    assert(messages_view(msgs@) =~= messages_view(prev).push(
                        OutboundMessageModel {
                            recipient: self@.subscribers[i as int],
                            response: SyncResponseModel::Push { revision: committed },
                        },
                    ));
                    assert(messages_view(msgs@) =~= head + push_messages(
                        self@.subscribers.take(i as int + 1),
                        submitter@,
                        committed,
                    ));
                } else {
                    assert(push_messages(self@.subscribers.take(i as int + 1), submitter@, committed)
                        == push_messages(self@.subscribers.take(i as int), submitter@, committed));
                }
                i = i + 1;
            }
            proof {
                assert(self@.subscribers.take(n as int) =~= self@.subscribers);
            }
            // Commit: advance the canonical state and trim the window.
            self.content = snapshot;
            self.revision_id = new_id;
            self.history.push(AppliedRevision { revision_id: new_id, delta: clone_bytes(&rev.delta) });
            if self.history.len() > self.retention {
                self.history.remove(0);
                proof {
                    let pushed = old(self)@.history.push(
                        AppliedRevisionModel { revision_id: committed.revision_id, delta: committed.delta },
                    );
                    assert(self@.history =~= pushed.subrange(1, pushed.len() as int));
                }
            } else {
                proof {
                    assert(self@.history =~= old(self)@.history.push(
                        AppliedRevisionModel { revision_id: committed.revision_id, delta: committed.delta },
                    ));
                }
            }
            self.subscribe(submitter);
            proof {
                let result = old(self)@.spec_apply(submitter@, rev@);
                assert(final(self)@ == result.doc);
                assert(messages_view(msgs@) =~= result.outcome.unwrap());
            }
            Ok(msgs)
        }
    }
}

// ------------------------------------------------------------------
// Laws of reconciliation
// ------------------------------------------------------------------

/// Idempotence: redelivering a revision the handler still retains changes no
/// canonical state — not the revision id, the content, or the history — and
/// is acknowledged.
pub proof fn lemma_redelivery_idempotent(
    d: DocumentHandleModel,
    submitter: Seq<u8>,
    rev: RevisionModel,
)
    requires
        d.wf(),
        d.is_redelivery(rev),
        d.redelivery_detectable(rev),
    ensures
        d.spec_apply(submitter, rev).doc.revision_id == d.revision_id,
        d.spec_apply(submitter, rev).doc.content == d.content,
        d.spec_apply(submitter, rev).doc.history == d.history,
        d.spec_apply(submitter, rev).outcome is Ok,
{
    lemma_subscribe_preserves_wf(d, submitter);
}

/// Redelivering a revision that has left the retained window is rejected as
/// too stale, and the handle does not change at all.
pub proof fn lemma_redelivery_outside_window_rejected(
    d: DocumentHandleModel,
    submitter: Seq<u8>,
    rev: RevisionModel,
)
    requires
        d.wf(),
        d.is_redelivery(rev),
        !d.redelivery_detectable(rev),
    ensures
        d.spec_apply(submitter, rev).doc == d,
        d.spec_apply(submitter, rev).outcome == Err::<
            Seq<OutboundMessageModel>,
            ReconciliationError,
        >(ReconciliationError::TooStale),
{
}

/// Idempotence across a commit: after a fresh revision is committed and
/// assigned its id, submitting a revision that carries that assigned id is
/// recognized as a redelivery and changes no canonical state.
pub proof fn lemma_reapply_committed_idempotent(
    d: DocumentHandleModel,
    submitter: Seq<u8>,
    rev: RevisionModel,
    resubmitter: Seq<u8>,
    redelivered: RevisionModel,
)
    requires
        d.wf(),
        !d.is_redelivery(rev),
        d.spec_apply(submitter, rev).outcome is Ok,
        redelivered.revision_id == d.revision_id + 1,
    ensures
        ({
            let after = d.spec_apply(submitter, rev).doc;
            &&& after.spec_apply(resubmitter, redelivered).doc.revision_id == after.revision_id
            &&& after.spec_apply(resubmitter, redelivered).doc.content == after.content
            &&& after.spec_apply(resubmitter, redelivered).doc.history == after.history
            &&& after.spec_apply(resubmitter, redelivered).outcome is Ok
        }),
{
    lemma_apply_preserves_wf(d, submitter, rev);
    let after = d.spec_apply(submitter, rev).doc;
    assert(after.revision_id == d.revision_id + 1);
    assert(after.history.len() >= 1);
    assert(after.is_redelivery(redelivered));
    assert(after.redelivery_detectable(redelivered));
    lemma_redelivery_idempotent(after, resubmitter, redelivered);
}

} // verus!

