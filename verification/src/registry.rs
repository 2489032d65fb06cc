//! Document revision registry: the process-wide mapping from document id to
//! the per-document handler.
//!
//! The registry owns the handles exclusively; a handle is created lazily on
//! first reference to its document id, from the submitted revision itself.
//! Applying a revision touches exactly the one handle that owns the
//! revision's document — the isolation and commutativity lemmas at the end of
//! this module state that every other document is left alone, and that
//! reconciliations of distinct documents can be interleaved in either order
//! with the same observable result.

use vstd::prelude::*;
use vstd::pervasive::VecAdditionalExecFns;

use crate::document::clone_bytes;
use crate::document::lemma_apply_preserves_wf;
use crate::document::messages_view;
use crate::document::DocumentHandle;
use crate::document::DocumentHandleModel;
use crate::protocol::bytes_equal;
use crate::protocol::OutboundMessage;
use crate::protocol::OutboundMessageModel;
use crate::protocol::ReconciliationError;
use crate::protocol::Revision;
use crate::protocol::RevisionModel;

verus! {

/// Index of the handle owning `doc_id` in `docs`, or `-1` when no handle
/// owns it.
pub open spec fn find_doc(docs: Seq<DocumentHandleModel>, doc_id: Seq<u8>) -> int
    decreases docs.len(),
{
    if docs.len() == 0 {
        -1
    } else if docs[0].doc_id == doc_id {
        0
    } else {
        let r = find_doc(docs.subrange(1, docs.len() as int), doc_id);
        if r == -1 {
            -1
        } else {
            r + 1
        }
    }
}

/// `find_doc` returns `-1` exactly when no handle owns the id, and otherwise
/// the first index whose handle owns it.
pub proof fn lemma_find_doc_properties(docs: Seq<DocumentHandleModel>, doc_id: Seq<u8>)
    ensures
        find_doc(docs, doc_id) == -1 ==> forall|k: int|
            0 <= k < docs.len() ==> docs[k].doc_id != doc_id,
        find_doc(docs, doc_id) != -1 ==> 0 <= find_doc(docs, doc_id) < docs.len() && docs[find_doc(
            docs,
            doc_id,
        )].doc_id == doc_id && (forall|k: int| 0 <= k < find_doc(docs, doc_id) ==> docs[k].doc_id != doc_id),
    decreases docs.len(),
{
    if docs.len() == 0 {
    } else if docs[0].doc_id == doc_id {
    } else {
        let rest = docs.subrange(1, docs.len() as int);
        lemma_find_doc_properties(rest, doc_id);
        let r = find_doc(rest, doc_id);
        if r == -1 {
            assert forall|k: int| 0 <= k < docs.len() implies docs[k].doc_id != doc_id by {
                if k > 0 {
                    assert(docs[k] == rest[k - 1]);
                }
            }
        } else {
            assert(docs[r + 1] == rest[r]);
            assert forall|k: int| 0 <= k < r + 1 implies docs[k].doc_id != doc_id by {
                if k > 0 {
                    assert(docs[k] == rest[k - 1]);
                }
            }
        }
    }
}

/// Replacing a handle with one that owns the same document id moves no index
/// that `find_doc` answers.
pub proof fn lemma_find_doc_update(
    docs: Seq<DocumentHandleModel>,
    i: int,
    d: DocumentHandleModel,
    doc_id: Seq<u8>,
)
    requires
        0 <= i < docs.len(),
        docs[i].doc_id == d.doc_id,
    ensures
        find_doc(docs.update(i, d), doc_id) == find_doc(docs, doc_id),
    decreases docs.len(),
{
    let updated = docs.update(i, d);
    if i == 0 {
        assert(updated[0] == d);
        if docs[0].doc_id != doc_id {
            assert(updated.subrange(1, updated.len() as int) =~= docs.subrange(
                1,
                docs.len() as int,
            ));
        }
    } else {
        assert(updated[0] == docs[0]);
        if docs[0].doc_id != doc_id {
            let rest = docs.subrange(1, docs.len() as int);
            assert(updated.subrange(1, updated.len() as int) =~= rest.update(i - 1, d));
            lemma_find_doc_update(rest, i - 1, d, doc_id);
        }
    }
}

/// Appending a handle leaves every already-answered lookup in place, and
/// makes the new handle's own id found at the end.
pub proof fn lemma_find_doc_push(
    docs: Seq<DocumentHandleModel>,
    d: DocumentHandleModel,
    doc_id: Seq<u8>,
)
    ensures
        find_doc(docs.push(d), doc_id) == if find_doc(docs, doc_id) != -1 {
            find_doc(docs, doc_id)
        } else if d.doc_id == doc_id {
            docs.len() as int
        } else {
            -1
        },
    decreases docs.len(),
{
    let pushed = docs.push(d);
    if docs.len() == 0 {
        assert(pushed[0] == d);
        if d.doc_id != doc_id {
            assert(pushed.subrange(1, pushed.len() as int) =~= Seq::<DocumentHandleModel>::empty());
            assert(find_doc(pushed.subrange(1, pushed.len() as int), doc_id) == -1);
        } else {
        }
    } else {
        assert(pushed[0] == docs[0]);
        if docs[0].doc_id != doc_id {
            let rest = docs.subrange(1, docs.len() as int);
            assert(pushed.subrange(1, pushed.len() as int) =~= rest.push(d));
            lemma_find_doc_push(rest, d, doc_id);
            lemma_find_doc_properties(rest, doc_id);
            let rr = find_doc(rest, doc_id);
            let rp = find_doc(rest.push(d), doc_id);
            assert(find_doc(pushed, doc_id) == if rp == -1 {
                -1
            } else {
                rp + 1
            });
            assert(find_doc(docs, doc_id) == if rr == -1 {
                -1
            } else {
                rr + 1
            });
            if rr != -1 {
                assert(rp == rr);
            } else if d.doc_id == doc_id {
                assert(rp == rest.len());
                assert(rest.len() + 1 == docs.len());
            } else {
                assert(rp == -1);
            }
        }
    }
}

/// The process-wide registry of live document handles.
pub struct Registry {
    pub docs: Vec<DocumentHandle>,
    /// History window handed to every handle this registry creates.
    pub retention: usize,
}

/// Mathematical model of a [`Registry`].
pub struct RegistryModel {
    pub docs: Seq<DocumentHandleModel>,
    pub retention: usize,
}

impl View for Registry {
    type V = RegistryModel;

    open spec fn view(&self) -> RegistryModel {
        RegistryModel {
            docs: self.docs@.map_values(|d: DocumentHandle| d@),
            retention: self.retention,
        }
    }
}

/// State and outcome of one reconciliation step routed through the registry.
pub struct RegistryApplyModel {
    pub reg: RegistryModel,
    pub outcome: Result<Seq<OutboundMessageModel>, ReconciliationError>,
}

impl RegistryModel {
    /// Well-formedness: every handle is well-formed, carries this registry's
    /// retention bound, and no two handles own the same document.
    pub open spec fn wf(self) -> bool {
        &&& self.retention >= 1
        &&& forall|i: int|
            0 <= i < self.docs.len() ==> (#[trigger] self.docs[i]).wf() && self.docs[i].retention
                == self.retention
        &&& forall|i: int, j: int|
            0 <= i < j < self.docs.len() ==> self.docs[i].doc_id != self.docs[j].doc_id
    }

    /// The handle owning `doc_id`, if one exists.
    pub open spec fn lookup(self, doc_id: Seq<u8>) -> Option<DocumentHandleModel> {
        let r = find_doc(self.docs, doc_id);
        if r == -1 {
            None
        } else {
            Some(self.docs[r])
        }
    }

    /// The handle a revision for `doc_id` will be applied to: the existing
    /// one, or the fresh handle the registry would create.
    pub open spec fn target_handle(self, doc_id: Seq<u8>) -> DocumentHandleModel {
        match self.lookup(doc_id) {
            Some(d) => d,
            None => DocumentHandleModel::fresh(doc_id, self.retention),
        }
    }

    /// The registry after ensuring a handle for `doc_id` exists, and that
    /// handle's index.
    pub open spec fn spec_get_or_create(self, doc_id: Seq<u8>) -> (RegistryModel, int) {
        let r = find_doc(self.docs, doc_id);
        if r != -1 {
            (self, r)
        } else {
            (
                RegistryModel {
                    docs: self.docs.push(DocumentHandleModel::fresh(doc_id, self.retention)),
                    retention: self.retention,
                },
                self.docs.len() as int,
            )
        }
    }

    /// One reconciliation step routed through the registry: the revision's
    /// document handle (created from this first reference if absent) applies
    /// the revision; no other handle is involved.
    pub open spec fn spec_apply(self, submitter: Seq<u8>, rev: RevisionModel) -> RegistryApplyModel {
        let created = self.spec_get_or_create(rev.doc_id);
        let reg = created.0;
        let i = created.1;
        let r = reg.docs[i].spec_apply(submitter, rev);
        RegistryApplyModel {
            reg: RegistryModel { docs: reg.docs.update(i, r.doc), retention: reg.retention },
            outcome: r.outcome,
        }
    }
}

/// What `spec_apply` does, stated over lookups: the outcome is that of the
/// target handle, and the registry afterwards answers the revision's document
/// id with the applied handle.
pub proof fn lemma_apply_unfold(r: RegistryModel, submitter: Seq<u8>, rev: RevisionModel)
    requires
        r.wf(),
    ensures
        r.spec_apply(submitter, rev).outcome == r.target_handle(rev.doc_id).spec_apply(
            submitter,
            rev,
        ).outcome,
        r.spec_apply(submitter, rev).reg.lookup(rev.doc_id) == Some(
            r.target_handle(rev.doc_id).spec_apply(submitter, rev).doc,
        ),
        r.spec_apply(submitter, rev).reg.retention == r.retention,
{
    let created = r.spec_get_or_create(rev.doc_id);
    let reg = created.0;
    let i = created.1;
    lemma_find_doc_properties(r.docs, rev.doc_id);
    if find_doc(r.docs, rev.doc_id) == -1 {
        lemma_find_doc_push(r.docs, DocumentHandleModel::fresh(rev.doc_id, r.retention), rev.doc_id);
    }
    assert(reg.docs[i] == r.target_handle(rev.doc_id));
    assert(reg.docs[i].doc_id == rev.doc_id);
    assert(find_doc(reg.docs, rev.doc_id) == i);
    let applied = reg.docs[i].spec_apply(submitter, rev);
    lemma_apply_preserves_wf(reg.docs[i], submitter, rev);
    lemma_find_doc_update(reg.docs, i, applied.doc, rev.doc_id);
    assert(r.spec_apply(submitter, rev).reg.docs[i] == applied.doc);
}

/// Reconciliation through the registry keeps the registry well-formed.
pub proof fn lemma_registry_apply_preserves_wf(
    r: RegistryModel,
    submitter: Seq<u8>,
    rev: RevisionModel,
)
    requires
        r.wf(),
    ensures
        r.spec_apply(submitter, rev).reg.wf(),
{
    let created = r.spec_get_or_create(rev.doc_id);
    let reg = created.0;
    let i = created.1;
    lemma_find_doc_properties(r.docs, rev.doc_id);
    if find_doc(r.docs, rev.doc_id) == -1 {
        assert(forall|k: int| 0 <= k < r.docs.len() ==> reg.docs[k] == r.docs[k]);
    }
    assert(reg.wf());
    let applied = reg.docs[i].spec_apply(submitter, rev);
    lemma_apply_preserves_wf(reg.docs[i], submitter, rev);
    let after = r.spec_apply(submitter, rev).reg;
    assert(forall|k: int| 0 <= k < after.docs.len() && k != i ==> after.docs[k] == reg.docs[k]);
    assert(after.docs[i] == applied.doc);
    assert(after.wf());
}

/// Isolation: a reconciliation for one document never changes what the
/// registry holds for any other document.
pub proof fn lemma_document_isolation(
    r: RegistryModel,
    submitter: Seq<u8>,
    rev: RevisionModel,
    other: Seq<u8>,
)
    requires
        r.wf(),
        other != rev.doc_id,
    ensures
        r.spec_apply(submitter, rev).reg.lookup(other) == r.lookup(other),
{
    let created = r.spec_get_or_create(rev.doc_id);
    let reg = created.0;
    let i = created.1;
    lemma_find_doc_properties(r.docs, rev.doc_id);
    if find_doc(r.docs, rev.doc_id) == -1 {
        lemma_find_doc_push(r.docs, DocumentHandleModel::fresh(rev.doc_id, r.retention), other);
        assert(forall|k: int| 0 <= k < r.docs.len() ==> reg.docs[k] == r.docs[k]);
    }
    assert(reg.lookup(other) == r.lookup(other)) by {
        lemma_find_doc_properties(r.docs, other);
    }
    assert(reg.docs[i].doc_id == rev.doc_id);
    let applied = reg.docs[i].spec_apply(submitter, rev);
    lemma_apply_preserves_wf(reg.docs[i], submitter, rev);
    lemma_find_doc_update(reg.docs, i, applied.doc, other);
    let after = r.spec_apply(submitter, rev).reg;
    assert(find_doc(after.docs, other) == find_doc(reg.docs, other));
    lemma_find_doc_properties(reg.docs, other);
    if find_doc(reg.docs, other) != -1 {
        let k = find_doc(reg.docs, other);
        assert(reg.docs[k].doc_id == other);
        assert(k != i);
        assert(after.docs[k] == reg.docs[k]);
    }
}

/// The outcome of a reconciliation, and the handle it leaves behind, depend
/// only on what the registry held for that document — not on any other
/// document's state.
pub proof fn lemma_apply_depends_only_on_own_document(
    r1: RegistryModel,
    r2: RegistryModel,
    submitter: Seq<u8>,
    rev: RevisionModel,
)
    requires
        r1.wf(),
        r2.wf(),
        r1.retention == r2.retention,
        r1.lookup(rev.doc_id) == r2.lookup(rev.doc_id),
    ensures
        r1.spec_apply(submitter, rev).outcome == r2.spec_apply(submitter, rev).outcome,
        r1.spec_apply(submitter, rev).reg.lookup(rev.doc_id) == r2.spec_apply(
            submitter,
            rev,
        ).reg.lookup(rev.doc_id),
{
    assert(r1.target_handle(rev.doc_id) == r2.target_handle(rev.doc_id));
    lemma_apply_unfold(r1, submitter, rev);
    lemma_apply_unfold(r2, submitter, rev);
}

/// Commutativity across documents: revisions of two different documents can
/// be reconciled in either order; every lookup answers the same afterwards,
/// and each reconciliation's outcome does not depend on the order. Together
/// with the exclusive (`&mut`) access that serializes each single document's
/// applications, this is what makes any concurrent interleaving of
/// reconciliations equivalent to a sequential one, and keeps a slow document
/// from affecting any other.
pub proof fn lemma_independent_documents_commute(
    r: RegistryModel,
    submitter1: Seq<u8>,
    rev1: RevisionModel,
    submitter2: Seq<u8>,
    rev2: RevisionModel,
)
    requires
        r.wf(),
        rev1.doc_id != rev2.doc_id,
    ensures
        r.spec_apply(submitter1, rev1).reg.spec_apply(submitter2, rev2).outcome == r.spec_apply(
            submitter2,
            rev2,
        ).outcome,
        r.spec_apply(submitter2, rev2).reg.spec_apply(submitter1, rev1).outcome == r.spec_apply(
            submitter1,
            rev1,
        ).outcome,
        forall|id: Seq<u8>| #![all_triggers]
            r.spec_apply(submitter1, rev1).reg.spec_apply(submitter2, rev2).reg.lookup(id)
                == r.spec_apply(submitter2, rev2).reg.spec_apply(submitter1, rev1).reg.lookup(id),
{
    let a1 = r.spec_apply(submitter1, rev1);
    let b2 = r.spec_apply(submitter2, rev2);
    lemma_registry_apply_preserves_wf(r, submitter1, rev1);
    lemma_registry_apply_preserves_wf(r, submitter2, rev2);
    lemma_apply_unfold(r, submitter1, rev1);
    lemma_apply_unfold(r, submitter2, rev2);
    lemma_document_isolation(r, submitter1, rev1, rev2.doc_id);
    lemma_document_isolation(r, submitter2, rev2, rev1.doc_id);
    lemma_apply_depends_only_on_own_document(a1.reg, r, submitter2, rev2);
    lemma_apply_depends_only_on_own_document(b2.reg, r, submitter1, rev1);
    lemma_registry_apply_preserves_wf(a1.reg, submitter2, rev2);
    lemma_registry_apply_preserves_wf(b2.reg, submitter1, rev1);
    lemma_apply_unfold(a1.reg, submitter2, rev2);
    lemma_apply_unfold(b2.reg, submitter1, rev1);
    let a12 = a1.reg.spec_apply(submitter2, rev2);
    let b21 = b2.reg.spec_apply(submitter1, rev1);
    assert forall|id: Seq<u8>| #![all_triggers] a12.reg.lookup(id) == b21.reg.lookup(id) by {
        if id == rev1.doc_id {
            lemma_document_isolation(a1.reg, submitter2, rev2, id);
        } else if id == rev2.doc_id {
            lemma_document_isolation(b2.reg, submitter1, rev1, id);
        } else {
            lemma_document_isolation(a1.reg, submitter2, rev2, id);
            lemma_document_isolation(b2.reg, submitter1, rev1, id);
            lemma_document_isolation(r, submitter1, rev1, id);
            lemma_document_isolation(r, submitter2, rev2, id);
        }
    }
}

/// One revision submission: who submitted, and what.
pub struct OpModel {
    pub submitter: Seq<u8>,
    pub rev: RevisionModel,
}

/// The registry after a sequence of submissions, applied in order.
pub open spec fn apply_ops(r: RegistryModel, ops: Seq<OpModel>) -> RegistryModel
    decreases ops.len(),
{
    if ops.len() == 0 {
        r
    } else {
        apply_ops(r, ops.drop_last()).spec_apply(ops.last().submitter, ops.last().rev).reg
    }
}

/// A sequence of submissions keeps the registry well-formed and keeps its
/// retention bound.
pub proof fn lemma_apply_ops_wf(r: RegistryModel, ops: Seq<OpModel>)
    requires
        r.wf(),
    ensures
        apply_ops(r, ops).wf(),
        apply_ops(r, ops).retention == r.retention,
    decreases ops.len(),
{
    if ops.len() > 0 {
        lemma_apply_ops_wf(r, ops.drop_last());
        let mid = apply_ops(r, ops.drop_last());
        lemma_registry_apply_preserves_wf(mid, ops.last().submitter, ops.last().rev);
        lemma_apply_unfold(mid, ops.last().submitter, ops.last().rev);
    }
}

/// Serializability per document: under any sequence of submissions, applied
/// one at a time in the order they acquired the registry, what the registry
/// holds for document `d` is exactly what it would hold after `d`'s own
/// submissions alone, in that same order. Submissions to other documents
/// neither affect nor delay `d`'s outcome.
pub proof fn lemma_per_document_serialization(r: RegistryModel, ops: Seq<OpModel>, d: Seq<u8>)
    requires
        r.wf(),
    ensures
        apply_ops(r, ops).lookup(d) == apply_ops(
            r,
            ops.filter(|op: OpModel| op.rev.doc_id == d),
        ).lookup(d),
    decreases ops.len(),
{
    reveal(Seq::filter);
    let pred = (|op: OpModel| op.rev.doc_id == d);
    if ops.len() > 0 {
        let prefix = ops.drop_last();
        let op = ops.last();
        lemma_per_document_serialization(r, prefix, d);
        lemma_apply_ops_wf(r, prefix);
        lemma_apply_ops_wf(r, prefix.filter(pred));
        let a = apply_ops(r, prefix);
        let b = apply_ops(r, prefix.filter(pred));
        if op.rev.doc_id == d {
            assert(ops.filter(pred) == prefix.filter(pred).push(op));
            assert(prefix.filter(pred).push(op).drop_last() =~= prefix.filter(pred));
            assert(apply_ops(r, ops.filter(pred)) == b.spec_apply(op.submitter, op.rev).reg);
            lemma_apply_depends_only_on_own_document(a, b, op.submitter, op.rev);
        } else {
            assert(ops.filter(pred) == prefix.filter(pred));
            lemma_document_isolation(a, op.submitter, op.rev, d);
        }
    }
}

impl Registry {
    /// Well-formedness of the executable registry, stated over its model.
    pub open spec fn wf(&self) -> bool {
        self@.wf()
    }

    /// An empty registry whose handles will retain up to `retention` applied
    /// revisions each.
    pub fn new(retention: usize) -> (r: Registry)
        requires
            retention >= 1,
        ensures
            r@ == (RegistryModel { docs: Seq::<DocumentHandleModel>::empty(), retention }),
            r.wf(),
    {
        let r = Registry { docs: Vec::new(), retention };
        assert(r@.docs =~= Seq::<DocumentHandleModel>::empty());
        r
    }

    /// Index of the handle owning `doc_id`, mirroring [`find_doc`].
    fn index_of(&self, doc_id: &Vec<u8>) -> (r: Option<usize>)
        ensures
            match r {
                Some(i) => find_doc(self@.docs, doc_id@) == i && i < self.docs@.len(),
                None => find_doc(self@.docs, doc_id@) == -1,
            },
    {
        let n: usize = self.docs.len();
        let mut i: usize = 0;
        while i < n
            invariant
                n == self.docs@.len(),
                0 <= i <= n,
                forall|k: int| 0 <= k < i ==> self@.docs[k].doc_id != doc_id@,
            decreases n - i,
        {
            if bytes_equal(&self.docs[i].doc_id, doc_id) {
                proof {
                    lemma_find_doc_properties(self@.docs, doc_id@);
                    assert(self@.docs[i as int].doc_id == doc_id@);
                }
                return Some(i);
            }
            i = i + 1;
        }
        proof {
            lemma_find_doc_properties(self@.docs, doc_id@);
        }
        None
    }

    /// Non-creating lookup: the live handle for `doc_id`, if one exists.
    pub fn get(&self, doc_id: &Vec<u8>) -> (r: Option<&DocumentHandle>)
        ensures
            match r {
                Some(d) => self@.lookup(doc_id@) == Some(d@),
                None => self@.lookup(doc_id@) is None,
            },
    {
        match self.index_of(doc_id) {
            Some(i) => Some(&self.docs[i]),
            None => None,
        }
    }

    /// Returns the index of the handle for `doc_id`, creating a fresh handle
    /// on first reference.
    pub fn get_or_create(&mut self, doc_id: &Vec<u8>) -> (i: usize)
        requires
            old(self).wf(),
        ensures
            final(self)@ == old(self)@.spec_get_or_create(doc_id@).0,
            i as int == old(self)@.spec_get_or_create(doc_id@).1,
            final(self).wf(),
            i < final(self)@.docs.len(),
            final(self)@.docs[i as int].doc_id == doc_id@,
    {
        match self.index_of(doc_id) {
            Some(i) => {
                proof {
                    lemma_find_doc_properties(self@.docs, doc_id@);
                }
                i
            },
            None => {
                let i = self.docs.len();
                self.docs.push(DocumentHandle::new(clone_bytes(doc_id), self.retention));
                proof {
                    assert(final(self)@.docs =~= old(self)@.docs.push(
                        DocumentHandleModel::fresh(doc_id@, old(self).retention),
                    ));
                    lemma_find_doc_properties(old(self)@.docs, doc_id@);
                    assert(forall|k: int|
                        0 <= k < old(self)@.docs.len() ==> final(self)@.docs[k] == old(
                            self,
                        )@.docs[k]);
                    assert(final(self).wf());
                }
                i
            },
        }
    }

    /// Routes one revision to its document's handler, creating the document
    /// from this first reference if it is unknown, and hands back the
    /// handler's outbound messages or its reconciliation error. The whole
    /// step is pinned to [`RegistryModel::spec_apply`] on the registry's
    /// previous state.
    pub fn apply_revision(&mut self, submitter: &Vec<u8>, rev: &Revision) -> (r: Result<
        Vec<OutboundMessage>,
        ReconciliationError,
    >)
        requires
            old(self).wf(),
        ensures
            final(self)@ == old(self)@.spec_apply(submitter@, rev@).reg,
            final(self).wf(),
            match r {
                Ok(msgs) => old(self)@.spec_apply(submitter@, rev@).outcome == Ok::<
                    Seq<OutboundMessageModel>,
                    ReconciliationError,
                >(messages_view(msgs@)),
                Err(e) => old(self)@.spec_apply(submitter@, rev@).outcome == Err::<
                    Seq<OutboundMessageModel>,
                    ReconciliationError,
                >(e),
            },
    {
        let i = self.get_or_create(&rev.doc_id);
        let ghost reg = self@;
        // Swap the owning handle out, apply to it exclusively, swap it back:
        // the slot briefly holds a blank handle nobody can reach through the
        // borrow of `self`.
        let mut d = DocumentHandle::new(Vec::new(), 1);
        self.docs.set_and_swap(i, &mut d);
        assert(d@ == reg.docs[i as int]);
        let result = d.apply_revision(submitter, rev);
        self.docs.set_and_swap(i, &mut d);
        proof {
            let applied = reg.docs[i as int].spec_apply(submitter@, rev@);
            assert(final(self)@.docs =~= reg.docs.update(i as int, applied.doc));
            lemma_registry_apply_preserves_wf(old(self)@, submitter@, rev@);
        }
        result
    }
}

} // verus!
