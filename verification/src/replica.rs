//! The boundary to the mergeable document replica.
//!
//! The replica (a text CRDT) is modelled by the set of atomic changes it has
//! absorbed: a local edit adds fresh changes, importing exported bytes adds
//! exactly the changes those bytes carry, and the rendered text is a function
//! of the absorbed set alone. Under that model, merging is commutative and
//! idempotent by construction — set union — which is what the replica's own
//! merge algorithm guarantees for arbitrary delivery order and duplication.
//!
//! A change absorbed before its causal dependencies is buffered by the
//! replica and applied once they arrive; `deps_closed` says a set has no such
//! gaps. A snapshot carries exactly the dependency-closed part of the state,
//! so it equals the full state whenever nothing is buffered — in this crate's
//! own protocol every update payload is a snapshot, so nothing ever is.

use vstd::prelude::*;

verus! {

#[verifier::external_type_specification]
#[verifier::external_body]
pub struct ExLoroDoc(loro::LoroDoc);

#[verifier::external_type_specification]
#[verifier::external_body]
pub struct ExLoroError(loro::LoroError);

#[verifier::external_type_specification]
#[verifier::external_body]
pub struct ExLoroEncodeError(loro::LoroEncodeError);

#[verifier::external_type_specification]
#[verifier::external_body]
pub struct ExImportStatus(loro::ImportStatus);

#[verifier::external_type_specification]
#[verifier::external_body]
pub struct ExUpdateTimeoutError(loro::UpdateTimeoutError);

/// The set of atomic changes a replica has absorbed — applied, or buffered
/// while their causal dependencies are missing — through local edits and
/// through imports.
pub uninterp spec fn doc_model(d: loro::LoroDoc) -> Set<Seq<u8>>;

/// The changes carried by one exported byte string (an incremental update or
/// a full snapshot; the two are not distinguished).
pub uninterp spec fn ops_of(data: Seq<u8>) -> Set<Seq<u8>>;

/// The text rendered by a replica that has absorbed exactly the changes `m`.
pub uninterp spec fn text_of(m: Set<Seq<u8>>) -> Seq<char>;

/// Whether every change in `m` has all its causal dependencies in `m` — that
/// is, nothing is buffered awaiting a change that has not arrived.
pub uninterp spec fn deps_closed(m: Set<Seq<u8>>) -> bool;

/// Whether a replica holding `m` accepts an import of `data`: acceptance is a
/// deterministic function of the absorbed state and the bytes.
pub uninterp spec fn import_ok(m: Set<Seq<u8>>, data: Seq<u8>) -> bool;

/// Whether a replica holding `m` can export a full snapshot: a deterministic
/// function of the absorbed state.
pub uninterp spec fn export_ok(m: Set<Seq<u8>>) -> bool;

/// What an exported snapshot `s` of a replica holding `m` carries: the
/// dependency-closed part of the state, hence everything when nothing is
/// buffered.
pub open spec fn snapshot_of(s: Seq<u8>, m: Set<Seq<u8>>) -> bool {
    &&& ops_of(s).subset_of(m)
    &&& deps_closed(ops_of(s))
    &&& (deps_closed(m) ==> ops_of(s) == m)
}

/// Relies on `loro::LoroDoc::new`: a fresh replica has absorbed nothing,
/// renders the empty text, and can export a snapshot.
#[verifier::external_body]
pub fn doc_new() -> (d: loro::LoroDoc)
    ensures
        doc_model(d) == Set::<Seq<u8>>::empty(),
        text_of(doc_model(d)) == Seq::<char>::empty(),
        deps_closed(doc_model(d)),
        export_ok(doc_model(d)),
{
    loro::LoroDoc::new()
}

/// Relies on `loro::LoroDoc::import`: the header and checksum are validated
/// before anything is applied, acceptance depends only on the replica's state
/// and the bytes, and merging is commutative and idempotent over arbitrary
/// delivery order and duplication. A successful import absorbs exactly what
/// the bytes carry (changes with missing dependencies are buffered, and
/// buffered changes are applied once their dependencies arrive); a failed one
/// may have absorbed part of it.
#[verifier::external_body]
pub fn doc_import(d: &mut loro::LoroDoc, data: &[u8]) -> (r: Result<
    loro::ImportStatus,
    loro::LoroError,
>)
    ensures
        r is Ok <==> import_ok(doc_model(*old(d)), data@),
        r is Ok ==> doc_model(*final(d)) == doc_model(*old(d)).union(ops_of(data@)),
        r is Ok && deps_closed(doc_model(*old(d))) && deps_closed(ops_of(data@)) ==> deps_closed(
            doc_model(*final(d)),
        ),
        r is Err ==> doc_model(*old(d)).subset_of(doc_model(*final(d))),
        r is Err ==> doc_model(*final(d)).subset_of(doc_model(*old(d)).union(ops_of(data@))),
{
    d.import(data)
}

/// Relies on `loro::LoroDoc::export` in snapshot mode: a snapshot carries the
/// dependency-closed part of the replica's absorbed state — all of it when
/// nothing is buffered — and whether the export succeeds depends only on the
/// replica's state.
#[verifier::external_body]
pub fn doc_export_snapshot(d: &loro::LoroDoc) -> (r: Result<Vec<u8>, loro::LoroEncodeError>)
    ensures
        r is Ok <==> export_ok(doc_model(*d)),
        r matches Result::Ok(s) ==> snapshot_of(s@, doc_model(*d)),
{
    d.export(loro::ExportMode::Snapshot)
}

/// Relies on `loro::LoroDoc::get_text` (the `"text"` container),
/// `loro::LoroText::update` and `loro::LoroDoc::commit`: replacing the text
/// container's content adds changes to the replica and makes it render the
/// new text. With no diff timeout configured — and none is — `update` cannot
/// fail, and a local edit affects neither buffered changes nor exportability.
#[verifier::external_body]
pub fn doc_set_text(d: &mut loro::LoroDoc, text: &str) -> (r: Result<
    (),
    loro::UpdateTimeoutError,
>)
    ensures
        r is Ok,
        doc_model(*old(d)).subset_of(doc_model(*final(d))),
        text_of(doc_model(*final(d))) == text@,
        deps_closed(doc_model(*old(d))) ==> deps_closed(doc_model(*final(d))),
        export_ok(doc_model(*final(d))) == export_ok(doc_model(*old(d))),
{
    let t = d.get_text("text");
    t.update(text, Default::default())?;
    d.commit();
    Ok(())
}

/// Relies on `loro::LoroDoc::get_text` (the `"text"` container) and
/// `loro::LoroText::to_string`: the rendered text depends only on the changes
/// the replica has absorbed.
#[verifier::external_body]
pub fn doc_text_string(d: &loro::LoroDoc) -> (r: String)
    ensures
        r@ == text_of(doc_model(*d)),
{
    d.get_text("text").to_string()
}

/// The changes carried by a sequence of delivered update payloads.
pub open spec fn ops_delivered(ds: Seq<Seq<u8>>) -> Set<Seq<u8>>
    decreases ds.len(),
{
    if ds.len() == 0 {
        Set::empty()
    } else {
        ops_delivered(ds.drop_last()).union(ops_of(ds.last()))
    }
}

/// The replica model after importing the payloads of `ds`, in order, into a
/// replica holding `m0`.
pub open spec fn absorbed_after(m0: Set<Seq<u8>>, ds: Seq<Seq<u8>>) -> Set<Seq<u8>>
    decreases ds.len(),
{
    if ds.len() == 0 {
        m0
    } else {
        absorbed_after(m0, ds.drop_last()).union(ops_of(ds.last()))
    }
}

/// Whether a replica holding `m0` accepts every payload of `ds`, imported in
/// order.
pub open spec fn batch_ok(m0: Set<Seq<u8>>, ds: Seq<Seq<u8>>) -> bool
    decreases ds.len(),
{
    if ds.len() == 0 {
        true
    } else {
        batch_ok(m0, ds.drop_last()) && import_ok(
            absorbed_after(m0, ds.drop_last()),
            ds.last(),
        )
    }
}

/// A batch accepted whole is accepted up to any point.
pub proof fn lemma_batch_ok_prefix(m0: Set<Seq<u8>>, ds: Seq<Seq<u8>>, j: int)
    requires
        batch_ok(m0, ds),
        0 <= j <= ds.len(),
    ensures
        batch_ok(m0, ds.take(j)),
    decreases ds.len(),
{
    if j < ds.len() {
        assert(ds.drop_last() =~= ds.take(ds.len() - 1));
        lemma_batch_ok_prefix(m0, ds.take(ds.len() - 1), j);
        assert(ds.take(ds.len() - 1).take(j) =~= ds.take(j));
    } else {
        assert(ds.take(j) =~= ds);
    }
}

/// The model after a delivery sequence is the starting model joined with
/// everything the sequence carried.
pub proof fn lemma_absorbed_is_union(m0: Set<Seq<u8>>, ds: Seq<Seq<u8>>)
    ensures
        absorbed_after(m0, ds) == m0.union(ops_delivered(ds)),
    decreases ds.len(),
{
    if ds.len() == 0 {
        assert(absorbed_after(m0, ds) =~= m0.union(ops_delivered(ds)));
    } else {
        lemma_absorbed_is_union(m0, ds.drop_last());
        assert(absorbed_after(m0, ds) =~= m0.union(ops_delivered(ds)));
    }
}

proof fn lemma_ops_delivered_membership(ds: Seq<Seq<u8>>, x: Seq<u8>)
    ensures
        ops_delivered(ds).contains(x) <==> exists|i: int|
            0 <= i < ds.len() && #[trigger] ops_of(ds[i]).contains(x),
    decreases ds.len(),
{
    if ds.len() > 0 {
        lemma_ops_delivered_membership(ds.drop_last(), x);
        if ops_of(ds[ds.len() - 1]).contains(x) {
            assert(ops_delivered(ds).contains(x));
        }
        if exists|i: int| 0 <= i < ds.len() && #[trigger] ops_of(ds[i]).contains(x) {
            let i = choose|i: int| 0 <= i < ds.len() && #[trigger] ops_of(ds[i]).contains(x);
            if i < ds.len() - 1 {
                assert(ops_of(ds.drop_last()[i]).contains(x));
            }
        }
    }
}

/// Convergence: two replicas that start from the same absorbed state and are
/// delivered the same set of update payloads — in any order, with any
/// duplication, with any interleaving — end in the same state and render the
/// same text.
pub proof fn lemma_convergence(m0: Set<Seq<u8>>, d1: Seq<Seq<u8>>, d2: Seq<Seq<u8>>)
    requires
        forall|u: Seq<u8>| d1.contains(u) <==> d2.contains(u),
    ensures
        absorbed_after(m0, d1) == absorbed_after(m0, d2),
        text_of(absorbed_after(m0, d1)) == text_of(absorbed_after(m0, d2)),
{
    lemma_absorbed_is_union(m0, d1);
    lemma_absorbed_is_union(m0, d2);
    assert forall|x: Seq<u8>|
        ops_delivered(d1).contains(x) == ops_delivered(d2).contains(x) by {
        lemma_ops_delivered_membership(d1, x);
        lemma_ops_delivered_membership(d2, x);
        if ops_delivered(d1).contains(x) {
            let i = choose|i: int| 0 <= i < d1.len() && #[trigger] ops_of(d1[i]).contains(x);
            assert(d1.contains(d1[i]));
            assert(d2.contains(d1[i]));
            let j = choose|j: int| 0 <= j < d2.len() && d2[j] == d1[i];
            assert(ops_of(d2[j]).contains(x));
        }
        if ops_delivered(d2).contains(x) {
            let i = choose|i: int| 0 <= i < d2.len() && #[trigger] ops_of(d2[i]).contains(x);
            assert(d2.contains(d2[i]));
            assert(d1.contains(d2[i]));
            let j = choose|j: int| 0 <= j < d1.len() && d1[j] == d2[i];
            assert(ops_of(d1[j]).contains(x));
        }
    }
    assert(ops_delivered(d1) =~= ops_delivered(d2));
    assert(absorbed_after(m0, d1) =~= absorbed_after(m0, d2));
}

/// Processing an identical payload twice is harmless: the second import
/// changes nothing.
pub proof fn lemma_duplicate_import_harmless(m: Set<Seq<u8>>, s: Seq<u8>)
    ensures
        m.union(ops_of(s)).union(ops_of(s)) == m.union(ops_of(s)),
{
    assert(m.union(ops_of(s)).union(ops_of(s)) =~= m.union(ops_of(s)));
}

/// Anti-entropy: a fresh replica that imports one snapshot of a responder
/// with nothing buffered ends holding exactly the responder's state at export
/// time, and so renders the same text the responder rendered then.
pub proof fn lemma_snapshot_join(m_responder: Set<Seq<u8>>, s: Seq<u8>)
    requires
        snapshot_of(s, m_responder),
        deps_closed(m_responder),
    ensures
        absorbed_after(Set::empty(), seq![s]) == m_responder,
        text_of(absorbed_after(Set::empty(), seq![s])) == text_of(m_responder),
{
    assert(seq![s].drop_last() =~= Seq::<Seq<u8>>::empty());
    assert(absorbed_after(Set::<Seq<u8>>::empty(), Seq::<Seq<u8>>::empty())
        == Set::<Seq<u8>>::empty());
    assert(seq![s].last() == s);
    assert(absorbed_after(Set::empty(), seq![s]) =~= m_responder);
}

} // verus!
