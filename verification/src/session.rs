//! The session protocol engine.
//!
//! A `SessionState` owns the document replica, the presence cache and the
//! outbound queue. The engine functions are the only mutation paths: they
//! apply inbound gossip payloads, queue outbound broadcasts for local edits
//! and presence heartbeats, and hand queued messages to the caller in order.
//! The caller runs the coordination loop, performs network sends, and supplies
//! the clocks as plain millisecond values.

use vstd::prelude::*;

use crate::awareness::{Awareness, AwarenessCache, AwarenessView, CursorPair, EntryView, IdBytes,
    cursors_view, duplicate_cursors, spec_evict, spec_update};
use crate::gossip_message::{GossipMessage, GossipMessageView, decode_message, decode_wire};
use crate::replica::{absorbed_after, batch_ok, deps_closed, doc_export_snapshot, doc_import,
    doc_model, doc_new, doc_set_text, doc_text_string, export_ok, import_ok,
    lemma_batch_ok_prefix, ops_of, snapshot_of, text_of};

verus! {

/// Why the protocol engine failed fatally.
#[derive(Debug)]
pub enum EngineError {
    /// Inbound bytes that do not parse as a wire envelope.
    MalformedMessage,
    /// The replica refused to export a snapshot.
    ExportFailed,
    /// The replica rejected imported document bytes.
    ImportFailed,
}

/// The views of the messages awaiting broadcast, in queue order.
pub open spec fn queue_views(q: Seq<GossipMessage>) -> Seq<GossipMessageView> {
    q.map_values(|m: GossipMessage| m@)
}

/// The views of a batch of raw payloads.
pub open spec fn payload_views(q: Seq<Vec<u8>>) -> Seq<Seq<u8>> {
    q.map_values(|v: Vec<u8>| v@)
}

/// The live state of one session: the local identity and display name, the
/// document replica, the presence cache, the queue of messages awaiting
/// broadcast, the local selection, and the flag telling the rendering layer
/// that cursor positions must be recomputed from the replica.
pub struct SessionState {
    pub own_id: IdBytes,
    pub own_name: String,
    pub doc: loro::LoroDoc,
    pub awareness_cache: AwarenessCache,
    pub outbound_queue: Vec<GossipMessage>,
    pub cursors: Option<CursorPair>,
    pub cursors_need_recompute: bool,
}

impl SessionState {
    /// Validity: the cache is well formed and never holds the local identity.
    pub open spec fn wf(self) -> bool {
        &&& self.awareness_cache.wf()
        &&& !self.awareness_cache.as_map().contains_key(self.own_id@)
    }

    /// Creates the state of a newly established session: a fresh replica, an
    /// empty presence cache, no selection, and the snapshot solicitation
    /// already queued — a new peer always asks for a full snapshot rather
    /// than relying on incremental updates alone.
    pub fn new(own_id: IdBytes, own_name: String) -> (s: SessionState)
        ensures
            s.wf(),
            s.own_id == own_id,
            s.own_name == own_name,
            doc_model(s.doc) == Set::<Seq<u8>>::empty(),
            text_of(doc_model(s.doc)) == Seq::<char>::empty(),
            deps_closed(doc_model(s.doc)),
            export_ok(doc_model(s.doc)),
            s.awareness_cache.as_map() == Map::<Seq<u8>, EntryView>::empty(),
            queue_views(s.outbound_queue@) == seq![GossipMessageView::RequestData],
            s.cursors is None,
            !s.cursors_need_recompute,
    {
        let mut q: Vec<GossipMessage> = Vec::new();
        q.push(GossipMessage::RequestData);
        proof {
            assert(queue_views(q@) =~= seq![GossipMessageView::RequestData]);
        }
        SessionState {
            own_id,
            own_name,
            doc: doc_new(),
            awareness_cache: AwarenessCache::new(),
            outbound_queue: q,
            cursors: Option::None,
            cursors_need_recompute: false,
        }
    }
}

/// What one successfully handled message does to the session state.
pub open spec fn engine_step_ok(
    pre: SessionState,
    post: SessionState,
    m: GossipMessageView,
    now_mono_ms: u64,
) -> bool {
    &&& post.own_id == pre.own_id
    &&& post.own_name == pre.own_name
    &&& match m {
        GossipMessageView::RequestData => {
            // answer with a snapshot of the current replica state
            &&& export_ok(doc_model(pre.doc))
            &&& post.doc == pre.doc
            &&& post.awareness_cache == pre.awareness_cache
            &&& post.cursors == pre.cursors
            &&& post.cursors_need_recompute == pre.cursors_need_recompute
            &&& exists|s: Seq<u8>|
                #[trigger] snapshot_of(s, doc_model(pre.doc)) && queue_views(
                    post.outbound_queue@,
                ) == queue_views(pre.outbound_queue@).push(GossipMessageView::Update { data: s })
        },
        GossipMessageView::Update { data } => {
            // merge the bytes and mark dependent cursor state for recomputation
            &&& import_ok(doc_model(pre.doc), data)
            &&& doc_model(post.doc) == doc_model(pre.doc).union(ops_of(data))
            &&& (deps_closed(doc_model(pre.doc)) && deps_closed(ops_of(data)) ==> deps_closed(
                doc_model(post.doc),
            ))
            &&& post.awareness_cache == pre.awareness_cache
            &&& post.outbound_queue == pre.outbound_queue
            &&& post.cursors == pre.cursors
            &&& post.cursors_need_recompute
        },
        GossipMessageView::Awareness(a) => {
            // last-write-wins merge; the local identity is never stored
            &&& post.awareness_cache.as_map() == spec_update(
                pre.awareness_cache.as_map(),
                pre.own_id@,
                a,
                now_mono_ms,
            )
            &&& post.awareness_cache.wf()
            &&& post.doc == pre.doc
            &&& post.outbound_queue == pre.outbound_queue
            &&& post.cursors == pre.cursors
            &&& post.cursors_need_recompute == pre.cursors_need_recompute
        },
    }
}

/// What a failed message leaves behind: presence, queue, selection, flag and
/// identity untouched; which failures are possible, and when, is exact — a
/// snapshot answer fails only when the replica cannot export, a merge only
/// when the replica rejects the bytes (having then absorbed at most what they
/// carry), and a presence record never fails.
pub open spec fn engine_step_err(
    pre: SessionState,
    post: SessionState,
    m: GossipMessageView,
    e: EngineError,
) -> bool {
    &&& post.own_id == pre.own_id
    &&& post.own_name == pre.own_name
    &&& post.awareness_cache == pre.awareness_cache
    &&& post.outbound_queue == pre.outbound_queue
    &&& post.cursors == pre.cursors
    &&& post.cursors_need_recompute == pre.cursors_need_recompute
    &&& match m {
        GossipMessageView::RequestData => {
            &&& e == EngineError::ExportFailed
            &&& !export_ok(doc_model(pre.doc))
            &&& post == pre
        },
        GossipMessageView::Update { data } => {
            &&& e == EngineError::ImportFailed
            &&& !import_ok(doc_model(pre.doc), data)
            &&& doc_model(pre.doc).subset_of(doc_model(post.doc))
            &&& doc_model(post.doc).subset_of(doc_model(pre.doc).union(ops_of(data)))
        },
        GossipMessageView::Awareness(_) => false,
    }
}

/// Applies the last-write-wins rule for one received presence record; a
/// record claiming the local identity is ignored.
pub fn update_awareness_cache(
    session_state: &mut SessionState,
    awareness: Awareness,
    now_mono_ms: u64,
)
    requires
        old(session_state).wf(),
    ensures
        final(session_state).wf(),
        final(session_state).awareness_cache.as_map() == spec_update(
            old(session_state).awareness_cache.as_map(),
            old(session_state).own_id@,
            awareness@,
            now_mono_ms,
        ),
        final(session_state).own_id == old(session_state).own_id,
        final(session_state).own_name == old(session_state).own_name,
        final(session_state).doc == old(session_state).doc,
        final(session_state).outbound_queue == old(session_state).outbound_queue,
        final(session_state).cursors == old(session_state).cursors,
        final(session_state).cursors_need_recompute == old(session_state).cursors_need_recompute,
{
    let own = session_state.own_id;
    session_state.awareness_cache.update(&own, awareness, now_mono_ms);
}

/// Applies one received protocol message: answer a snapshot solicitation,
/// merge document bytes, or merge a presence record. A replica failure is
/// fatal to the caller's loop and reported as the error; the contract says
/// exactly which messages can fail and what a failure leaves untouched.
pub fn handle_gossip_message(
    session_state: &mut SessionState,
    message: GossipMessage,
    now_mono_ms: u64,
) -> (r: Result<(), EngineError>)
    requires
        old(session_state).wf(),
    ensures
        final(session_state).wf(),
        match r {
            Result::Ok(()) => engine_step_ok(
                *old(session_state),
                *final(session_state),
                message@,
                now_mono_ms,
            ),
            Result::Err(e) => engine_step_err(
                *old(session_state),
                *final(session_state),
                message@,
                e,
            ),
        },
{
    match message {
        GossipMessage::RequestData => {
            match doc_export_snapshot(&session_state.doc) {
                Result::Ok(snapshot) => {
                    let ghost s = snapshot@;
                    session_state.outbound_queue.push(GossipMessage::Update { data: snapshot });
                    proof {
                        assert(snapshot_of(s, doc_model(old(session_state).doc)));
                        assert(queue_views(session_state.outbound_queue@) =~= queue_views(
                            old(session_state).outbound_queue@,
                        ).push(GossipMessageView::Update { data: s }));
                    }
                    Result::Ok(())
                }
                Result::Err(_) => Result::Err(EngineError::ExportFailed),
            }
        }
        GossipMessage::Update { data } => {
            match doc_import(&mut session_state.doc, data.as_slice()) {
                Result::Ok(_) => {
                    session_state.cursors_need_recompute = true;
                    Result::Ok(())
                }
                Result::Err(_) => Result::Err(EngineError::ImportFailed),
            }
        }
        GossipMessage::Awareness(a) => {
            update_awareness_cache(session_state, a, now_mono_ms);
            Result::Ok(())
        }
    }
}

/// Applies one raw gossip payload: parses the wire envelope and dispatches.
/// Bytes that do not parse are fatal, exactly as a replica failure is, and
/// leave the state untouched.
pub fn handle_inbound(session_state: &mut SessionState, bytes: &[u8], now_mono_ms: u64) -> (r:
    Result<(), EngineError>)
    requires
        old(session_state).wf(),
    ensures
        final(session_state).wf(),
        decode_wire(bytes@) is None ==> r == Result::<(), EngineError>::Err(
            EngineError::MalformedMessage,
        ) && *final(session_state) == *old(session_state),
        match decode_wire(bytes@) {
            Option::Some(m) => match r {
                Result::Ok(()) => engine_step_ok(
                    *old(session_state),
                    *final(session_state),
                    m,
                    now_mono_ms,
                ),
                Result::Err(e) => engine_step_err(
                    *old(session_state),
                    *final(session_state),
                    m,
                    e,
                ),
            },
            Option::None => true,
        },
{
    match decode_message(bytes) {
        Option::Some(m) => handle_gossip_message(session_state, m, now_mono_ms),
        Option::None => Result::Err(EngineError::MalformedMessage),
    }
}

/// Queues the local presence record — current display name, wall-clock
/// timestamp, current selection — as an `Awareness` broadcast.
pub fn broadcast_awareness(session_state: &mut SessionState, now_wall_ms: u64)
    requires
        old(session_state).wf(),
    ensures
        final(session_state).wf(),
        queue_views(final(session_state).outbound_queue@) == queue_views(
            old(session_state).outbound_queue@,
        ).push(
            GossipMessageView::Awareness(
                AwarenessView {
                    endpoint_id: old(session_state).own_id@,
                    name: old(session_state).own_name@,
                    timestamp_ms: now_wall_ms,
                    cursors: cursors_view(old(session_state).cursors),
                },
            ),
        ),
        final(session_state).own_id == old(session_state).own_id,
        final(session_state).own_name == old(session_state).own_name,
        final(session_state).doc == old(session_state).doc,
        final(session_state).awareness_cache == old(session_state).awareness_cache,
        final(session_state).cursors == old(session_state).cursors,
        final(session_state).cursors_need_recompute == old(session_state).cursors_need_recompute,
{
    let record = Awareness {
        endpoint_id: session_state.own_id,
        name: session_state.own_name.clone(),
        timestamp_ms: now_wall_ms,
        cursors: duplicate_cursors(&session_state.cursors),
    };
    session_state.outbound_queue.push(GossipMessage::Awareness(record));
    proof {
        assert(queue_views(session_state.outbound_queue@) =~= queue_views(
            old(session_state).outbound_queue@,
        ).push(
            GossipMessageView::Awareness(
                AwarenessView {
                    endpoint_id: old(session_state).own_id@,
                    name: old(session_state).own_name@,
                    timestamp_ms: now_wall_ms,
                    cursors: cursors_view(old(session_state).cursors),
                },
            ),
        ));
    }
}

/// One presence heartbeat: broadcasts the local record, then evicts every
/// cache entry older than the time-to-live.
pub fn awareness_refresh(session_state: &mut SessionState, now_wall_ms: u64, now_mono_ms: u64)
    requires
        old(session_state).wf(),
    ensures
        final(session_state).wf(),
        queue_views(final(session_state).outbound_queue@) == queue_views(
            old(session_state).outbound_queue@,
        ).push(
            GossipMessageView::Awareness(
                AwarenessView {
                    endpoint_id: old(session_state).own_id@,
                    name: old(session_state).own_name@,
                    timestamp_ms: now_wall_ms,
                    cursors: cursors_view(old(session_state).cursors),
                },
            ),
        ),
        final(session_state).awareness_cache.as_map() == spec_evict(
            old(session_state).awareness_cache.as_map(),
            now_mono_ms,
        ),
        final(session_state).own_id == old(session_state).own_id,
        final(session_state).own_name == old(session_state).own_name,
        final(session_state).doc == old(session_state).doc,
        final(session_state).cursors == old(session_state).cursors,
        final(session_state).cursors_need_recompute == old(session_state).cursors_need_recompute,
{
    broadcast_awareness(session_state, now_wall_ms);
    session_state.awareness_cache.evict_expired(now_mono_ms);
}

/// Replaces the document text with the editor's current content and queues
/// the resulting replica state for broadcast; the edit never blocks on the
/// network, always takes effect, and the broadcast is queued exactly when the
/// replica can export.
///
/// The queued payload is a full snapshot — self-contained, so receivers never
/// buffer it for missing dependencies, at the price of growing with the
/// document; the protocol does not distinguish snapshots from incremental
/// change-sets, so either merges the same way.
pub fn apply_local_edit(session_state: &mut SessionState, new_text: &str) -> (r: Result<
    (),
    EngineError,
>)
    requires
        old(session_state).wf(),
    ensures
        final(session_state).wf(),
        final(session_state).own_id == old(session_state).own_id,
        final(session_state).own_name == old(session_state).own_name,
        final(session_state).awareness_cache == old(session_state).awareness_cache,
        final(session_state).cursors == old(session_state).cursors,
        final(session_state).cursors_need_recompute == old(session_state).cursors_need_recompute,
        // the edit itself always takes effect
        text_of(doc_model(final(session_state).doc)) == new_text@,
        doc_model(old(session_state).doc).subset_of(doc_model(final(session_state).doc)),
        deps_closed(doc_model(old(session_state).doc)) ==> deps_closed(
            doc_model(final(session_state).doc),
        ),
        export_ok(doc_model(final(session_state).doc)) == export_ok(
            doc_model(old(session_state).doc),
        ),
        // the broadcast is queued exactly when the replica can export
        r is Ok <==> export_ok(doc_model(old(session_state).doc)),
        r is Ok ==> exists|s: Seq<u8>|
            #[trigger] snapshot_of(s, doc_model(final(session_state).doc)) && queue_views(
                final(session_state).outbound_queue@,
            ) == queue_views(old(session_state).outbound_queue@).push(
                GossipMessageView::Update { data: s },
            ),
        r is Err ==> r == Result::<(), EngineError>::Err(EngineError::ExportFailed)
            && final(session_state).outbound_queue == old(session_state).outbound_queue,
{
    let edit_result = doc_set_text(&mut session_state.doc, new_text);
    proof {
        assert(edit_result is Ok);
    }
    match doc_export_snapshot(&session_state.doc) {
        Result::Ok(snapshot) => {
            let ghost s = snapshot@;
            session_state.outbound_queue.push(GossipMessage::Update { data: snapshot });
            proof {
                assert(snapshot_of(s, doc_model(session_state.doc)));
                assert(queue_views(session_state.outbound_queue@) =~= queue_views(
                    old(session_state).outbound_queue@,
                ).push(GossipMessageView::Update { data: s }));
            }
            Result::Ok(())
        }
        Result::Err(_) => Result::Err(EngineError::ExportFailed),
    }
}

/// Records a selection change; when the selection differs from the stored
/// one, the presence record is rebroadcast at once rather than waiting for
/// the next heartbeat tick.
pub fn update_local_cursors(
    session_state: &mut SessionState,
    cursors: Option<CursorPair>,
    now_wall_ms: u64,
)
    requires
        old(session_state).wf(),
    ensures
        final(session_state).wf(),
        cursors_view(final(session_state).cursors) == cursors_view(cursors),
        if cursors_view(cursors) == cursors_view(old(session_state).cursors) {
            final(session_state).outbound_queue == old(session_state).outbound_queue
        } else {
            queue_views(final(session_state).outbound_queue@) == queue_views(
                old(session_state).outbound_queue@,
            ).push(
                GossipMessageView::Awareness(
                    AwarenessView {
                        endpoint_id: old(session_state).own_id@,
                        name: old(session_state).own_name@,
                        timestamp_ms: now_wall_ms,
                        cursors: cursors_view(cursors),
                    },
                ),
            )
        },
        final(session_state).own_id == old(session_state).own_id,
        final(session_state).own_name == old(session_state).own_name,
        final(session_state).doc == old(session_state).doc,
        final(session_state).awareness_cache == old(session_state).awareness_cache,
        final(session_state).cursors_need_recompute == old(session_state).cursors_need_recompute,
{
    if cursors_opt_eq(&cursors, &session_state.cursors) {
        session_state.cursors = cursors;
        return;
    }
    session_state.cursors = cursors;
    broadcast_awareness(session_state, now_wall_ms);
}

fn bytes_eq(a: &Vec<u8>, b: &Vec<u8>) -> (r: bool)
    ensures
        r == (a@ == b@),
{
    if a.len() != b.len() {
        return false;
    }
    let n: usize = a.len();
    let mut i: usize = 0;
    while i < n
        invariant
            n == a@.len(),
            n == b@.len(),
            i <= n,
            forall|j: int| 0 <= j < i ==> a@[j] == b@[j],
        decreases n - i,
    {
        if a[i] != b[i] {
            return false;
        }
        i += 1;
    }
    proof {
        assert(a@ =~= b@);
    }
    true
}

fn cursors_opt_eq(a: &Option<CursorPair>, b: &Option<CursorPair>) -> (r: bool)
    ensures
        r == (cursors_view(*a) == cursors_view(*b)),
{
    match (a, b) {
        (Option::None, Option::None) => true,
        (Option::Some(x), Option::Some(y)) => {
            let r = bytes_eq(&x.primary, &y.primary) && bytes_eq(&x.secondary, &y.secondary);
            proof {
                if x@ == y@ {
                    assert(cursors_view(*a) == cursors_view(*b));
                }
            }
            r
        }
        _ => false,
    }
}

/// Hands over the next message awaiting broadcast, in queue order.
pub fn next_outbound(session_state: &mut SessionState) -> (r: Option<GossipMessage>)
    requires
        old(session_state).wf(),
    ensures
        final(session_state).wf(),
        match r {
            Option::Some(m) => old(session_state).outbound_queue@.len() > 0 && m == old(
                session_state,
            ).outbound_queue@[0] && final(session_state).outbound_queue@ == old(
                session_state,
            ).outbound_queue@.skip(1),
            Option::None => old(session_state).outbound_queue@.len() == 0 && *final(session_state)
                == *old(session_state),
        },
        final(session_state).own_id == old(session_state).own_id,
        final(session_state).own_name == old(session_state).own_name,
        final(session_state).doc == old(session_state).doc,
        final(session_state).awareness_cache == old(session_state).awareness_cache,
        final(session_state).cursors == old(session_state).cursors,
        final(session_state).cursors_need_recompute == old(session_state).cursors_need_recompute,
{
    if session_state.outbound_queue.len() == 0 {
        Option::None
    } else {
        Option::Some(session_state.outbound_queue.remove(0))
    }
}

/// Reads the document's current text from the replica.
pub fn current_text(session_state: &SessionState) -> (r: String)
    ensures
        r@ == text_of(doc_model(session_state.doc)),
{
    doc_text_string(&session_state.doc)
}

/// Imports a batch of update payloads in order, stopping at the first
/// rejection. Success is owed exactly when the replica accepts every payload;
/// on success it has absorbed exactly the union of what it held and what each
/// payload carries, independent of order, and on failure a prefix of the
/// batch was absorbed, plus at most the rejected payload's own changes.
pub fn import_updates(d: &mut loro::LoroDoc, updates: &Vec<Vec<u8>>) -> (r: Result<
    (),
    EngineError,
>)
    ensures
        r is Ok <==> batch_ok(doc_model(*old(d)), payload_views(updates@)),
        r is Ok ==> doc_model(*final(d)) == absorbed_after(
            doc_model(*old(d)),
            payload_views(updates@),
        ),
        r is Err ==> exists|k: int|
            0 <= k < updates@.len() && #[trigger] batch_ok(
                doc_model(*old(d)),
                payload_views(updates@).take(k),
            ) && !import_ok(
                absorbed_after(doc_model(*old(d)), payload_views(updates@).take(k)),
                payload_views(updates@)[k],
            ) && absorbed_after(doc_model(*old(d)), payload_views(updates@).take(k)).subset_of(
                doc_model(*final(d)),
            ) && doc_model(*final(d)).subset_of(
                absorbed_after(doc_model(*old(d)), payload_views(updates@).take(k + 1)),
            ),
{
    let ghost views = payload_views(updates@);
    let ghost m0 = doc_model(*old(d));
    let n: usize = updates.len();
    let mut i: usize = 0;
    while i < n
        invariant
            n == updates@.len(),
            i <= n,
            views == payload_views(updates@),
            m0 == doc_model(*old(d)),
            doc_model(*d) == absorbed_after(m0, views.take(i as int)),
            batch_ok(m0, views.take(i as int)),
        decreases n - i,
    {
        let ghost pre = doc_model(*d);
        let outcome = doc_import(d, updates[i].as_slice());
        proof {
            let t1 = views.take(i as int + 1);
            assert(t1.drop_last() =~= views.take(i as int));
            assert(t1.last() == views[i as int]);
            assert(views[i as int] == updates@[i as int]@);
        }
        match outcome {
            Result::Ok(_) => {}
            Result::Err(_) => {
                proof {
                    let k = i as int;
                    assert(!import_ok(absorbed_after(m0, views.take(k)), views[k]));
                    assert(doc_model(*d).subset_of(absorbed_after(m0, views.take(k + 1))));
                    if batch_ok(m0, views) {
                        lemma_batch_ok_prefix(m0, views, k + 1);
                        assert(false);
                    }
                }
                return Result::Err(EngineError::ImportFailed);
            }
        }
        i += 1;
    }
    proof {
        assert(views.take(n as int) =~= views);
    }
    Result::Ok(())
}

} // verus!
