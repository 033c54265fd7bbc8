//! Protocol engine scenarios: anti-entropy join, convergence, presence flow,
//! and the session lifecycle.

use collab_core::awareness::{Awareness, CursorPair};
use collab_core::gossip_message::{encode_for_broadcast, GossipMessage};
use collab_core::lifecycle::{
    begin_establishing, begin_leave, establishment_failed, establishment_succeeded,
    leave_complete, LobbyState, State,
};
use collab_core::replica::doc_new;
use collab_core::session::{
    apply_local_edit, awareness_refresh, broadcast_awareness, current_text,
    handle_gossip_message, handle_inbound, import_updates, next_outbound, update_awareness_cache,
    update_local_cursors, EngineError, SessionState,
};

fn id(b: u8) -> [u8; 32] {
    [b; 32]
}

/// Discards everything queued for broadcast, as when no peer is listening.
fn drain(state: &mut SessionState) -> Vec<GossipMessage> {
    let mut out = Vec::new();
    while let Some(m) = next_outbound(state) {
        out.push(m);
    }
    out
}

/// Delivers queued broadcasts back and forth, through the real wire codec,
/// until both queues are empty.
fn pump(a: &mut SessionState, b: &mut SessionState, now: u64) {
    loop {
        let mut progressed = false;
        while let Some(m) = next_outbound(a) {
            let bytes = encode_for_broadcast(&m);
            handle_inbound(b, &bytes, now).expect("inbound on b");
            progressed = true;
        }
        while let Some(m) = next_outbound(b) {
            let bytes = encode_for_broadcast(&m);
            handle_inbound(a, &bytes, now).expect("inbound on a");
            progressed = true;
        }
        if !progressed {
            break;
        }
    }
}

#[test]
fn new_session_queues_snapshot_request_first() {
    let mut s = SessionState::new(id(1), String::from("A"));
    match next_outbound(&mut s) {
        Some(GossipMessage::RequestData) => {}
        _ => panic!("expected the snapshot solicitation first"),
    }
    assert!(next_outbound(&mut s).is_none());
    assert_eq!(current_text(&s), "");
}

#[test]
fn request_data_is_answered_with_a_full_snapshot() {
    let mut a = SessionState::new(id(1), String::from("A"));
    drain(&mut a);
    apply_local_edit(&mut a, "hello").expect("edit");
    drain(&mut a);

    handle_gossip_message(&mut a, GossipMessage::RequestData, 0).expect("request");
    let out = drain(&mut a);
    assert_eq!(out.len(), 1);
    match &out[0] {
        GossipMessage::Update { data } => {
            let mut fresh = doc_new();
            import_updates(&mut fresh, &vec![data.clone()]).expect("import");
            let mut b = SessionState::new(id(2), String::from("B"));
            b.doc = fresh;
            assert_eq!(current_text(&b), "hello");
        }
        _ => panic!("expected an Update response"),
    }
}

#[test]
fn joining_peer_reaches_responder_content_then_edits_propagate() {
    // peer A creates a session and types "hello"
    let mut a = SessionState::new(id(1), String::from("A"));
    drain(&mut a); // nobody is listening yet
    apply_local_edit(&mut a, "hello").expect("edit a");
    drain(&mut a); // the update broadcast reaches no one

    // peer B joins: its queued RequestData solicits A's snapshot
    let mut b = SessionState::new(id(2), String::from("B"));
    pump(&mut a, &mut b, 10);
    assert_eq!(current_text(&b), "hello");

    // B types " world"; A eventually observes the combined text
    apply_local_edit(&mut b, "hello world").expect("edit b");
    pump(&mut a, &mut b, 20);
    assert_eq!(current_text(&a), "hello world");
    assert_eq!(current_text(&b), "hello world");
}

#[test]
fn concurrent_edits_converge_identically_on_both_peers() {
    let mut a = SessionState::new(id(1), String::from("A"));
    let mut b = SessionState::new(id(2), String::from("B"));
    pump(&mut a, &mut b, 0); // exchange empty snapshots

    // concurrent divergent edits with no coordination
    apply_local_edit(&mut a, "abc").expect("edit a");
    apply_local_edit(&mut b, "xyz").expect("edit b");
    pump(&mut a, &mut b, 1);

    let ta = current_text(&a);
    let tb = current_text(&b);
    assert_eq!(ta, tb);
    assert!(!ta.is_empty());
}

#[test]
fn update_delivery_order_and_duplication_do_not_matter() {
    // one peer produces three updates
    let mut a = SessionState::new(id(1), String::from("A"));
    drain(&mut a);
    let mut payloads = Vec::new();
    for text in ["one", "one two", "one two three"] {
        apply_local_edit(&mut a, text).expect("edit");
        for m in drain(&mut a) {
            if let GossipMessage::Update { data } = m {
                payloads.push(data);
            }
        }
    }
    assert_eq!(payloads.len(), 3);

    // two fresh replicas absorb them in different orders, with duplicates
    let mut c = doc_new();
    import_updates(
        &mut c,
        &vec![payloads[0].clone(), payloads[1].clone(), payloads[2].clone()],
    )
    .expect("import c");
    let mut d = doc_new();
    import_updates(
        &mut d,
        &vec![
            payloads[2].clone(),
            payloads[0].clone(),
            payloads[2].clone(),
            payloads[1].clone(),
            payloads[0].clone(),
        ],
    )
    .expect("import d");

    let mut sc = SessionState::new(id(3), String::from("C"));
    sc.doc = c;
    let mut sd = SessionState::new(id(4), String::from("D"));
    sd.doc = d;
    assert_eq!(current_text(&sc), current_text(&sd));
    assert_eq!(current_text(&sc), "one two three");
}

#[test]
fn awareness_message_updates_cache_and_own_identity_is_ignored() {
    let mut a = SessionState::new(id(1), String::from("A"));
    drain(&mut a);

    // a record claiming A's own identity is never stored
    let own_claim = Awareness {
        endpoint_id: id(1),
        name: String::from("impostor"),
        timestamp_ms: 99,
        cursors: None,
    };
    handle_gossip_message(&mut a, GossipMessage::Awareness(own_claim), 5).expect("own");
    assert!(a.awareness_cache.entries().is_empty());

    // a record from another peer is stored
    let other = Awareness {
        endpoint_id: id(2),
        name: String::from("B"),
        timestamp_ms: 50,
        cursors: None,
    };
    handle_gossip_message(&mut a, GossipMessage::Awareness(other), 6).expect("other");
    assert_eq!(a.awareness_cache.entries().len(), 1);

    // a lower timestamp for that peer leaves the entry unchanged
    let stale = Awareness {
        endpoint_id: id(2),
        name: String::from("B-stale"),
        timestamp_ms: 49,
        cursors: None,
    };
    handle_gossip_message(&mut a, GossipMessage::Awareness(stale), 7).expect("stale");
    let e = &a.awareness_cache.entries()[0];
    assert_eq!(e.record.name, "B");
    assert_eq!(e.record.timestamp_ms, 50);
    assert_eq!(e.received_at_ms, 6);
}

#[test]
fn heartbeat_broadcasts_presence_and_evicts_by_ttl() {
    let mut a = SessionState::new(id(1), String::from("Alice"));
    drain(&mut a);

    let b_record = Awareness {
        endpoint_id: id(2),
        name: String::from("B"),
        timestamp_ms: 1,
        cursors: None,
    };
    update_awareness_cache(&mut a, b_record, 1000);

    awareness_refresh(&mut a, 777, 1000 + 4999);
    let out = drain(&mut a);
    assert_eq!(out.len(), 1);
    match &out[0] {
        GossipMessage::Awareness(rec) => {
            assert_eq!(rec.endpoint_id, id(1));
            assert_eq!(rec.name, "Alice");
            assert_eq!(rec.timestamp_ms, 777);
            assert!(rec.cursors.is_none());
        }
        _ => panic!("expected an Awareness heartbeat"),
    }
    // B was received within the TTL and is retained
    assert_eq!(a.awareness_cache.entries().len(), 1);

    awareness_refresh(&mut a, 778, 1000 + 5000);
    assert!(a.awareness_cache.entries().is_empty());
}

#[test]
fn selection_change_rebroadcasts_presence_at_once() {
    let mut a = SessionState::new(id(1), String::from("A"));
    drain(&mut a);

    let anchors = CursorPair { primary: vec![1, 2], secondary: vec![3] };
    update_local_cursors(&mut a, Some(anchors), 100);
    let out = drain(&mut a);
    assert_eq!(out.len(), 1);
    match &out[0] {
        GossipMessage::Awareness(rec) => {
            let c = rec.cursors.as_ref().expect("cursors attached");
            assert_eq!(c.primary, vec![1, 2]);
            assert_eq!(c.secondary, vec![3]);
            assert_eq!(rec.timestamp_ms, 100);
        }
        _ => panic!("expected an Awareness rebroadcast"),
    }

    // the same selection again is not rebroadcast
    let same = CursorPair { primary: vec![1, 2], secondary: vec![3] };
    update_local_cursors(&mut a, Some(same), 200);
    assert!(drain(&mut a).is_empty());
}

#[test]
fn malformed_inbound_bytes_are_fatal_and_change_nothing() {
    let mut a = SessionState::new(id(1), String::from("A"));
    drain(&mut a);
    apply_local_edit(&mut a, "keep").expect("edit");
    drain(&mut a);

    let r = handle_inbound(&mut a, &[1, 2, 3], 0);
    assert!(matches!(r, Err(EngineError::MalformedMessage)));
    assert_eq!(current_text(&a), "keep");
    assert!(drain(&mut a).is_empty());
}

#[test]
fn duplicate_update_delivery_is_harmless() {
    let mut a = SessionState::new(id(1), String::from("A"));
    drain(&mut a);
    apply_local_edit(&mut a, "hi").expect("edit");
    let out = drain(&mut a);
    let bytes = match &out[0] {
        GossipMessage::Update { .. } => encode_for_broadcast(&out[0]),
        _ => panic!("expected Update"),
    };

    let mut b = SessionState::new(id(2), String::from("B"));
    drain(&mut b);
    handle_inbound(&mut b, &bytes, 0).expect("first delivery");
    handle_inbound(&mut b, &bytes, 0).expect("second delivery");
    assert_eq!(current_text(&b), "hi");
}

#[test]
fn batch_import_stops_at_the_rejected_payload_keeping_the_prefix() {
    let mut a = SessionState::new(id(1), String::from("A"));
    drain(&mut a);
    apply_local_edit(&mut a, "hi").expect("edit");
    let out = drain(&mut a);
    let payload = match out.into_iter().next() {
        Some(GossipMessage::Update { data }) => data,
        _ => panic!("expected Update"),
    };

    let mut fresh = doc_new();
    let r = import_updates(&mut fresh, &vec![payload, vec![9, 9, 9]]);
    assert!(matches!(r, Err(EngineError::ImportFailed)));
    // the accepted prefix was absorbed before the rejection
    let mut holder = SessionState::new(id(2), String::from("B"));
    holder.doc = fresh;
    assert_eq!(current_text(&holder), "hi");
}

#[test]
fn garbage_document_bytes_are_an_import_failure() {
    let mut a = SessionState::new(id(1), String::from("A"));
    drain(&mut a);
    let r = handle_gossip_message(&mut a, GossipMessage::Update { data: vec![1, 2, 3] }, 0);
    assert!(matches!(r, Err(EngineError::ImportFailed)));
    // the failure queued nothing and touched no presence state
    assert!(drain(&mut a).is_empty());
    assert!(a.awareness_cache.entries().is_empty());
}

#[test]
fn lifecycle_transitions_and_no_ops() {
    // begin from the lobby: Loading, inputs saved
    let lobby = LobbyState {
        join_existing: true,
        name_input: String::from("Ada"),
        existing_peer_input: String::from("peer-addr"),
    };
    let (name, bootstrap) = lobby.session_request();
    assert_eq!(name, "Ada");
    assert_eq!(bootstrap.as_deref(), Some("peer-addr"));

    let (state, saved) = begin_establishing(State::Lobby(lobby));
    assert!(matches!(state, State::Loading));
    let saved = saved.expect("lobby saved");

    // failed setup restores the typed inputs
    let state = establishment_failed(saved);
    match &state {
        State::Lobby(l) => {
            assert!(l.join_existing);
            assert_eq!(l.name_input, "Ada");
            assert_eq!(l.existing_peer_input, "peer-addr");
        }
        _ => panic!("expected the lobby back"),
    }

    // a second begin while loading is a no-op
    let (state, _) = begin_establishing(State::Loading);
    assert!(matches!(state, State::Loading));

    // a leave while not in a session is a no-op
    let (state, torn) = begin_leave(state);
    assert!(matches!(state, State::Loading));
    assert!(torn.is_none());
}

#[test]
fn leaving_releases_the_session_and_a_new_one_is_independent() {
    let session = SessionState::new(id(1), String::from("A"));
    let mut state = establishment_succeeded(session);
    match &mut state {
        State::Session(s) => {
            apply_local_edit(s, "old text").expect("edit");
        }
        _ => panic!("expected a session"),
    }

    // leave: the session is handed back for teardown, then a fresh lobby
    let (state, torn) = begin_leave(state);
    assert!(matches!(state, State::Loading));
    let torn = torn.expect("session to tear down");
    drop(torn);
    let state = leave_complete();
    match &state {
        State::Lobby(l) => {
            assert!(!l.join_existing);
            assert!(l.name_input.is_empty());
            assert!(l.existing_peer_input.is_empty());
        }
        _ => panic!("expected a fresh lobby"),
    }

    // a new session establishes independently, with empty content
    let (state, _) = begin_establishing(state);
    assert!(matches!(state, State::Loading));
    let mut fresh = SessionState::new(id(1), String::from("A"));
    match next_outbound(&mut fresh) {
        Some(GossipMessage::RequestData) => {}
        _ => panic!("fresh session solicits a snapshot"),
    }
    assert_eq!(current_text(&fresh), "");
    let state = establishment_succeeded(fresh);
    assert!(matches!(state, State::Session(_)));
}

#[test]
fn presence_heartbeat_includes_current_selection() {
    let mut a = SessionState::new(id(1), String::from("A"));
    drain(&mut a);
    update_local_cursors(&mut a, Some(CursorPair { primary: vec![9], secondary: vec![9] }), 1);
    drain(&mut a);
    broadcast_awareness(&mut a, 42);
    let out = drain(&mut a);
    match &out[0] {
        GossipMessage::Awareness(rec) => {
            assert_eq!(rec.timestamp_ms, 42);
            let c = rec.cursors.as_ref().expect("selection carried");
            assert_eq!(c.primary, vec![9]);
        }
        _ => panic!("expected Awareness"),
    }
}
