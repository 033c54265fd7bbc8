//! Presence ("awareness") records and the presence cache.
//!
//! The cache maps a peer identity to the latest presence record seen for that
//! peer together with the local (monotonic) receipt time. Merging is
//! last-write-wins on the record's logical timestamp, with ties keeping the
//! entry already present; entries that go unrefreshed for the time-to-live are
//! removed by an eviction pass. A record for the local peer's own identity is
//! never stored.

use vstd::prelude::*;
use vstd::slice::slice_to_vec;

verus! {

/// Milliseconds a presence entry may stay in the cache without a refresh
/// before an eviction pass removes it.
pub const CACHE_TTL_MS: u64 = 5000;

/// A peer identity: 32 opaque bytes naming one process on the network.
pub type IdBytes = [u8; 32];

/// Compares two peer identities byte for byte.
pub fn id_eq(a: &IdBytes, b: &IdBytes) -> (r: bool)
    ensures
        r == (a@ == b@),
{
    let mut i: usize = 0;
    while i < 32
        invariant
            i <= 32,
            forall|j: int| 0 <= j < i ==> a@[j] == b@[j],
        decreases 32 - i,
    {
        if a[i] != b[i] {
            return false;
        }
        i += 1;
    }
    proof {
        assert(a@ =~= b@);
    }
    true
}

/// Two stable-position anchors (primary and secondary selection bound) in the
/// document replica's encoded representation, carried opaquely.
pub struct CursorPair {
    pub primary: Vec<u8>,
    pub secondary: Vec<u8>,
}

pub struct CursorPairView {
    pub primary: Seq<u8>,
    pub secondary: Seq<u8>,
}

impl View for CursorPair {
    type V = CursorPairView;

    open spec fn view(&self) -> CursorPairView {
        CursorPairView { primary: self.primary@, secondary: self.secondary@ }
    }
}

impl CursorPair {
    pub fn duplicate(&self) -> (r: CursorPair)
        ensures
            r@ == self@,
    {
        CursorPair {
            primary: slice_to_vec(self.primary.as_slice()),
            secondary: slice_to_vec(self.secondary.as_slice()),
        }
    }
}

/// The selection view carried by an optional cursor pair.
pub open spec fn cursors_view(c: Option<CursorPair>) -> Option<CursorPairView> {
    match c {
        Option::Some(p) => Option::Some(p@),
        Option::None => Option::None,
    }
}

/// Copies an optional cursor pair.
pub fn duplicate_cursors(c: &Option<CursorPair>) -> (r: Option<CursorPair>)
    ensures
        cursors_view(r) == cursors_view(*c),
{
    match c {
        Option::Some(p) => Option::Some(p.duplicate()),
        Option::None => Option::None,
    }
}

/// One peer's ephemeral presence: who it is, the display name it announces,
/// the wall-clock timestamp (milliseconds since epoch) of the announcement,
/// and optionally where its selection stands in the document.
pub struct Awareness {
    pub endpoint_id: IdBytes,
    pub name: String,
    pub timestamp_ms: u64,
    pub cursors: Option<CursorPair>,
}

pub struct AwarenessView {
    pub endpoint_id: Seq<u8>,
    pub name: Seq<char>,
    pub timestamp_ms: u64,
    pub cursors: Option<CursorPairView>,
}

impl View for Awareness {
    type V = AwarenessView;

    open spec fn view(&self) -> AwarenessView {
        AwarenessView {
            endpoint_id: self.endpoint_id@,
            name: self.name@,
            timestamp_ms: self.timestamp_ms,
            cursors: cursors_view(self.cursors),
        }
    }
}

impl Awareness {
    pub fn duplicate(&self) -> (r: Awareness)
        ensures
            r@ == self@,
    {
        Awareness {
            endpoint_id: self.endpoint_id,
            name: self.name.clone(),
            timestamp_ms: self.timestamp_ms,
            cursors: duplicate_cursors(&self.cursors),
        }
    }
}

/// A presence record paired with the monotonic local time (milliseconds) at
/// which it was received; the receipt time alone drives eviction.
pub struct AwarenessEntry {
    pub record: Awareness,
    pub received_at_ms: u64,
}

pub struct EntryView {
    pub record: AwarenessView,
    pub received_at_ms: u64,
}

impl View for AwarenessEntry {
    type V = EntryView;

    open spec fn view(&self) -> EntryView {
        EntryView { record: self.record@, received_at_ms: self.received_at_ms }
    }
}

impl AwarenessEntry {
    pub fn duplicate(&self) -> (r: AwarenessEntry)
        ensures
            r@ == self@,
    {
        AwarenessEntry { record: self.record.duplicate(), received_at_ms: self.received_at_ms }
    }
}

/// Last-write-wins merge of one presence record into the cache model: a record
/// claiming the local identity is dropped, a record with a timestamp not above
/// the stored one is dropped, anything else replaces (or creates) the entry.
pub open spec fn spec_update(
    m: Map<Seq<u8>, EntryView>,
    own_id: Seq<u8>,
    rec: AwarenessView,
    now_ms: u64,
) -> Map<Seq<u8>, EntryView> {
    if rec.endpoint_id == own_id {
        m
    } else if m.contains_key(rec.endpoint_id) && rec.timestamp_ms <= m[rec.endpoint_id].record.timestamp_ms {
        m
    } else {
        m.insert(rec.endpoint_id, EntryView { record: rec, received_at_ms: now_ms })
    }
}

/// Eviction pass over the cache model: keeps exactly the entries received
/// within the time-to-live before `now_ms`.
pub open spec fn spec_evict(m: Map<Seq<u8>, EntryView>, now_ms: u64) -> Map<Seq<u8>, EntryView> {
    Map::new(
        |k: Seq<u8>| m.contains_key(k) && m[k].received_at_ms + CACHE_TTL_MS > now_ms,
        |k: Seq<u8>| m[k],
    )
}

spec fn entry_views(s: Seq<AwarenessEntry>) -> Seq<EntryView> {
    s.map_values(|e: AwarenessEntry| e@)
}

spec fn ids_unique(vs: Seq<EntryView>) -> bool {
    forall|i: int, j: int|
        0 <= i < j < vs.len() ==> vs[i].record.endpoint_id != vs[j].record.endpoint_id
}

spec fn entries_map(vs: Seq<EntryView>) -> Map<Seq<u8>, EntryView>
    decreases vs.len(),
{
    if vs.len() == 0 {
        Map::empty()
    } else {
        entries_map(vs.drop_last()).insert(vs.last().record.endpoint_id, vs.last())
    }
}

proof fn lemma_entries_map_absent(vs: Seq<EntryView>, id: Seq<u8>)
    requires
        forall|i: int| 0 <= i < vs.len() ==> vs[i].record.endpoint_id != id,
    ensures
        !entries_map(vs).contains_key(id),
    decreases vs.len(),
{
    if vs.len() > 0 {
        lemma_entries_map_absent(vs.drop_last(), id);
    }
}

proof fn lemma_entries_map_index(vs: Seq<EntryView>, i: int)
    requires
        ids_unique(vs),
        0 <= i < vs.len(),
    ensures
        entries_map(vs).contains_key(vs[i].record.endpoint_id),
        entries_map(vs)[vs[i].record.endpoint_id] == vs[i],
    decreases vs.len(),
{
    if i < vs.len() - 1 {
        lemma_entries_map_index(vs.drop_last(), i);
        assert(vs[i].record.endpoint_id != vs.last().record.endpoint_id);
    }
}

proof fn lemma_entries_map_keys_match(vs: Seq<EntryView>)
    requires
        ids_unique(vs),
    ensures
        forall|k: Seq<u8>| #[trigger]
            entries_map(vs).contains_key(k) ==> entries_map(vs)[k].record.endpoint_id == k,
    decreases vs.len(),
{
    if vs.len() > 0 {
        lemma_entries_map_keys_match(vs.drop_last());
    }
}

proof fn lemma_entries_map_filter(vs: Seq<EntryView>, q: spec_fn(EntryView) -> bool)
    requires
        ids_unique(vs),
    ensures
        ids_unique(vs.filter(q)),
        forall|i: int| 0 <= i < vs.filter(q).len() ==> #[trigger] q(vs.filter(q)[i]),
        forall|i: int| 0 <= i < vs.filter(q).len() ==> vs.contains(#[trigger] vs.filter(q)[i]),
        entries_map(vs.filter(q)) == Map::new(
            |k: Seq<u8>| entries_map(vs).contains_key(k) && q(entries_map(vs)[k]),
            |k: Seq<u8>| entries_map(vs)[k],
        ),
    decreases vs.len(),
{
    reveal(Seq::filter);
    let target = Map::new(
        |k: Seq<u8>| entries_map(vs).contains_key(k) && q(entries_map(vs)[k]),
        |k: Seq<u8>| entries_map(vs)[k],
    );
    if vs.len() == 0 {
        assert(entries_map(vs.filter(q)) =~= target);
    } else {
        let vs0 = vs.drop_last();
        let e = vs.last();
        assert(forall|i: int| 0 <= i < vs0.len() ==> vs0[i] == vs[i]);
        lemma_entries_map_filter(vs0, q);
        lemma_entries_map_absent(vs0, e.record.endpoint_id);
        assert(entries_map(vs) == entries_map(vs0).insert(e.record.endpoint_id, e));
        if q(e) {
            assert(vs.filter(q) == vs0.filter(q).push(e));
            assert(vs0.filter(q).push(e).drop_last() =~= vs0.filter(q));
            assert(entries_map(vs.filter(q)) == entries_map(vs0.filter(q)).insert(
                e.record.endpoint_id,
                e,
            ));
            assert(entries_map(vs.filter(q)) =~= target);
            assert forall|i: int, j: int|
                0 <= i < j < vs.filter(q).len() implies vs.filter(q)[i].record.endpoint_id
                != vs.filter(q)[j].record.endpoint_id by {
                if j < vs.filter(q).len() - 1 {
                    assert(vs0.filter(q)[i] == vs.filter(q)[i]);
                    assert(vs0.filter(q)[j] == vs.filter(q)[j]);
                } else {
                    assert(vs0.contains(vs0.filter(q)[i]));
                    let w = choose|w: int| 0 <= w < vs0.len() && vs0[w] == vs0.filter(q)[i];
                    assert(vs0[w].record.endpoint_id != e.record.endpoint_id);
                }
            }
            assert forall|i: int| 0 <= i < vs.filter(q).len() implies vs.contains(
                #[trigger] vs.filter(q)[i],
            ) by {
                if i < vs.filter(q).len() - 1 {
                    assert(vs0.contains(vs0.filter(q)[i]));
                    let w = choose|w: int| 0 <= w < vs0.len() && vs0[w] == vs0.filter(q)[i];
                    assert(vs[w] == vs.filter(q)[i]);
                } else {
                    assert(vs[vs.len() - 1] == vs.filter(q)[i]);
                }
            }
        } else {
            assert(vs.filter(q) == vs0.filter(q));
            assert(entries_map(vs.filter(q)) =~= target);
            assert forall|i: int| 0 <= i < vs.filter(q).len() implies vs.contains(
                #[trigger] vs.filter(q)[i],
            ) by {
                assert(vs0.contains(vs0.filter(q)[i]));
                let w = choose|w: int| 0 <= w < vs0.len() && vs0[w] == vs0.filter(q)[i];
                assert(vs[w] == vs.filter(q)[i]);
            }
        }
    }
}

/// Presence cache: at most one entry per peer identity.
pub struct AwarenessCache {
    entries: Vec<AwarenessEntry>,
}

impl AwarenessCache {
    /// The cache as a map from peer identity to its entry.
    pub closed spec fn as_map(self) -> Map<Seq<u8>, EntryView> {
        entries_map(entry_views(self.entries@))
    }

    /// Internal well-formedness: one entry per identity.
    pub closed spec fn wf(self) -> bool {
        ids_unique(entry_views(self.entries@))
    }

    pub fn new() -> (c: AwarenessCache)
        ensures
            c.wf(),
            c.as_map() == Map::<Seq<u8>, EntryView>::empty(),
    {
        AwarenessCache { entries: Vec::new() }
    }

    fn lookup_timestamp(&self, id: &IdBytes) -> (r: Option<u64>)
        requires
            self.wf(),
        ensures
            match r {
                Option::Some(t) => self.as_map().contains_key(id@)
                    && self.as_map()[id@].record.timestamp_ms == t,
                Option::None => !self.as_map().contains_key(id@),
            },
    {
        let ghost vs = entry_views(self.entries@);
        let n: usize = self.entries.len();
        let mut i: usize = 0;
        while i < n
            invariant
                n == self.entries@.len(),
                i <= n,
                self.wf(),
                vs == entry_views(self.entries@),
                forall|j: int| 0 <= j < i ==> vs[j].record.endpoint_id != id@,
            decreases n - i,
    {
            if id_eq(&self.entries[i].record.endpoint_id, id) {
                proof {
                    lemma_entries_map_index(vs, i as int);
                }
                return Option::Some(self.entries[i].record.timestamp_ms);
            }
            i += 1;
        }
        proof {
            lemma_entries_map_absent(vs, id@);
        }
        Option::None
    }

    /// Applies the last-write-wins merge rule for one received presence
    /// record; a record claiming `own_id` is never stored.
    pub fn update(&mut self, own_id: &IdBytes, record: Awareness, now_ms: u64)
        requires
            old(self).wf(),
        ensures
            final(self).wf(),
            final(self).as_map() == spec_update(old(self).as_map(), own_id@, record@, now_ms),
    {
        if id_eq(&record.endpoint_id, own_id) {
            return;
        }
        let accept: bool = match self.lookup_timestamp(&record.endpoint_id) {
            Option::None => true,
            Option::Some(t) => record.timestamp_ms > t,
        };
        if !accept {
            return;
        }
        let ghost vs = entry_views(self.entries@);
        let ghost id_v = record.endpoint_id@;
        let ghost q = |ev: EntryView| ev.record.endpoint_id != id_v;
        let n: usize = self.entries.len();
        let mut kept: Vec<AwarenessEntry> = Vec::new();
        let mut i: usize = 0;
        while i < n
            invariant
                n == self.entries@.len(),
                i <= n,
                vs == entry_views(self.entries@),
                id_v == record.endpoint_id@,
                q == (|ev: EntryView| ev.record.endpoint_id != id_v),
                entry_views(kept@) == vs.take(i as int).filter(q),
            decreases n - i,
        {
            let e = &self.entries[i];
            let keep = !id_eq(&e.record.endpoint_id, &record.endpoint_id);
            let ghost pre = entry_views(kept@);
            if keep {
                kept.push(e.duplicate());
            }
            proof {
                reveal(Seq::filter);
                let t1 = vs.take(i as int + 1);
                assert(t1.drop_last() =~= vs.take(i as int));
                assert(t1.last() == vs[i as int]);
                assert(vs[i as int] == self.entries@[i as int]@);
                assert(keep == q(vs[i as int]));
                if keep {
                    assert(t1.filter(q) == vs.take(i as int).filter(q).push(vs[i as int]));
                    assert(entry_views(kept@) =~= pre.push(self.entries@[i as int]@));
                } else {
                    assert(t1.filter(q) == vs.take(i as int).filter(q));
                }
            }
            i += 1;
        }
        proof {
            assert(vs.take(n as int) =~= vs);
            lemma_entries_map_filter(vs, q);
            lemma_entries_map_keys_match(vs);
            assert(entries_map(entry_views(kept@)) =~= entries_map(vs).remove(id_v));
        }
        let ghost pre = entry_views(kept@);
        kept.push(AwarenessEntry { record, received_at_ms: now_ms });
        proof {
            let k = entry_views(kept@);
            assert(k =~= pre.push(EntryView { record: record@, received_at_ms: now_ms }));
            assert(k.drop_last() =~= pre);
            assert(entries_map(k) == entries_map(pre).insert(
                EntryView { record: record@, received_at_ms: now_ms }.record.endpoint_id,
                EntryView { record: record@, received_at_ms: now_ms },
            ));
            assert(entries_map(k) =~= entries_map(vs).insert(
                id_v,
                EntryView { record: record@, received_at_ms: now_ms },
            ));
            assert forall|a: int, b: int| 0 <= a < b < k.len() implies k[a].record.endpoint_id
                != k[b].record.endpoint_id by {
                if b == k.len() - 1 {
                    assert(q(pre[a]));
                }
            }
        }
        self.entries = kept;
    }

    /// Removes every entry whose receipt time lies at least the time-to-live
    /// before `now_ms`.
    pub fn evict_expired(&mut self, now_ms: u64)
        requires
            old(self).wf(),
        ensures
            final(self).wf(),
            final(self).as_map() == spec_evict(old(self).as_map(), now_ms),
    {
        let ghost vs = entry_views(self.entries@);
        let ghost q = |ev: EntryView| ev.received_at_ms + CACHE_TTL_MS > now_ms;
        let n: usize = self.entries.len();
        let mut kept: Vec<AwarenessEntry> = Vec::new();
        let mut i: usize = 0;
        while i < n
            invariant
                n == self.entries@.len(),
                i <= n,
                vs == entry_views(self.entries@),
                q == (|ev: EntryView| ev.received_at_ms + CACHE_TTL_MS > now_ms),
                entry_views(kept@) == vs.take(i as int).filter(q),
            decreases n - i,
        {
            let e = &self.entries[i];
            let keep = e.received_at_ms >= now_ms || now_ms - e.received_at_ms < CACHE_TTL_MS;
            let ghost pre = entry_views(kept@);
            if keep {
                kept.push(e.duplicate());
            }
            proof {
                reveal(Seq::filter);
                let t1 = vs.take(i as int + 1);
                assert(t1.drop_last() =~= vs.take(i as int));
                assert(t1.last() == vs[i as int]);
                assert(vs[i as int] == self.entries@[i as int]@);
                assert(keep == q(vs[i as int]));
                if keep {
                    assert(t1.filter(q) == vs.take(i as int).filter(q).push(vs[i as int]));
                    assert(entry_views(kept@) =~= pre.push(self.entries@[i as int]@));
                } else {
                    assert(t1.filter(q) == vs.take(i as int).filter(q));
                }
            }
            i += 1;
        }
        proof {
            assert(vs.take(n as int) =~= vs);
            lemma_entries_map_filter(vs, q);
            assert(entries_map(entry_views(kept@)) =~= spec_evict(entries_map(vs), now_ms));
        }
        self.entries = kept;
    }

    /// Read access to the stored entries, for rendering peers.
    pub fn entries(&self) -> (r: &Vec<AwarenessEntry>)
        requires
            self.wf(),
        ensures
            forall|i: int| 0 <= i < r@.len() ==> {
                &&& #[trigger] self.as_map().contains_key(r@[i].record.endpoint_id@)
                &&& self.as_map()[r@[i].record.endpoint_id@] == r@[i]@
            },
            forall|k: Seq<u8>| #[trigger]
                self.as_map().contains_key(k) ==> exists|i: int|
                    0 <= i < r@.len() && r@[i].record.endpoint_id@ == k,
    {
        let ghost vs = entry_views(self.entries@);
        proof {
            assert forall|i: int| 0 <= i < self.entries@.len() implies {
                &&& #[trigger] self.as_map().contains_key(self.entries@[i].record.endpoint_id@)
                &&& self.as_map()[self.entries@[i].record.endpoint_id@] == self.entries@[i]@
            } by {
                lemma_entries_map_index(vs, i);
                assert(vs[i] == self.entries@[i]@);
            }
            assert forall|k: Seq<u8>| #[trigger]
                self.as_map().contains_key(k) implies exists|i: int|
                0 <= i < self.entries@.len() && self.entries@[i].record.endpoint_id@ == k by {
                if forall|i: int|
                    0 <= i < vs.len() ==> (#[trigger] vs[i]).record.endpoint_id != k {
                    lemma_entries_map_absent(vs, k);
                }
                let w = choose|w: int| 0 <= w < vs.len() && vs[w].record.endpoint_id == k;
                assert(self.entries@[w].record.endpoint_id@ == k);
            }
        }
        &self.entries
    }
}

/// Two presence updates for one peer, arriving in either order, leave that
/// peer's entry holding the higher of the two logical timestamps (a tie keeps
/// the record already present).
pub proof fn lemma_update_last_write_wins(
    m: Map<Seq<u8>, EntryView>,
    own_id: Seq<u8>,
    ra: AwarenessView,
    rb: AwarenessView,
    na: u64,
    nb: u64,
)
    requires
        ra.endpoint_id == rb.endpoint_id,
        ra.endpoint_id != own_id,
        !m.contains_key(ra.endpoint_id),
    ensures
        spec_update(spec_update(m, own_id, ra, na), own_id, rb, nb).contains_key(ra.endpoint_id),
        spec_update(spec_update(m, own_id, ra, na), own_id, rb, nb)[ra.endpoint_id].record.timestamp_ms
            == if ra.timestamp_ms >= rb.timestamp_ms { ra.timestamp_ms } else { rb.timestamp_ms },
{
}

/// Whatever the cache already holds for a peer, two further updates for it,
/// delivered in either order, leave its entry carrying the highest timestamp
/// seen — the two updates' maximum, unless a stored timestamp at least that
/// high already wins.
pub proof fn lemma_update_pair_keeps_maximum(
    m: Map<Seq<u8>, EntryView>,
    own_id: Seq<u8>,
    ra: AwarenessView,
    rb: AwarenessView,
    na: u64,
    nb: u64,
)
    requires
        ra.endpoint_id == rb.endpoint_id,
        ra.endpoint_id != own_id,
    ensures
        spec_update(spec_update(m, own_id, ra, na), own_id, rb, nb).contains_key(ra.endpoint_id),
        spec_update(spec_update(m, own_id, ra, na), own_id, rb, nb)[ra.endpoint_id].record.timestamp_ms
            == {
            let pair_max = if ra.timestamp_ms >= rb.timestamp_ms {
                ra.timestamp_ms
            } else {
                rb.timestamp_ms
            };
            if m.contains_key(ra.endpoint_id) && m[ra.endpoint_id].record.timestamp_ms >= pair_max {
                m[ra.endpoint_id].record.timestamp_ms
            } else {
                pair_max
            }
        },
{
}

/// A presence update whose timestamp does not exceed the stored one leaves
/// the cache unchanged.
pub proof fn lemma_stale_update_ignored(
    m: Map<Seq<u8>, EntryView>,
    own_id: Seq<u8>,
    rec: AwarenessView,
    now_ms: u64,
)
    requires
        m.contains_key(rec.endpoint_id),
        rec.timestamp_ms <= m[rec.endpoint_id].record.timestamp_ms,
    ensures
        spec_update(m, own_id, rec, now_ms) == m,
{
}

/// After an eviction pass at `now_ms`, an entry is present exactly when it
/// was received within the time-to-live, and a retained entry is unchanged.
pub proof fn lemma_evict_ttl(m: Map<Seq<u8>, EntryView>, now_ms: u64, id: Seq<u8>)
    ensures
        spec_evict(m, now_ms).contains_key(id) <==> (m.contains_key(id)
            && m[id].received_at_ms + CACHE_TTL_MS > now_ms),
        spec_evict(m, now_ms).contains_key(id) ==> spec_evict(m, now_ms)[id] == m[id],
{
}

/// One step of cache history: either a presence record is delivered or an
/// eviction pass runs.
pub enum CacheEvent {
    Deliver(AwarenessView, u64),
    EvictPass(u64),
}

/// The cache model after a sequence of deliveries and eviction passes.
pub open spec fn apply_events(
    m: Map<Seq<u8>, EntryView>,
    own_id: Seq<u8>,
    evs: Seq<CacheEvent>,
) -> Map<Seq<u8>, EntryView>
    decreases evs.len(),
{
    if evs.len() == 0 {
        m
    } else {
        let prev = apply_events(m, own_id, evs.drop_last());
        match evs.last() {
            CacheEvent::Deliver(rec, now_ms) => spec_update(prev, own_id, rec, now_ms),
            CacheEvent::EvictPass(now_ms) => spec_evict(prev, now_ms),
        }
    }
}

/// A peer's own identity is never a key of its own presence cache, whatever
/// sequence of deliveries and eviction passes it processes.
pub proof fn lemma_own_identity_never_cached(
    m: Map<Seq<u8>, EntryView>,
    own_id: Seq<u8>,
    evs: Seq<CacheEvent>,
)
    requires
        !m.contains_key(own_id),
    ensures
        !apply_events(m, own_id, evs).contains_key(own_id),
    decreases evs.len(),
{
    if evs.len() > 0 {
        lemma_own_identity_never_cached(m, own_id, evs.drop_last());
    }
}

} // verus!
