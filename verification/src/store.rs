//! State store: the mutable view of fleet status. It is keyed by
//! `(probe_id, node_id)`, holds the last-applied report data and a derived
//! per-node status for every configured node, and keeps a derived aggregate
//! status (the worst across all known nodes).
//!
//! Entries are pre-populated at configuration time; reports only update
//! existing entries and never create new ones.

use vstd::prelude::*;
use crate::report::{
    HealthPayload, LoadPayload, Status, load_status, spec_worst, status_of_load, status_rank,
    valid_ratio, worst_status,
};
use crate::registry::NodeKey;

verus! {

/// Spec-level content of one store entry: the last-applied report data and
/// the per-node status derived from it.
pub ghost struct EntryView {
    pub replica_id: Seq<char>,
    pub interval: u64,
    pub load: Option<LoadPayload>,
    pub health: Option<HealthPayload>,
    pub node_status: Status,
}

/// Last-known state of one configured node.
pub struct StoreEntry {
    pub probe_id: String,
    pub node_id: String,
    pub replica_id: String,
    pub interval: u64,
    pub load: Option<LoadPayload>,
    pub health: Option<HealthPayload>,
    pub node_status: Status,
}

impl View for StoreEntry {
    type V = EntryView;

    open spec fn view(&self) -> EntryView {
        EntryView {
            replica_id: self.replica_id@,
            interval: self.interval,
            load: self.load,
            health: self.health,
            node_status: self.node_status,
        }
    }
}

impl StoreEntry {
    /// Key under which this entry is stored.
    pub open spec fn key(self) -> NodeKey {
        (self.probe_id@, self.node_id@)
    }
}

/// Per-node status derived from the last-applied report data: the reported
/// load decides for `Push` nodes, the self-assessed health signal for
/// `Local` nodes, and a node that never reported counts as `Healthy`.
pub open spec fn derived_status(load: Option<LoadPayload>, health: Option<HealthPayload>) -> Status {
    match load {
        Some(l) => status_of_load(l),
        None => match health {
            Some(h) => h.status,
            None => Status::Healthy,
        },
    }
}

/// Internal consistency of one entry: at most one payload kind is present,
/// a present load lies in the valid ratio range, and the per-node status is
/// the one derived from the payload.
pub open spec fn entry_consistent(v: EntryView) -> bool {
    &&& !(v.load is Some && v.health is Some)
    &&& (match v.load {
        Some(l) => valid_ratio(l.cpu) && valid_ratio(l.ram),
        None => true,
    })
    &&& v.node_status == derived_status(v.load, v.health)
}

/// The entry a node has before its first report arrives.
pub open spec fn initial_entry() -> EntryView {
    EntryView {
        replica_id: Seq::<char>::empty(),
        interval: 0,
        load: None,
        health: None,
        node_status: Status::Healthy,
    }
}

/// The entry a node has right after a load report was applied to it.
pub open spec fn loaded_entry(replica_id: Seq<char>, interval: u64, cpu: i64, ram: i64) -> EntryView {
    EntryView {
        replica_id: replica_id,
        interval: interval,
        load: Some(LoadPayload { cpu: cpu, ram: ram }),
        health: None,
        node_status: status_of_load(LoadPayload { cpu: cpu, ram: ram }),
    }
}

/// The entry a node has right after a health report was applied to it.
pub open spec fn health_entry(replica_id: Seq<char>, interval: u64, h: HealthPayload) -> EntryView {
    EntryView {
        replica_id: replica_id,
        interval: interval,
        load: None,
        health: Some(h),
        node_status: h.status,
    }
}

/// Whether no two entries of `s` share a key.
pub open spec fn unique_state_keys(s: Seq<StoreEntry>) -> bool {
    forall|i: int, j: int|
        #![trigger s[i].key(), s[j].key()]
        0 <= i < j < s.len() ==> s[i].key() != s[j].key()
}

/// The map described by a sequence of store entries; a later entry for a
/// key overrides an earlier one.
pub open spec fn entries_state_map(s: Seq<StoreEntry>) -> Map<NodeKey, EntryView>
    decreases s.len(),
{
    if s.len() == 0 {
        Map::<NodeKey, EntryView>::empty()
    } else {
        entries_state_map(s.drop_last()).insert(s.last().key(), s.last()@)
    }
}

/// With no two entries sharing a key, the described map has exactly the
/// entries' keys and maps each entry's key to that entry's content.
pub proof fn lemma_entries_state_map(s: Seq<StoreEntry>)
    requires
        unique_state_keys(s),
    ensures
        forall|k: NodeKey| #[trigger] entries_state_map(s).contains_key(k)
            <==> exists|i: int| 0 <= i < s.len() && (#[trigger] s[i].key()) == k,
        forall|i: int| 0 <= i < s.len() ==>
            entries_state_map(s).contains_key(#[trigger] s[i].key())
                && entries_state_map(s)[s[i].key()] == s[i]@,
    decreases s.len(),
{
    if s.len() > 0 {
        let prefix = s.drop_last();
        assert(forall|i: int| 0 <= i < prefix.len() ==> #[trigger] prefix[i].key() == s[i].key()
            && prefix[i]@ == s[i]@);
        lemma_entries_state_map(prefix);
        let last = s.last();
        let m = entries_state_map(s);
        let mp = entries_state_map(prefix);
        assert(m == mp.insert(last.key(), last@));
        assert forall|k: NodeKey| #[trigger] m.contains_key(k) implies
            exists|i: int| 0 <= i < s.len() && (#[trigger] s[i].key()) == k by {
            if k == last.key() {
                assert(s[s.len() - 1].key() == k);
            } else {
                assert(mp.contains_key(k));
                let i = choose|i: int| 0 <= i < prefix.len() && (#[trigger] prefix[i].key()) == k;
                assert(s[i].key() == k);
            }
        }
        assert forall|i: int| 0 <= i < s.len() implies
            m.contains_key(#[trigger] s[i].key()) && m[s[i].key()] == s[i]@ by {
            if i < s.len() - 1 {
                assert(prefix[i].key() == s[i].key());
                assert(mp.contains_key(s[i].key()) && mp[s[i].key()] == s[i]@);
                assert(s[i].key() != last.key());
            }
        }
    }
}

/// Replacing the entry at one index, keeping its key, replaces exactly that
/// key's image in the described map.
pub proof fn lemma_entries_state_map_update(s: Seq<StoreEntry>, i: int, e: StoreEntry)
    requires
        unique_state_keys(s),
        0 <= i < s.len(),
        e.key() == s[i].key(),
    ensures
        unique_state_keys(s.update(i, e)),
        entries_state_map(s.update(i, e)) == entries_state_map(s).insert(e.key(), e@),
    decreases s.len(),
{
    let t = s.update(i, e);
    assert(forall|j: int| 0 <= j < s.len() ==> (#[trigger] t[j].key())
        == s[j].key());
    assert(unique_state_keys(t));
    if i == s.len() - 1 {
        assert(t.drop_last() =~= s.drop_last());
        assert(t.last() == e);
        assert(entries_state_map(s).insert(e.key(), e@)
            =~= entries_state_map(s.drop_last()).insert(e.key(), e@));
    } else {
        let prefix = s.drop_last();
        assert(forall|a: int, b: int|
            #![trigger prefix[a].key(), prefix[b].key()]
            0 <= a < b < prefix.len() ==> prefix[a].key() != prefix[b].key());
        assert(prefix[i].key() == s[i].key());
        lemma_entries_state_map_update(prefix, i, e);
        assert(t.drop_last() =~= prefix.update(i, e));
        assert(t.last() == s.last());
        assert(e.key() != s.last().key());
        assert(entries_state_map(prefix).insert(e.key(), e@).insert(s.last().key(), s.last()@)
            =~= entries_state_map(prefix).insert(s.last().key(), s.last()@).insert(e.key(), e@));
    }
}

/// Aggregate status of a sequence of entries: the worst per-node status,
/// `Healthy` when there are no entries.
pub open spec fn aggregate_status(s: Seq<StoreEntry>) -> Status
    decreases s.len(),
{
    if s.len() == 0 {
        Status::Healthy
    } else {
        spec_worst(aggregate_status(s.drop_last()), s.last().node_status)
    }
}

/// The aggregate status bounds every per-node status from above and, as
/// soon as one entry exists, is attained by some entry.
pub proof fn lemma_aggregate_bounds(s: Seq<StoreEntry>)
    ensures
        forall|i: int| 0 <= i < s.len() ==>
            status_rank((#[trigger] s[i]).node_status) <= status_rank(aggregate_status(s)),
        s.len() == 0 ==> aggregate_status(s) == Status::Healthy,
        s.len() > 0 ==> exists|i: int|
            0 <= i < s.len() && (#[trigger] s[i]).node_status == aggregate_status(s),
    decreases s.len(),
{
    if s.len() > 0 {
        let prefix = s.drop_last();
        lemma_aggregate_bounds(prefix);
        assert(forall|i: int| 0 <= i < prefix.len() ==> #[trigger] prefix[i] == s[i]);
        let agg = aggregate_status(s);
        assert forall|i: int| 0 <= i < s.len() implies
            status_rank((#[trigger] s[i]).node_status) <= status_rank(agg) by {
            if i < s.len() - 1 {
                assert(prefix[i] == s[i]);
                assert(status_rank(prefix[i].node_status) <= status_rank(aggregate_status(prefix)));
            }
        }
        if s.len() == 1 {
            assert(s[0].node_status == agg);
        } else {
            if status_rank(s.last().node_status) > status_rank(aggregate_status(prefix)) {
                assert(s[s.len() - 1].node_status == agg);
            } else {
                let i = choose|i: int|
                    0 <= i < prefix.len() && (#[trigger] prefix[i]).node_status
                        == aggregate_status(prefix);
                assert(s[i].node_status == agg);
            }
        }
    }
}

/// The mutable fleet-state view, with its derived aggregate status.
pub struct States {
    entries: Vec<StoreEntry>,
    status: Status,
}

impl View for States {
    type V = Map<NodeKey, EntryView>;

    /// The store as a finite map from node key to last-known entry.
    closed spec fn view(&self) -> Map<NodeKey, EntryView> {
        entries_state_map(self.entries@)
    }
}

impl States {
    /// Well-formedness: no node is stored twice, every entry is internally
    /// consistent, and the aggregate status is the one derived from the
    /// entries. Every complete mutation re-establishes this, so no reader
    /// ever observes a partially-updated aggregate.
    pub closed spec fn wf(&self) -> bool {
        &&& unique_state_keys(self.entries@)
        &&& (forall|i: int| 0 <= i < self.entries@.len()
            ==> entry_consistent((#[trigger] self.entries@[i])@))
        &&& self.status == aggregate_status(self.entries@)
    }

    /// The current aggregate status.
    pub closed spec fn spec_status(&self) -> Status {
        self.status
    }

    /// In a well-formed store every entry is internally consistent.
    pub proof fn lemma_consistent(&self)
        requires
            self.wf(),
        ensures
            forall|k: NodeKey| self@.contains_key(k) ==> entry_consistent(#[trigger] self@[k]),
    {
        lemma_entries_state_map(self.entries@);
        assert forall|k: NodeKey| self@.contains_key(k) implies
            entry_consistent(#[trigger] self@[k]) by {
            let i = choose|i: int| 0 <= i < self.entries@.len()
                && (#[trigger] self.entries@[i].key()) == k;
            assert(entry_consistent(self.entries@[i]@));
        }
    }

    /// In a well-formed store the aggregate status is the worst per-node
    /// status: it bounds every node's status and, as soon as one node is
    /// configured, is attained by some node.
    pub proof fn lemma_status_is_worst(&self)
        requires
            self.wf(),
        ensures
            forall|k: NodeKey| self@.contains_key(k)
                ==> status_rank((#[trigger] self@[k]).node_status)
                    <= status_rank(self.spec_status()),
            self@ == Map::<NodeKey, EntryView>::empty() ==> self.spec_status() == Status::Healthy,
            self@ != Map::<NodeKey, EntryView>::empty() ==> exists|k: NodeKey|
                self@.contains_key(k)
                    && (#[trigger] self@[k]).node_status == self.spec_status(),
    {
        lemma_entries_state_map(self.entries@);
        lemma_aggregate_bounds(self.entries@);
        assert forall|k: NodeKey| self@.contains_key(k) implies
            status_rank((#[trigger] self@[k]).node_status) <= status_rank(self.spec_status()) by {
            let i = choose|i: int| 0 <= i < self.entries@.len()
                && (#[trigger] self.entries@[i].key()) == k;
            assert(self@[k] == self.entries@[i]@);
        }
        if self.entries@.len() == 0 {
            assert(self@ =~= Map::<NodeKey, EntryView>::empty());
        } else {
            let i = choose|i: int| 0 <= i < self.entries@.len()
                && (#[trigger] self.entries@[i]).node_status == aggregate_status(self.entries@);
            assert(self@.contains_key(self.entries@[i].key()));
            assert(self@[self.entries@[i].key()] == self.entries@[i]@);
            assert(self@ != Map::<NodeKey, EntryView>::empty());
        }
    }

    /// An empty store.
    pub fn new() -> (r: States)
        ensures
            r.wf(),
            r@ == Map::<NodeKey, EntryView>::empty(),
            r.spec_status() == Status::Healthy,
    {
        States { entries: Vec::new(), status: Status::Healthy }
    }

    /// Pre-populates the entry of a node not stored yet, as configuration
    /// loading does before the first report arrives.
    pub fn register_node(&mut self, probe_id: String, node_id: String)
        requires
            old(self).wf(),
            !old(self)@.contains_key((probe_id@, node_id@)),
        ensures
            final(self).wf(),
            final(self)@ == old(self)@.insert((probe_id@, node_id@), initial_entry()),
            final(self).spec_status() == old(self).spec_status(),
    {
        proof {
            lemma_entries_state_map(self.entries@);
        }
        let entry = StoreEntry {
            probe_id,
            node_id,
            replica_id: String::new(),
            interval: 0,
            load: None,
            health: None,
            node_status: Status::Healthy,
        };
        assert(entry@ == initial_entry());
        self.entries.push(entry);
        proof {
            assert(self.entries@.drop_last() =~= old(self).entries@);
            assert(aggregate_status(self.entries@) == old(self).status);
        }
    }

    /// Recomputes the aggregate status from the entries.
    fn recompute_status(&mut self)
        ensures
            final(self).entries == old(self).entries,
            final(self).status == aggregate_status(final(self).entries@),
    {
        let mut agg = Status::Healthy;
        let mut i: usize = 0;
        while i < self.entries.len()
            invariant
                i <= self.entries.len(),
                *self == *old(self),
                agg == aggregate_status(self.entries@.take(i as int)),
            decreases self.entries.len() - i,
        {
            agg = worst_status(agg, self.entries[i].node_status);
            proof {
                assert(self.entries@.take(i + 1int).drop_last() =~= self.entries@.take(i as int));
                assert(self.entries@.take(i + 1int).last() == self.entries@[i as int]);
            }
            i += 1;
        }
        proof {
            assert(self.entries@.take(self.entries@.len() as int) =~= self.entries@);
        }
        self.status = agg;
    }

    /// Replaces the entry of a stored node and recomputes the aggregate.
    #[verifier::loop_isolation(false)]
    fn apply_entry(
        &mut self,
        probe_id: &String,
        node_id: &String,
        replica_id: &String,
        interval: u64,
        load: Option<LoadPayload>,
        health: Option<HealthPayload>,
        node_status: Status,
    )
        requires
            old(self).wf(),
            old(self)@.contains_key((probe_id@, node_id@)),
            entry_consistent(EntryView {
                replica_id: replica_id@,
                interval: interval,
                load: load,
                health: health,
                node_status: node_status,
            }),
        ensures
            final(self).wf(),
            final(self)@ == old(self)@.insert((probe_id@, node_id@), (EntryView {
                replica_id: replica_id@,
                interval: interval,
                load: load,
                health: health,
                node_status: node_status,
            })),
            final(self)@.dom() == old(self)@.dom(),
    {
        let ghost k: NodeKey = (probe_id@, node_id@);
        proof {
            lemma_entries_state_map(self.entries@);
        }
        let mut i: usize = 0;
        while i < self.entries.len()
            invariant
                *self == *old(self),
                old(self).wf(),
                k == ((probe_id@, node_id@)),
                i <= self.entries.len(),
                forall|j: int| 0 <= j < i ==> (#[trigger] self.entries@[j].key()) != k,
            decreases self.entries.len() - i,
        {
            let matches_key = self.entries[i].probe_id == *probe_id
                && self.entries[i].node_id == *node_id;
            if matches_key {
                let new_entry = StoreEntry {
                    probe_id: self.entries[i].probe_id.clone(),
                    node_id: self.entries[i].node_id.clone(),
                    replica_id: replica_id.clone(),
                    interval,
                    load,
                    health,
                    node_status,
                };
                proof {
                    assert(new_entry.key() == k);
                    lemma_entries_state_map_update(self.entries@, i as int, new_entry);
                }
                self.entries[i] = new_entry;
                self.recompute_status();
                proof {
                    assert(forall|j: int| 0 <= j < self.entries@.len()
                        ==> entry_consistent((#[trigger] self.entries@[j])@));
                    lemma_entries_state_map(old(self).entries@);
                    assert(old(self)@.contains_key(k));
                    assert(final(self)@.dom() =~= old(self)@.dom());
                }
                return;
            }
            i += 1;
        }
        proof {
            lemma_entries_state_map(self.entries@);
            assert(!old(self)@.contains_key(k));
            assert(false);
        }
    }

    /// Applies a validated load report to the entry of a stored node: the
    /// load values replace the entry's payload, the node's derived status
    /// and the aggregate status are recomputed.
    pub fn apply_load(
        &mut self,
        probe_id: &String,
        node_id: &String,
        replica_id: &String,
        interval: u64,
        cpu: i64,
        ram: i64,
    )
        requires
            old(self).wf(),
            old(self)@.contains_key((probe_id@, node_id@)),
            valid_ratio(cpu),
            valid_ratio(ram),
        ensures
            final(self).wf(),
            final(self)@ == old(self)@.insert(
                (probe_id@, node_id@),
                loaded_entry(replica_id@, interval, cpu, ram),
            ),
            final(self)@.dom() == old(self)@.dom(),
    {
        let l = LoadPayload { cpu, ram };
        let st = load_status(&l);
        self.apply_entry(probe_id, node_id, replica_id, interval, Some(l), None, st);
    }

    /// Applies a health report to the entry of a stored node: the health
    /// signal replaces the entry's payload, the node's derived status and
    /// the aggregate status are recomputed.
    pub fn apply_health(
        &mut self,
        probe_id: &String,
        node_id: &String,
        replica_id: &String,
        interval: u64,
        health: &HealthPayload,
    )
        requires
            old(self).wf(),
            old(self)@.contains_key((probe_id@, node_id@)),
        ensures
            final(self).wf(),
            final(self)@ == old(self)@.insert(
                (probe_id@, node_id@),
                health_entry(replica_id@, interval, *health),
            ),
            final(self)@.dom() == old(self)@.dom(),
    {
        self.apply_entry(probe_id, node_id, replica_id, interval, None, Some(*health), health.status);
    }

    /// The current aggregate status.
    pub fn current_status(&self) -> (st: Status)
        ensures
            st == self.spec_status(),
    {
        self.status
    }

    /// Looks the entry of a node up.
    pub fn get(&self, probe_id: &String, node_id: &String) -> (r: Option<&StoreEntry>)
        requires
            self.wf(),
        ensures
            match r {
                Some(e) => self@.contains_key((probe_id@, node_id@))
                    && e@ == self@[(probe_id@, node_id@)]
                    && e.key() == ((probe_id@, node_id@)),
                None => !self@.contains_key((probe_id@, node_id@)),
            },
    {
        let ghost k: NodeKey = (probe_id@, node_id@);
        proof {
            lemma_entries_state_map(self.entries@);
        }
        let mut i: usize = 0;
        while i < self.entries.len()
            invariant
                self.wf(),
                k == ((probe_id@, node_id@)),
                i <= self.entries.len(),
                forall|j: int| 0 <= j < i ==> (#[trigger] self.entries@[j].key()) != k,
            decreases self.entries.len() - i,
        {
            let e = &self.entries[i];
            if e.probe_id == *probe_id && e.node_id == *node_id {
                proof {
                    lemma_entries_state_map(self.entries@);
                    assert(self.entries@[i as int].key() == k);
                }
                return Some(e);
            }
            i += 1;
        }
        proof {
            lemma_entries_state_map(self.entries@);
        }
        None
    }

    /// Number of stored nodes.
    pub fn entry_count(&self) -> (n: usize)
        requires
            self.wf(),
        ensures
            n == self@.dom().len(),
    {
        proof {
            lemma_entries_state_map_len(self.entries@);
        }
        self.entries.len()
    }

    /// The entry at one position, for walking a snapshot.
    pub fn entry_at(&self, i: usize) -> (e: &StoreEntry)
        requires
            self.wf(),
            i < self@.dom().len(),
        ensures
            self@.contains_key(e.key()),
            e@ == self@[e.key()],
    {
        proof {
            lemma_entries_state_map_len(self.entries@);
            lemma_entries_state_map(self.entries@);
        }
        &self.entries[i]
    }

    /// A full copy of the store, as handed to dashboard rendering.
    pub fn snapshot(&self) -> (snap: States)
        requires
            self.wf(),
        ensures
            snap.wf(),
            snap@ == self@,
            snap.spec_status() == self.spec_status(),
    {
        let mut out: Vec<StoreEntry> = Vec::new();
        let mut i: usize = 0;
        while i < self.entries.len()
            invariant
                self.wf(),
                i <= self.entries.len(),
                out@ =~= self.entries@.take(i as int),
            decreases self.entries.len() - i,
        {
            let e = &self.entries[i];
            let copy = StoreEntry {
                probe_id: e.probe_id.clone(),
                node_id: e.node_id.clone(),
                replica_id: e.replica_id.clone(),
                interval: e.interval,
                load: e.load,
                health: e.health,
                node_status: e.node_status,
            };
            assert(copy == self.entries@[i as int]);
            out.push(copy);
            proof {
                assert(out@ =~= self.entries@.take(i + 1int));
            }
            i += 1;
        }
        proof {
            assert(out@ =~= self.entries@);
        }
        States { entries: out, status: self.status }
    }
}

/// With no two entries sharing a key, the described map has exactly as many
/// keys as there are entries.
pub proof fn lemma_entries_state_map_len(s: Seq<StoreEntry>)
    requires
        unique_state_keys(s),
    ensures
        entries_state_map(s).dom().finite(),
        entries_state_map(s).dom().len() == s.len(),
    decreases s.len(),
{
    if s.len() == 0 {
        assert(entries_state_map(s).dom() =~= Set::<NodeKey>::empty());
    } else {
        let prefix = s.drop_last();
        assert(forall|i: int| 0 <= i < prefix.len() ==> #[trigger] prefix[i].key() == s[i].key());
        lemma_entries_state_map_len(prefix);
        lemma_entries_state_map(prefix);
        assert(!entries_state_map(prefix).contains_key(s.last().key()));
        assert(entries_state_map(s).dom()
            =~= entries_state_map(prefix).dom().insert(s.last().key()));
    }
}

} // verus!
