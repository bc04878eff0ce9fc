//! Mode registry: a read-only lookup giving each configured node's
//! operating mode. Entries are bound at configuration time, before the
//! first report arrives, and never change afterwards.

use vstd::prelude::*;
use crate::report::Mode;

verus! {

/// Spec-level key of a node: the views of its probe and node identifiers.
pub type NodeKey = (Seq<char>, Seq<char>);

/// One configured node: its identifiers and its operating mode.
pub struct ModeEntry {
    pub probe_id: String,
    pub node_id: String,
    pub mode: Mode,
}

impl ModeEntry {
    /// Key under which this entry is looked up.
    pub open spec fn key(self) -> NodeKey {
        (self.probe_id@, self.node_id@)
    }
}

/// Whether no two entries of `s` share a key.
pub open spec fn unique_entry_keys(s: Seq<ModeEntry>) -> bool {
    forall|i: int, j: int|
        #![trigger s[i].key(), s[j].key()]
        0 <= i < j < s.len() ==> s[i].key() != s[j].key()
}

/// The lookup table described by a sequence of configured entries; a later
/// entry for a key overrides an earlier one.
pub open spec fn entries_mode_map(s: Seq<ModeEntry>) -> Map<NodeKey, Mode>
    decreases s.len(),
{
    if s.len() == 0 {
        Map::<NodeKey, Mode>::empty()
    } else {
        entries_mode_map(s.drop_last()).insert(s.last().key(), s.last().mode)
    }
}

/// With no two entries sharing a key, the lookup table has exactly the
/// entries' keys and maps each entry's key to that entry's mode.
pub proof fn lemma_entries_mode_map(s: Seq<ModeEntry>)
    requires
        unique_entry_keys(s),
    ensures
        forall|k: NodeKey| #[trigger] entries_mode_map(s).contains_key(k)
            <==> exists|i: int| 0 <= i < s.len() && (#[trigger] s[i].key()) == k,
        forall|i: int| 0 <= i < s.len() ==>
            entries_mode_map(s).contains_key(#[trigger] s[i].key())
                && entries_mode_map(s)[s[i].key()] == s[i].mode,
    decreases s.len(),
{
    if s.len() > 0 {
        let prefix = s.drop_last();
        assert(forall|i: int| 0 <= i < prefix.len() ==> #[trigger] prefix[i].key() == s[i].key()
            && prefix[i].mode == s[i].mode);
        lemma_entries_mode_map(prefix);
        let last = s.last();
        let m = entries_mode_map(s);
        let mp = entries_mode_map(prefix);
        assert(m == mp.insert(last.key(), last.mode));
        assert forall|k: NodeKey| #[trigger] m.contains_key(k) implies
            exists|i: int| 0 <= i < s.len() && (#[trigger] s[i].key()) == k by {
            if k == last.key() {
                assert(s[s.len() - 1].key() == k);
            } else {
                assert(mp.contains_key(k));
                let i = choose|i: int| 0 <= i < prefix.len() && (#[trigger] prefix[i].key()) == k;
                assert(s[i].key() == k);
            }
        }
        assert forall|i: int| 0 <= i < s.len() implies
            m.contains_key(#[trigger] s[i].key()) && m[s[i].key()] == s[i].mode by {
            if i == s.len() - 1 {
                assert(s[i].key() == last.key());
            } else {
                assert(prefix[i].key() == s[i].key());
                assert(mp.contains_key(s[i].key()) && mp[s[i].key()] == s[i].mode);
                assert(s[i].key() != last.key());
            }
        }
    }
}

/// Read-only registry of every configured node's operating mode.
pub struct ModeRegistry {
    entries: Vec<ModeEntry>,
}

impl View for ModeRegistry {
    type V = Map<NodeKey, Mode>;

    /// The registry as a finite map from node key to mode.
    closed spec fn view(&self) -> Map<NodeKey, Mode> {
        entries_mode_map(self.entries@)
    }
}

impl ModeRegistry {
    /// Well-formedness: no node is configured twice.
    pub closed spec fn wf(&self) -> bool {
        unique_entry_keys(self.entries@)
    }

    /// An empty registry.
    pub fn new() -> (r: ModeRegistry)
        ensures
            r.wf(),
            r@ == Map::<NodeKey, Mode>::empty(),
    {
        ModeRegistry { entries: Vec::new() }
    }

    /// Binds `mode` to a node not configured yet.
    pub fn register(&mut self, probe_id: String, node_id: String, mode: Mode)
        requires
            old(self).wf(),
            !old(self)@.contains_key((probe_id@, node_id@)),
        ensures
            final(self).wf(),
            final(self)@ == old(self)@.insert((probe_id@, node_id@), mode),
    {
        proof {
            lemma_entries_mode_map(self.entries@);
        }
        let entry = ModeEntry { probe_id, node_id, mode };
        self.entries.push(entry);
        proof {
            assert(self.entries@.drop_last() =~= old(self).entries@);
        }
    }

    /// Looks a node up: the configured mode of `(probe_id, node_id)`, or
    /// `None` where that pair was never configured.
    pub fn lookup(&self, probe_id: &String, node_id: &String) -> (r: Option<Mode>)
        requires
            self.wf(),
        ensures
            r == if self@.contains_key((probe_id@, node_id@)) {
                Some(self@[(probe_id@, node_id@)])
            } else {
                None::<Mode>
            },
    {
        let ghost k: NodeKey = (probe_id@, node_id@);
        proof {
            lemma_entries_mode_map(self.entries@);
        }
        let mut i: usize = 0;
        while i < self.entries.len()
            invariant
                self.wf(),
                k == ((probe_id@, node_id@)),
                i <= self.entries.len(),
                forall|j: int| 0 <= j < i ==> (#[trigger] self.entries@[j].key()) != k,
            decreases self.entries.len() - i,
        {
            let e = &self.entries[i];
            if e.probe_id == *probe_id && e.node_id == *node_id {
                proof {
                    lemma_entries_mode_map(self.entries@);
                    assert(self.entries@[i as int].key() == k);
                }
                return Some(e.mode);
            }
            assert(self.entries@[i as int].key() != k);
            i += 1;
        }
        proof {
            lemma_entries_mode_map(self.entries@);
        }
        None
    }
}

} // verus!
