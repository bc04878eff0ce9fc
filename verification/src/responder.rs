//! The assembled core: a mode registry and a shared store built together
//! from static configuration, so that every configured node exists in both
//! before the first report arrives. This is the handle that request
//! handlers receive at startup.

use vstd::prelude::*;
use crate::classify::{DispatchNotification, ReportOutcome, spec_decide, spec_should_dispatch};
use crate::registry::{ModeEntry, ModeRegistry, NodeKey, entries_mode_map, unique_entry_keys};
use crate::report::{Mode, Report, Status};
use crate::shared::SharedStore;
use crate::store::States;

verus! {

/// The report-ingestion core: the read-only mode registry and the shared
/// state store, over one and the same set of configured nodes.
pub struct Responder {
    registry: ModeRegistry,
    store: SharedStore,
}

impl Responder {
    /// The configured nodes and their modes.
    pub closed spec fn modes(&self) -> Map<NodeKey, Mode> {
        self.registry@
    }

    #[verifier::type_invariant]
    spec fn inv(&self) -> bool {
        &&& self.registry.wf()
        &&& self.registry@.dom() == self.store.keys()
    }

    /// Builds the core from static configuration: each configured node is
    /// bound to its mode and pre-populated in the store. A pair configured
    /// twice keeps its first mode.
    pub fn new(config: Vec<ModeEntry>) -> (r: Responder)
        ensures
            forall|k: NodeKey| #[trigger] r.modes().contains_key(k)
                <==> exists|i: int| 0 <= i < config@.len() && (#[trigger] config@[i].key()) == k,
            unique_entry_keys(config@) ==> r.modes() == entries_mode_map(config@),
    {
        let mut registry = ModeRegistry::new();
        let mut states = States::new();
        let mut i: usize = 0;
        while i < config.len()
            invariant
                i <= config.len(),
                registry.wf(),
                states.wf(),
                registry@.dom() == states@.dom(),
                forall|k: NodeKey| #[trigger] registry@.contains_key(k)
                    <==> exists|j: int| 0 <= j < i && (#[trigger] config@[j].key()) == k,
                unique_entry_keys(config@) ==> registry@ == entries_mode_map(
                    config@.take(i as int),
                ),
            decreases config.len() - i,
        {
            let entry = &config[i];
            match registry.lookup(&entry.probe_id, &entry.node_id) {
                None => {
                    proof {
                        assert(!states@.contains_key(entry.key()));
                    }
                    registry.register(entry.probe_id.clone(), entry.node_id.clone(), entry.mode);
                    states.register_node(entry.probe_id.clone(), entry.node_id.clone());
                    proof {
                        assert(registry@.dom() =~= states@.dom());
                    }
                },
                Some(_) => {
                    proof {
                        if unique_entry_keys(config@) {
                            let j = choose|j: int|
                                0 <= j < i && (#[trigger] config@[j].key()) == config@[i as int].key();
                            assert(false);
                        }
                    }
                },
            }
            proof {
                assert forall|k: NodeKey| #[trigger] registry@.contains_key(k) implies
                    exists|j: int| 0 <= j < i + 1 && (#[trigger] config@[j].key()) == k by {
                    if config@[i as int].key() != k {
                        let j = choose|j: int| 0 <= j < i && (#[trigger] config@[j].key()) == k;
                        assert(0 <= j < i + 1 && config@[j].key() == k);
                    } else {
                        assert(0 <= i < i + 1 && config@[i as int].key() == k);
                    }
                }
                if unique_entry_keys(config@) {
                    assert(config@.take(i + 1int).drop_last() =~= config@.take(i as int));
                    assert(config@.take(i + 1int).last() == config@[i as int]);
                }
            }
            i += 1;
        }
        proof {
            assert(config@.take(config@.len() as int) =~= config@);
        }
        let store = SharedStore::new(states);
        Responder { registry, store }
    }

    /// The configured mode of a node, or `None` where the pair is unknown.
    pub fn mode_of(&self, probe_id: &String, node_id: &String) -> (r: Option<Mode>)
        ensures
            r == if self.modes().contains_key((probe_id@, node_id@)) {
                Some(self.modes()[(probe_id@, node_id@)])
            } else {
                None::<Mode>
            },
    {
        proof {
            use_type_invariant(self);
        }
        self.registry.lookup(probe_id, node_id)
    }

    /// Classifies and applies one report; see `SharedStore::ingest`. The
    /// store mutation, if any, is committed and visible to readers before
    /// this returns, and the returned hand-off — owed exactly for a
    /// successfully applied load report — is computed only afterwards.
    pub fn ingest(&self, report: &Report) -> (r: (
        ReportOutcome,
        Option<DispatchNotification>,
    ))
        ensures
            r.0 == spec_decide(self.modes(), report.probe_id@, report.node_id@, report.payload),
            (r.1 is Some) == spec_should_dispatch(r.0),
            r.1 matches Some(d) ==> (r.0 matches ReportOutcome::AppliedLoad { forward }
                && d.forward == forward && d.probe_id@ == report.probe_id@
                && d.node_id@ == report.node_id@),
    {
        proof {
            use_type_invariant(self);
        }
        self.store.ingest(&self.registry, report)
    }

    /// The current aggregate status, read under shared access: it belongs
    /// to a complete, well-formed state over the configured nodes.
    pub fn status(&self) -> (st: Status)
        ensures
            exists|s: States| s.wf() && s@.dom() == self.modes().dom()
                && st == s.spec_status(),
    {
        proof {
            use_type_invariant(self);
        }
        self.store.read_status()
    }

    /// The current aggregate status label, for badge and status-text
    /// readers; the shared section ends before the label is built.
    pub fn status_text(&self) -> (r: String)
        ensures
            exists|s: States| s.wf() && s@.dom() == self.modes().dom()
                && r@ == s.spec_status().spec_label(),
    {
        proof {
            use_type_invariant(self);
        }
        self.store.read_status_text()
    }

    /// A complete copy of the store for dashboard rendering, taken under
    /// shared access and handed out after the lock is released.
    pub fn snapshot(&self) -> (snap: States)
        ensures
            snap.wf(),
            snap@.dom() == self.modes().dom(),
    {
        proof {
            use_type_invariant(self);
        }
        self.store.read_snapshot()
    }

    /// Two status reads under read handles held at the same time — neither
    /// blocking the other — observe the same value.
    pub fn paired_status_reads(&self) -> (r: (Status, Status))
        ensures
            r.0 == r.1,
    {
        self.store.paired_status_reads()
    }
}

} // verus!
