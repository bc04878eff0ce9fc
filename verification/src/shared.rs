//! Shared-store access discipline: the one shared mutable resource of the
//! core, guarded by a verified reader-writer lock. A write takes exclusive
//! access for the minimum span needed to apply one mutation; reads take
//! shared access and never block each other. Every value that can sit in
//! the lock is well-formed, so no reader ever observes a partially-updated
//! aggregate status, and the key set fixed at construction never changes.
//!
//! Raw lock acquisition stays inside this module: callers get exactly the
//! ingestion entry point and the two read patterns.

use vstd::prelude::*;
use vstd::rwlock::{ReadHandle, RwLock, RwLockPredicate};
use crate::classify::{DispatchNotification, ReportOutcome, dispatch_instruction, process_report,
    spec_decide, spec_should_dispatch};
use crate::registry::{ModeRegistry, NodeKey};
use crate::report::{Report, Status};
use crate::store::States;

verus! {

/// Lock invariant of the shared store: only well-formed states over the
/// key set fixed at construction ever sit in the lock.
pub struct StorePred {
    pub keys: Set<NodeKey>,
}

impl RwLockPredicate<States> for StorePred {
    open spec fn inv(self, s: States) -> bool {
        &&& s.wf()
        &&& s@.dom() == self.keys
    }
}

/// The shared, concurrently accessed store.
pub struct SharedStore {
    lock: RwLock<States, StorePred>,
}

impl SharedStore {
    /// The key set fixed at construction.
    pub closed spec fn keys(&self) -> Set<NodeKey> {
        self.lock.pred().keys
    }

    /// Puts a pre-populated store behind the lock.
    pub fn new(init: States) -> (s: SharedStore)
        requires
            init.wf(),
        ensures
            s.keys() == init@.dom(),
    {
        let ghost pred = StorePred { keys: init@.dom() };
        SharedStore { lock: RwLock::new(init, Ghost(pred)) }
    }

    /// Classifies and applies one report under the write lock, then — only
    /// after the mutation is committed and the exclusive section has ended
    /// — computes the dispatch-notifier hand-off. Exactly the successfully
    /// applied load reports yield one.
    pub fn ingest(&self, registry: &ModeRegistry, report: &Report) -> (r: (
        ReportOutcome,
        Option<DispatchNotification>,
    ))
        requires
            registry.wf(),
            registry@.dom() == self.keys(),
        ensures
            r.0 == spec_decide(registry@, report.probe_id@, report.node_id@, report.payload),
            (r.1 is Some) == spec_should_dispatch(r.0),
            r.1 matches Some(d) ==> (r.0 matches ReportOutcome::AppliedLoad { forward }
                && d.forward == forward && d.probe_id@ == report.probe_id@
                && d.node_id@ == report.node_id@),
    {
        let (mut states, write_handle) = self.lock.acquire_write();
        let outcome = process_report(registry, &mut states, report);
        write_handle.release_write(states);
        let dispatch = dispatch_instruction(report, &outcome);
        (outcome, dispatch)
    }

    /// Reads the aggregate status under a shared-read critical section:
    /// the observed value belongs to a complete, well-formed state over the
    /// configured keys.
    pub fn read_status(&self) -> (st: Status)
        ensures
            exists|s: States| s.wf() && s@.dom() == self.keys() && st == s.spec_status(),
    {
        let read_handle = self.lock.acquire_read();
        let st = read_handle.borrow().current_status();
        read_handle.release_read();
        st
    }

    /// Reads the aggregate status label; the lock is released before the
    /// label string is built.
    pub fn read_status_text(&self) -> (r: String)
        ensures
            exists|s: States| s.wf() && s@.dom() == self.keys()
                && r@ == s.spec_status().spec_label(),
    {
        let st = self.read_status();
        st.label()
    }

    /// Copies the whole store out under a shared-read critical section,
    /// for dashboard rendering after the lock is released.
    pub fn read_snapshot(&self) -> (snap: States)
        ensures
            snap.wf(),
            snap@.dom() == self.keys(),
    {
        let read_handle = self.lock.acquire_read();
        let snap = read_handle.borrow().snapshot();
        read_handle.release_read();
        snap
    }

    /// Two read handles held at the same time — neither blocked the other
    /// — observe exactly the same, complete state.
    pub fn paired_status_reads(&self) -> (r: (Status, Status))
        ensures
            r.0 == r.1,
    {
        let first = self.lock.acquire_read();
        let second = self.lock.acquire_read();
        proof {
            ReadHandle::lemma_readers_match(&first, &second);
        }
        let st1 = first.borrow().current_status();
        let st2 = second.borrow().current_status();
        first.release_read();
        second.release_read();
        (st1, st2)
    }
}

} // verus!
