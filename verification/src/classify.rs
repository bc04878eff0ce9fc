//! Report classifier and validator: pure decision logic mapping one inbound
//! report, together with the mode registry's lookup, to either an applied
//! store mutation or a typed failure, plus the mapping of outcomes to
//! transport status codes and the dispatch-notifier trigger.

use vstd::prelude::*;
use crate::registry::{ModeRegistry, NodeKey};
use crate::report::{
    HealthPayload, LoadPayload, Mode, Report, ReportPayload, ratio_in_range, spec_classify,
    valid_ratio,
};
use crate::store::{EntryView, States, health_entry, loaded_entry};

verus! {

/// Failure of a load report, in decision order.
#[derive(Clone, Copy, PartialEq, Eq, Structural, Debug)]
pub enum HandleLoadError {
    InvalidLoad,
    WrongMode,
    NotFound,
}

/// Failure of a health report, in decision order.
#[derive(Clone, Copy, PartialEq, Eq, Structural, Debug)]
pub enum HandleHealthError {
    WrongMode,
    NotFound,
}

/// Outcome of classifying and applying one report.
#[derive(Clone, Copy, PartialEq, Eq, Structural, Debug)]
pub enum ReportOutcome {
    /// A load report was applied; `forward` signals whether downstream
    /// dispatch should act on the update.
    AppliedLoad { forward: bool },
    /// A health report was applied.
    AppliedHealth,
    /// The body carried neither or both payload kinds.
    InvalidReport,
    /// A load value lay outside the valid ratio range.
    InvalidLoad,
    /// The report kind disagrees with the node's configured mode.
    WrongMode,
    /// The targeted `(probe_id, node_id)` pair is not configured.
    NotFound,
}

/// What a load report decides, given the registry: `NotFound` for an
/// unknown node, then `WrongMode` unless the node is `Push`, then
/// `InvalidLoad` unless both ratios are valid, else success with the
/// forward flag set.
pub open spec fn spec_load_result(
    reg: Map<NodeKey, Mode>,
    probe: Seq<char>,
    node: Seq<char>,
    cpu: i64,
    ram: i64,
) -> Result<bool, HandleLoadError> {
    let k = (probe, node);
    if !reg.contains_key(k) {
        Err(HandleLoadError::NotFound)
    } else if reg[k] != Mode::Push {
        Err(HandleLoadError::WrongMode)
    } else if !(valid_ratio(cpu) && valid_ratio(ram)) {
        Err(HandleLoadError::InvalidLoad)
    } else {
        Ok(true)
    }
}

/// What a health report decides, given the registry: `NotFound` for an
/// unknown node, then `WrongMode` unless the node is `Local`.
pub open spec fn spec_health_result(
    reg: Map<NodeKey, Mode>,
    probe: Seq<char>,
    node: Seq<char>,
) -> Result<(), HandleHealthError> {
    let k = (probe, node);
    if !reg.contains_key(k) {
        Err(HandleHealthError::NotFound)
    } else if reg[k] != Mode::Local {
        Err(HandleHealthError::WrongMode)
    } else {
        Ok(())
    }
}

/// The outcome of one report, as a function of the registry and the
/// decoded payload tag. Payload classification comes first: a body with
/// neither or both payload kinds is rejected before any lookup.
pub open spec fn spec_decide(
    reg: Map<NodeKey, Mode>,
    probe: Seq<char>,
    node: Seq<char>,
    payload: ReportPayload,
) -> ReportOutcome {
    match payload {
        ReportPayload::Load(l) => match spec_load_result(reg, probe, node, l.cpu, l.ram) {
            Ok(forward) => ReportOutcome::AppliedLoad { forward },
            Err(HandleLoadError::InvalidLoad) => ReportOutcome::InvalidLoad,
            Err(HandleLoadError::WrongMode) => ReportOutcome::WrongMode,
            Err(HandleLoadError::NotFound) => ReportOutcome::NotFound,
        },
        ReportPayload::Health(_) => match spec_health_result(reg, probe, node) {
            Ok(_) => ReportOutcome::AppliedHealth,
            Err(HandleHealthError::WrongMode) => ReportOutcome::WrongMode,
            Err(HandleHealthError::NotFound) => ReportOutcome::NotFound,
        },
        ReportPayload::Invalid => ReportOutcome::InvalidReport,
    }
}

/// The store after one report: changed on the two success outcomes only,
/// and there exactly at the reported node's key.
pub open spec fn spec_apply(
    store: Map<NodeKey, EntryView>,
    probe: Seq<char>,
    node: Seq<char>,
    replica: Seq<char>,
    interval: u64,
    payload: ReportPayload,
    outcome: ReportOutcome,
) -> Map<NodeKey, EntryView> {
    match (payload, outcome) {
        (ReportPayload::Load(l), ReportOutcome::AppliedLoad { .. }) =>
            store.insert((probe, node), loaded_entry(replica, interval, l.cpu, l.ram)),
        (ReportPayload::Health(h), ReportOutcome::AppliedHealth) =>
            store.insert((probe, node), health_entry(replica, interval, h)),
        _ => store,
    }
}

/// Transport status code owed for each outcome: success maps to 200, a
/// malformed body or load to 400, a mode mismatch to 412, an unknown node
/// to 404.
pub open spec fn spec_status_code(outcome: ReportOutcome) -> int {
    match outcome {
        ReportOutcome::AppliedLoad { .. } => 200,
        ReportOutcome::AppliedHealth => 200,
        ReportOutcome::InvalidReport => 400,
        ReportOutcome::InvalidLoad => 400,
        ReportOutcome::WrongMode => 412,
        ReportOutcome::NotFound => 404,
    }
}

/// Whether an outcome obliges a dispatch-notifier call.
pub open spec fn spec_should_dispatch(outcome: ReportOutcome) -> bool {
    outcome is AppliedLoad
}

/// Handles a load report, which `Push` nodes send: validates it against
/// the registry and applies it to the store exactly on success. The `Ok`
/// value is the forward flag handed to dispatch.
pub fn handle_load(
    registry: &ModeRegistry,
    states: &mut States,
    probe_id: &String,
    node_id: &String,
    replica_id: &String,
    interval: u64,
    cpu: i64,
    ram: i64,
) -> (r: Result<bool, HandleLoadError>)
    requires
        registry.wf(),
        old(states).wf(),
        registry@.dom() == old(states)@.dom(),
    ensures
        r == spec_load_result(registry@, probe_id@, node_id@, cpu, ram),
        r is Ok ==> final(states)@ == old(states)@.insert(
            (probe_id@, node_id@),
            loaded_entry(replica_id@, interval, cpu, ram),
        ),
        r is Err ==> *final(states) == *old(states),
        final(states).wf(),
        final(states)@.dom() == old(states)@.dom(),
{
    match registry.lookup(probe_id, node_id) {
        None => Err(HandleLoadError::NotFound),
        Some(Mode::Local) => Err(HandleLoadError::WrongMode),
        Some(Mode::Push) => {
            if !(ratio_in_range(cpu) && ratio_in_range(ram)) {
                Err(HandleLoadError::InvalidLoad)
            } else {
                states.apply_load(probe_id, node_id, replica_id, interval, cpu, ram);
                Ok(true)
            }
        },
    }
}

/// Handles a health report, which `Local` nodes send: validates it against
/// the registry and applies it to the store exactly on success.
pub fn handle_health(
    registry: &ModeRegistry,
    states: &mut States,
    probe_id: &String,
    node_id: &String,
    replica_id: &String,
    interval: u64,
    health: &HealthPayload,
) -> (r: Result<(), HandleHealthError>)
    requires
        registry.wf(),
        old(states).wf(),
        registry@.dom() == old(states)@.dom(),
    ensures
        r == spec_health_result(registry@, probe_id@, node_id@),
        r is Ok ==> final(states)@ == old(states)@.insert(
            (probe_id@, node_id@),
            health_entry(replica_id@, interval, *health),
        ),
        r is Err ==> *final(states) == *old(states),
        final(states).wf(),
        final(states)@.dom() == old(states)@.dom(),
{
    match registry.lookup(probe_id, node_id) {
        None => Err(HandleHealthError::NotFound),
        Some(Mode::Push) => Err(HandleHealthError::WrongMode),
        Some(Mode::Local) => {
            states.apply_health(probe_id, node_id, replica_id, interval, health);
            Ok(())
        },
    }
}

/// Classifies one report and applies it: routes the payload by its tag,
/// enforces the node's configured mode, and mutates the store on the
/// success path only. Failure paths never touch the store.
pub fn process_report(registry: &ModeRegistry, states: &mut States, report: &Report) -> (outcome:
    ReportOutcome)
    requires
        registry.wf(),
        old(states).wf(),
        registry@.dom() == old(states)@.dom(),
    ensures
        outcome == spec_decide(registry@, report.probe_id@, report.node_id@, report.payload),
        final(states)@ == spec_apply(
            old(states)@,
            report.probe_id@,
            report.node_id@,
            report.replica_id@,
            report.interval,
            report.payload,
            outcome,
        ),
        !(outcome is AppliedLoad || outcome is AppliedHealth) ==> *final(states) == *old(states),
        final(states).wf(),
        final(states)@.dom() == old(states)@.dom(),
{
    match report.payload {
        ReportPayload::Load(l) => {
            match handle_load(
                registry,
                states,
                &report.probe_id,
                &report.node_id,
                &report.replica_id,
                report.interval,
                l.cpu,
                l.ram,
            ) {
                Ok(forward) => ReportOutcome::AppliedLoad { forward },
                Err(HandleLoadError::InvalidLoad) => ReportOutcome::InvalidLoad,
                Err(HandleLoadError::WrongMode) => ReportOutcome::WrongMode,
                Err(HandleLoadError::NotFound) => ReportOutcome::NotFound,
            }
        },
        ReportPayload::Health(h) => {
            match handle_health(
                registry,
                states,
                &report.probe_id,
                &report.node_id,
                &report.replica_id,
                report.interval,
                &h,
            ) {
                Ok(_) => ReportOutcome::AppliedHealth,
                Err(HandleHealthError::WrongMode) => ReportOutcome::WrongMode,
                Err(HandleHealthError::NotFound) => ReportOutcome::NotFound,
            }
        },
        ReportPayload::Invalid => ReportOutcome::InvalidReport,
    }
}

/// Transport status code owed for an outcome.
pub fn status_code(outcome: &ReportOutcome) -> (c: u16)
    ensures
        c as int == spec_status_code(*outcome),
{
    match outcome {
        ReportOutcome::AppliedLoad { .. } => 200,
        ReportOutcome::AppliedHealth => 200,
        ReportOutcome::InvalidReport => 400,
        ReportOutcome::InvalidLoad => 400,
        ReportOutcome::WrongMode => 412,
        ReportOutcome::NotFound => 404,
    }
}

/// One hand-off to the dispatch notifier, carrying the forward flag.
pub struct DispatchNotification {
    pub probe_id: String,
    pub node_id: String,
    pub forward: bool,
}

/// The dispatch-notifier hand-off owed for an outcome: exactly the
/// successfully applied load reports oblige one, carrying the reported
/// node's identifiers and the forward flag.
pub fn dispatch_instruction(report: &Report, outcome: &ReportOutcome) -> (r: Option<
    DispatchNotification,
>)
    ensures
        (r is Some) == spec_should_dispatch(*outcome),
        r matches Some(d) ==> (*outcome matches ReportOutcome::AppliedLoad { forward }
            && d.forward == forward && d.probe_id@ == report.probe_id@
            && d.node_id@ == report.node_id@),
{
    match outcome {
        ReportOutcome::AppliedLoad { forward } => Some(DispatchNotification {
            probe_id: report.probe_id.clone(),
            node_id: report.node_id.clone(),
            forward: *forward,
        }),
        _ => None,
    }
}

/// A body carrying neither or both payload kinds is classified `Invalid`,
/// answered 400, and leaves any store unchanged, whatever the registry
/// holds.
pub proof fn lemma_untagged_body_rejected(
    load: Option<LoadPayload>,
    health: Option<HealthPayload>,
    reg: Map<NodeKey, Mode>,
    store: Map<NodeKey, EntryView>,
    probe: Seq<char>,
    node: Seq<char>,
    replica: Seq<char>,
    interval: u64,
)
    requires
        (load is Some) == (health is Some),
    ensures
        spec_classify(load, health) == ReportPayload::Invalid,
        spec_decide(reg, probe, node, ReportPayload::Invalid) == ReportOutcome::InvalidReport,
        spec_status_code(ReportOutcome::InvalidReport) == 400,
        spec_apply(store, probe, node, replica, interval, ReportPayload::Invalid,
            ReportOutcome::InvalidReport) == store,
{
}

/// A load report targeting a node configured `Local` is answered
/// `WrongMode`/412 and leaves any store unchanged.
pub proof fn lemma_load_wrong_mode(
    l: LoadPayload,
    reg: Map<NodeKey, Mode>,
    store: Map<NodeKey, EntryView>,
    probe: Seq<char>,
    node: Seq<char>,
    replica: Seq<char>,
    interval: u64,
)
    requires
        reg.contains_key((probe, node)),
        reg[(probe, node)] == Mode::Local,
    ensures
        spec_decide(reg, probe, node, ReportPayload::Load(l)) == ReportOutcome::WrongMode,
        spec_status_code(ReportOutcome::WrongMode) == 412,
        spec_apply(store, probe, node, replica, interval, ReportPayload::Load(l),
            ReportOutcome::WrongMode) == store,
{
}

/// A load report whose cpu or ram ratio lies outside the valid range, sent
/// to a known `Push` node, is answered `InvalidLoad`/400 and leaves any
/// store unchanged. (For an unknown node, `NotFound` takes precedence.)
pub proof fn lemma_load_invalid_ratio(
    l: LoadPayload,
    reg: Map<NodeKey, Mode>,
    store: Map<NodeKey, EntryView>,
    probe: Seq<char>,
    node: Seq<char>,
    replica: Seq<char>,
    interval: u64,
)
    requires
        reg.contains_key((probe, node)),
        reg[(probe, node)] == Mode::Push,
        !(valid_ratio(l.cpu) && valid_ratio(l.ram)),
    ensures
        spec_decide(reg, probe, node, ReportPayload::Load(l)) == ReportOutcome::InvalidLoad,
        spec_status_code(ReportOutcome::InvalidLoad) == 400,
        spec_apply(store, probe, node, replica, interval, ReportPayload::Load(l),
            ReportOutcome::InvalidLoad) == store,
{
}

/// A report of either payload kind targeting an unconfigured node is
/// answered `NotFound`/404 and leaves any store unchanged.
pub proof fn lemma_unknown_node_rejected(
    payload: ReportPayload,
    reg: Map<NodeKey, Mode>,
    store: Map<NodeKey, EntryView>,
    probe: Seq<char>,
    node: Seq<char>,
    replica: Seq<char>,
    interval: u64,
)
    requires
        !reg.contains_key((probe, node)),
        payload is Load || payload is Health,
    ensures
        spec_decide(reg, probe, node, payload) == ReportOutcome::NotFound,
        spec_status_code(ReportOutcome::NotFound) == 404,
        spec_apply(store, probe, node, replica, interval, payload, ReportOutcome::NotFound)
            == store,
{
}

/// A dispatch-notifier hand-off is owed exactly for a successfully applied
/// load report, and only once the corresponding mutation stands in the
/// store: the node is known, configured `Push`, both ratios are valid, the
/// forward flag is set, and the applied store holds the new load entry.
pub proof fn lemma_dispatch_follows_commit(
    payload: ReportPayload,
    reg: Map<NodeKey, Mode>,
    store: Map<NodeKey, EntryView>,
    probe: Seq<char>,
    node: Seq<char>,
    replica: Seq<char>,
    interval: u64,
)
    requires
        spec_should_dispatch(spec_decide(reg, probe, node, payload)),
    ensures
        payload is Load,
        reg.contains_key((probe, node)),
        reg[(probe, node)] == Mode::Push,
        (match payload {
            ReportPayload::Load(l) => valid_ratio(l.cpu) && valid_ratio(l.ram)
                && spec_decide(reg, probe, node, payload)
                    == (ReportOutcome::AppliedLoad { forward: true })
                && spec_apply(store, probe, node, replica, interval, payload,
                    spec_decide(reg, probe, node, payload))
                    == store.insert((probe, node), loaded_entry(replica, interval, l.cpu, l.ram)),
            _ => false,
        }),
{
}

} // verus!
