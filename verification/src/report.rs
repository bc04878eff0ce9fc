//! Inbound report model: node operating modes, status levels, load ratios
//! and the tagged payload carried by one report.

use vstd::prelude::*;

verus! {

/// Load ratios are carried in thousandths: the valid range 0.0 ..= 1.0 of a
/// cpu or ram ratio maps to 0 ..= 1000.
pub const RATIO_SCALE: i64 = 1000;

/// A cpu load at or above this many thousandths marks the node `Sick`.
pub const CPU_SICK_THRESHOLD: i64 = 900;

/// A ram load at or above this many thousandths marks the node `Sick`.
pub const RAM_SICK_THRESHOLD: i64 = 900;

/// Operating mode bound to a node at configuration time; a node keeps one
/// mode for its whole lifetime within a process run.
///
/// `Push` nodes self-report load metrics; `Local` nodes self-report a health
/// signal derived from local checks.
#[derive(Clone, Copy, PartialEq, Eq, Structural, Debug)]
pub enum Mode {
    Push,
    Local,
}

/// Status level of a node or of the whole fleet, from best to worst.
#[derive(Clone, Copy, PartialEq, Eq, Structural, Debug)]
pub enum Status {
    Healthy,
    Sick,
    Dead,
}

/// Numeric severity of a status level: higher is worse.
pub open spec fn status_rank(s: Status) -> int {
    match s {
        Status::Healthy => 0,
        Status::Sick => 1,
        Status::Dead => 2,
    }
}

/// The worse of two status levels.
pub open spec fn spec_worst(a: Status, b: Status) -> Status {
    if status_rank(b) > status_rank(a) {
        b
    } else {
        a
    }
}

fn rank_of(s: Status) -> (r: u8)
    ensures
        r as int == status_rank(s),
{
    match s {
        Status::Healthy => 0,
        Status::Sick => 1,
        Status::Dead => 2,
    }
}

/// Picks the worse of two status levels.
pub fn worst_status(a: Status, b: Status) -> (r: Status)
    ensures
        r == spec_worst(a, b),
{
    if rank_of(b) > rank_of(a) {
        b
    } else {
        a
    }
}

impl Status {
    /// Lower-case label of this status level, as exposed to badge and
    /// status-text readers.
    pub open spec fn spec_label(self) -> Seq<char> {
        match self {
            Status::Healthy => "healthy"@,
            Status::Sick => "sick"@,
            Status::Dead => "dead"@,
        }
    }

    /// Lower-case label of this status level.
    pub fn label(&self) -> (r: String)
        ensures
            r@ == self.spec_label(),
    {
        match self {
            Status::Healthy => String::from_str("healthy"),
            Status::Sick => String::from_str("sick"),
            Status::Dead => String::from_str("dead"),
        }
    }
}

/// Whether a load ratio in thousandths lies in the valid range.
pub open spec fn valid_ratio(r: i64) -> bool {
    0 <= r && r <= RATIO_SCALE
}

/// Whether a load ratio in thousandths lies in the valid range.
pub fn ratio_in_range(r: i64) -> (b: bool)
    ensures
        b == valid_ratio(r),
{
    0 <= r && r <= RATIO_SCALE
}

/// Load metrics self-reported by a `Push` node, in thousandths.
#[derive(Clone, Copy, PartialEq, Eq, Structural, Debug)]
pub struct LoadPayload {
    pub cpu: i64,
    pub ram: i64,
}

/// Health signal self-reported by a `Local` node: its self-assessed status.
/// No numeric validity constraint applies at this layer.
#[derive(Clone, Copy, PartialEq, Eq, Structural, Debug)]
pub struct HealthPayload {
    pub status: Status,
}

/// Payload of one report, tagged once at decode time: a report carries
/// exactly one of a load payload and a health payload, and a body with
/// neither or both is `Invalid`.
#[derive(Clone, Copy, PartialEq, Eq, Structural, Debug)]
pub enum ReportPayload {
    Load(LoadPayload),
    Health(HealthPayload),
    Invalid,
}

/// One inbound report, as decoded from a reporter request.
pub struct Report {
    pub probe_id: String,
    pub node_id: String,
    pub replica_id: String,
    pub interval: u64,
    pub payload: ReportPayload,
}

/// Tag of a decoded body, as a function of which payload kinds it carried.
pub open spec fn spec_classify(load: Option<LoadPayload>, health: Option<HealthPayload>) -> ReportPayload {
    match (load, health) {
        (Some(l), None) => ReportPayload::Load(l),
        (None, Some(h)) => ReportPayload::Health(h),
        _ => ReportPayload::Invalid,
    }
}

/// Tags a decoded body: exactly one of the two payload kinds must be
/// present, and a body with neither or both is `Invalid`.
pub fn classify_payload(load: Option<LoadPayload>, health: Option<HealthPayload>) -> (p: ReportPayload)
    ensures
        p == spec_classify(load, health),
{
    match (load, health) {
        (Some(l), None) => ReportPayload::Load(l),
        (None, Some(h)) => ReportPayload::Health(h),
        _ => ReportPayload::Invalid,
    }
}

/// Status a node earns from a load report: `Sick` when either metric is at
/// or above its threshold, `Healthy` otherwise.
pub open spec fn status_of_load(l: LoadPayload) -> Status {
    if l.cpu >= CPU_SICK_THRESHOLD || l.ram >= RAM_SICK_THRESHOLD {
        Status::Sick
    } else {
        Status::Healthy
    }
}

/// Status a node earns from a load report.
pub fn load_status(l: &LoadPayload) -> (s: Status)
    ensures
        s == status_of_load(*l),
{
    if l.cpu >= CPU_SICK_THRESHOLD || l.ram >= RAM_SICK_THRESHOLD {
        Status::Sick
    } else {
        Status::Healthy
    }
}

} // verus!
