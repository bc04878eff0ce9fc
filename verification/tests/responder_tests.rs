use fleet_responder::classify::{
    dispatch_instruction, handle_health, handle_load, process_report, status_code,
    HandleHealthError, HandleLoadError, ReportOutcome,
};
use fleet_responder::registry::{ModeEntry, ModeRegistry};
use fleet_responder::report::{
    classify_payload, load_status, ratio_in_range, worst_status, HealthPayload, LoadPayload, Mode,
    Report, ReportPayload, Status,
};
use fleet_responder::responder::Responder;
use fleet_responder::shared::SharedStore;
use fleet_responder::store::States;

fn entry(probe: &str, node: &str, mode: Mode) -> ModeEntry {
    ModeEntry {
        probe_id: probe.to_string(),
        node_id: node.to_string(),
        mode,
    }
}

fn load_report(probe: &str, node: &str, replica: &str, interval: u64, cpu: i64, ram: i64) -> Report {
    Report {
        probe_id: probe.to_string(),
        node_id: node.to_string(),
        replica_id: replica.to_string(),
        interval,
        payload: ReportPayload::Load(LoadPayload { cpu, ram }),
    }
}

fn health_report(probe: &str, node: &str, replica: &str, interval: u64, status: Status) -> Report {
    Report {
        probe_id: probe.to_string(),
        node_id: node.to_string(),
        replica_id: replica.to_string(),
        interval,
        payload: ReportPayload::Health(HealthPayload { status }),
    }
}

fn push_web1() -> Responder {
    Responder::new(vec![entry("web1", "web1", Mode::Push)])
}

#[test]
fn push_load_report_applied() {
    let responder = push_web1();
    let report = load_report("web1", "web1", "r1", 60, 420, 770);
    let (outcome, dispatch) = responder.ingest(&report);
    assert_eq!(outcome, ReportOutcome::AppliedLoad { forward: true });
    assert_eq!(status_code(&outcome), 200);

    let dispatch = dispatch.expect("a successful load report obliges a dispatch hand-off");
    assert_eq!(dispatch.probe_id, "web1");
    assert_eq!(dispatch.node_id, "web1");
    assert!(dispatch.forward);

    let snap = responder.snapshot();
    let entry = snap
        .get(&"web1".to_string(), &"web1".to_string())
        .expect("configured node is stored");
    let load = entry.load.expect("load payload was applied");
    assert_eq!(load.cpu, 420);
    assert_eq!(load.ram, 770);
    assert_eq!(entry.replica_id, "r1");
    assert_eq!(entry.interval, 60);
    assert_eq!(entry.node_status, Status::Healthy);
    assert!(entry.health.is_none());
}

#[test]
fn health_report_to_push_node_rejected() {
    let responder = push_web1();
    let report = load_report("web1", "web1", "r1", 60, 420, 770);
    responder.ingest(&report);

    let health = health_report("web1", "web1", "r1", 60, Status::Healthy);
    let (outcome, dispatch) = responder.ingest(&health);
    assert_eq!(outcome, ReportOutcome::WrongMode);
    assert_eq!(status_code(&outcome), 412);
    assert!(dispatch.is_none());

    let snap = responder.snapshot();
    let entry = snap
        .get(&"web1".to_string(), &"web1".to_string())
        .expect("configured node is stored");
    let load = entry.load.expect("store is unchanged by the rejected report");
    assert_eq!(load.cpu, 420);
    assert_eq!(load.ram, 770);
}

#[test]
fn unknown_node_not_found() {
    let responder = push_web1();
    let report = load_report("ghost", "x", "r1", 60, 100, 100);
    let (outcome, dispatch) = responder.ingest(&report);
    assert_eq!(outcome, ReportOutcome::NotFound);
    assert_eq!(status_code(&outcome), 404);
    assert!(dispatch.is_none());

    let health = health_report("ghost", "x", "r1", 60, Status::Sick);
    let (outcome, _) = responder.ingest(&health);
    assert_eq!(outcome, ReportOutcome::NotFound);
    assert_eq!(status_code(&outcome), 404);
}

#[test]
fn out_of_range_load_rejected() {
    let responder = push_web1();
    let report = load_report("web1", "web1", "r1", 60, 1500, 200);
    let (outcome, dispatch) = responder.ingest(&report);
    assert_eq!(outcome, ReportOutcome::InvalidLoad);
    assert_eq!(status_code(&outcome), 400);
    assert!(dispatch.is_none());

    let snap = responder.snapshot();
    let entry = snap
        .get(&"web1".to_string(), &"web1".to_string())
        .expect("configured node is stored");
    assert!(entry.load.is_none());
    assert_eq!(entry.node_status, Status::Healthy);
}

#[test]
fn untagged_body_invalid() {
    assert_eq!(
        classify_payload(
            Some(LoadPayload { cpu: 100, ram: 100 }),
            Some(HealthPayload { status: Status::Healthy }),
        ),
        ReportPayload::Invalid,
    );
    assert_eq!(classify_payload(None, None), ReportPayload::Invalid);

    let responder = push_web1();
    let report = Report {
        probe_id: "web1".to_string(),
        node_id: "web1".to_string(),
        replica_id: "r1".to_string(),
        interval: 60,
        payload: ReportPayload::Invalid,
    };
    let (outcome, dispatch) = responder.ingest(&report);
    assert_eq!(outcome, ReportOutcome::InvalidReport);
    assert_eq!(status_code(&outcome), 400);
    assert!(dispatch.is_none());

    let snap = responder.snapshot();
    let entry = snap
        .get(&"web1".to_string(), &"web1".to_string())
        .expect("configured node is stored");
    assert!(entry.load.is_none());
    assert!(entry.health.is_none());
}

#[test]
fn load_report_to_local_node_rejected() {
    let responder = Responder::new(vec![entry("db", "db1", Mode::Local)]);
    let report = load_report("db", "db1", "r1", 60, 100, 100);
    let (outcome, dispatch) = responder.ingest(&report);
    assert_eq!(outcome, ReportOutcome::WrongMode);
    assert_eq!(status_code(&outcome), 412);
    assert!(dispatch.is_none());
}

#[test]
fn health_report_to_local_node_applied() {
    let responder = Responder::new(vec![entry("db", "db1", Mode::Local)]);
    let report = health_report("db", "db1", "r1", 30, Status::Sick);
    let (outcome, dispatch) = responder.ingest(&report);
    assert_eq!(outcome, ReportOutcome::AppliedHealth);
    assert_eq!(status_code(&outcome), 200);
    assert!(dispatch.is_none(), "health reports never oblige dispatch");

    let snap = responder.snapshot();
    let entry = snap
        .get(&"db".to_string(), &"db1".to_string())
        .expect("configured node is stored");
    let health = entry.health.expect("health payload was applied");
    assert_eq!(health.status, Status::Sick);
    assert!(entry.load.is_none());
    assert_eq!(entry.node_status, Status::Sick);
    assert_eq!(responder.status(), Status::Sick);
    assert_eq!(responder.status_text(), "sick");
}

#[test]
fn ratio_range_bounds() {
    assert!(ratio_in_range(0));
    assert!(ratio_in_range(1000));
    assert!(!ratio_in_range(-1));
    assert!(!ratio_in_range(1001));

    let responder = push_web1();
    let (outcome, _) = responder.ingest(&load_report("web1", "web1", "r1", 60, 1000, 0));
    assert_eq!(outcome, ReportOutcome::AppliedLoad { forward: true });
    let (outcome, _) = responder.ingest(&load_report("web1", "web1", "r1", 60, 100, -1));
    assert_eq!(outcome, ReportOutcome::InvalidLoad);
}

#[test]
fn status_code_mapping() {
    assert_eq!(status_code(&ReportOutcome::AppliedLoad { forward: true }), 200);
    assert_eq!(status_code(&ReportOutcome::AppliedHealth), 200);
    assert_eq!(status_code(&ReportOutcome::InvalidReport), 400);
    assert_eq!(status_code(&ReportOutcome::InvalidLoad), 400);
    assert_eq!(status_code(&ReportOutcome::WrongMode), 412);
    assert_eq!(status_code(&ReportOutcome::NotFound), 404);
}

#[test]
fn status_labels() {
    assert_eq!(Status::Healthy.label(), "healthy");
    assert_eq!(Status::Sick.label(), "sick");
    assert_eq!(Status::Dead.label(), "dead");

    let responder = push_web1();
    assert_eq!(responder.status_text(), "healthy");
}

#[test]
fn aggregate_is_worst_of() {
    assert_eq!(worst_status(Status::Healthy, Status::Sick), Status::Sick);
    assert_eq!(worst_status(Status::Dead, Status::Sick), Status::Dead);
    assert_eq!(worst_status(Status::Healthy, Status::Healthy), Status::Healthy);

    let responder = Responder::new(vec![
        entry("web1", "web1", Mode::Push),
        entry("db", "db1", Mode::Local),
    ]);
    assert_eq!(responder.status(), Status::Healthy);

    responder.ingest(&load_report("web1", "web1", "r1", 60, 950, 100));
    assert_eq!(responder.status(), Status::Sick);

    responder.ingest(&health_report("db", "db1", "r1", 30, Status::Dead));
    assert_eq!(responder.status(), Status::Dead);
    assert_eq!(responder.status_text(), "dead");

    responder.ingest(&health_report("db", "db1", "r1", 30, Status::Healthy));
    assert_eq!(responder.status(), Status::Sick, "the sick load report still dominates");
}

#[test]
fn load_sickness_thresholds() {
    assert_eq!(load_status(&LoadPayload { cpu: 899, ram: 899 }), Status::Healthy);
    assert_eq!(load_status(&LoadPayload { cpu: 900, ram: 0 }), Status::Sick);
    assert_eq!(load_status(&LoadPayload { cpu: 0, ram: 900 }), Status::Sick);
}

#[test]
fn paired_reads_observe_same_status() {
    let responder = push_web1();
    let (first, second) = responder.paired_status_reads();
    assert_eq!(first, second);

    responder.ingest(&load_report("web1", "web1", "r1", 60, 950, 100));
    let (first, second) = responder.paired_status_reads();
    assert_eq!(first, second);
    assert_eq!(first, Status::Sick);
}

#[test]
fn duplicate_configuration_keeps_first_mode() {
    let responder = Responder::new(vec![
        entry("web1", "web1", Mode::Push),
        entry("web1", "web1", Mode::Local),
    ]);
    assert_eq!(
        responder.mode_of(&"web1".to_string(), &"web1".to_string()),
        Some(Mode::Push),
    );
}

#[test]
fn mode_lookup() {
    let responder = Responder::new(vec![
        entry("web1", "web1", Mode::Push),
        entry("db", "db1", Mode::Local),
    ]);
    assert_eq!(responder.mode_of(&"web1".to_string(), &"web1".to_string()), Some(Mode::Push));
    assert_eq!(responder.mode_of(&"db".to_string(), &"db1".to_string()), Some(Mode::Local));
    assert_eq!(responder.mode_of(&"ghost".to_string(), &"x".to_string()), None);
}

#[test]
fn dispatch_hand_off_fields() {
    let report = load_report("web1", "web1", "r1", 60, 100, 100);
    let applied = ReportOutcome::AppliedLoad { forward: true };
    let d = dispatch_instruction(&report, &applied).expect("applied load obliges dispatch");
    assert_eq!(d.probe_id, "web1");
    assert_eq!(d.node_id, "web1");
    assert!(d.forward);

    assert!(dispatch_instruction(&report, &ReportOutcome::AppliedHealth).is_none());
    assert!(dispatch_instruction(&report, &ReportOutcome::InvalidReport).is_none());
    assert!(dispatch_instruction(&report, &ReportOutcome::InvalidLoad).is_none());
    assert!(dispatch_instruction(&report, &ReportOutcome::WrongMode).is_none());
    assert!(dispatch_instruction(&report, &ReportOutcome::NotFound).is_none());
}

#[test]
fn handler_results_by_error_variant() {
    let mut registry = ModeRegistry::new();
    registry.register("web1".to_string(), "web1".to_string(), Mode::Push);
    registry.register("db".to_string(), "db1".to_string(), Mode::Local);
    let mut states = States::new();
    states.register_node("web1".to_string(), "web1".to_string());
    states.register_node("db".to_string(), "db1".to_string());

    let web1 = "web1".to_string();
    let db = "db".to_string();
    let db1 = "db1".to_string();
    let ghost_probe = "ghost".to_string();
    let x = "x".to_string();
    let replica = "r1".to_string();

    let r = handle_load(&registry, &mut states, &ghost_probe, &x, &replica, 60, 100, 100);
    assert_eq!(r, Err(HandleLoadError::NotFound));
    let r = handle_load(&registry, &mut states, &db, &db1, &replica, 60, 100, 100);
    assert_eq!(r, Err(HandleLoadError::WrongMode));
    let r = handle_load(&registry, &mut states, &web1, &web1, &replica, 60, 2000, 100);
    assert_eq!(r, Err(HandleLoadError::InvalidLoad));
    let r = handle_load(&registry, &mut states, &web1, &web1, &replica, 60, 420, 770);
    assert_eq!(r, Ok(true));

    let sick = HealthPayload { status: Status::Sick };
    let r = handle_health(&registry, &mut states, &ghost_probe, &x, &replica, 30, &sick);
    assert_eq!(r, Err(HandleHealthError::NotFound));
    let r = handle_health(&registry, &mut states, &web1, &web1, &replica, 30, &sick);
    assert_eq!(r, Err(HandleHealthError::WrongMode));
    let r = handle_health(&registry, &mut states, &db, &db1, &replica, 30, &sick);
    assert_eq!(r, Ok(()));

    assert_eq!(states.current_status(), Status::Sick);
}

#[test]
fn process_report_routes_by_payload_tag() {
    let mut registry = ModeRegistry::new();
    registry.register("web1".to_string(), "web1".to_string(), Mode::Push);
    let mut states = States::new();
    states.register_node("web1".to_string(), "web1".to_string());

    let o = process_report(&registry, &mut states, &load_report("web1", "web1", "r1", 60, 420, 770));
    assert_eq!(o, ReportOutcome::AppliedLoad { forward: true });
    let o = process_report(&registry, &mut states, &health_report("web1", "web1", "r1", 60, Status::Sick));
    assert_eq!(o, ReportOutcome::WrongMode);
    let invalid = Report {
        probe_id: "web1".to_string(),
        node_id: "web1".to_string(),
        replica_id: "r1".to_string(),
        interval: 60,
        payload: ReportPayload::Invalid,
    };
    let o = process_report(&registry, &mut states, &invalid);
    assert_eq!(o, ReportOutcome::InvalidReport);
}

#[test]
fn shared_store_reads_and_writes() {
    let mut registry = ModeRegistry::new();
    registry.register("web1".to_string(), "web1".to_string(), Mode::Push);
    let mut states = States::new();
    states.register_node("web1".to_string(), "web1".to_string());
    let shared = SharedStore::new(states);

    assert_eq!(shared.read_status(), Status::Healthy);
    assert_eq!(shared.read_status_text(), "healthy");

    let (outcome, dispatch) =
        shared.ingest(&registry, &load_report("web1", "web1", "r1", 60, 950, 100));
    assert_eq!(outcome, ReportOutcome::AppliedLoad { forward: true });
    assert!(dispatch.is_some());
    assert_eq!(shared.read_status(), Status::Sick);

    let snap = shared.read_snapshot();
    let entry = snap
        .get(&"web1".to_string(), &"web1".to_string())
        .expect("configured node is stored");
    assert_eq!(entry.load.expect("load applied").cpu, 950);
}

#[test]
fn snapshot_is_a_copy() {
    let responder = push_web1();
    let before = responder.snapshot();
    responder.ingest(&load_report("web1", "web1", "r1", 60, 420, 770));
    let entry = before
        .get(&"web1".to_string(), &"web1".to_string())
        .expect("configured node is stored");
    assert!(entry.load.is_none(), "an earlier snapshot does not see later writes");
    assert_eq!(before.entry_count(), 1);
}

#[test]
fn empty_configuration_is_healthy() {
    let responder = Responder::new(Vec::new());
    assert_eq!(responder.status(), Status::Healthy);
    assert_eq!(responder.status_text(), "healthy");
    let (outcome, _) = responder.ingest(&load_report("web1", "web1", "r1", 60, 100, 100));
    assert_eq!(outcome, ReportOutcome::NotFound);
    assert_eq!(responder.snapshot().entry_count(), 0);
}
