use safekeeper::identity::{resolve_identity, IdentityError};
use safekeeper::supervisor::{
    task_plan, tls_required, Event, ExitCause, ListenerKind, Phase, Signal, StartupConfig, Step,
    Supervisor, TaskKind,
};

fn plain_config() -> StartupConfig {
    StartupConfig {
        tenant_only_listener: false,
        https_listener: false,
        tls_wal_service: false,
        peer_recovery: false,
        disk_ratio: 0,
        force_metric_collection: false,
    }
}

fn run_to_running(cfg: StartupConfig) -> Supervisor {
    let mut s = Supervisor::new(cfg);
    assert_eq!(s.phase(), Phase::Starting(Step::ResolveIdentity));
    s.on_event(Event::Done);
    s.on_event(Event::CapacityProbed(1_000_000));
    while let Phase::Starting(step) = s.phase() {
        match step {
            Step::LoadRegistry => s.on_event(Event::RegistryLoaded { empty: false }),
            _ => s.on_event(Event::Done),
        };
    }
    s
}

#[test]
fn fresh_start_reaches_running_with_all_tasks() {
    let resolved = resolve_identity(None, Some(7)).unwrap();
    assert_eq!(resolved.id, 7);
    let mut s = Supervisor::new(plain_config());
    assert_eq!(s.on_event(Event::Done), Phase::Starting(Step::ProbeCapacity));
    assert_eq!(
        s.on_event(Event::CapacityProbed(1_000_000)),
        Phase::Starting(Step::Bind(ListenerKind::Wal))
    );
    assert_eq!(s.on_event(Event::Done), Phase::Starting(Step::Bind(ListenerKind::Http)));
    assert_eq!(s.on_event(Event::Done), Phase::Starting(Step::LoadRegistry));
    assert_eq!(
        s.on_event(Event::RegistryLoaded { empty: true }),
        Phase::Starting(Step::SpawnTasks)
    );
    assert_eq!(
        s.tasks(),
        vec![TaskKind::WalService, TaskKind::Housekeeping, TaskKind::Http, TaskKind::Broker]
    );
    assert_eq!(s.on_event(Event::Done), Phase::Running);
    assert_eq!(s.exit_code(), None);
}

#[test]
fn full_config_binds_in_order_and_spawns_everything() {
    let cfg = StartupConfig {
        tenant_only_listener: true,
        https_listener: true,
        tls_wal_service: false,
        peer_recovery: true,
        disk_ratio: 100_000,
        force_metric_collection: true,
    };
    assert!(tls_required(&cfg));
    let mut s = Supervisor::new(cfg);
    s.on_event(Event::Done);
    s.on_event(Event::CapacityProbed(1_000_000));
    assert_eq!(s.disk_limit(), 100);
    let mut binds = Vec::new();
    while let Phase::Starting(Step::Bind(l)) = s.phase() {
        binds.push(l);
        s.on_event(Event::Done);
    }
    assert_eq!(
        binds,
        vec![
            ListenerKind::Wal,
            ListenerKind::WalTenantOnly,
            ListenerKind::Http,
            ListenerKind::Https
        ]
    );
    assert_eq!(s.phase(), Phase::Starting(Step::LoadTls));
    assert_eq!(s.on_event(Event::Done), Phase::Starting(Step::LoadRegistry));
    assert_eq!(
        s.on_event(Event::RegistryLoaded { empty: true }),
        Phase::Starting(Step::PullFromPeers)
    );
    assert_eq!(s.on_event(Event::Done), Phase::Starting(Step::SpawnTasks));
    assert_eq!(
        s.tasks(),
        vec![
            TaskKind::WalService,
            TaskKind::Housekeeping,
            TaskKind::DiskWatcher,
            TaskKind::WalServiceTenantOnly,
            TaskKind::Http,
            TaskKind::Https,
            TaskKind::Broker,
            TaskKind::MetricsCollection
        ]
    );
}

#[test]
fn populated_registry_skips_peer_pull() {
    let cfg = StartupConfig { peer_recovery: true, ..plain_config() };
    let mut s = Supervisor::new(cfg);
    s.on_event(Event::Done);
    s.on_event(Event::CapacityProbed(10));
    s.on_event(Event::Done);
    s.on_event(Event::Done);
    assert_eq!(s.phase(), Phase::Starting(Step::LoadRegistry));
    assert_eq!(
        s.on_event(Event::RegistryLoaded { empty: false }),
        Phase::Starting(Step::SpawnTasks)
    );
}

#[test]
fn identity_conflict_aborts_before_any_bind() {
    let stored = b"3".to_vec();
    let err = resolve_identity(Some(&stored), Some(9)).unwrap_err();
    assert_eq!(err, IdentityError::Conflict { persisted: 3, supplied: 9 });
    let mut s = Supervisor::new(plain_config());
    let p = s.on_event(Event::Failed);
    assert_eq!(p, Phase::Exited(ExitCause::Bootstrap(Step::ResolveIdentity)));
    assert_eq!(s.exit_code(), Some(1));
    assert_eq!(s.on_event(Event::Done), p);
}

#[test]
fn failed_peer_pull_is_fatal() {
    let cfg = StartupConfig { peer_recovery: true, ..plain_config() };
    let mut s = Supervisor::new(cfg);
    s.on_event(Event::Done);
    s.on_event(Event::CapacityProbed(10));
    s.on_event(Event::Done);
    s.on_event(Event::Done);
    s.on_event(Event::RegistryLoaded { empty: true });
    assert_eq!(s.phase(), Phase::Starting(Step::PullFromPeers));
    s.on_event(Event::Failed);
    assert_eq!(s.phase(), Phase::Exited(ExitCause::Bootstrap(Step::PullFromPeers)));
    assert_eq!(s.exit_code(), Some(1));
}

#[test]
fn task_end_exits_with_one_naming_task() {
    let mut s = run_to_running(plain_config());
    assert_eq!(s.phase(), Phase::Running);
    let p = s.on_event(Event::TaskCompleted(TaskKind::WalService));
    assert_eq!(p, Phase::Exited(ExitCause::TaskCompleted(TaskKind::WalService)));
    assert_eq!(s.exit_code(), Some(1));
    assert_eq!(TaskKind::WalService.name(), "WAL service main");
    assert_eq!(s.on_event(Event::SignalReceived(Signal::Interrupt)), p);
    assert_eq!(s.exit_code(), Some(1));
}

#[test]
fn interrupt_exits_with_zero_and_no_task() {
    let mut s = run_to_running(plain_config());
    let p = s.on_event(Event::SignalReceived(Signal::Interrupt));
    assert_eq!(p, Phase::Exited(ExitCause::Signal(Signal::Interrupt)));
    assert_eq!(s.exit_code(), Some(0));
    assert_eq!(s.on_event(Event::TaskCompleted(TaskKind::Http)), p);
    assert_eq!(s.exit_code(), Some(0));
}

#[test]
fn every_signal_exits_cleanly() {
    for sig in [Signal::Quit, Signal::Interrupt, Signal::Terminate] {
        let mut s = run_to_running(plain_config());
        s.on_event(Event::SignalReceived(sig));
        assert_eq!(s.exit_code(), Some(0));
    }
}

#[test]
fn events_out_of_place_are_ignored() {
    let mut s = Supervisor::new(plain_config());
    assert_eq!(s.on_event(Event::TaskCompleted(TaskKind::Http)), Phase::Starting(Step::ResolveIdentity));
    assert_eq!(s.on_event(Event::CapacityProbed(5)), Phase::Starting(Step::ResolveIdentity));
    assert_eq!(s.disk_limit(), 0);
    let mut r = run_to_running(plain_config());
    assert_eq!(r.on_event(Event::Done), Phase::Running);
    assert_eq!(r.on_event(Event::Failed), Phase::Running);
}

#[test]
fn task_names() {
    assert_eq!(TaskKind::Housekeeping.name(), "Timeline map housekeeping");
    assert_eq!(TaskKind::DiskWatcher.name(), "Global disk usage watcher");
    assert_eq!(TaskKind::MetricsCollection.name(), "Metrics collection");
    assert_eq!(task_plan(&plain_config(), 1).len(), 5);
}
